//! Control messages: a message type, then the message.
use crate::error::{Error, ErrorView};
use crate::message::subscribe_update::update_end_ok;
use crate::message::{fits, MessageType};
use crate::serde::varint::var_int_bytes;
use crate::serde::{at, lemma_at_split, lemma_first_step, lemma_then_step, lemma_vec_len, read_outcome, then, wrote, Deserializer, Serializer};
use crate::message::subscribe_update::{SubscribeUpdate, SubscribeUpdateView};
use crate::message::subscribe::{Subscribe, SubscribeView};
use crate::message::subscribe_ok::SubscribeOk;
use crate::message::subscribe_error::{SubscribeError, SubscribeErrorView};
use crate::message::announce::{Announce, AnnounceView};
use crate::message::announce_ok::{AnnounceOk, AnnounceOkView};
use crate::message::announce_error::{AnnounceError, AnnounceErrorView};
use crate::message::unannounce::{UnAnnounce, UnAnnounceView};
use crate::message::unsubscribe::UnSubscribe;
use crate::message::subscribe_done::{SubscribeDone, SubscribeDoneView};
use crate::message::announce_cancel::{AnnounceCancel, AnnounceCancelView};
use crate::message::track_status_request::{TrackStatusRequest, TrackStatusRequestView};
use crate::message::track_status::{TrackStatus, TrackStatusView};
use crate::message::go_away::{GoAway, GoAwayView};
use crate::message::client_setup::{ClientSetup, ClientSetupView};
use crate::message::server_setup::ServerSetup;
use vstd::prelude::*;

verus! {

/// A message of the control stream.
#[derive(Debug, Clone, Eq, PartialEq)]
pub enum ControlMessage {
    SubscribeUpdate(SubscribeUpdate),
    Subscribe(Subscribe),
    SubscribeOk(SubscribeOk),
    SubscribeError(SubscribeError),
    Announce(Announce),
    AnnounceOk(AnnounceOk),
    AnnounceError(AnnounceError),
    UnAnnounce(UnAnnounce),
    UnSubscribe(UnSubscribe),
    SubscribeDone(SubscribeDone),
    AnnounceCancel(AnnounceCancel),
    TrackStatusRequest(TrackStatusRequest),
    TrackStatus(TrackStatus),
    GoAway(GoAway),
    ClientSetup(ClientSetup),
    ServerSetup(ServerSetup),
}

/// The content of a [`ControlMessage`].
pub enum ControlMessageView {
    SubscribeUpdate(SubscribeUpdateView),
    Subscribe(SubscribeView),
    SubscribeOk(SubscribeOk),
    SubscribeError(SubscribeErrorView),
    Announce(AnnounceView),
    AnnounceOk(AnnounceOkView),
    AnnounceError(AnnounceErrorView),
    UnAnnounce(UnAnnounceView),
    UnSubscribe(UnSubscribe),
    SubscribeDone(SubscribeDoneView),
    AnnounceCancel(AnnounceCancelView),
    TrackStatusRequest(TrackStatusRequestView),
    TrackStatus(TrackStatusView),
    GoAway(GoAwayView),
    ClientSetup(ClientSetupView),
    ServerSetup(ServerSetup),
}

impl View for ControlMessage {
    type V = ControlMessageView;

    open spec fn view(&self) -> ControlMessageView {
        match self {
            ControlMessage::SubscribeUpdate(m) => ControlMessageView::SubscribeUpdate(m@),
            ControlMessage::Subscribe(m) => ControlMessageView::Subscribe(m@),
            ControlMessage::SubscribeOk(m) => ControlMessageView::SubscribeOk(*m),
            ControlMessage::SubscribeError(m) => ControlMessageView::SubscribeError(m@),
            ControlMessage::Announce(m) => ControlMessageView::Announce(m@),
            ControlMessage::AnnounceOk(m) => ControlMessageView::AnnounceOk(m@),
            ControlMessage::AnnounceError(m) => ControlMessageView::AnnounceError(m@),
            ControlMessage::UnAnnounce(m) => ControlMessageView::UnAnnounce(m@),
            ControlMessage::UnSubscribe(m) => ControlMessageView::UnSubscribe(*m),
            ControlMessage::SubscribeDone(m) => ControlMessageView::SubscribeDone(m@),
            ControlMessage::AnnounceCancel(m) => ControlMessageView::AnnounceCancel(m@),
            ControlMessage::TrackStatusRequest(m) => ControlMessageView::TrackStatusRequest(m@),
            ControlMessage::TrackStatus(m) => ControlMessageView::TrackStatus(m@),
            ControlMessage::GoAway(m) => ControlMessageView::GoAway(m@),
            ControlMessage::ClientSetup(m) => ControlMessageView::ClientSetup(m@),
            ControlMessage::ServerSetup(m) => ControlMessageView::ServerSetup(*m),
        }
    }
}

impl ControlMessage {
    /// The message type that stands before a message.
    pub open spec fn spec_type(v: ControlMessageView) -> MessageType {
        match v {
            ControlMessageView::SubscribeUpdate(_) => MessageType::SubscribeUpdate,
            ControlMessageView::Subscribe(_) => MessageType::Subscribe,
            ControlMessageView::SubscribeOk(_) => MessageType::SubscribeOk,
            ControlMessageView::SubscribeError(_) => MessageType::SubscribeError,
            ControlMessageView::Announce(_) => MessageType::Announce,
            ControlMessageView::AnnounceOk(_) => MessageType::AnnounceOk,
            ControlMessageView::AnnounceError(_) => MessageType::AnnounceError,
            ControlMessageView::UnAnnounce(_) => MessageType::UnAnnounce,
            ControlMessageView::UnSubscribe(_) => MessageType::UnSubscribe,
            ControlMessageView::SubscribeDone(_) => MessageType::SubscribeDone,
            ControlMessageView::AnnounceCancel(_) => MessageType::AnnounceCancel,
            ControlMessageView::TrackStatusRequest(_) => MessageType::TrackStatusRequest,
            ControlMessageView::TrackStatus(_) => MessageType::TrackStatus,
            ControlMessageView::GoAway(_) => MessageType::GoAway,
            ControlMessageView::ClientSetup(_) => MessageType::ClientSetup,
            ControlMessageView::ServerSetup(_) => MessageType::ServerSetup,
        }
    }

    pub fn message_type(&self) -> (t: MessageType)
        ensures
            t == ControlMessage::spec_type(self@),
    {
        match self {
            ControlMessage::SubscribeUpdate(_) => MessageType::SubscribeUpdate,
            ControlMessage::Subscribe(_) => MessageType::Subscribe,
            ControlMessage::SubscribeOk(_) => MessageType::SubscribeOk,
            ControlMessage::SubscribeError(_) => MessageType::SubscribeError,
            ControlMessage::Announce(_) => MessageType::Announce,
            ControlMessage::AnnounceOk(_) => MessageType::AnnounceOk,
            ControlMessage::AnnounceError(_) => MessageType::AnnounceError,
            ControlMessage::UnAnnounce(_) => MessageType::UnAnnounce,
            ControlMessage::UnSubscribe(_) => MessageType::UnSubscribe,
            ControlMessage::SubscribeDone(_) => MessageType::SubscribeDone,
            ControlMessage::AnnounceCancel(_) => MessageType::AnnounceCancel,
            ControlMessage::TrackStatusRequest(_) => MessageType::TrackStatusRequest,
            ControlMessage::TrackStatus(_) => MessageType::TrackStatus,
            ControlMessage::GoAway(_) => MessageType::GoAway,
            ControlMessage::ClientSetup(_) => MessageType::ClientSetup,
            ControlMessage::ServerSetup(_) => MessageType::ServerSetup,
        }
    }

    /// The encoding of the message alone, after its type.
    pub open spec fn spec_body(v: ControlMessageView) -> Result<Seq<u8>, ErrorView> {
        match v {
            ControlMessageView::SubscribeUpdate(m) => SubscribeUpdate::spec_wire(m),
            ControlMessageView::Subscribe(m) => Subscribe::spec_wire(m),
            ControlMessageView::SubscribeOk(m) => SubscribeOk::spec_wire(m),
            ControlMessageView::SubscribeError(m) => SubscribeError::spec_wire(m),
            ControlMessageView::Announce(m) => Announce::spec_wire(m),
            ControlMessageView::AnnounceOk(m) => AnnounceOk::spec_wire(m),
            ControlMessageView::AnnounceError(m) => AnnounceError::spec_wire(m),
            ControlMessageView::UnAnnounce(m) => UnAnnounce::spec_wire(m),
            ControlMessageView::UnSubscribe(m) => UnSubscribe::spec_wire(m),
            ControlMessageView::SubscribeDone(m) => SubscribeDone::spec_wire(m),
            ControlMessageView::AnnounceCancel(m) => AnnounceCancel::spec_wire(m),
            ControlMessageView::TrackStatusRequest(m) => TrackStatusRequest::spec_wire(m),
            ControlMessageView::TrackStatus(m) => TrackStatus::spec_wire(m),
            ControlMessageView::GoAway(m) => GoAway::spec_wire(m),
            ControlMessageView::ClientSetup(m) => ClientSetup::spec_wire(m),
            ControlMessageView::ServerSetup(m) => ServerSetup::spec_wire(m),
        }
    }

    /// What writing a control message appends: its type, then the message.
    pub open spec fn spec_wire(v: ControlMessageView) -> Result<Seq<u8>, ErrorView> {
        then(Ok(var_int_bytes(ControlMessage::spec_type(v).code())), ControlMessage::spec_body(v))
    }

    /// Reading a control message at `off`: its type, then the message of
    /// that type; an object type is no control message.
    pub open spec fn spec_parse(s: Seq<u8>, off: int) -> Result<(ControlMessageView, int), ErrorView> {
        match MessageType::spec_parse(s, off) {
            Ok((t, p)) => match t {
                MessageType::ObjectStream | MessageType::ObjectDatagram | MessageType::StreamHeaderTrack
                | MessageType::StreamHeaderGroup => Err(ErrorView::ErrInvalidMessageType(t.code())),
                MessageType::SubscribeUpdate => match SubscribeUpdate::spec_parse(s, p) {
                    Ok((m, p2)) => Ok((ControlMessageView::SubscribeUpdate(m), p2)),
                    Err(e) => Err(e),
                },
                MessageType::Subscribe => match Subscribe::spec_parse(s, p) {
                    Ok((m, p2)) => Ok((ControlMessageView::Subscribe(m), p2)),
                    Err(e) => Err(e),
                },
                MessageType::SubscribeOk => match SubscribeOk::spec_parse(s, p) {
                    Ok((m, p2)) => Ok((ControlMessageView::SubscribeOk(m), p2)),
                    Err(e) => Err(e),
                },
                MessageType::SubscribeError => match SubscribeError::spec_parse(s, p) {
                    Ok((m, p2)) => Ok((ControlMessageView::SubscribeError(m), p2)),
                    Err(e) => Err(e),
                },
                MessageType::Announce => match Announce::spec_parse(s, p) {
                    Ok((m, p2)) => Ok((ControlMessageView::Announce(m), p2)),
                    Err(e) => Err(e),
                },
                MessageType::AnnounceOk => match AnnounceOk::spec_parse(s, p) {
                    Ok((m, p2)) => Ok((ControlMessageView::AnnounceOk(m), p2)),
                    Err(e) => Err(e),
                },
                MessageType::AnnounceError => match AnnounceError::spec_parse(s, p) {
                    Ok((m, p2)) => Ok((ControlMessageView::AnnounceError(m), p2)),
                    Err(e) => Err(e),
                },
                MessageType::UnAnnounce => match UnAnnounce::spec_parse(s, p) {
                    Ok((m, p2)) => Ok((ControlMessageView::UnAnnounce(m), p2)),
                    Err(e) => Err(e),
                },
                MessageType::UnSubscribe => match UnSubscribe::spec_parse(s, p) {
                    Ok((m, p2)) => Ok((ControlMessageView::UnSubscribe(m), p2)),
                    Err(e) => Err(e),
                },
                MessageType::SubscribeDone => match SubscribeDone::spec_parse(s, p) {
                    Ok((m, p2)) => Ok((ControlMessageView::SubscribeDone(m), p2)),
                    Err(e) => Err(e),
                },
                MessageType::AnnounceCancel => match AnnounceCancel::spec_parse(s, p) {
                    Ok((m, p2)) => Ok((ControlMessageView::AnnounceCancel(m), p2)),
                    Err(e) => Err(e),
                },
                MessageType::TrackStatusRequest => match TrackStatusRequest::spec_parse(s, p) {
                    Ok((m, p2)) => Ok((ControlMessageView::TrackStatusRequest(m), p2)),
                    Err(e) => Err(e),
                },
                MessageType::TrackStatus => match TrackStatus::spec_parse(s, p) {
                    Ok((m, p2)) => Ok((ControlMessageView::TrackStatus(m), p2)),
                    Err(e) => Err(e),
                },
                MessageType::GoAway => match GoAway::spec_parse(s, p) {
                    Ok((m, p2)) => Ok((ControlMessageView::GoAway(m), p2)),
                    Err(e) => Err(e),
                },
                MessageType::ClientSetup => match ClientSetup::spec_parse(s, p) {
                    Ok((m, p2)) => Ok((ControlMessageView::ClientSetup(m), p2)),
                    Err(e) => Err(e),
                },
                MessageType::ServerSetup => match ServerSetup::spec_parse(s, p) {
                    Ok((m, p2)) => Ok((ControlMessageView::ServerSetup(m), p2)),
                    Err(e) => Err(e),
                },
            },
            Err(e) => Err(e),
        }
    }

    #[verifier::spinoff_prover]
    pub fn parse(r: &[u8], pos: usize) -> (res: Result<(ControlMessage, usize), Error>)
        ensures
            read_outcome(res, ControlMessage::spec_parse(r@, pos as int)),
    {
        let (t, p) = match MessageType::parse(r, pos) {
            Ok(x) => x,
            Err(e) => return Err(e),
        };
        match t {
            MessageType::ObjectStream | MessageType::ObjectDatagram | MessageType::StreamHeaderTrack
            | MessageType::StreamHeaderGroup => Err(Error::ErrInvalidMessageType(t.value())),
            MessageType::SubscribeUpdate => match SubscribeUpdate::parse(r, p) {
                Ok((m, p2)) => Ok((ControlMessage::SubscribeUpdate(m), p2)),
                Err(e) => Err(e),
            },
            MessageType::Subscribe => match Subscribe::parse(r, p) {
                Ok((m, p2)) => Ok((ControlMessage::Subscribe(m), p2)),
                Err(e) => Err(e),
            },
            MessageType::SubscribeOk => match SubscribeOk::parse(r, p) {
                Ok((m, p2)) => Ok((ControlMessage::SubscribeOk(m), p2)),
                Err(e) => Err(e),
            },
            MessageType::SubscribeError => match SubscribeError::parse(r, p) {
                Ok((m, p2)) => Ok((ControlMessage::SubscribeError(m), p2)),
                Err(e) => Err(e),
            },
            MessageType::Announce => match Announce::parse(r, p) {
                Ok((m, p2)) => Ok((ControlMessage::Announce(m), p2)),
                Err(e) => Err(e),
            },
            MessageType::AnnounceOk => match AnnounceOk::parse(r, p) {
                Ok((m, p2)) => Ok((ControlMessage::AnnounceOk(m), p2)),
                Err(e) => Err(e),
            },
            MessageType::AnnounceError => match AnnounceError::parse(r, p) {
                Ok((m, p2)) => Ok((ControlMessage::AnnounceError(m), p2)),
                Err(e) => Err(e),
            },
            MessageType::UnAnnounce => match UnAnnounce::parse(r, p) {
                Ok((m, p2)) => Ok((ControlMessage::UnAnnounce(m), p2)),
                Err(e) => Err(e),
            },
            MessageType::UnSubscribe => match UnSubscribe::parse(r, p) {
                Ok((m, p2)) => Ok((ControlMessage::UnSubscribe(m), p2)),
                Err(e) => Err(e),
            },
            MessageType::SubscribeDone => match SubscribeDone::parse(r, p) {
                Ok((m, p2)) => Ok((ControlMessage::SubscribeDone(m), p2)),
                Err(e) => Err(e),
            },
            MessageType::AnnounceCancel => match AnnounceCancel::parse(r, p) {
                Ok((m, p2)) => Ok((ControlMessage::AnnounceCancel(m), p2)),
                Err(e) => Err(e),
            },
            MessageType::TrackStatusRequest => match TrackStatusRequest::parse(r, p) {
                Ok((m, p2)) => Ok((ControlMessage::TrackStatusRequest(m), p2)),
                Err(e) => Err(e),
            },
            MessageType::TrackStatus => match TrackStatus::parse(r, p) {
                Ok((m, p2)) => Ok((ControlMessage::TrackStatus(m), p2)),
                Err(e) => Err(e),
            },
            MessageType::GoAway => match GoAway::parse(r, p) {
                Ok((m, p2)) => Ok((ControlMessage::GoAway(m), p2)),
                Err(e) => Err(e),
            },
            MessageType::ClientSetup => match ClientSetup::parse(r, p) {
                Ok((m, p2)) => Ok((ControlMessage::ClientSetup(m), p2)),
                Err(e) => Err(e),
            },
            MessageType::ServerSetup => match ServerSetup::parse(r, p) {
                Ok((m, p2)) => Ok((ControlMessage::ServerSetup(m), p2)),
                Err(e) => Err(e),
            },
        }
    }

    fn write_body(&self, w: &mut Vec<u8>) -> (res: Result<usize, Error>)
        ensures
            wrote(old(w)@, final(w)@, res, ControlMessage::spec_body(self@)),
    {
        match self {
            ControlMessage::SubscribeUpdate(m) => m.write(w),
            ControlMessage::Subscribe(m) => m.write(w),
            ControlMessage::SubscribeOk(m) => m.write(w),
            ControlMessage::SubscribeError(m) => m.write(w),
            ControlMessage::Announce(m) => m.write(w),
            ControlMessage::AnnounceOk(m) => m.write(w),
            ControlMessage::AnnounceError(m) => m.write(w),
            ControlMessage::UnAnnounce(m) => m.write(w),
            ControlMessage::UnSubscribe(m) => m.write(w),
            ControlMessage::SubscribeDone(m) => m.write(w),
            ControlMessage::AnnounceCancel(m) => m.write(w),
            ControlMessage::TrackStatusRequest(m) => m.write(w),
            ControlMessage::TrackStatus(m) => m.write(w),
            ControlMessage::GoAway(m) => m.write(w),
            ControlMessage::ClientSetup(m) => m.write(w),
            ControlMessage::ServerSetup(m) => m.write(w),
        }
    }

    #[verifier::spinoff_prover]
    pub fn write(&self, w: &mut Vec<u8>) -> (res: Result<usize, Error>)
        ensures
            wrote(old(w)@, final(w)@, res, ControlMessage::spec_wire(self@)),
    {
        let ghost old_w = w@;
        let t = self.message_type();
        let r = t.serialize(w);
        proof {
            lemma_first_step(old_w, w@, r, Ok(var_int_bytes(t.code())));
        }
        let l1 = match r {
            Ok(l) => l,
            Err(e) => return Err(e),
        };
        let ghost acc = var_int_bytes(t.code());
        let r = self.write_body(w);
        proof {
            lemma_then_step(old_w, acc, w@, r, ControlMessage::spec_body(self@));
            lemma_vec_len(w);
        }
        let l2 = match r {
            Ok(l) => l,
            Err(e) => return Err(e),
        };
        Ok(l1 + l2)
    }

    /// The messages that read back as written: every string fits in memory,
    /// and each kind of message meets what its own round trip asks.
    pub open spec fn readable(v: ControlMessageView) -> bool {
        match v {
            ControlMessageView::SubscribeUpdate(m) => update_end_ok(m.end_group_object, m.start_group_object) && m.authorization_info is Some && fits(m.authorization_info->Some_0),
            ControlMessageView::Subscribe(m) => fits(m.track_namespace) && fits(m.track_name) && m.authorization_info is Some && fits(m.authorization_info->Some_0),
            ControlMessageView::SubscribeOk(m) => true,
            ControlMessageView::SubscribeError(m) => fits(m.reason_phrase),
            ControlMessageView::Announce(m) => fits(m.track_namespace) && m.authorization_info is Some && fits(m.authorization_info->Some_0),
            ControlMessageView::AnnounceOk(m) => fits(m.track_namespace),
            ControlMessageView::AnnounceError(m) => fits(m.track_namespace) && fits(m.reason_phrase),
            ControlMessageView::UnAnnounce(m) => fits(m.track_namespace),
            ControlMessageView::UnSubscribe(m) => true,
            ControlMessageView::SubscribeDone(m) => fits(m.reason_phrase),
            ControlMessageView::AnnounceCancel(m) => fits(m.track_namespace) && fits(m.reason_phrase),
            ControlMessageView::TrackStatusRequest(m) => fits(m.track_namespace) && fits(m.track_name),
            ControlMessageView::TrackStatus(m) => fits(m.track_namespace) && fits(m.track_name),
            ControlMessageView::GoAway(m) => fits(m.new_session_uri),
            ControlMessageView::ClientSetup(m) => m.supported_versions.len() <= usize::MAX && (forall|i: int| 0 <= i < m.supported_versions.len() ==> (#[trigger] m.supported_versions[i]).is_canonical()) && m.role is Some && (m.path is Some ==> fits(m.path->Some_0)) && !m.uses_web_transport,
            ControlMessageView::ServerSetup(m) => m.supported_version.is_canonical() && m.role is Some,
        }
    }

    /// A control message written and read back is the same message, for
    /// every message that can be written and read back as such.
    #[verifier::spinoff_prover]
    pub proof fn lemma_roundtrip(v: ControlMessageView, s: Seq<u8>, off: int)
        requires
            ControlMessage::spec_wire(v) is Ok,
            ControlMessage::readable(v),
            at(s, off, ControlMessage::spec_wire(v)->Ok_0),
        ensures
            ControlMessage::spec_parse(s, off) == Ok::<(ControlMessageView, int), ErrorView>(
                (v, off + ControlMessage::spec_wire(v)->Ok_0.len()),
            ),
    {
        let t = ControlMessage::spec_type(v);
        let a = var_int_bytes(t.code());
        let b = ControlMessage::spec_body(v)->Ok_0;
        lemma_at_split(s, off, a, b);
        MessageType::lemma_roundtrip(t, s, off);
        match v {
            ControlMessageView::SubscribeUpdate(m) => {
                SubscribeUpdate::lemma_roundtrip(m, s, off + a.len());
            },
            ControlMessageView::Subscribe(m) => {
                Subscribe::lemma_roundtrip(m, s, off + a.len());
            },
            ControlMessageView::SubscribeOk(m) => {
                SubscribeOk::lemma_roundtrip(m, s, off + a.len());
            },
            ControlMessageView::SubscribeError(m) => {
                SubscribeError::lemma_roundtrip(m, s, off + a.len());
            },
            ControlMessageView::Announce(m) => {
                Announce::lemma_roundtrip(m, s, off + a.len());
            },
            ControlMessageView::AnnounceOk(m) => {
                AnnounceOk::lemma_roundtrip(m, s, off + a.len());
            },
            ControlMessageView::AnnounceError(m) => {
                AnnounceError::lemma_roundtrip(m, s, off + a.len());
            },
            ControlMessageView::UnAnnounce(m) => {
                UnAnnounce::lemma_roundtrip(m, s, off + a.len());
            },
            ControlMessageView::UnSubscribe(m) => {
                UnSubscribe::lemma_roundtrip(m, s, off + a.len());
            },
            ControlMessageView::SubscribeDone(m) => {
                SubscribeDone::lemma_roundtrip(m, s, off + a.len());
            },
            ControlMessageView::AnnounceCancel(m) => {
                AnnounceCancel::lemma_roundtrip(m, s, off + a.len());
            },
            ControlMessageView::TrackStatusRequest(m) => {
                TrackStatusRequest::lemma_roundtrip(m, s, off + a.len());
            },
            ControlMessageView::TrackStatus(m) => {
                TrackStatus::lemma_roundtrip(m, s, off + a.len());
            },
            ControlMessageView::GoAway(m) => {
                GoAway::lemma_roundtrip(m, s, off + a.len());
            },
            ControlMessageView::ClientSetup(m) => {
                ClientSetup::lemma_roundtrip(m, s, off + a.len());
            },
            ControlMessageView::ServerSetup(m) => {
                ServerSetup::lemma_roundtrip(m, s, off + a.len());
            },
        }
    }
}

impl Serializer for ControlMessage {
    open spec fn spec_serialize(v: ControlMessageView) -> Result<Seq<u8>, ErrorView> {
        ControlMessage::spec_wire(v)
    }

    fn serialize(&self, w: &mut Vec<u8>) -> (res: Result<usize, Error>) {
        self.write(w)
    }
}

impl Deserializer for ControlMessage {
    open spec fn spec_deserialize(s: Seq<u8>) -> Result<(ControlMessageView, int), ErrorView> {
        ControlMessage::spec_parse(s, 0)
    }

    fn deserialize(r: &[u8]) -> (res: Result<(ControlMessage, usize), Error>) {
        ControlMessage::parse(r, 0)
    }
}

} // verus!
