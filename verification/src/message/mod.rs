//! Control messages, the values they carry, and their wire formats.
use crate::error::{frame_err, parse_err, Error, ErrorCode, ErrorView};
use crate::message::object::ObjectForwardingPreference;
use crate::serde::varint::{lemma_var_int_len, lemma_var_int_roundtrip, read_var_int, spec_read_var_int, spec_var_int, var_int_bytes, write_var_int};
use crate::serde::varint::lemma_u64_roundtrip;
use crate::serde::{
    at, lemma_at_split, lemma_first_step, lemma_then_step, lemma_vec_len, lemma_string_roundtrip, read_outcome, read_string, spec_read_string,
    spec_string, then, write_string, wrote, Deserializer, Serializer,
};
use crate::serde::{lemma_bool_roundtrip, read_bool, spec_read_bool, write_bool};
use crate::text::{decimal_digits, decimal_text, hex_digits, hex_text, join, text};
use vstd::prelude::*;

pub mod announce;
pub mod announce_cancel;
pub mod announce_error;
pub mod announce_ok;
pub mod client_setup;
pub mod control_message;
pub mod fetch;
pub mod fetch_cancel;
pub mod fetch_ok;
pub mod go_away;
pub mod message_framer;
pub mod message_parser;
pub mod object;
pub mod requests_blocked;
pub mod server_setup;
pub mod subscribe;
pub mod subscribe_done;
pub mod subscribe_error;
pub mod subscribe_ok;
pub mod subscribe_update;
pub mod track_status;
pub mod track_status_request;
pub mod unannounce;
pub mod unsubscribe;

pub use control_message::{ControlMessage, ControlMessageView};

verus! {

/// The maximum length of a message, excluding and OBJECT payload.
/// This prevents DoS attack via forcing the parser to buffer a large
/// message (OBJECT payloads are not buffered by the parser)
pub const MAX_MESSSAGE_HEADER_SIZE: usize = 2048;

/// The kinds of messages and the codes that announce them on the wire.
#[derive(Default, Debug, Copy, Clone, Eq, PartialEq, Structural)]
pub enum MessageType {
    #[default]
    ObjectStream,
    ObjectDatagram,
    SubscribeUpdate,
    Subscribe,
    SubscribeOk,
    SubscribeError,
    Announce,
    AnnounceOk,
    AnnounceError,
    UnAnnounce,
    UnSubscribe,
    SubscribeDone,
    AnnounceCancel,
    TrackStatusRequest,
    TrackStatus,
    GoAway,
    ClientSetup,
    ServerSetup,
    StreamHeaderTrack,
    StreamHeaderGroup,
}

impl View for MessageType {
    type V = MessageType;

    open spec fn view(&self) -> MessageType {
        *self
    }
}

impl MessageType {
    /// The wire code of a message type.
    pub open spec fn code(self) -> u64 {
        match self {
            MessageType::ObjectStream => 0x0,
            MessageType::ObjectDatagram => 0x1,
            MessageType::SubscribeUpdate => 0x2,
            MessageType::Subscribe => 0x3,
            MessageType::SubscribeOk => 0x4,
            MessageType::SubscribeError => 0x5,
            MessageType::Announce => 0x6,
            MessageType::AnnounceOk => 0x7,
            MessageType::AnnounceError => 0x8,
            MessageType::UnAnnounce => 0x9,
            MessageType::UnSubscribe => 0xa,
            MessageType::SubscribeDone => 0xb,
            MessageType::AnnounceCancel => 0xc,
            MessageType::TrackStatusRequest => 0xd,
            MessageType::TrackStatus => 0xe,
            MessageType::GoAway => 0x10,
            MessageType::ClientSetup => 0x40,
            MessageType::ServerSetup => 0x41,
            MessageType::StreamHeaderTrack => 0x50,
            MessageType::StreamHeaderGroup => 0x51,
        }
    }

    /// The message type with a given wire code, if any.
    pub open spec fn from_code(value: u64) -> Option<MessageType> {
        if value == 0x0 {
            Some(MessageType::ObjectStream)
        } else if value == 0x1 {
            Some(MessageType::ObjectDatagram)
        } else if value == 0x2 {
            Some(MessageType::SubscribeUpdate)
        } else if value == 0x3 {
            Some(MessageType::Subscribe)
        } else if value == 0x4 {
            Some(MessageType::SubscribeOk)
        } else if value == 0x5 {
            Some(MessageType::SubscribeError)
        } else if value == 0x6 {
            Some(MessageType::Announce)
        } else if value == 0x7 {
            Some(MessageType::AnnounceOk)
        } else if value == 0x8 {
            Some(MessageType::AnnounceError)
        } else if value == 0x9 {
            Some(MessageType::UnAnnounce)
        } else if value == 0xa {
            Some(MessageType::UnSubscribe)
        } else if value == 0xb {
            Some(MessageType::SubscribeDone)
        } else if value == 0xc {
            Some(MessageType::AnnounceCancel)
        } else if value == 0xd {
            Some(MessageType::TrackStatusRequest)
        } else if value == 0xe {
            Some(MessageType::TrackStatus)
        } else if value == 0x10 {
            Some(MessageType::GoAway)
        } else if value == 0x40 {
            Some(MessageType::ClientSetup)
        } else if value == 0x41 {
            Some(MessageType::ServerSetup)
        } else if value == 0x50 {
            Some(MessageType::StreamHeaderTrack)
        } else if value == 0x51 {
            Some(MessageType::StreamHeaderGroup)
        } else {
            None
        }
    }

    /// Every message type is found again from its code.
    pub proof fn lemma_code_roundtrip(t: MessageType)
        ensures
            MessageType::from_code(t.code()) == Some(t),
    {
    }

    pub fn value(&self) -> (v: u64)
        ensures
            v == self.code(),
    {
        match self {
            MessageType::ObjectStream => 0x0,
            MessageType::ObjectDatagram => 0x1,
            MessageType::SubscribeUpdate => 0x2,
            MessageType::Subscribe => 0x3,
            MessageType::SubscribeOk => 0x4,
            MessageType::SubscribeError => 0x5,
            MessageType::Announce => 0x6,
            MessageType::AnnounceOk => 0x7,
            MessageType::AnnounceError => 0x8,
            MessageType::UnAnnounce => 0x9,
            MessageType::UnSubscribe => 0xa,
            MessageType::SubscribeDone => 0xb,
            MessageType::AnnounceCancel => 0xc,
            MessageType::TrackStatusRequest => 0xd,
            MessageType::TrackStatus => 0xe,
            MessageType::GoAway => 0x10,
            MessageType::ClientSetup => 0x40,
            MessageType::ServerSetup => 0x41,
            MessageType::StreamHeaderTrack => 0x50,
            MessageType::StreamHeaderGroup => 0x51,
        }
    }

    pub fn is_object_message(&self) -> (b: bool)
        ensures
            b == (*self == MessageType::ObjectStream || *self == MessageType::ObjectDatagram
                || *self == MessageType::StreamHeaderTrack || *self
                == MessageType::StreamHeaderGroup),
    {
        *self == MessageType::ObjectStream || *self == MessageType::ObjectDatagram || *self
            == MessageType::StreamHeaderTrack || *self == MessageType::StreamHeaderGroup
    }

    pub fn is_object_without_payload_length(&self) -> (b: bool)
        ensures
            b == (*self == MessageType::ObjectStream || *self == MessageType::ObjectDatagram),
    {
        *self == MessageType::ObjectStream || *self == MessageType::ObjectDatagram
    }

    /// The forwarding preference that an object message type implies.
    pub open spec fn forwarding_preference(self) -> Option<ObjectForwardingPreference> {
        match self {
            MessageType::ObjectStream => Some(ObjectForwardingPreference::Object),
            MessageType::ObjectDatagram => Some(ObjectForwardingPreference::Datagram),
            MessageType::StreamHeaderTrack => Some(ObjectForwardingPreference::Track),
            MessageType::StreamHeaderGroup => Some(ObjectForwardingPreference::Group),
            _ => None,
        }
    }

    pub fn get_object_forwarding_preference(&self) -> (res: Result<
        ObjectForwardingPreference,
        Error,
    >)
        ensures
            match self.forwarding_preference() {
                Some(p) => res == Ok::<ObjectForwardingPreference, Error>(p),
                None => res matches Err(e) && e@ == ErrorView::ErrInvalidMessageType(
                    self.code(),
                ),
            },
    {
        match *self {
            MessageType::ObjectStream => Ok(ObjectForwardingPreference::Object),
            MessageType::ObjectDatagram => Ok(ObjectForwardingPreference::Datagram),
            MessageType::StreamHeaderTrack => Ok(ObjectForwardingPreference::Track),
            MessageType::StreamHeaderGroup => Ok(ObjectForwardingPreference::Group),
            _ => Err(Error::ErrInvalidMessageType(self.value())),
        }
    }

    /// What reading a message type from its code gives.
    pub open spec fn spec_try_from(value: u64) -> Result<MessageType, ErrorView> {
        match MessageType::from_code(value) {
            Some(t) => Ok(t),
            None => Err(
                ErrorView::ErrParseError(
                    ErrorCode::ProtocolViolation,
                    "Unknown message type 0x"@ + hex_digits(value as nat),
                ),
            ),
        }
    }

    pub fn try_from(value: u64) -> (res: Result<MessageType, Error>)
        ensures
            match MessageType::spec_try_from(value) {
                Ok(t) => res == Ok::<MessageType, Error>(t),
                Err(e) => res matches Err(x) && x@ == e,
            },
    {
        if value == 0x0 {
            Ok(MessageType::ObjectStream)
        } else if value == 0x1 {
            Ok(MessageType::ObjectDatagram)
        } else if value == 0x2 {
            Ok(MessageType::SubscribeUpdate)
        } else if value == 0x3 {
            Ok(MessageType::Subscribe)
        } else if value == 0x4 {
            Ok(MessageType::SubscribeOk)
        } else if value == 0x5 {
            Ok(MessageType::SubscribeError)
        } else if value == 0x6 {
            Ok(MessageType::Announce)
        } else if value == 0x7 {
            Ok(MessageType::AnnounceOk)
        } else if value == 0x8 {
            Ok(MessageType::AnnounceError)
        } else if value == 0x9 {
            Ok(MessageType::UnAnnounce)
        } else if value == 0xa {
            Ok(MessageType::UnSubscribe)
        } else if value == 0xb {
            Ok(MessageType::SubscribeDone)
        } else if value == 0xc {
            Ok(MessageType::AnnounceCancel)
        } else if value == 0xd {
            Ok(MessageType::TrackStatusRequest)
        } else if value == 0xe {
            Ok(MessageType::TrackStatus)
        } else if value == 0x10 {
            Ok(MessageType::GoAway)
        } else if value == 0x40 {
            Ok(MessageType::ClientSetup)
        } else if value == 0x41 {
            Ok(MessageType::ServerSetup)
        } else if value == 0x50 {
            Ok(MessageType::StreamHeaderTrack)
        } else if value == 0x51 {
            Ok(MessageType::StreamHeaderGroup)
        } else {
            let hex = hex_text(value);
            Err(Error::ErrParseError(ErrorCode::ProtocolViolation, join("Unknown message type 0x", &hex)))
        }
    }

    /// Reading a message type at `off`.
    pub open spec fn spec_parse(s: Seq<u8>, off: int) -> Result<(MessageType, int), ErrorView> {
        match spec_read_var_int(s, off) {
            Ok((v, p)) => match MessageType::spec_try_from(v) {
                Ok(t) => Ok((t, p)),
                Err(e) => Err(e),
            },
            Err(e) => Err(e),
        }
    }

    pub fn parse(r: &[u8], pos: usize) -> (res: Result<(MessageType, usize), Error>)
        ensures
            read_outcome(res, MessageType::spec_parse(r@, pos as int)),
    {
        let (v, p) = match read_var_int(r, pos) {
            Ok(x) => x,
            Err(e) => return Err(e),
        };
        match MessageType::try_from(v) {
            Ok(t) => Ok((t, p)),
            Err(e) => Err(e),
        }
    }

    pub proof fn lemma_roundtrip(t: MessageType, s: Seq<u8>, off: int)
        requires
            at(s, off, var_int_bytes(t.code())),
        ensures
            MessageType::spec_parse(s, off) == Ok::<(MessageType, int), ErrorView>(
                (t, off + var_int_bytes(t.code()).len()),
            ),
    {
        lemma_var_int_len(t.code());
        lemma_var_int_roundtrip(t.code(), s, off);
    }
}

impl Serializer for MessageType {
    open spec fn spec_serialize(v: MessageType) -> Result<Seq<u8>, ErrorView> {
        Ok(var_int_bytes(v.code()))
    }

    fn serialize(&self, w: &mut Vec<u8>) -> (res: Result<usize, Error>) {
        write_var_int(self.value(), w)
    }
}

impl Deserializer for MessageType {
    open spec fn spec_deserialize(s: Seq<u8>) -> Result<(MessageType, int), ErrorView> {
        MessageType::spec_parse(s, 0)
    }

    fn deserialize(r: &[u8]) -> (res: Result<(MessageType, usize), Error>) {
        MessageType::parse(r, 0)
    }
}


/// Lengths of the string encodings that a view holds fit in `usize`.
pub open spec fn fits(t: Seq<char>) -> bool {
    vstd::utf8::encode_utf8(t).len() <= usize::MAX
}

/// A track's namespace and name.
#[derive(Default, Debug, Clone, Eq, PartialEq, PartialOrd, Hash)]
pub struct FullTrackName {
    pub track_namespace: String,
    pub track_name: String,
}

/// The characters of a [`FullTrackName`].
pub struct FullTrackNameView {
    pub track_namespace: Seq<char>,
    pub track_name: Seq<char>,
}

impl View for FullTrackName {
    type V = FullTrackNameView;

    open spec fn view(&self) -> FullTrackNameView {
        FullTrackNameView { track_namespace: self.track_namespace@, track_name: self.track_name@ }
    }
}

impl FullTrackName {
    pub fn new(track_namespace: String, track_name: String) -> (n: FullTrackName)
        ensures
            n.track_namespace == track_namespace,
            n.track_name == track_name,
    {
        FullTrackName { track_namespace, track_name }
    }

    pub open spec fn spec_wire(v: FullTrackNameView) -> Result<Seq<u8>, ErrorView> {
        then(spec_string(v.track_namespace), spec_string(v.track_name))
    }

    pub open spec fn spec_parse(s: Seq<u8>, off: int) -> Result<(FullTrackNameView, int), ErrorView> {
        match spec_read_string(s, off) {
            Ok((ns, p1)) => match spec_read_string(s, p1) {
                Ok((name, p2)) => Ok((FullTrackNameView { track_namespace: ns, track_name: name }, p2)),
                Err(e) => Err(e),
            },
            Err(e) => Err(e),
        }
    }

    pub fn parse(r: &[u8], pos: usize) -> (res: Result<(FullTrackName, usize), Error>)
        ensures
            read_outcome(res, FullTrackName::spec_parse(r@, pos as int)),
    {
        let (track_namespace, p1) = match read_string(r, pos) {
            Ok(x) => x,
            Err(e) => return Err(e),
        };
        let (track_name, p2) = match read_string(r, p1) {
            Ok(x) => x,
            Err(e) => return Err(e),
        };
        Ok((FullTrackName { track_namespace, track_name }, p2))
    }

    pub proof fn lemma_roundtrip(v: FullTrackNameView, s: Seq<u8>, off: int)
        requires
            FullTrackName::spec_wire(v) is Ok,
            fits(v.track_namespace),
            fits(v.track_name),
            at(s, off, FullTrackName::spec_wire(v)->Ok_0),
        ensures
            FullTrackName::spec_parse(s, off) == Ok::<(FullTrackNameView, int), ErrorView>(
                (v, off + FullTrackName::spec_wire(v)->Ok_0.len()),
            ),
    {
        let a = spec_string(v.track_namespace)->Ok_0;
        let b = spec_string(v.track_name)->Ok_0;
        lemma_at_split(s, off, a, b);
        lemma_string_roundtrip(v.track_namespace, s, off);
        lemma_string_roundtrip(v.track_name, s, off + a.len());
    }
}

impl Serializer for FullTrackName {
    open spec fn spec_serialize(v: FullTrackNameView) -> Result<Seq<u8>, ErrorView> {
        FullTrackName::spec_wire(v)
    }

    fn serialize(&self, w: &mut Vec<u8>) -> (res: Result<usize, Error>) {
        let ghost old_w = w@;
        let l1 = match write_string(&self.track_namespace, w) {
            Ok(l) => l,
            Err(e) => return Err(e),
        };
        let ghost mid = w@;
        let l2 = match write_string(&self.track_name, w) {
            Ok(l) => l,
            Err(e) => return Err(e),
        };
        proof {
            let a = spec_string(self.track_namespace@)->Ok_0;
            let b = spec_string(self.track_name@)->Ok_0;
            assert(w@ =~= old_w + (a + b));
            crate::serde::lemma_vec_len(w);
        }
        Ok(l1 + l2)
    }
}

impl Deserializer for FullTrackName {
    open spec fn spec_deserialize(s: Seq<u8>) -> Result<(FullTrackNameView, int), ErrorView> {
        FullTrackName::spec_parse(s, 0)
    }

    fn deserialize(r: &[u8]) -> (res: Result<(FullTrackName, usize), Error>) {
        FullTrackName::parse(r, 0)
    }
}

/// The location of an object: its group and its place in the group.
#[derive(Default, Debug, Copy, Clone, Eq, PartialEq, PartialOrd, Ord, Hash, Structural)]
pub struct FullSequence {
    pub group_id: u64,
    pub object_id: u64,
}

impl View for FullSequence {
    type V = FullSequence;

    open spec fn view(&self) -> FullSequence {
        *self
    }
}

impl FullSequence {
    pub fn new(group_id: u64, object_id: u64) -> (s: FullSequence)
        ensures
            s == (FullSequence { group_id, object_id }),
    {
        FullSequence { group_id, object_id }
    }

    /// `self` comes strictly before `other`: by group, then by object.
    pub open spec fn before(self, other: FullSequence) -> bool {
        self.group_id < other.group_id || (self.group_id == other.group_id && self.object_id
            < other.object_id)
    }

    /// `self` comes before `other` or is `other`.
    pub open spec fn at_or_before(self, other: FullSequence) -> bool {
        self.before(other) || self == other
    }

    pub fn is_before(&self, other: &FullSequence) -> (b: bool)
        ensures
            b == self.before(*other),
    {
        self.group_id < other.group_id || (self.group_id == other.group_id && self.object_id
            < other.object_id)
    }

    pub fn is_at_or_before(&self, other: &FullSequence) -> (b: bool)
        ensures
            b == self.at_or_before(*other),
    {
        self.is_before(other) || (self.group_id == other.group_id && self.object_id
            == other.object_id)
    }

    /// The next object of the same group.
    pub fn next(&self) -> (n: FullSequence)
        requires
            self.object_id < u64::MAX,
        ensures
            n == (FullSequence { group_id: self.group_id, object_id: (self.object_id + 1) as u64 }),
    {
        FullSequence { group_id: self.group_id, object_id: self.object_id + 1 }
    }

    pub open spec fn spec_wire(v: FullSequence) -> Result<Seq<u8>, ErrorView> {
        then(spec_var_int(v.group_id), spec_var_int(v.object_id))
    }

    pub open spec fn spec_parse(s: Seq<u8>, off: int) -> Result<(FullSequence, int), ErrorView> {
        match spec_read_var_int(s, off) {
            Ok((g, p1)) => match spec_read_var_int(s, p1) {
                Ok((o, p2)) => Ok((FullSequence { group_id: g, object_id: o }, p2)),
                Err(e) => Err(e),
            },
            Err(e) => Err(e),
        }
    }

    pub fn parse(r: &[u8], pos: usize) -> (res: Result<(FullSequence, usize), Error>)
        ensures
            read_outcome(res, FullSequence::spec_parse(r@, pos as int)),
    {
        let (group_id, p1) = match read_var_int(r, pos) {
            Ok(x) => x,
            Err(e) => return Err(e),
        };
        let (object_id, p2) = match read_var_int(r, p1) {
            Ok(x) => x,
            Err(e) => return Err(e),
        };
        Ok((FullSequence { group_id, object_id }, p2))
    }

    pub fn write(&self, w: &mut Vec<u8>) -> (res: Result<usize, Error>)
        ensures
            wrote(old(w)@, final(w)@, res, FullSequence::spec_wire(*self)),
    {
        let ghost old_w = w@;
        let l1 = match write_var_int(self.group_id, w) {
            Ok(l) => l,
            Err(e) => return Err(e),
        };
        let l2 = match write_var_int(self.object_id, w) {
            Ok(l) => l,
            Err(e) => return Err(e),
        };
        proof {
            lemma_var_int_len(self.group_id);
            lemma_var_int_len(self.object_id);
            assert(w@ =~= old_w + (var_int_bytes(self.group_id) + var_int_bytes(self.object_id)));
        }
        Ok(l1 + l2)
    }

    pub proof fn lemma_roundtrip(v: FullSequence, s: Seq<u8>, off: int)
        requires
            FullSequence::spec_wire(v) is Ok,
            at(s, off, FullSequence::spec_wire(v)->Ok_0),
        ensures
            FullSequence::spec_parse(s, off) == Ok::<(FullSequence, int), ErrorView>(
                (v, off + FullSequence::spec_wire(v)->Ok_0.len()),
            ),
    {
        let a = var_int_bytes(v.group_id);
        let b = var_int_bytes(v.object_id);
        lemma_var_int_len(v.group_id);
        lemma_var_int_len(v.object_id);
        lemma_at_split(s, off, a, b);
        lemma_var_int_roundtrip(v.group_id, s, off);
        lemma_var_int_roundtrip(v.object_id, s, off + a.len());
    }
}

impl Serializer for FullSequence {
    open spec fn spec_serialize(v: FullSequence) -> Result<Seq<u8>, ErrorView> {
        FullSequence::spec_wire(v)
    }

    fn serialize(&self, w: &mut Vec<u8>) -> (res: Result<usize, Error>) {
        self.write(w)
    }
}

impl Deserializer for FullSequence {
    open spec fn spec_deserialize(s: Seq<u8>) -> Result<(FullSequence, int), ErrorView> {
        FullSequence::spec_parse(s, 0)
    }

    fn deserialize(r: &[u8]) -> (res: Result<(FullSequence, usize), Error>) {
        FullSequence::parse(r, 0)
    }
}


/// What writing an optional location appends: a flag byte, then the
/// location where there is one.
pub open spec fn spec_opt_seq_wire(o: Option<FullSequence>) -> Result<Seq<u8>, ErrorView> {
    match o {
        Some(x) => then(Ok(seq![1u8]), FullSequence::spec_wire(x)),
        None => Ok(seq![0u8]),
    }
}

/// Reading an optional location at `off`; a flag byte other than 0 or 1 is
/// a protocol violation whose reason is `prefix` followed by the byte in
/// decimal.
pub open spec fn spec_read_opt_seq(s: Seq<u8>, off: int, prefix: Seq<char>) -> Result<
    (Option<FullSequence>, int),
    ErrorView,
> {
    match spec_read_bool(s, off) {
        Ok((b, p)) => if b {
            match FullSequence::spec_parse(s, p) {
                Ok((x, p2)) => Ok((Some(x), p2)),
                Err(e) => Err(e),
            }
        } else {
            Ok((None, p))
        },
        Err(ErrorView::ErrInvalidBooleanValue(b)) => Err(
            ErrorView::ErrParseError(ErrorCode::ProtocolViolation, prefix + decimal_digits(b as nat)),
        ),
        Err(e) => Err(e),
    }
}

pub fn write_opt_seq(o: &Option<FullSequence>, w: &mut Vec<u8>) -> (res: Result<usize, Error>)
    ensures
        wrote(old(w)@, final(w)@, res, spec_opt_seq_wire(*o)),
{
    let ghost old_w = w@;
    match o {
        Some(x) => {
            let r = write_bool(true, w);
            proof {
                lemma_first_step(old_w, w@, r, Ok(seq![1u8]));
            }
            let l1 = match r {
                Ok(l) => l,
                Err(e) => return Err(e),
            };
            let r = x.write(w);
            proof {
                lemma_then_step(old_w, seq![1u8], w@, r, FullSequence::spec_wire(*x));
            }
            let l2 = match r {
                Ok(l) => l,
                Err(e) => return Err(e),
            };
            Ok(l1 + l2)
        },
        None => write_bool(false, w),
    }
}

pub fn read_opt_seq(r: &[u8], pos: usize, prefix: &str) -> (res: Result<
    (Option<FullSequence>, usize),
    Error,
>)
    ensures
        read_outcome(res, spec_read_opt_seq(r@, pos as int, prefix@)),
{
    let (b, p) = match read_bool(r, pos) {
        Ok(x) => x,
        Err(Error::ErrInvalidBooleanValue(b)) => {
            let reason = join(prefix, &decimal_text(b as u64));
            return Err(Error::ErrParseError(ErrorCode::ProtocolViolation, reason));
        },
        Err(e) => return Err(e),
    };
    if b {
        let (x, p2) = match FullSequence::parse(r, p) {
            Ok(x) => x,
            Err(e) => return Err(e),
        };
        Ok((Some(x), p2))
    } else {
        Ok((None, p))
    }
}

/// An optional location written and read back is the same.
pub proof fn lemma_opt_seq_roundtrip(o: Option<FullSequence>, s: Seq<u8>, off: int, prefix: Seq<char>)
    requires
        spec_opt_seq_wire(o) is Ok,
        at(s, off, spec_opt_seq_wire(o)->Ok_0),
    ensures
        spec_read_opt_seq(s, off, prefix) == Ok::<(Option<FullSequence>, int), ErrorView>(
            (o, off + spec_opt_seq_wire(o)->Ok_0.len()),
        ),
{
    match o {
        Some(x) => {
            let b = FullSequence::spec_wire(x)->Ok_0;
            lemma_at_split(s, off, seq![1u8], b);
            lemma_bool_roundtrip(true, s, off);
            FullSequence::lemma_roundtrip(x, s, off + 1);
        },
        None => {
            lemma_bool_roundtrip(false, s, off);
        },
    }
}

/// Which objects a subscription starts from, and where it ends.
#[derive(Default, Debug, Copy, Clone, Eq, PartialEq, Structural)]
pub enum FilterType {
    #[default]
    LatestGroup,
    LatestObject,
    AbsoluteStart(FullSequence),
    AbsoluteRange(FullSequence, FullSequence),
}

impl View for FilterType {
    type V = FilterType;

    open spec fn view(&self) -> FilterType {
        *self
    }
}

/// How an inclusive end location is written: its object one further on, and
/// the largest object id as 0 (the whole group).
pub open spec fn end_to_wire(end: FullSequence) -> FullSequence {
    FullSequence {
        group_id: end.group_id,
        object_id: if end.object_id == u64::MAX {
            0
        } else {
            (end.object_id + 1) as u64
        },
    }
}

/// The inclusive end location that a written end stands for.
pub open spec fn end_from_wire(end: FullSequence) -> FullSequence {
    FullSequence {
        group_id: end.group_id,
        object_id: if end.object_id == 0 {
            u64::MAX
        } else {
            (end.object_id - 1) as u64
        },
    }
}

pub fn end_object_to_wire(object_id: u64) -> (o: u64)
    ensures
        o == end_to_wire(FullSequence { group_id: 0, object_id }).object_id,
{
    if object_id == u64::MAX {
        0
    } else {
        object_id + 1
    }
}

pub fn end_object_from_wire(object_id: u64) -> (o: u64)
    ensures
        o == end_from_wire(FullSequence { group_id: 0, object_id }).object_id,
{
    if object_id == 0 {
        u64::MAX
    } else {
        object_id - 1
    }
}

impl FilterType {
    /// The wire code of the filter.
    pub open spec fn code(self) -> u8 {
        match self {
            FilterType::LatestGroup => 0x1,
            FilterType::LatestObject => 0x2,
            FilterType::AbsoluteStart(_) => 0x3,
            FilterType::AbsoluteRange(_, _) => 0x4,
        }
    }

    /// An absolute range that ends before it starts, which is not written.
    pub open spec fn range_refused(self) -> bool {
        match self {
            FilterType::AbsoluteRange(start, end) => end.group_id < start.group_id || (end.group_id
                == start.group_id && end.object_id < start.object_id),
            _ => false,
        }
    }

    pub fn value(&self) -> (v: u8)
        ensures
            v == self.code(),
    {
        match self {
            FilterType::LatestGroup => 0x1,
            FilterType::LatestObject => 0x2,
            FilterType::AbsoluteStart(_) => 0x3,
            FilterType::AbsoluteRange(_, _) => 0x4,
        }
    }

    /// What writing a filter appends: its code, then its start, then its
    /// end as written; a range whose end comes before its start is refused.
    pub open spec fn spec_wire(v: FilterType) -> Result<Seq<u8>, ErrorView> {
        match v {
            FilterType::LatestGroup => spec_var_int(0x1),
            FilterType::LatestObject => spec_var_int(0x2),
            FilterType::AbsoluteStart(start) => then(
                spec_var_int(0x3),
                FullSequence::spec_wire(start),
            ),
            FilterType::AbsoluteRange(start, end) => if end.group_id < start.group_id {
                Err(frame_err("End group is less than start group"))
            } else if end.group_id == start.group_id && end.object_id < start.object_id {
                Err(frame_err("End object comes before start object"))
            } else {
                then(
                    then(spec_var_int(0x4), FullSequence::spec_wire(start)),
                    FullSequence::spec_wire(end_to_wire(end)),
                )
            },
        }
    }

    /// Reading a filter at `off`.
    pub open spec fn spec_parse(s: Seq<u8>, off: int) -> Result<(FilterType, int), ErrorView> {
        match spec_read_var_int(s, off) {
            Ok((v, p)) => if v == 0x1 {
                Ok((FilterType::LatestGroup, p))
            } else if v == 0x2 {
                Ok((FilterType::LatestObject, p))
            } else if v == 0x3 {
                match FullSequence::spec_parse(s, p) {
                    Ok((start, p2)) => Ok((FilterType::AbsoluteStart(start), p2)),
                    Err(e) => Err(e),
                }
            } else if v == 0x4 {
                match FullSequence::spec_parse(s, p) {
                    Ok((start, p2)) => match FullSequence::spec_parse(s, p2) {
                        Ok((wire_end, p3)) => {
                            let end = end_from_wire(wire_end);
                            if end.group_id < start.group_id {
                                Err(
                                    parse_err(
                                        ErrorCode::ProtocolViolation,
                                        "End group is less than start group",
                                    ),
                                )
                            } else if end.group_id == start.group_id && end.object_id
                                < start.object_id {
                                Err(
                                    parse_err(
                                        ErrorCode::ProtocolViolation,
                                        "End object comes before start object",
                                    ),
                                )
                            } else {
                                Ok((FilterType::AbsoluteRange(start, end), p3))
                            }
                        },
                        Err(e) => Err(e),
                    },
                    Err(e) => Err(e),
                }
            } else {
                Err(ErrorView::ErrInvalidFilterType(v))
            },
            Err(e) => Err(e),
        }
    }

    pub fn parse(r: &[u8], pos: usize) -> (res: Result<(FilterType, usize), Error>)
        ensures
            read_outcome(res, FilterType::spec_parse(r@, pos as int)),
    {
        let (v, p) = match read_var_int(r, pos) {
            Ok(x) => x,
            Err(e) => return Err(e),
        };
        if v == 0x1 {
            Ok((FilterType::LatestGroup, p))
        } else if v == 0x2 {
            Ok((FilterType::LatestObject, p))
        } else if v == 0x3 {
            match FullSequence::parse(r, p) {
                Ok((start, p2)) => Ok((FilterType::AbsoluteStart(start), p2)),
                Err(e) => Err(e),
            }
        } else if v == 0x4 {
            let (start, p2) = match FullSequence::parse(r, p) {
                Ok(x) => x,
                Err(e) => return Err(e),
            };
            let (wire_end, p3) = match FullSequence::parse(r, p2) {
                Ok(x) => x,
                Err(e) => return Err(e),
            };
            let end = FullSequence {
                group_id: wire_end.group_id,
                object_id: end_object_from_wire(wire_end.object_id),
            };
            if end.group_id < start.group_id {
                Err(
                    Error::ErrParseError(
                        ErrorCode::ProtocolViolation,
                        text("End group is less than start group"),
                    ),
                )
            } else if end.group_id == start.group_id && end.object_id < start.object_id {
                Err(
                    Error::ErrParseError(
                        ErrorCode::ProtocolViolation,
                        text("End object comes before start object"),
                    ),
                )
            } else {
                Ok((FilterType::AbsoluteRange(start, end), p3))
            }
        } else {
            Err(Error::ErrInvalidFilterType(v))
        }
    }

    pub fn write(&self, w: &mut Vec<u8>) -> (res: Result<usize, Error>)
        ensures
            wrote(old(w)@, final(w)@, res, FilterType::spec_wire(*self)),
            self.range_refused() ==> final(w)@ == old(w)@,
    {
        let ghost old_w = w@;
        match *self {
            FilterType::LatestGroup => write_var_int(0x1, w),
            FilterType::LatestObject => write_var_int(0x2, w),
            FilterType::AbsoluteStart(start) => {
                let r = write_var_int(0x3, w);
                proof {
                    lemma_first_step(old_w, w@, r, spec_var_int(0x3));
                }
                let l1 = match r {
                    Ok(l) => l,
                    Err(e) => return Err(e),
                };
                let r = start.write(w);
                proof {
                    lemma_then_step(old_w, spec_var_int(0x3)->Ok_0, w@, r, FullSequence::spec_wire(start));
                    lemma_vec_len(w);
                }
                let l2 = match r {
                    Ok(l) => l,
                    Err(e) => return Err(e),
                };
                Ok(l1 + l2)
            },
            FilterType::AbsoluteRange(start, end) => {
                if end.group_id < start.group_id {
                    return Err(Error::ErrFrameError(text("End group is less than start group")));
                } else if end.group_id == start.group_id && end.object_id < start.object_id {
                    return Err(Error::ErrFrameError(text("End object comes before start object")));
                }
                let r = write_var_int(0x4, w);
                proof {
                    lemma_first_step(old_w, w@, r, spec_var_int(0x4));
                }
                let l1 = match r {
                    Ok(l) => l,
                    Err(e) => return Err(e),
                };
                let ghost acc = spec_var_int(0x4)->Ok_0;
                let r = start.write(w);
                proof {
                    lemma_then_step(old_w, acc, w@, r, FullSequence::spec_wire(start));
                    lemma_vec_len(w);
                }
                let l2 = match r {
                    Ok(l) => l,
                    Err(e) => return Err(e),
                };
                let ghost acc2 = acc + FullSequence::spec_wire(start)->Ok_0;
                let wire_end = FullSequence {
                    group_id: end.group_id,
                    object_id: end_object_to_wire(end.object_id),
                };
                let r = wire_end.write(w);
                proof {
                    lemma_then_step(old_w, acc2, w@, r, FullSequence::spec_wire(wire_end));
                    lemma_vec_len(w);
                }
                let l3 = match r {
                    Ok(l) => l,
                    Err(e) => return Err(e),
                };
                Ok(l1 + l2 + l3)
            },
        }
    }

    /// A filter written and read back is the same filter.
    pub proof fn lemma_roundtrip(v: FilterType, s: Seq<u8>, off: int)
        requires
            FilterType::spec_wire(v) is Ok,
            at(s, off, FilterType::spec_wire(v)->Ok_0),
        ensures
            FilterType::spec_parse(s, off) == Ok::<(FilterType, int), ErrorView>(
                (v, off + FilterType::spec_wire(v)->Ok_0.len()),
            ),
    {
        match v {
            FilterType::LatestGroup => {
                lemma_u64_roundtrip(0x1, s, off);
            },
            FilterType::LatestObject => {
                lemma_u64_roundtrip(0x2, s, off);
            },
            FilterType::AbsoluteStart(start) => {
                let a = spec_var_int(0x3)->Ok_0;
                let b = FullSequence::spec_wire(start)->Ok_0;
                lemma_at_split(s, off, a, b);
                lemma_u64_roundtrip(0x3, s, off);
                FullSequence::lemma_roundtrip(start, s, off + a.len());
            },
            FilterType::AbsoluteRange(start, end) => {
                let a = spec_var_int(0x4)->Ok_0;
                let b = FullSequence::spec_wire(start)->Ok_0;
                let c = FullSequence::spec_wire(end_to_wire(end))->Ok_0;
                lemma_at_split(s, off, a + b, c);
                lemma_at_split(s, off, a, b);
                lemma_u64_roundtrip(0x4, s, off);
                FullSequence::lemma_roundtrip(start, s, off + a.len());
                FullSequence::lemma_roundtrip(end_to_wire(end), s, off + (a + b).len());
                assert(end_from_wire(end_to_wire(end)) == end);
            },
        }
    }
}

impl Serializer for FilterType {
    open spec fn spec_serialize(v: FilterType) -> Result<Seq<u8>, ErrorView> {
        FilterType::spec_wire(v)
    }

    fn serialize(&self, w: &mut Vec<u8>) -> (res: Result<usize, Error>)
        ensures
            self.range_refused() ==> final(w)@ == old(w)@,
    {
        self.write(w)
    }
}

impl Deserializer for FilterType {
    open spec fn spec_deserialize(s: Seq<u8>) -> Result<(FilterType, int), ErrorView> {
        FilterType::spec_parse(s, 0)
    }

    fn deserialize(r: &[u8]) -> (res: Result<(FilterType, usize), Error>) {
        FilterType::parse(r, 0)
    }
}

/// Protocol versions.
#[derive(Default, Debug, Copy, Clone, Eq, PartialEq, Structural)]
pub enum Version {
    #[default]
    Draft00,
    Draft01,
    Draft02,
    Draft03,
    Draft04,
    Unsupported(u32),
}

impl View for Version {
    type V = Version;

    open spec fn view(&self) -> Version {
        *self
    }
}

impl Version {
    /// The wire code of a version.
    pub open spec fn code(self) -> u64 {
        match self {
            Version::Draft00 => 0xff000000,
            Version::Draft01 => 0xff000001,
            Version::Draft02 => 0xff000002,
            Version::Draft03 => 0xff000003,
            Version::Draft04 => 0xff000004,
            Version::Unsupported(value) => value as u64,
        }
    }

    /// The version of a wire code; unknown codes are kept, cut to 32 bits.
    pub open spec fn from_code(value: u64) -> Version {
        if value == 0xff000000 {
            Version::Draft00
        } else if value == 0xff000001 {
            Version::Draft01
        } else if value == 0xff000002 {
            Version::Draft02
        } else if value == 0xff000003 {
            Version::Draft03
        } else if value == 0xff000004 {
            Version::Draft04
        } else {
            Version::Unsupported(value as u32)
        }
    }

    pub fn from(value: u64) -> (v: Version)
        ensures
            v == Version::from_code(value),
    {
        if value == 0xff000000 {
            Version::Draft00
        } else if value == 0xff000001 {
            Version::Draft01
        } else if value == 0xff000002 {
            Version::Draft02
        } else if value == 0xff000003 {
            Version::Draft03
        } else if value == 0xff000004 {
            Version::Draft04
        } else {
            Version::Unsupported(value as u32)
        }
    }

    pub fn value(&self) -> (v: u64)
        ensures
            v == self.code(),
    {
        match *self {
            Version::Draft00 => 0xff000000,
            Version::Draft01 => 0xff000001,
            Version::Draft02 => 0xff000002,
            Version::Draft03 => 0xff000003,
            Version::Draft04 => 0xff000004,
            Version::Unsupported(value) => value as u64,
        }
    }

    /// A version that reads back as itself: not an unsupported value that
    /// carries the code of a known draft.
    pub open spec fn is_canonical(self) -> bool {
        Version::from_code(self.code()) == self
    }

    pub open spec fn spec_wire(v: Version) -> Result<Seq<u8>, ErrorView> {
        spec_var_int(v.code())
    }

    pub open spec fn spec_parse(s: Seq<u8>, off: int) -> Result<(Version, int), ErrorView> {
        match spec_read_var_int(s, off) {
            Ok((v, p)) => Ok((Version::from_code(v), p)),
            Err(e) => Err(e),
        }
    }

    pub fn parse(r: &[u8], pos: usize) -> (res: Result<(Version, usize), Error>)
        ensures
            read_outcome(res, Version::spec_parse(r@, pos as int)),
    {
        match read_var_int(r, pos) {
            Ok((v, p)) => Ok((Version::from(v), p)),
            Err(e) => Err(e),
        }
    }

    pub fn write(&self, w: &mut Vec<u8>) -> (res: Result<usize, Error>)
        ensures
            wrote(old(w)@, final(w)@, res, Version::spec_wire(*self)),
    {
        write_var_int(self.value(), w)
    }

    /// A version written and read back is the same version.
    pub proof fn lemma_roundtrip(v: Version, s: Seq<u8>, off: int)
        requires
            v.is_canonical(),
            at(s, off, Version::spec_wire(v)->Ok_0),
        ensures
            Version::spec_wire(v) is Ok,
            Version::spec_parse(s, off) == Ok::<(Version, int), ErrorView>(
                (v, off + Version::spec_wire(v)->Ok_0.len()),
            ),
    {
        lemma_u64_roundtrip(v.code(), s, off);
    }
}

impl Serializer for Version {
    open spec fn spec_serialize(v: Version) -> Result<Seq<u8>, ErrorView> {
        Version::spec_wire(v)
    }

    fn serialize(&self, w: &mut Vec<u8>) -> (res: Result<usize, Error>) {
        self.write(w)
    }
}

impl Deserializer for Version {
    open spec fn spec_deserialize(s: Seq<u8>) -> Result<(Version, int), ErrorView> {
        Version::spec_parse(s, 0)
    }

    fn deserialize(r: &[u8]) -> (res: Result<(Version, usize), Error>) {
        Version::parse(r, 0)
    }
}

/// What an endpoint does in a session.
#[derive(Default, Debug, Copy, Clone, Eq, PartialEq, Structural)]
pub enum Role {
    Publisher,
    Subscriber,
    #[default]
    PubSub,
}

impl View for Role {
    type V = Role;

    open spec fn view(&self) -> Role {
        *self
    }
}

impl Role {
    /// The wire code of a role.
    pub open spec fn code(self) -> u64 {
        match self {
            Role::Publisher => 0x1,
            Role::Subscriber => 0x2,
            Role::PubSub => 0x3,
        }
    }

    pub fn value(&self) -> (v: u64)
        ensures
            v == self.code(),
    {
        match *self {
            Role::Publisher => 0x1,
            Role::Subscriber => 0x2,
            Role::PubSub => 0x3,
        }
    }

    /// The role of a wire code, or `ErrInvalidRole`.
    pub open spec fn spec_try_from(value: u64) -> Result<Role, ErrorView> {
        if value == 0x1 {
            Ok(Role::Publisher)
        } else if value == 0x2 {
            Ok(Role::Subscriber)
        } else if value == 0x3 {
            Ok(Role::PubSub)
        } else {
            Err(ErrorView::ErrInvalidRole(value))
        }
    }

    pub fn try_from(value: u64) -> (res: Result<Role, Error>)
        ensures
            match Role::spec_try_from(value) {
                Ok(r) => res == Ok::<Role, Error>(r),
                Err(e) => res matches Err(x) && x@ == e,
            },
    {
        if value == 0x1 {
            Ok(Role::Publisher)
        } else if value == 0x2 {
            Ok(Role::Subscriber)
        } else if value == 0x3 {
            Ok(Role::PubSub)
        } else {
            Err(Error::ErrInvalidRole(value))
        }
    }

    pub open spec fn spec_wire(v: Role) -> Result<Seq<u8>, ErrorView> {
        spec_var_int(v.code())
    }

    pub open spec fn spec_parse(s: Seq<u8>, off: int) -> Result<(Role, int), ErrorView> {
        match spec_read_var_int(s, off) {
            Ok((v, p)) => match Role::spec_try_from(v) {
                Ok(r) => Ok((r, p)),
                Err(e) => Err(e),
            },
            Err(e) => Err(e),
        }
    }

    pub fn parse(r: &[u8], pos: usize) -> (res: Result<(Role, usize), Error>)
        ensures
            read_outcome(res, Role::spec_parse(r@, pos as int)),
    {
        let (v, p) = match read_var_int(r, pos) {
            Ok(x) => x,
            Err(e) => return Err(e),
        };
        match Role::try_from(v) {
            Ok(role) => Ok((role, p)),
            Err(e) => Err(e),
        }
    }

    pub fn write(&self, w: &mut Vec<u8>) -> (res: Result<usize, Error>)
        ensures
            wrote(old(w)@, final(w)@, res, Role::spec_wire(*self)),
    {
        write_var_int(self.value(), w)
    }

    /// A role written and read back is the same role.
    pub proof fn lemma_roundtrip(v: Role, s: Seq<u8>, off: int)
        requires
            at(s, off, Role::spec_wire(v)->Ok_0),
        ensures
            Role::spec_wire(v) is Ok,
            Role::spec_parse(s, off) == Ok::<(Role, int), ErrorView>(
                (v, off + Role::spec_wire(v)->Ok_0.len()),
            ),
    {
        lemma_u64_roundtrip(v.code(), s, off);
    }
}

impl Serializer for Role {
    open spec fn spec_serialize(v: Role) -> Result<Seq<u8>, ErrorView> {
        Role::spec_wire(v)
    }

    fn serialize(&self, w: &mut Vec<u8>) -> (res: Result<usize, Error>) {
        self.write(w)
    }
}

impl Deserializer for Role {
    open spec fn spec_deserialize(s: Seq<u8>) -> Result<(Role, int), ErrorView> {
        Role::spec_parse(s, 0)
    }

    fn deserialize(r: &[u8]) -> (res: Result<(Role, usize), Error>) {
        Role::parse(r, 0)
    }
}

} // verus!
