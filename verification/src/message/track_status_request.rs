use crate::error::{Error, ErrorView};
use crate::message::fits;
use crate::serde::{
    at, lemma_at_split, lemma_first_step, lemma_string_roundtrip, lemma_then_step, lemma_vec_len,
    read_outcome, read_string, spec_read_string, spec_string, then, write_string, wrote,
    Deserializer, Serializer,
};
use vstd::prelude::*;

verus! {

/// Asks for the status of a track.
#[derive(Default, Debug, Clone, Eq, PartialEq)]
pub struct TrackStatusRequest {
    pub track_namespace: String,
    pub track_name: String,
}

/// The content of a [`TrackStatusRequest`], strings taken by their characters.
pub struct TrackStatusRequestView {
    pub track_namespace: Seq<char>,
    pub track_name: Seq<char>,
}

impl View for TrackStatusRequest {
    type V = TrackStatusRequestView;

    open spec fn view(&self) -> TrackStatusRequestView {
        TrackStatusRequestView { track_namespace: self.track_namespace@, track_name: self.track_name@ }
    }
}

impl TrackStatusRequest {
    /// What writing a TrackStatusRequest appends: its fields in order.
    pub open spec fn spec_wire(v: TrackStatusRequestView) -> Result<Seq<u8>, ErrorView> {
        then(spec_string(v.track_namespace), spec_string(v.track_name))
    }

    /// Reading a TrackStatusRequest at `off`.
    pub open spec fn spec_parse(s: Seq<u8>, off: int) -> Result<(TrackStatusRequestView, int), ErrorView> {
        match spec_read_string(s, off) {
            Ok((x_track_namespace, p1)) => {
                match spec_read_string(s, p1) {
                    Ok((x_track_name, p2)) => {
                        Ok((TrackStatusRequestView { track_namespace: x_track_namespace, track_name: x_track_name }, p2))
                    },
                    Err(e) => Err(e),
                }
            },
            Err(e) => Err(e),
        }
    }

    pub fn parse(r: &[u8], pos: usize) -> (res: Result<(TrackStatusRequest, usize), Error>)
        ensures
            read_outcome(res, TrackStatusRequest::spec_parse(r@, pos as int)),
    {
        let (track_namespace, p1) = match read_string(r, pos) {
            Ok(x) => x,
            Err(e) => return Err(e),
        };
        let (track_name, p2) = match read_string(r, p1) {
            Ok(x) => x,
            Err(e) => return Err(e),
        };
        Ok((TrackStatusRequest { track_namespace, track_name }, p2))
    }

    /// A TrackStatusRequest written and read back is the same TrackStatusRequest.
    pub proof fn lemma_roundtrip(v: TrackStatusRequestView, s: Seq<u8>, off: int)
        requires
            TrackStatusRequest::spec_wire(v) is Ok,
            fits(v.track_namespace),
            fits(v.track_name),
            at(s, off, TrackStatusRequest::spec_wire(v)->Ok_0),
        ensures
            TrackStatusRequest::spec_parse(s, off) == Ok::<(TrackStatusRequestView, int), ErrorView>(
                (v, off + TrackStatusRequest::spec_wire(v)->Ok_0.len()),
            ),
    {
        let b0 = spec_string(v.track_namespace)->Ok_0;
        let b1 = spec_string(v.track_name)->Ok_0;
        lemma_at_split(s, off, b0, b1);
        lemma_string_roundtrip(v.track_namespace, s, off);
        lemma_string_roundtrip(v.track_name, s, off + b0.len());
    }

    pub fn write(&self, w: &mut Vec<u8>) -> (res: Result<usize, Error>)
        ensures
            wrote(old(w)@, final(w)@, res, TrackStatusRequest::spec_wire(self@)),
    {
        let ghost old_w = w@;
        let r = write_string(&self.track_namespace, w);
        proof {
            lemma_first_step(old_w, w@, r, spec_string(self.track_namespace@));
        }
        let mut total = match r {
            Ok(l) => l,
            Err(e) => return Err(e),
        };
        let ghost mut acc = spec_string(self.track_namespace@)->Ok_0;
        let r = write_string(&self.track_name, w);
        proof {
            lemma_then_step(old_w, acc, w@, r, spec_string(self.track_name@));
            lemma_vec_len(w);
        }
        let l = match r {
            Ok(l) => l,
            Err(e) => return Err(e),
        };
        proof {
            acc = acc + spec_string(self.track_name@)->Ok_0;
        }
        total = total + l;
        Ok(total)
    }
}

impl Serializer for TrackStatusRequest {
    open spec fn spec_serialize(v: TrackStatusRequestView) -> Result<Seq<u8>, ErrorView> {
        TrackStatusRequest::spec_wire(v)
    }

    fn serialize(&self, w: &mut Vec<u8>) -> (res: Result<usize, Error>) {
        self.write(w)
    }
}

impl Deserializer for TrackStatusRequest {
    open spec fn spec_deserialize(s: Seq<u8>) -> Result<(TrackStatusRequestView, int), ErrorView> {
        TrackStatusRequest::spec_parse(s, 0)
    }

    fn deserialize(r: &[u8]) -> (res: Result<(TrackStatusRequest, usize), Error>) {
        TrackStatusRequest::parse(r, 0)
    }
}
} // verus!
