use crate::error::{Error, ErrorView};
use crate::serde::varint::{lemma_u64_roundtrip, read_var_int, spec_read_var_int, spec_var_int, write_var_int};
use crate::message::object::{read_opt_var_int, spec_opt_var_int, spec_read_opt_var_int, write_opt_var_int};
use crate::serde::{append_bytes, copy_range, at, lemma_at_split, lemma_first_step, lemma_then_step, lemma_vec_len, read_outcome, then, wrote, Deserializer, Serializer};
use vstd::prelude::*;

verus! {

/// The header of a stream that carries a whole track.
#[derive(Default, Debug, Clone, Eq, PartialEq)]
pub struct TrackHeader {
    pub subscribe_id: u64,
    pub track_alias: u64,
    pub object_send_order: u64,
}

impl View for TrackHeader {
    type V = TrackHeader;

    open spec fn view(&self) -> TrackHeader {
        *self
    }
}

impl TrackHeader {
    /// What writing a TrackHeader appends: its fields in order.
    pub open spec fn spec_wire(v: TrackHeader) -> Result<Seq<u8>, ErrorView> {
        then(then(spec_var_int(v.subscribe_id), spec_var_int(v.track_alias)), spec_var_int(v.object_send_order))
    }

    /// Reading a TrackHeader at `off`.
    pub open spec fn spec_parse(s: Seq<u8>, off: int) -> Result<(TrackHeader, int), ErrorView> {
        match spec_read_var_int(s, off) {
            Ok((x_subscribe_id, p1)) => {
                match spec_read_var_int(s, p1) {
                    Ok((x_track_alias, p2)) => {
                        match spec_read_var_int(s, p2) {
                            Ok((x_object_send_order, p3)) => {
                                Ok((TrackHeader { subscribe_id: x_subscribe_id, track_alias: x_track_alias, object_send_order: x_object_send_order }, p3))
                            },
                            Err(e) => Err(e),
                        }
                    },
                    Err(e) => Err(e),
                }
            },
            Err(e) => Err(e),
        }
    }

    pub fn parse(r: &[u8], pos: usize) -> (res: Result<(TrackHeader, usize), Error>)
        ensures
            read_outcome(res, TrackHeader::spec_parse(r@, pos as int)),
    {
        let (subscribe_id, p1) = match read_var_int(r, pos) {
            Ok(x) => x,
            Err(e) => return Err(e),
        };
        let (track_alias, p2) = match read_var_int(r, p1) {
            Ok(x) => x,
            Err(e) => return Err(e),
        };
        let (object_send_order, p3) = match read_var_int(r, p2) {
            Ok(x) => x,
            Err(e) => return Err(e),
        };
        Ok((TrackHeader { subscribe_id, track_alias, object_send_order }, p3))
    }

    /// A TrackHeader written and read back is the same TrackHeader.
    pub proof fn lemma_roundtrip(v: TrackHeader, s: Seq<u8>, off: int)
        requires
            TrackHeader::spec_wire(v) is Ok,
            at(s, off, TrackHeader::spec_wire(v)->Ok_0),
        ensures
            TrackHeader::spec_parse(s, off) == Ok::<(TrackHeader, int), ErrorView>(
                (v, off + TrackHeader::spec_wire(v)->Ok_0.len()),
            ),
    {
        let b0 = spec_var_int(v.subscribe_id)->Ok_0;
        let b1 = spec_var_int(v.track_alias)->Ok_0;
        let b2 = spec_var_int(v.object_send_order)->Ok_0;
        lemma_at_split(s, off, (b0 + b1), b2);
        lemma_at_split(s, off, b0, b1);
        lemma_u64_roundtrip(v.subscribe_id, s, off);
        lemma_u64_roundtrip(v.track_alias, s, off + b0.len());
        lemma_u64_roundtrip(v.object_send_order, s, off + (b0 + b1).len());
    }

    pub fn write(&self, w: &mut Vec<u8>) -> (res: Result<usize, Error>)
        ensures
            wrote(old(w)@, final(w)@, res, TrackHeader::spec_wire(self@)),
    {
        let ghost old_w = w@;
        let r = write_var_int(self.subscribe_id, w);
        proof {
            lemma_first_step(old_w, w@, r, spec_var_int(self.subscribe_id));
        }
        let mut total = match r {
            Ok(l) => l,
            Err(e) => return Err(e),
        };
        let ghost mut acc = spec_var_int(self.subscribe_id)->Ok_0;
        let r = write_var_int(self.track_alias, w);
        proof {
            lemma_then_step(old_w, acc, w@, r, spec_var_int(self.track_alias));
            lemma_vec_len(w);
        }
        let l = match r {
            Ok(l) => l,
            Err(e) => return Err(e),
        };
        proof {
            acc = acc + spec_var_int(self.track_alias)->Ok_0;
        }
        total = total + l;
        let r = write_var_int(self.object_send_order, w);
        proof {
            lemma_then_step(old_w, acc, w@, r, spec_var_int(self.object_send_order));
            lemma_vec_len(w);
        }
        let l = match r {
            Ok(l) => l,
            Err(e) => return Err(e),
        };
        proof {
            acc = acc + spec_var_int(self.object_send_order)->Ok_0;
        }
        total = total + l;
        Ok(total)
    }
}

impl Serializer for TrackHeader {
    open spec fn spec_serialize(v: TrackHeader) -> Result<Seq<u8>, ErrorView> {
        TrackHeader::spec_wire(v)
    }

    fn serialize(&self, w: &mut Vec<u8>) -> (res: Result<usize, Error>) {
        self.write(w)
    }
}

impl Deserializer for TrackHeader {
    open spec fn spec_deserialize(s: Seq<u8>) -> Result<(TrackHeader, int), ErrorView> {
        TrackHeader::spec_parse(s, 0)
    }

    fn deserialize(r: &[u8]) -> (res: Result<(TrackHeader, usize), Error>) {
        TrackHeader::parse(r, 0)
    }
}

/// An object on a track stream: its group, id and payload length, the status
/// where that length is zero, and the payload, which runs to the end of the
/// buffer.
#[derive(Default, Debug, Clone, Eq, PartialEq)]
pub struct TrackObject {
    pub group_id: u64,
    pub object_id: u64,
    pub object_payload_length: u64,
    pub object_status: Option<u64>,
    pub object_payload: Vec<u8>,
}

/// The content of a [`TrackObject`], the payload taken as a sequence.
pub struct TrackObjectView {
    pub group_id: u64,
    pub object_id: u64,
    pub object_payload_length: u64,
    pub object_status: Option<u64>,
    pub object_payload: Seq<u8>,
}

impl View for TrackObject {
    type V = TrackObjectView;

    open spec fn view(&self) -> TrackObjectView {
        TrackObjectView { group_id: self.group_id, object_id: self.object_id, object_payload_length: self.object_payload_length, object_status: self.object_status, object_payload: self.object_payload@ }
    }
}

impl TrackObject {
    /// What writing a TrackObject appends: its numbers, then the payload as it is.
    pub open spec fn spec_wire(v: TrackObjectView) -> Result<Seq<u8>, ErrorView> {
        then(then(then(then(spec_var_int(v.group_id), spec_var_int(v.object_id)), spec_var_int(v.object_payload_length)), spec_opt_var_int(v.object_status)), Ok(v.object_payload))
    }

    /// Reading a TrackObject at `off`: the payload is all that follows its numbers.
    pub open spec fn spec_parse(s: Seq<u8>, off: int) -> Result<(TrackObjectView, int), ErrorView> {
        match spec_read_var_int(s, off) {
            Ok((x_group_id, p1)) => {
                match spec_read_var_int(s, p1) {
                    Ok((x_object_id, p2)) => {
                        match spec_read_var_int(s, p2) {
                            Ok((x_object_payload_length, p3)) => {
                                match spec_read_opt_var_int(x_object_payload_length == 0, s, p3) {
                                    Ok((x_object_status, pq)) => {
                                        Ok((TrackObjectView { group_id: x_group_id, object_id: x_object_id, object_payload_length: x_object_payload_length, object_status: x_object_status, object_payload: s.subrange(pq, s.len() as int) }, s.len() as int))
                                    },
                                    Err(e) => Err(e),
                                }
                            },
                            Err(e) => Err(e),
                        }
                    },
                    Err(e) => Err(e),
                }
            },
            Err(e) => Err(e),
        }
    }

    pub fn parse(r: &[u8], pos: usize) -> (res: Result<(TrackObject, usize), Error>)
        ensures
            read_outcome(res, TrackObject::spec_parse(r@, pos as int)),
    {
        let (group_id, p1) = match read_var_int(r, pos) {
            Ok(x) => x,
            Err(e) => return Err(e),
        };
        let (object_id, p2) = match read_var_int(r, p1) {
            Ok(x) => x,
            Err(e) => return Err(e),
        };
        let (object_payload_length, p3) = match read_var_int(r, p2) {
            Ok(x) => x,
            Err(e) => return Err(e),
        };
        let (object_status, pq) = match read_opt_var_int(object_payload_length == 0, r, p3) {
            Ok(x) => x,
            Err(e) => return Err(e),
        };
        let object_payload = copy_range(r, pq, r.len());
        Ok((TrackObject { group_id, object_id, object_payload_length, object_status, object_payload }, r.len()))
    }

    /// A TrackObject written at the end of a buffer is read back the same, when
    /// its status is there exactly where its payload length is zero.
    pub proof fn lemma_roundtrip(v: TrackObjectView, s: Seq<u8>, off: int)
        requires
            TrackObject::spec_wire(v) is Ok,
            v.object_status is Some <==> v.object_payload_length == 0,
            at(s, off, TrackObject::spec_wire(v)->Ok_0),
            off + TrackObject::spec_wire(v)->Ok_0.len() == s.len(),
        ensures
            TrackObject::spec_parse(s, off) == Ok::<(TrackObjectView, int), ErrorView>((v, s.len() as int)),
    {
        let b0 = spec_var_int(v.group_id)->Ok_0;
        let b1 = spec_var_int(v.object_id)->Ok_0;
        let b2 = spec_var_int(v.object_payload_length)->Ok_0;
        let b3 = spec_opt_var_int(v.object_status)->Ok_0;
        let bp = v.object_payload;
        lemma_at_split(s, off, b0 + b1 + b2 + b3, bp);
        lemma_at_split(s, off, (b0 + b1 + b2), b3);
        lemma_at_split(s, off, (b0 + b1), b2);
        lemma_at_split(s, off, b0, b1);
        lemma_u64_roundtrip(v.group_id, s, off);
        lemma_u64_roundtrip(v.object_id, s, off + b0.len());
        lemma_u64_roundtrip(v.object_payload_length, s, off + (b0 + b1).len());
        if v.object_status is Some {
            lemma_u64_roundtrip(v.object_status->Some_0, s, off + (b0 + b1 + b2).len());
        }
        assert(s.subrange(off + (b0 + b1 + b2 + b3).len(), s.len() as int) =~= bp);
    }

    pub fn write(&self, w: &mut Vec<u8>) -> (res: Result<usize, Error>)
        ensures
            wrote(old(w)@, final(w)@, res, TrackObject::spec_wire(self@)),
    {
        let ghost old_w = w@;
        let r = write_var_int(self.group_id, w);
        proof {
            lemma_first_step(old_w, w@, r, spec_var_int(self.group_id));
        }
        let mut total = match r {
            Ok(l) => l,
            Err(e) => return Err(e),
        };
        let ghost mut acc = spec_var_int(self.group_id)->Ok_0;
        let r = write_var_int(self.object_id, w);
        proof {
            lemma_then_step(old_w, acc, w@, r, spec_var_int(self.object_id));
            lemma_vec_len(w);
        }
        let l = match r {
            Ok(l) => l,
            Err(e) => return Err(e),
        };
        proof {
            acc = acc + spec_var_int(self.object_id)->Ok_0;
        }
        total = total + l;
        let r = write_var_int(self.object_payload_length, w);
        proof {
            lemma_then_step(old_w, acc, w@, r, spec_var_int(self.object_payload_length));
            lemma_vec_len(w);
        }
        let l = match r {
            Ok(l) => l,
            Err(e) => return Err(e),
        };
        proof {
            acc = acc + spec_var_int(self.object_payload_length)->Ok_0;
        }
        total = total + l;
        let r = write_opt_var_int(self.object_status, w);
        proof {
            lemma_then_step(old_w, acc, w@, r, spec_opt_var_int(self.object_status));
            lemma_vec_len(w);
        }
        let l = match r {
            Ok(l) => l,
            Err(e) => return Err(e),
        };
        proof {
            acc = acc + spec_opt_var_int(self.object_status)->Ok_0;
        }
        total = total + l;
        append_bytes(self.object_payload.as_slice(), w);
        proof {
            lemma_vec_len(w);
            assert(w@ =~= old_w + (acc + self.object_payload@));
        }
        Ok(total + self.object_payload.len())
    }
}

impl TrackHeader {
    /// Reads a TrackHeader from the start of `r`.
    pub fn decode(r: &[u8]) -> (res: Result<(TrackHeader, usize), Error>)
        ensures
            read_outcome(res, TrackHeader::spec_parse(r@, 0)),
    {
        TrackHeader::parse(r, 0)
    }

    /// Appends the TrackHeader to `w`.
    pub fn encode(&self, w: &mut Vec<u8>) -> (res: Result<usize, Error>)
        ensures
            wrote(old(w)@, final(w)@, res, TrackHeader::spec_wire(self@)),
    {
        self.write(w)
    }
}

impl TrackObject {
    /// Reads a TrackObject from the start of `r`.
    pub fn decode(r: &[u8]) -> (res: Result<(TrackObject, usize), Error>)
        ensures
            read_outcome(res, TrackObject::spec_parse(r@, 0)),
    {
        TrackObject::parse(r, 0)
    }

    /// Appends the TrackObject to `w`.
    pub fn encode(&self, w: &mut Vec<u8>) -> (res: Result<usize, Error>)
        ensures
            wrote(old(w)@, final(w)@, res, TrackObject::spec_wire(self@)),
    {
        self.write(w)
    }
}

} // verus!
