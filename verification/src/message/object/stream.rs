use crate::error::{Error, ErrorView};
use crate::serde::varint::{lemma_u64_roundtrip, read_var_int, spec_read_var_int, spec_var_int, write_var_int};
use crate::serde::{append_bytes, copy_range, at, lemma_at_split, lemma_first_step, lemma_then_step, lemma_vec_len, read_outcome, then, wrote, Deserializer, Serializer};
use vstd::prelude::*;

verus! {

/// The header of a stream that carries one object.
#[derive(Default, Debug, Clone, Eq, PartialEq)]
pub struct StreamHeader {
    pub subscribe_id: u64,
    pub track_alias: u64,
    pub group_id: u64,
    pub object_id: u64,
    pub object_send_order: u64,
}

impl View for StreamHeader {
    type V = StreamHeader;

    open spec fn view(&self) -> StreamHeader {
        *self
    }
}

impl StreamHeader {
    /// What writing a StreamHeader appends: its fields in order.
    pub open spec fn spec_wire(v: StreamHeader) -> Result<Seq<u8>, ErrorView> {
        then(then(then(then(spec_var_int(v.subscribe_id), spec_var_int(v.track_alias)), spec_var_int(v.group_id)), spec_var_int(v.object_id)), spec_var_int(v.object_send_order))
    }

    /// Reading a StreamHeader at `off`.
    pub open spec fn spec_parse(s: Seq<u8>, off: int) -> Result<(StreamHeader, int), ErrorView> {
        match spec_read_var_int(s, off) {
            Ok((x_subscribe_id, p1)) => {
                match spec_read_var_int(s, p1) {
                    Ok((x_track_alias, p2)) => {
                        match spec_read_var_int(s, p2) {
                            Ok((x_group_id, p3)) => {
                                match spec_read_var_int(s, p3) {
                                    Ok((x_object_id, p4)) => {
                                        match spec_read_var_int(s, p4) {
                                            Ok((x_object_send_order, p5)) => {
                                                Ok((StreamHeader { subscribe_id: x_subscribe_id, track_alias: x_track_alias, group_id: x_group_id, object_id: x_object_id, object_send_order: x_object_send_order }, p5))
                                            },
                                            Err(e) => Err(e),
                                        }
                                    },
                                    Err(e) => Err(e),
                                }
                            },
                            Err(e) => Err(e),
                        }
                    },
                    Err(e) => Err(e),
                }
            },
            Err(e) => Err(e),
        }
    }

    pub fn parse(r: &[u8], pos: usize) -> (res: Result<(StreamHeader, usize), Error>)
        ensures
            read_outcome(res, StreamHeader::spec_parse(r@, pos as int)),
    {
        let (subscribe_id, p1) = match read_var_int(r, pos) {
            Ok(x) => x,
            Err(e) => return Err(e),
        };
        let (track_alias, p2) = match read_var_int(r, p1) {
            Ok(x) => x,
            Err(e) => return Err(e),
        };
        let (group_id, p3) = match read_var_int(r, p2) {
            Ok(x) => x,
            Err(e) => return Err(e),
        };
        let (object_id, p4) = match read_var_int(r, p3) {
            Ok(x) => x,
            Err(e) => return Err(e),
        };
        let (object_send_order, p5) = match read_var_int(r, p4) {
            Ok(x) => x,
            Err(e) => return Err(e),
        };
        Ok((StreamHeader { subscribe_id, track_alias, group_id, object_id, object_send_order }, p5))
    }

    /// A StreamHeader written and read back is the same StreamHeader.
    pub proof fn lemma_roundtrip(v: StreamHeader, s: Seq<u8>, off: int)
        requires
            StreamHeader::spec_wire(v) is Ok,
            at(s, off, StreamHeader::spec_wire(v)->Ok_0),
        ensures
            StreamHeader::spec_parse(s, off) == Ok::<(StreamHeader, int), ErrorView>(
                (v, off + StreamHeader::spec_wire(v)->Ok_0.len()),
            ),
    {
        let b0 = spec_var_int(v.subscribe_id)->Ok_0;
        let b1 = spec_var_int(v.track_alias)->Ok_0;
        let b2 = spec_var_int(v.group_id)->Ok_0;
        let b3 = spec_var_int(v.object_id)->Ok_0;
        let b4 = spec_var_int(v.object_send_order)->Ok_0;
        lemma_at_split(s, off, (b0 + b1 + b2 + b3), b4);
        lemma_at_split(s, off, (b0 + b1 + b2), b3);
        lemma_at_split(s, off, (b0 + b1), b2);
        lemma_at_split(s, off, b0, b1);
        lemma_u64_roundtrip(v.subscribe_id, s, off);
        lemma_u64_roundtrip(v.track_alias, s, off + b0.len());
        lemma_u64_roundtrip(v.group_id, s, off + (b0 + b1).len());
        lemma_u64_roundtrip(v.object_id, s, off + (b0 + b1 + b2).len());
        lemma_u64_roundtrip(v.object_send_order, s, off + (b0 + b1 + b2 + b3).len());
    }

    pub fn write(&self, w: &mut Vec<u8>) -> (res: Result<usize, Error>)
        ensures
            wrote(old(w)@, final(w)@, res, StreamHeader::spec_wire(self@)),
    {
        let ghost old_w = w@;
        let r = write_var_int(self.subscribe_id, w);
        proof {
            lemma_first_step(old_w, w@, r, spec_var_int(self.subscribe_id));
        }
        let mut total = match r {
            Ok(l) => l,
            Err(e) => return Err(e),
        };
        let ghost mut acc = spec_var_int(self.subscribe_id)->Ok_0;
        let r = write_var_int(self.track_alias, w);
        proof {
            lemma_then_step(old_w, acc, w@, r, spec_var_int(self.track_alias));
            lemma_vec_len(w);
        }
        let l = match r {
            Ok(l) => l,
            Err(e) => return Err(e),
        };
        proof {
            acc = acc + spec_var_int(self.track_alias)->Ok_0;
        }
        total = total + l;
        let r = write_var_int(self.group_id, w);
        proof {
            lemma_then_step(old_w, acc, w@, r, spec_var_int(self.group_id));
            lemma_vec_len(w);
        }
        let l = match r {
            Ok(l) => l,
            Err(e) => return Err(e),
        };
        proof {
            acc = acc + spec_var_int(self.group_id)->Ok_0;
        }
        total = total + l;
        let r = write_var_int(self.object_id, w);
        proof {
            lemma_then_step(old_w, acc, w@, r, spec_var_int(self.object_id));
            lemma_vec_len(w);
        }
        let l = match r {
            Ok(l) => l,
            Err(e) => return Err(e),
        };
        proof {
            acc = acc + spec_var_int(self.object_id)->Ok_0;
        }
        total = total + l;
        let r = write_var_int(self.object_send_order, w);
        proof {
            lemma_then_step(old_w, acc, w@, r, spec_var_int(self.object_send_order));
            lemma_vec_len(w);
        }
        let l = match r {
            Ok(l) => l,
            Err(e) => return Err(e),
        };
        proof {
            acc = acc + spec_var_int(self.object_send_order)->Ok_0;
        }
        total = total + l;
        Ok(total)
    }
}

impl Serializer for StreamHeader {
    open spec fn spec_serialize(v: StreamHeader) -> Result<Seq<u8>, ErrorView> {
        StreamHeader::spec_wire(v)
    }

    fn serialize(&self, w: &mut Vec<u8>) -> (res: Result<usize, Error>) {
        self.write(w)
    }
}

impl Deserializer for StreamHeader {
    open spec fn spec_deserialize(s: Seq<u8>) -> Result<(StreamHeader, int), ErrorView> {
        StreamHeader::spec_parse(s, 0)
    }

    fn deserialize(r: &[u8]) -> (res: Result<(StreamHeader, usize), Error>) {
        StreamHeader::parse(r, 0)
    }
}

/// An object on a stream of its own: its status and the payload, which runs
/// to the end of the buffer.
#[derive(Default, Debug, Clone, Eq, PartialEq)]
pub struct StreamObject {
    pub object_status: u64,
    pub object_payload: Vec<u8>,
}

/// The content of a [`StreamObject`], the payload taken as a sequence.
pub struct StreamObjectView {
    pub object_status: u64,
    pub object_payload: Seq<u8>,
}

impl View for StreamObject {
    type V = StreamObjectView;

    open spec fn view(&self) -> StreamObjectView {
        StreamObjectView { object_status: self.object_status, object_payload: self.object_payload@ }
    }
}

impl StreamObject {
    /// What writing a StreamObject appends: its numbers, then the payload as it is.
    pub open spec fn spec_wire(v: StreamObjectView) -> Result<Seq<u8>, ErrorView> {
        then(spec_var_int(v.object_status), Ok(v.object_payload))
    }

    /// Reading a StreamObject at `off`: the payload is all that follows its numbers.
    pub open spec fn spec_parse(s: Seq<u8>, off: int) -> Result<(StreamObjectView, int), ErrorView> {
        match spec_read_var_int(s, off) {
            Ok((x_object_status, p1)) => {
                Ok((StreamObjectView { object_status: x_object_status, object_payload: s.subrange(p1, s.len() as int) }, s.len() as int))
            },
            Err(e) => Err(e),
        }
    }

    pub fn parse(r: &[u8], pos: usize) -> (res: Result<(StreamObject, usize), Error>)
        ensures
            read_outcome(res, StreamObject::spec_parse(r@, pos as int)),
    {
        let (object_status, p1) = match read_var_int(r, pos) {
            Ok(x) => x,
            Err(e) => return Err(e),
        };
        let object_payload = copy_range(r, p1, r.len());
        Ok((StreamObject { object_status, object_payload }, r.len()))
    }

    /// A StreamObject written at the end of a buffer is read back the same, when
    /// nothing follows it.
    pub proof fn lemma_roundtrip(v: StreamObjectView, s: Seq<u8>, off: int)
        requires
            StreamObject::spec_wire(v) is Ok,
            at(s, off, StreamObject::spec_wire(v)->Ok_0),
            off + StreamObject::spec_wire(v)->Ok_0.len() == s.len(),
        ensures
            StreamObject::spec_parse(s, off) == Ok::<(StreamObjectView, int), ErrorView>((v, s.len() as int)),
    {
        let b0 = spec_var_int(v.object_status)->Ok_0;
        let bp = v.object_payload;
        lemma_at_split(s, off, b0, bp);
        lemma_u64_roundtrip(v.object_status, s, off);
        assert(s.subrange(off + (b0).len(), s.len() as int) =~= bp);
    }

    pub fn write(&self, w: &mut Vec<u8>) -> (res: Result<usize, Error>)
        ensures
            wrote(old(w)@, final(w)@, res, StreamObject::spec_wire(self@)),
    {
        let ghost old_w = w@;
        let r = write_var_int(self.object_status, w);
        proof {
            lemma_first_step(old_w, w@, r, spec_var_int(self.object_status));
        }
        let mut total = match r {
            Ok(l) => l,
            Err(e) => return Err(e),
        };
        let ghost mut acc = spec_var_int(self.object_status)->Ok_0;
        append_bytes(self.object_payload.as_slice(), w);
        proof {
            lemma_vec_len(w);
            assert(w@ =~= old_w + (acc + self.object_payload@));
        }
        Ok(total + self.object_payload.len())
    }
}

impl Serializer for StreamObject {
    open spec fn spec_serialize(v: StreamObjectView) -> Result<Seq<u8>, ErrorView> {
        StreamObject::spec_wire(v)
    }

    fn serialize(&self, w: &mut Vec<u8>) -> (res: Result<usize, Error>) {
        self.write(w)
    }
}

impl Deserializer for StreamObject {
    open spec fn spec_deserialize(s: Seq<u8>) -> Result<(StreamObjectView, int), ErrorView> {
        StreamObject::spec_parse(s, 0)
    }

    fn deserialize(r: &[u8]) -> (res: Result<(StreamObject, usize), Error>) {
        StreamObject::parse(r, 0)
    }
}

} // verus!
