use crate::error::{Error, ErrorView};
use crate::serde::varint::{lemma_u64_roundtrip, read_var_int, spec_read_var_int, spec_var_int, write_var_int};
use crate::message::object::{read_opt_var_int, spec_opt_var_int, spec_read_opt_var_int, write_opt_var_int};
use crate::serde::{append_bytes, copy_range, at, lemma_at_split, lemma_first_step, lemma_then_step, lemma_vec_len, read_outcome, then, wrote, Deserializer, Serializer};
use vstd::prelude::*;

verus! {

/// The header of a stream that carries one group.
#[derive(Default, Debug, Clone, Eq, PartialEq)]
pub struct GroupHeader {
    pub subscribe_id: u64,
    pub track_alias: u64,
    pub group_id: u64,
    pub object_send_order: u64,
}

impl View for GroupHeader {
    type V = GroupHeader;

    open spec fn view(&self) -> GroupHeader {
        *self
    }
}

impl GroupHeader {
    /// What writing a GroupHeader appends: its fields in order.
    pub open spec fn spec_wire(v: GroupHeader) -> Result<Seq<u8>, ErrorView> {
        then(then(then(spec_var_int(v.subscribe_id), spec_var_int(v.track_alias)), spec_var_int(v.group_id)), spec_var_int(v.object_send_order))
    }

    /// Reading a GroupHeader at `off`.
    pub open spec fn spec_parse(s: Seq<u8>, off: int) -> Result<(GroupHeader, int), ErrorView> {
        match spec_read_var_int(s, off) {
            Ok((x_subscribe_id, p1)) => {
                match spec_read_var_int(s, p1) {
                    Ok((x_track_alias, p2)) => {
                        match spec_read_var_int(s, p2) {
                            Ok((x_group_id, p3)) => {
                                match spec_read_var_int(s, p3) {
                                    Ok((x_object_send_order, p4)) => {
                                        Ok((GroupHeader { subscribe_id: x_subscribe_id, track_alias: x_track_alias, group_id: x_group_id, object_send_order: x_object_send_order }, p4))
                                    },
                                    Err(e) => Err(e),
                                }
                            },
                            Err(e) => Err(e),
                        }
                    },
                    Err(e) => Err(e),
                }
            },
            Err(e) => Err(e),
        }
    }

    pub fn parse(r: &[u8], pos: usize) -> (res: Result<(GroupHeader, usize), Error>)
        ensures
            read_outcome(res, GroupHeader::spec_parse(r@, pos as int)),
    {
        let (subscribe_id, p1) = match read_var_int(r, pos) {
            Ok(x) => x,
            Err(e) => return Err(e),
        };
        let (track_alias, p2) = match read_var_int(r, p1) {
            Ok(x) => x,
            Err(e) => return Err(e),
        };
        let (group_id, p3) = match read_var_int(r, p2) {
            Ok(x) => x,
            Err(e) => return Err(e),
        };
        let (object_send_order, p4) = match read_var_int(r, p3) {
            Ok(x) => x,
            Err(e) => return Err(e),
        };
        Ok((GroupHeader { subscribe_id, track_alias, group_id, object_send_order }, p4))
    }

    /// A GroupHeader written and read back is the same GroupHeader.
    pub proof fn lemma_roundtrip(v: GroupHeader, s: Seq<u8>, off: int)
        requires
            GroupHeader::spec_wire(v) is Ok,
            at(s, off, GroupHeader::spec_wire(v)->Ok_0),
        ensures
            GroupHeader::spec_parse(s, off) == Ok::<(GroupHeader, int), ErrorView>(
                (v, off + GroupHeader::spec_wire(v)->Ok_0.len()),
            ),
    {
        let b0 = spec_var_int(v.subscribe_id)->Ok_0;
        let b1 = spec_var_int(v.track_alias)->Ok_0;
        let b2 = spec_var_int(v.group_id)->Ok_0;
        let b3 = spec_var_int(v.object_send_order)->Ok_0;
        lemma_at_split(s, off, (b0 + b1 + b2), b3);
        lemma_at_split(s, off, (b0 + b1), b2);
        lemma_at_split(s, off, b0, b1);
        lemma_u64_roundtrip(v.subscribe_id, s, off);
        lemma_u64_roundtrip(v.track_alias, s, off + b0.len());
        lemma_u64_roundtrip(v.group_id, s, off + (b0 + b1).len());
        lemma_u64_roundtrip(v.object_send_order, s, off + (b0 + b1 + b2).len());
    }

    pub fn write(&self, w: &mut Vec<u8>) -> (res: Result<usize, Error>)
        ensures
            wrote(old(w)@, final(w)@, res, GroupHeader::spec_wire(self@)),
    {
        let ghost old_w = w@;
        let r = write_var_int(self.subscribe_id, w);
        proof {
            lemma_first_step(old_w, w@, r, spec_var_int(self.subscribe_id));
        }
        let mut total = match r {
            Ok(l) => l,
            Err(e) => return Err(e),
        };
        let ghost mut acc = spec_var_int(self.subscribe_id)->Ok_0;
        let r = write_var_int(self.track_alias, w);
        proof {
            lemma_then_step(old_w, acc, w@, r, spec_var_int(self.track_alias));
            lemma_vec_len(w);
        }
        let l = match r {
            Ok(l) => l,
            Err(e) => return Err(e),
        };
        proof {
            acc = acc + spec_var_int(self.track_alias)->Ok_0;
        }
        total = total + l;
        let r = write_var_int(self.group_id, w);
        proof {
            lemma_then_step(old_w, acc, w@, r, spec_var_int(self.group_id));
            lemma_vec_len(w);
        }
        let l = match r {
            Ok(l) => l,
            Err(e) => return Err(e),
        };
        proof {
            acc = acc + spec_var_int(self.group_id)->Ok_0;
        }
        total = total + l;
        let r = write_var_int(self.object_send_order, w);
        proof {
            lemma_then_step(old_w, acc, w@, r, spec_var_int(self.object_send_order));
            lemma_vec_len(w);
        }
        let l = match r {
            Ok(l) => l,
            Err(e) => return Err(e),
        };
        proof {
            acc = acc + spec_var_int(self.object_send_order)->Ok_0;
        }
        total = total + l;
        Ok(total)
    }
}

impl Serializer for GroupHeader {
    open spec fn spec_serialize(v: GroupHeader) -> Result<Seq<u8>, ErrorView> {
        GroupHeader::spec_wire(v)
    }

    fn serialize(&self, w: &mut Vec<u8>) -> (res: Result<usize, Error>) {
        self.write(w)
    }
}

impl Deserializer for GroupHeader {
    open spec fn spec_deserialize(s: Seq<u8>) -> Result<(GroupHeader, int), ErrorView> {
        GroupHeader::spec_parse(s, 0)
    }

    fn deserialize(r: &[u8]) -> (res: Result<(GroupHeader, usize), Error>) {
        GroupHeader::parse(r, 0)
    }
}

/// An object on a group stream: its id and payload length, the status where
/// that length is zero, and the payload, which runs to the end of the buffer.
#[derive(Default, Debug, Clone, Eq, PartialEq)]
pub struct GroupObject {
    pub object_id: u64,
    pub object_payload_length: u64,
    pub object_status: Option<u64>,
    pub object_payload: Vec<u8>,
}

/// The content of a [`GroupObject`], the payload taken as a sequence.
pub struct GroupObjectView {
    pub object_id: u64,
    pub object_payload_length: u64,
    pub object_status: Option<u64>,
    pub object_payload: Seq<u8>,
}

impl View for GroupObject {
    type V = GroupObjectView;

    open spec fn view(&self) -> GroupObjectView {
        GroupObjectView { object_id: self.object_id, object_payload_length: self.object_payload_length, object_status: self.object_status, object_payload: self.object_payload@ }
    }
}

impl GroupObject {
    /// What writing a GroupObject appends: its numbers, then the payload as it is.
    pub open spec fn spec_wire(v: GroupObjectView) -> Result<Seq<u8>, ErrorView> {
        then(then(then(spec_var_int(v.object_id), spec_var_int(v.object_payload_length)), spec_opt_var_int(v.object_status)), Ok(v.object_payload))
    }

    /// Reading a GroupObject at `off`: the payload is all that follows its numbers.
    pub open spec fn spec_parse(s: Seq<u8>, off: int) -> Result<(GroupObjectView, int), ErrorView> {
        match spec_read_var_int(s, off) {
            Ok((x_object_id, p1)) => {
                match spec_read_var_int(s, p1) {
                    Ok((x_object_payload_length, p2)) => {
                        match spec_read_opt_var_int(x_object_payload_length == 0, s, p2) {
                            Ok((x_object_status, pq)) => {
                                Ok((GroupObjectView { object_id: x_object_id, object_payload_length: x_object_payload_length, object_status: x_object_status, object_payload: s.subrange(pq, s.len() as int) }, s.len() as int))
                            },
                            Err(e) => Err(e),
                        }
                    },
                    Err(e) => Err(e),
                }
            },
            Err(e) => Err(e),
        }
    }

    pub fn parse(r: &[u8], pos: usize) -> (res: Result<(GroupObject, usize), Error>)
        ensures
            read_outcome(res, GroupObject::spec_parse(r@, pos as int)),
    {
        let (object_id, p1) = match read_var_int(r, pos) {
            Ok(x) => x,
            Err(e) => return Err(e),
        };
        let (object_payload_length, p2) = match read_var_int(r, p1) {
            Ok(x) => x,
            Err(e) => return Err(e),
        };
        let (object_status, pq) = match read_opt_var_int(object_payload_length == 0, r, p2) {
            Ok(x) => x,
            Err(e) => return Err(e),
        };
        let object_payload = copy_range(r, pq, r.len());
        Ok((GroupObject { object_id, object_payload_length, object_status, object_payload }, r.len()))
    }

    /// A GroupObject written at the end of a buffer is read back the same, when
    /// its status is there exactly where its payload length is zero.
    pub proof fn lemma_roundtrip(v: GroupObjectView, s: Seq<u8>, off: int)
        requires
            GroupObject::spec_wire(v) is Ok,
            v.object_status is Some <==> v.object_payload_length == 0,
            at(s, off, GroupObject::spec_wire(v)->Ok_0),
            off + GroupObject::spec_wire(v)->Ok_0.len() == s.len(),
        ensures
            GroupObject::spec_parse(s, off) == Ok::<(GroupObjectView, int), ErrorView>((v, s.len() as int)),
    {
        let b0 = spec_var_int(v.object_id)->Ok_0;
        let b1 = spec_var_int(v.object_payload_length)->Ok_0;
        let b2 = spec_opt_var_int(v.object_status)->Ok_0;
        let bp = v.object_payload;
        lemma_at_split(s, off, b0 + b1 + b2, bp);
        lemma_at_split(s, off, (b0 + b1), b2);
        lemma_at_split(s, off, b0, b1);
        lemma_u64_roundtrip(v.object_id, s, off);
        lemma_u64_roundtrip(v.object_payload_length, s, off + b0.len());
        if v.object_status is Some {
            lemma_u64_roundtrip(v.object_status->Some_0, s, off + (b0 + b1).len());
        }
        assert(s.subrange(off + (b0 + b1 + b2).len(), s.len() as int) =~= bp);
    }

    pub fn write(&self, w: &mut Vec<u8>) -> (res: Result<usize, Error>)
        ensures
            wrote(old(w)@, final(w)@, res, GroupObject::spec_wire(self@)),
    {
        let ghost old_w = w@;
        let r = write_var_int(self.object_id, w);
        proof {
            lemma_first_step(old_w, w@, r, spec_var_int(self.object_id));
        }
        let mut total = match r {
            Ok(l) => l,
            Err(e) => return Err(e),
        };
        let ghost mut acc = spec_var_int(self.object_id)->Ok_0;
        let r = write_var_int(self.object_payload_length, w);
        proof {
            lemma_then_step(old_w, acc, w@, r, spec_var_int(self.object_payload_length));
            lemma_vec_len(w);
        }
        let l = match r {
            Ok(l) => l,
            Err(e) => return Err(e),
        };
        proof {
            acc = acc + spec_var_int(self.object_payload_length)->Ok_0;
        }
        total = total + l;
        let r = write_opt_var_int(self.object_status, w);
        proof {
            lemma_then_step(old_w, acc, w@, r, spec_opt_var_int(self.object_status));
            lemma_vec_len(w);
        }
        let l = match r {
            Ok(l) => l,
            Err(e) => return Err(e),
        };
        proof {
            acc = acc + spec_opt_var_int(self.object_status)->Ok_0;
        }
        total = total + l;
        append_bytes(self.object_payload.as_slice(), w);
        proof {
            lemma_vec_len(w);
            assert(w@ =~= old_w + (acc + self.object_payload@));
        }
        Ok(total + self.object_payload.len())
    }
}

impl Serializer for GroupObject {
    open spec fn spec_serialize(v: GroupObjectView) -> Result<Seq<u8>, ErrorView> {
        GroupObject::spec_wire(v)
    }

    fn serialize(&self, w: &mut Vec<u8>) -> (res: Result<usize, Error>) {
        self.write(w)
    }
}

impl Deserializer for GroupObject {
    open spec fn spec_deserialize(s: Seq<u8>) -> Result<(GroupObjectView, int), ErrorView> {
        GroupObject::spec_parse(s, 0)
    }

    fn deserialize(r: &[u8]) -> (res: Result<(GroupObject, usize), Error>) {
        GroupObject::parse(r, 0)
    }
}

} // verus!
