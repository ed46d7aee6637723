use crate::error::{Error, ErrorView};
use crate::serde::varint::{lemma_u64_roundtrip, read_var_int, spec_read_var_int, spec_var_int, write_var_int};
use crate::serde::{at, lemma_at_split, lemma_first_step, lemma_then_step, lemma_vec_len, read_outcome, then, wrote, Deserializer, Serializer};
use vstd::prelude::*;

verus! {

/// The header of an object sent as a datagram.
#[derive(Default, Debug, Clone, Eq, PartialEq)]
pub struct DatagramHeader {
    pub subscribe_id: u64,
    pub track_alias: u64,
    pub group_id: u64,
    pub object_id: u64,
    pub object_send_order: u64,
}

impl View for DatagramHeader {
    type V = DatagramHeader;

    open spec fn view(&self) -> DatagramHeader {
        *self
    }
}

impl DatagramHeader {
    /// What writing a DatagramHeader appends: its fields in order.
    pub open spec fn spec_wire(v: DatagramHeader) -> Result<Seq<u8>, ErrorView> {
        then(then(then(then(spec_var_int(v.subscribe_id), spec_var_int(v.track_alias)), spec_var_int(v.group_id)), spec_var_int(v.object_id)), spec_var_int(v.object_send_order))
    }

    /// Reading a DatagramHeader at `off`.
    pub open spec fn spec_parse(s: Seq<u8>, off: int) -> Result<(DatagramHeader, int), ErrorView> {
        match spec_read_var_int(s, off) {
            Ok((x_subscribe_id, p1)) => {
                match spec_read_var_int(s, p1) {
                    Ok((x_track_alias, p2)) => {
                        match spec_read_var_int(s, p2) {
                            Ok((x_group_id, p3)) => {
                                match spec_read_var_int(s, p3) {
                                    Ok((x_object_id, p4)) => {
                                        match spec_read_var_int(s, p4) {
                                            Ok((x_object_send_order, p5)) => {
                                                Ok((DatagramHeader { subscribe_id: x_subscribe_id, track_alias: x_track_alias, group_id: x_group_id, object_id: x_object_id, object_send_order: x_object_send_order }, p5))
                                            },
                                            Err(e) => Err(e),
                                        }
                                    },
                                    Err(e) => Err(e),
                                }
                            },
                            Err(e) => Err(e),
                        }
                    },
                    Err(e) => Err(e),
                }
            },
            Err(e) => Err(e),
        }
    }

    pub fn parse(r: &[u8], pos: usize) -> (res: Result<(DatagramHeader, usize), Error>)
        ensures
            read_outcome(res, DatagramHeader::spec_parse(r@, pos as int)),
    {
        let (subscribe_id, p1) = match read_var_int(r, pos) {
            Ok(x) => x,
            Err(e) => return Err(e),
        };
        let (track_alias, p2) = match read_var_int(r, p1) {
            Ok(x) => x,
            Err(e) => return Err(e),
        };
        let (group_id, p3) = match read_var_int(r, p2) {
            Ok(x) => x,
            Err(e) => return Err(e),
        };
        let (object_id, p4) = match read_var_int(r, p3) {
            Ok(x) => x,
            Err(e) => return Err(e),
        };
        let (object_send_order, p5) = match read_var_int(r, p4) {
            Ok(x) => x,
            Err(e) => return Err(e),
        };
        Ok((DatagramHeader { subscribe_id, track_alias, group_id, object_id, object_send_order }, p5))
    }

    /// A DatagramHeader written and read back is the same DatagramHeader.
    pub proof fn lemma_roundtrip(v: DatagramHeader, s: Seq<u8>, off: int)
        requires
            DatagramHeader::spec_wire(v) is Ok,
            at(s, off, DatagramHeader::spec_wire(v)->Ok_0),
        ensures
            DatagramHeader::spec_parse(s, off) == Ok::<(DatagramHeader, int), ErrorView>(
                (v, off + DatagramHeader::spec_wire(v)->Ok_0.len()),
            ),
    {
        let b0 = spec_var_int(v.subscribe_id)->Ok_0;
        let b1 = spec_var_int(v.track_alias)->Ok_0;
        let b2 = spec_var_int(v.group_id)->Ok_0;
        let b3 = spec_var_int(v.object_id)->Ok_0;
        let b4 = spec_var_int(v.object_send_order)->Ok_0;
        lemma_at_split(s, off, (b0 + b1 + b2 + b3), b4);
        lemma_at_split(s, off, (b0 + b1 + b2), b3);
        lemma_at_split(s, off, (b0 + b1), b2);
        lemma_at_split(s, off, b0, b1);
        lemma_u64_roundtrip(v.subscribe_id, s, off);
        lemma_u64_roundtrip(v.track_alias, s, off + b0.len());
        lemma_u64_roundtrip(v.group_id, s, off + (b0 + b1).len());
        lemma_u64_roundtrip(v.object_id, s, off + (b0 + b1 + b2).len());
        lemma_u64_roundtrip(v.object_send_order, s, off + (b0 + b1 + b2 + b3).len());
    }

    pub fn write(&self, w: &mut Vec<u8>) -> (res: Result<usize, Error>)
        ensures
            wrote(old(w)@, final(w)@, res, DatagramHeader::spec_wire(self@)),
    {
        let ghost old_w = w@;
        let r = write_var_int(self.subscribe_id, w);
        proof {
            lemma_first_step(old_w, w@, r, spec_var_int(self.subscribe_id));
        }
        let mut total = match r {
            Ok(l) => l,
            Err(e) => return Err(e),
        };
        let ghost mut acc = spec_var_int(self.subscribe_id)->Ok_0;
        let r = write_var_int(self.track_alias, w);
        proof {
            lemma_then_step(old_w, acc, w@, r, spec_var_int(self.track_alias));
            lemma_vec_len(w);
        }
        let l = match r {
            Ok(l) => l,
            Err(e) => return Err(e),
        };
        proof {
            acc = acc + spec_var_int(self.track_alias)->Ok_0;
        }
        total = total + l;
        let r = write_var_int(self.group_id, w);
        proof {
            lemma_then_step(old_w, acc, w@, r, spec_var_int(self.group_id));
            lemma_vec_len(w);
        }
        let l = match r {
            Ok(l) => l,
            Err(e) => return Err(e),
        };
        proof {
            acc = acc + spec_var_int(self.group_id)->Ok_0;
        }
        total = total + l;
        let r = write_var_int(self.object_id, w);
        proof {
            lemma_then_step(old_w, acc, w@, r, spec_var_int(self.object_id));
            lemma_vec_len(w);
        }
        let l = match r {
            Ok(l) => l,
            Err(e) => return Err(e),
        };
        proof {
            acc = acc + spec_var_int(self.object_id)->Ok_0;
        }
        total = total + l;
        let r = write_var_int(self.object_send_order, w);
        proof {
            lemma_then_step(old_w, acc, w@, r, spec_var_int(self.object_send_order));
            lemma_vec_len(w);
        }
        let l = match r {
            Ok(l) => l,
            Err(e) => return Err(e),
        };
        proof {
            acc = acc + spec_var_int(self.object_send_order)->Ok_0;
        }
        total = total + l;
        Ok(total)
    }
}

impl Serializer for DatagramHeader {
    open spec fn spec_serialize(v: DatagramHeader) -> Result<Seq<u8>, ErrorView> {
        DatagramHeader::spec_wire(v)
    }

    fn serialize(&self, w: &mut Vec<u8>) -> (res: Result<usize, Error>) {
        self.write(w)
    }
}

impl Deserializer for DatagramHeader {
    open spec fn spec_deserialize(s: Seq<u8>) -> Result<(DatagramHeader, int), ErrorView> {
        DatagramHeader::spec_parse(s, 0)
    }

    fn deserialize(r: &[u8]) -> (res: Result<(DatagramHeader, usize), Error>) {
        DatagramHeader::parse(r, 0)
    }
}
impl DatagramHeader {
    /// Reads a DatagramHeader from the start of `r`.
    pub fn decode(r: &[u8]) -> (res: Result<(DatagramHeader, usize), Error>)
        ensures
            read_outcome(res, DatagramHeader::spec_parse(r@, 0)),
    {
        DatagramHeader::parse(r, 0)
    }

    /// Appends the DatagramHeader to `w`.
    pub fn encode(&self, w: &mut Vec<u8>) -> (res: Result<usize, Error>)
        ensures
            wrote(old(w)@, final(w)@, res, DatagramHeader::spec_wire(self@)),
    {
        self.write(w)
    }
}

/// The status and payload of an object sent as a datagram.
#[derive(Default, Debug, Clone, Eq, PartialEq)]
pub struct DatagramObject {
    pub object_status: u64,
    pub object_payload: Vec<u8>,
}

} // verus!
