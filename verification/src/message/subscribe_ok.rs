use crate::error::{Error, ErrorView};
use crate::message::{read_opt_seq, spec_opt_seq_wire, spec_read_opt_seq, write_opt_seq, lemma_opt_seq_roundtrip, FullSequence};
use crate::serde::varint::{lemma_u64_roundtrip, read_var_int, spec_read_var_int, spec_var_int, write_var_int};
use crate::serde::{at, lemma_at_split, lemma_first_step, lemma_then_step, lemma_vec_len, read_outcome, then, wrote, Deserializer, Serializer};
use vstd::prelude::*;

verus! {

/// Accepts a subscription.
#[derive(Default, Debug, Clone, Eq, PartialEq)]
pub struct SubscribeOk {
    pub subscribe_id: u64,
    pub expires: u64,
    pub largest_group_object: Option<FullSequence>,
}

impl View for SubscribeOk {
    type V = SubscribeOk;

    open spec fn view(&self) -> SubscribeOk {
        *self
    }
}

impl SubscribeOk {
    /// What writing a SubscribeOk appends: its fields in order.
    pub open spec fn spec_wire(v: SubscribeOk) -> Result<Seq<u8>, ErrorView> {
        then(then(spec_var_int(v.subscribe_id), spec_var_int(v.expires)), spec_opt_seq_wire(v.largest_group_object))
    }

    /// Reading a SubscribeOk at `off`.
    pub open spec fn spec_parse(s: Seq<u8>, off: int) -> Result<(SubscribeOk, int), ErrorView> {
        match spec_read_var_int(s, off) {
            Ok((x_subscribe_id, p1)) => {
                match spec_read_var_int(s, p1) {
                    Ok((x_expires, p2)) => {
                        match spec_read_opt_seq(s, p2, "SUBSCRIBE_OK ContentExists has invalid value "@) {
                            Ok((x_largest_group_object, p3)) => {
                                Ok((SubscribeOk { subscribe_id: x_subscribe_id, expires: x_expires, largest_group_object: x_largest_group_object }, p3))
                            },
                            Err(e) => Err(e),
                        }
                    },
                    Err(e) => Err(e),
                }
            },
            Err(e) => Err(e),
        }
    }

    pub fn parse(r: &[u8], pos: usize) -> (res: Result<(SubscribeOk, usize), Error>)
        ensures
            read_outcome(res, SubscribeOk::spec_parse(r@, pos as int)),
    {
        let (subscribe_id, p1) = match read_var_int(r, pos) {
            Ok(x) => x,
            Err(e) => return Err(e),
        };
        let (expires, p2) = match read_var_int(r, p1) {
            Ok(x) => x,
            Err(e) => return Err(e),
        };
        let (largest_group_object, p3) = match read_opt_seq(r, p2, "SUBSCRIBE_OK ContentExists has invalid value ") {
            Ok(x) => x,
            Err(e) => return Err(e),
        };
        Ok((SubscribeOk { subscribe_id, expires, largest_group_object }, p3))
    }

    /// A SubscribeOk written and read back is the same SubscribeOk.
    pub proof fn lemma_roundtrip(v: SubscribeOk, s: Seq<u8>, off: int)
        requires
            SubscribeOk::spec_wire(v) is Ok,
            at(s, off, SubscribeOk::spec_wire(v)->Ok_0),
        ensures
            SubscribeOk::spec_parse(s, off) == Ok::<(SubscribeOk, int), ErrorView>(
                (v, off + SubscribeOk::spec_wire(v)->Ok_0.len()),
            ),
    {
        let b0 = spec_var_int(v.subscribe_id)->Ok_0;
        let b1 = spec_var_int(v.expires)->Ok_0;
        let b2 = spec_opt_seq_wire(v.largest_group_object)->Ok_0;
        lemma_at_split(s, off, (b0 + b1), b2);
        lemma_at_split(s, off, b0, b1);
        lemma_u64_roundtrip(v.subscribe_id, s, off);
        lemma_u64_roundtrip(v.expires, s, off + b0.len());
        lemma_opt_seq_roundtrip(v.largest_group_object, s, off + (b0 + b1).len(), "SUBSCRIBE_OK ContentExists has invalid value "@);
    }

    pub fn write(&self, w: &mut Vec<u8>) -> (res: Result<usize, Error>)
        ensures
            wrote(old(w)@, final(w)@, res, SubscribeOk::spec_wire(self@)),
    {
        let ghost old_w = w@;
        let r = write_var_int(self.subscribe_id, w);
        proof {
            lemma_first_step(old_w, w@, r, spec_var_int(self.subscribe_id));
        }
        let mut total = match r {
            Ok(l) => l,
            Err(e) => return Err(e),
        };
        let ghost mut acc = spec_var_int(self.subscribe_id)->Ok_0;
        let r = write_var_int(self.expires, w);
        proof {
            lemma_then_step(old_w, acc, w@, r, spec_var_int(self.expires));
            lemma_vec_len(w);
        }
        let l = match r {
            Ok(l) => l,
            Err(e) => return Err(e),
        };
        proof {
            acc = acc + spec_var_int(self.expires)->Ok_0;
        }
        total = total + l;
        let r = write_opt_seq(&self.largest_group_object, w);
        proof {
            lemma_then_step(old_w, acc, w@, r, spec_opt_seq_wire(self.largest_group_object));
            lemma_vec_len(w);
        }
        let l = match r {
            Ok(l) => l,
            Err(e) => return Err(e),
        };
        proof {
            acc = acc + spec_opt_seq_wire(self.largest_group_object)->Ok_0;
        }
        total = total + l;
        Ok(total)
    }
}

impl Serializer for SubscribeOk {
    open spec fn spec_serialize(v: SubscribeOk) -> Result<Seq<u8>, ErrorView> {
        SubscribeOk::spec_wire(v)
    }

    fn serialize(&self, w: &mut Vec<u8>) -> (res: Result<usize, Error>) {
        self.write(w)
    }
}

impl Deserializer for SubscribeOk {
    open spec fn spec_deserialize(s: Seq<u8>) -> Result<(SubscribeOk, int), ErrorView> {
        SubscribeOk::spec_parse(s, 0)
    }

    fn deserialize(r: &[u8]) -> (res: Result<(SubscribeOk, usize), Error>) {
        SubscribeOk::parse(r, 0)
    }
}
} // verus!
