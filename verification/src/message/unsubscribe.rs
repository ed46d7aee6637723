use crate::error::{Error, ErrorView};
use crate::serde::varint::{lemma_u64_roundtrip, read_var_int, spec_read_var_int, spec_var_int, write_var_int};
use crate::serde::{at, lemma_first_step, read_outcome, wrote, Deserializer, Serializer};
use vstd::prelude::*;

verus! {

/// Ends a subscription.
#[derive(Default, Debug, Clone, Eq, PartialEq)]
pub struct UnSubscribe {
    pub subscribe_id: u64,
}

impl View for UnSubscribe {
    type V = UnSubscribe;

    open spec fn view(&self) -> UnSubscribe {
        *self
    }
}

impl UnSubscribe {
    /// What writing a UnSubscribe appends: its fields in order.
    pub open spec fn spec_wire(v: UnSubscribe) -> Result<Seq<u8>, ErrorView> {
        spec_var_int(v.subscribe_id)
    }

    /// Reading a UnSubscribe at `off`.
    pub open spec fn spec_parse(s: Seq<u8>, off: int) -> Result<(UnSubscribe, int), ErrorView> {
        match spec_read_var_int(s, off) {
            Ok((x_subscribe_id, p1)) => {
                Ok((UnSubscribe { subscribe_id: x_subscribe_id }, p1))
            },
            Err(e) => Err(e),
        }
    }

    pub fn parse(r: &[u8], pos: usize) -> (res: Result<(UnSubscribe, usize), Error>)
        ensures
            read_outcome(res, UnSubscribe::spec_parse(r@, pos as int)),
    {
        let (subscribe_id, p1) = match read_var_int(r, pos) {
            Ok(x) => x,
            Err(e) => return Err(e),
        };
        Ok((UnSubscribe { subscribe_id }, p1))
    }

    /// A UnSubscribe written and read back is the same UnSubscribe.
    pub proof fn lemma_roundtrip(v: UnSubscribe, s: Seq<u8>, off: int)
        requires
            UnSubscribe::spec_wire(v) is Ok,
            at(s, off, UnSubscribe::spec_wire(v)->Ok_0),
        ensures
            UnSubscribe::spec_parse(s, off) == Ok::<(UnSubscribe, int), ErrorView>(
                (v, off + UnSubscribe::spec_wire(v)->Ok_0.len()),
            ),
    {
        let b0 = spec_var_int(v.subscribe_id)->Ok_0;
        lemma_u64_roundtrip(v.subscribe_id, s, off);
    }

    pub fn write(&self, w: &mut Vec<u8>) -> (res: Result<usize, Error>)
        ensures
            wrote(old(w)@, final(w)@, res, UnSubscribe::spec_wire(self@)),
    {
        let ghost old_w = w@;
        let r = write_var_int(self.subscribe_id, w);
        proof {
            lemma_first_step(old_w, w@, r, spec_var_int(self.subscribe_id));
        }
        let mut total = match r {
            Ok(l) => l,
            Err(e) => return Err(e),
        };
        let ghost mut acc = spec_var_int(self.subscribe_id)->Ok_0;
        Ok(total)
    }
}

impl Serializer for UnSubscribe {
    open spec fn spec_serialize(v: UnSubscribe) -> Result<Seq<u8>, ErrorView> {
        UnSubscribe::spec_wire(v)
    }

    fn serialize(&self, w: &mut Vec<u8>) -> (res: Result<usize, Error>) {
        self.write(w)
    }
}

impl Deserializer for UnSubscribe {
    open spec fn spec_deserialize(s: Seq<u8>) -> Result<(UnSubscribe, int), ErrorView> {
        UnSubscribe::spec_parse(s, 0)
    }

    fn deserialize(r: &[u8]) -> (res: Result<(UnSubscribe, usize), Error>) {
        UnSubscribe::parse(r, 0)
    }
}
} // verus!
