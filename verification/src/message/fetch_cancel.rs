use crate::error::{Error, ErrorView};
use crate::serde::varint::{lemma_u64_roundtrip, read_var_int, spec_read_var_int, spec_var_int, write_var_int};
use crate::serde::{at, lemma_first_step, read_outcome, wrote, Deserializer, Serializer};
use vstd::prelude::*;

verus! {

/// Cancels a fetch.
#[derive(Default, Debug, Clone, Eq, PartialEq)]
pub struct FetchCancel {
    pub request_id: u64,
}

impl View for FetchCancel {
    type V = FetchCancel;

    open spec fn view(&self) -> FetchCancel {
        *self
    }
}

impl FetchCancel {
    /// What writing a FetchCancel appends: its fields in order.
    pub open spec fn spec_wire(v: FetchCancel) -> Result<Seq<u8>, ErrorView> {
        spec_var_int(v.request_id)
    }

    /// Reading a FetchCancel at `off`.
    pub open spec fn spec_parse(s: Seq<u8>, off: int) -> Result<(FetchCancel, int), ErrorView> {
        match spec_read_var_int(s, off) {
            Ok((x_request_id, p1)) => {
                Ok((FetchCancel { request_id: x_request_id }, p1))
            },
            Err(e) => Err(e),
        }
    }

    pub fn parse(r: &[u8], pos: usize) -> (res: Result<(FetchCancel, usize), Error>)
        ensures
            read_outcome(res, FetchCancel::spec_parse(r@, pos as int)),
    {
        let (request_id, p1) = match read_var_int(r, pos) {
            Ok(x) => x,
            Err(e) => return Err(e),
        };
        Ok((FetchCancel { request_id }, p1))
    }

    /// A FetchCancel written and read back is the same FetchCancel.
    pub proof fn lemma_roundtrip(v: FetchCancel, s: Seq<u8>, off: int)
        requires
            FetchCancel::spec_wire(v) is Ok,
            at(s, off, FetchCancel::spec_wire(v)->Ok_0),
        ensures
            FetchCancel::spec_parse(s, off) == Ok::<(FetchCancel, int), ErrorView>(
                (v, off + FetchCancel::spec_wire(v)->Ok_0.len()),
            ),
    {
        let b0 = spec_var_int(v.request_id)->Ok_0;
        lemma_u64_roundtrip(v.request_id, s, off);
    }

    pub fn write(&self, w: &mut Vec<u8>) -> (res: Result<usize, Error>)
        ensures
            wrote(old(w)@, final(w)@, res, FetchCancel::spec_wire(self@)),
    {
        let ghost old_w = w@;
        let r = write_var_int(self.request_id, w);
        proof {
            lemma_first_step(old_w, w@, r, spec_var_int(self.request_id));
        }
        let mut total = match r {
            Ok(l) => l,
            Err(e) => return Err(e),
        };
        let ghost mut acc = spec_var_int(self.request_id)->Ok_0;
        Ok(total)
    }
}

impl Serializer for FetchCancel {
    open spec fn spec_serialize(v: FetchCancel) -> Result<Seq<u8>, ErrorView> {
        FetchCancel::spec_wire(v)
    }

    fn serialize(&self, w: &mut Vec<u8>) -> (res: Result<usize, Error>) {
        self.write(w)
    }
}

impl Deserializer for FetchCancel {
    open spec fn spec_deserialize(s: Seq<u8>) -> Result<(FetchCancel, int), ErrorView> {
        FetchCancel::spec_parse(s, 0)
    }

    fn deserialize(r: &[u8]) -> (res: Result<(FetchCancel, usize), Error>) {
        FetchCancel::parse(r, 0)
    }
}
} // verus!
