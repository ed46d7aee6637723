use crate::error::{Error, ErrorView};
use crate::serde::varint::{lemma_u64_roundtrip, read_var_int, spec_read_var_int, spec_var_int, write_var_int};
use crate::serde::{at, lemma_first_step, read_outcome, wrote, Deserializer, Serializer};
use vstd::prelude::*;

verus! {

/// Tells the peer that no more requests can be sent.
#[derive(Default, Debug, Clone, Eq, PartialEq)]
pub struct RequestsBlocked {
    pub max_request_id: u64,
}

impl View for RequestsBlocked {
    type V = RequestsBlocked;

    open spec fn view(&self) -> RequestsBlocked {
        *self
    }
}

impl RequestsBlocked {
    /// What writing a RequestsBlocked appends: its fields in order.
    pub open spec fn spec_wire(v: RequestsBlocked) -> Result<Seq<u8>, ErrorView> {
        spec_var_int(v.max_request_id)
    }

    /// Reading a RequestsBlocked at `off`.
    pub open spec fn spec_parse(s: Seq<u8>, off: int) -> Result<(RequestsBlocked, int), ErrorView> {
        match spec_read_var_int(s, off) {
            Ok((x_max_request_id, p1)) => {
                Ok((RequestsBlocked { max_request_id: x_max_request_id }, p1))
            },
            Err(e) => Err(e),
        }
    }

    pub fn parse(r: &[u8], pos: usize) -> (res: Result<(RequestsBlocked, usize), Error>)
        ensures
            read_outcome(res, RequestsBlocked::spec_parse(r@, pos as int)),
    {
        let (max_request_id, p1) = match read_var_int(r, pos) {
            Ok(x) => x,
            Err(e) => return Err(e),
        };
        Ok((RequestsBlocked { max_request_id }, p1))
    }

    /// A RequestsBlocked written and read back is the same RequestsBlocked.
    pub proof fn lemma_roundtrip(v: RequestsBlocked, s: Seq<u8>, off: int)
        requires
            RequestsBlocked::spec_wire(v) is Ok,
            at(s, off, RequestsBlocked::spec_wire(v)->Ok_0),
        ensures
            RequestsBlocked::spec_parse(s, off) == Ok::<(RequestsBlocked, int), ErrorView>(
                (v, off + RequestsBlocked::spec_wire(v)->Ok_0.len()),
            ),
    {
        let b0 = spec_var_int(v.max_request_id)->Ok_0;
        lemma_u64_roundtrip(v.max_request_id, s, off);
    }

    pub fn write(&self, w: &mut Vec<u8>) -> (res: Result<usize, Error>)
        ensures
            wrote(old(w)@, final(w)@, res, RequestsBlocked::spec_wire(self@)),
    {
        let ghost old_w = w@;
        let r = write_var_int(self.max_request_id, w);
        proof {
            lemma_first_step(old_w, w@, r, spec_var_int(self.max_request_id));
        }
        let mut total = match r {
            Ok(l) => l,
            Err(e) => return Err(e),
        };
        let ghost mut acc = spec_var_int(self.max_request_id)->Ok_0;
        Ok(total)
    }
}

impl Serializer for RequestsBlocked {
    open spec fn spec_serialize(v: RequestsBlocked) -> Result<Seq<u8>, ErrorView> {
        RequestsBlocked::spec_wire(v)
    }

    fn serialize(&self, w: &mut Vec<u8>) -> (res: Result<usize, Error>) {
        self.write(w)
    }
}

impl Deserializer for RequestsBlocked {
    open spec fn spec_deserialize(s: Seq<u8>) -> Result<(RequestsBlocked, int), ErrorView> {
        RequestsBlocked::spec_parse(s, 0)
    }

    fn deserialize(r: &[u8]) -> (res: Result<(RequestsBlocked, usize), Error>) {
        RequestsBlocked::parse(r, 0)
    }
}
} // verus!
