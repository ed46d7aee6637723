use crate::error::{Error, ErrorView};
use crate::message::{end_from_wire, end_object_from_wire, end_object_to_wire, end_to_wire, FullSequence};
use crate::serde::parameters::{skip_params, spec_skip_params};
use crate::serde::varint::{lemma_u64_roundtrip, read_var_int, spec_read_var_int, spec_var_int, write_var_int};
use crate::serde::{
    at, bool_byte, lemma_at_split, lemma_bool_roundtrip, lemma_first_step, lemma_then_step,
    lemma_vec_len, read_bool, read_outcome, spec_read_bool, then, write_bool, wrote, Deserializer,
    Serializer,
};
use vstd::prelude::*;

verus! {

/// Accepts a fetch: whether the track has ended, and the last location
/// that the fetch will deliver.
#[derive(Default, Debug, Clone, Eq, PartialEq, Structural)]
pub struct FetchOk {
    pub request_id: u64,
    pub end_of_track: bool,
    pub end_location: FullSequence,
}

impl View for FetchOk {
    type V = FetchOk;

    open spec fn view(&self) -> FetchOk {
        *self
    }
}

impl FetchOk {
    /// What writing a fetch answer appends: the request, the end-of-track
    /// flag, the end location as written, and an empty parameter list.
    pub open spec fn spec_wire(v: FetchOk) -> Result<Seq<u8>, ErrorView> {
        then(
            then(
                then(spec_var_int(v.request_id), Ok(seq![bool_byte(v.end_of_track)])),
                FullSequence::spec_wire(end_to_wire(v.end_location)),
            ),
            spec_var_int(0),
        )
    }

    /// Reading a fetch answer at `off`; its parameters are stepped over.
    pub open spec fn spec_parse(s: Seq<u8>, off: int) -> Result<(FetchOk, int), ErrorView> {
        match spec_read_var_int(s, off) {
            Ok((request_id, p1)) => match spec_read_bool(s, p1) {
                Ok((end_of_track, p2)) => match FullSequence::spec_parse(s, p2) {
                    Ok((wire_end, p3)) => match spec_read_var_int(s, p3) {
                        Ok((n, p4)) => match spec_skip_params(s, p4, n as nat) {
                            Ok(p5) => Ok(
                                (
                                    FetchOk {
                                        request_id,
                                        end_of_track,
                                        end_location: end_from_wire(wire_end),
                                    },
                                    p5,
                                ),
                            ),
                            Err(e) => Err(e),
                        },
                        Err(e) => Err(e),
                    },
                    Err(e) => Err(e),
                },
                Err(e) => Err(e),
            },
            Err(e) => Err(e),
        }
    }

    pub fn parse(r: &[u8], pos: usize) -> (res: Result<(FetchOk, usize), Error>)
        ensures
            read_outcome(res, FetchOk::spec_parse(r@, pos as int)),
    {
        let (request_id, p1) = match read_var_int(r, pos) {
            Ok(x) => x,
            Err(e) => return Err(e),
        };
        let (end_of_track, p2) = match read_bool(r, p1) {
            Ok(x) => x,
            Err(e) => return Err(e),
        };
        let (wire_end, p3) = match FullSequence::parse(r, p2) {
            Ok(x) => x,
            Err(e) => return Err(e),
        };
        let (n, p4) = match read_var_int(r, p3) {
            Ok(x) => x,
            Err(e) => return Err(e),
        };
        let p5 = match skip_params(r, p4, n) {
            Ok(p) => p,
            Err(e) => return Err(e),
        };
        let end_location = FullSequence {
            group_id: wire_end.group_id,
            object_id: end_object_from_wire(wire_end.object_id),
        };
        Ok((FetchOk { request_id, end_of_track, end_location }, p5))
    }

    pub fn write(&self, w: &mut Vec<u8>) -> (res: Result<usize, Error>)
        ensures
            wrote(old(w)@, final(w)@, res, FetchOk::spec_wire(*self)),
    {
        let ghost old_w = w@;
        let r = write_var_int(self.request_id, w);
        proof {
            lemma_first_step(old_w, w@, r, spec_var_int(self.request_id));
        }
        let mut total = match r {
            Ok(l) => l,
            Err(e) => return Err(e),
        };
        let ghost mut acc = spec_var_int(self.request_id)->Ok_0;
        let r = write_bool(self.end_of_track, w);
        proof {
            lemma_then_step(old_w, acc, w@, r, Ok(seq![bool_byte(self.end_of_track)]));
            lemma_vec_len(w);
        }
        let l = match r {
            Ok(l) => l,
            Err(e) => return Err(e),
        };
        proof {
            acc = acc + seq![bool_byte(self.end_of_track)];
        }
        total = total + l;
        let end = FullSequence {
            group_id: self.end_location.group_id,
            object_id: end_object_to_wire(self.end_location.object_id),
        };
        let r = end.write(w);
        proof {
            lemma_then_step(old_w, acc, w@, r, FullSequence::spec_wire(end_to_wire(self.end_location)));
            lemma_vec_len(w);
        }
        let l = match r {
            Ok(l) => l,
            Err(e) => return Err(e),
        };
        proof {
            acc = acc + FullSequence::spec_wire(end_to_wire(self.end_location))->Ok_0;
        }
        total = total + l;
        let r = write_var_int(0, w);
        proof {
            lemma_then_step(old_w, acc, w@, r, spec_var_int(0));
            lemma_vec_len(w);
        }
        let l = match r {
            Ok(l) => l,
            Err(e) => return Err(e),
        };
        total = total + l;
        Ok(total)
    }

    /// A fetch answer written and read back is the same answer.
    pub proof fn lemma_roundtrip(v: FetchOk, s: Seq<u8>, off: int)
        requires
            FetchOk::spec_wire(v) is Ok,
            at(s, off, FetchOk::spec_wire(v)->Ok_0),
        ensures
            FetchOk::spec_parse(s, off) == Ok::<(FetchOk, int), ErrorView>(
                (v, off + FetchOk::spec_wire(v)->Ok_0.len()),
            ),
    {
        let b0 = spec_var_int(v.request_id)->Ok_0;
        let b1 = seq![bool_byte(v.end_of_track)];
        let b2 = FullSequence::spec_wire(end_to_wire(v.end_location))->Ok_0;
        let b3 = spec_var_int(0)->Ok_0;
        lemma_at_split(s, off, b0 + b1 + b2, b3);
        lemma_at_split(s, off, b0 + b1, b2);
        lemma_at_split(s, off, b0, b1);
        lemma_u64_roundtrip(v.request_id, s, off);
        lemma_bool_roundtrip(v.end_of_track, s, off + b0.len());
        FullSequence::lemma_roundtrip(end_to_wire(v.end_location), s, off + (b0 + b1).len());
        lemma_u64_roundtrip(0, s, off + (b0 + b1 + b2).len());
        assert(end_from_wire(end_to_wire(v.end_location)) == v.end_location);
    }
}

/// The byte written right after the request id of a fetch answer is 1 where
/// the track has ended and 0 where it has not.
pub proof fn lemma_end_of_track_byte_written(v: FetchOk)
    requires
        FetchOk::spec_wire(v) is Ok,
    ensures
        ({
            let b = FetchOk::spec_wire(v)->Ok_0;
            let n = spec_var_int(v.request_id)->Ok_0.len();
            &&& n < b.len()
            &&& b[n as int] == (if v.end_of_track {
                1u8
            } else {
                0u8
            })
        }),
{
    let b0 = spec_var_int(v.request_id)->Ok_0;
    let b1 = seq![bool_byte(v.end_of_track)];
    let b2 = FullSequence::spec_wire(end_to_wire(v.end_location))->Ok_0;
    let b3 = spec_var_int(0)->Ok_0;
    let b = FetchOk::spec_wire(v)->Ok_0;
    assert(b == b0 + b1 + b2 + b3);
    assert(b[b0.len() as int] == (b0 + b1)[b0.len() as int]);
}

/// A fetch answer read back says that the track has ended exactly where the
/// byte after its request id is 1; that byte is 0 otherwise.
pub proof fn lemma_end_of_track_byte_read(s: Seq<u8>, off: int)
    requires
        FetchOk::spec_parse(s, off) is Ok,
    ensures
        spec_read_var_int(s, off) is Ok,
        ({
            let p1 = spec_read_var_int(s, off)->Ok_0.1;
            let m = FetchOk::spec_parse(s, off)->Ok_0.0;
            &&& 0 <= p1 < s.len()
            &&& (s[p1] == 1u8 <==> m.end_of_track)
            &&& (s[p1] == 0u8 <==> !m.end_of_track)
        }),
{
}

impl Serializer for FetchOk {
    open spec fn spec_serialize(v: FetchOk) -> Result<Seq<u8>, ErrorView> {
        FetchOk::spec_wire(v)
    }

    fn serialize(&self, w: &mut Vec<u8>) -> (res: Result<usize, Error>) {
        self.write(w)
    }
}

impl Deserializer for FetchOk {
    open spec fn spec_deserialize(s: Seq<u8>) -> Result<(FetchOk, int), ErrorView> {
        FetchOk::spec_parse(s, 0)
    }

    fn deserialize(r: &[u8]) -> (res: Result<(FetchOk, usize), Error>) {
        FetchOk::parse(r, 0)
    }
}

} // verus!
