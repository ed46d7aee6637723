use crate::error::{Error, ErrorView};
use crate::message::fits;
use crate::serde::varint::{lemma_u64_roundtrip, read_var_int, spec_read_var_int, spec_var_int, write_var_int};
use crate::serde::{
    at, lemma_at_split, lemma_first_step, lemma_string_roundtrip, lemma_then_step, lemma_vec_len,
    read_outcome, read_string, spec_read_string, spec_string, then, write_string, wrote,
    Deserializer, Serializer,
};
use vstd::prelude::*;

verus! {

/// Withdraws the acceptance of an announcement.
#[derive(Default, Debug, Clone, Eq, PartialEq)]
pub struct AnnounceCancel {
    pub track_namespace: String,
    pub error_code: u64,
    pub reason_phrase: String,
}

/// The content of a [`AnnounceCancel`], strings taken by their characters.
pub struct AnnounceCancelView {
    pub track_namespace: Seq<char>,
    pub error_code: u64,
    pub reason_phrase: Seq<char>,
}

impl View for AnnounceCancel {
    type V = AnnounceCancelView;

    open spec fn view(&self) -> AnnounceCancelView {
        AnnounceCancelView { track_namespace: self.track_namespace@, error_code: self.error_code, reason_phrase: self.reason_phrase@ }
    }
}

impl AnnounceCancel {
    /// What writing a AnnounceCancel appends: its fields in order.
    pub open spec fn spec_wire(v: AnnounceCancelView) -> Result<Seq<u8>, ErrorView> {
        then(then(spec_string(v.track_namespace), spec_var_int(v.error_code)), spec_string(v.reason_phrase))
    }

    /// Reading a AnnounceCancel at `off`.
    pub open spec fn spec_parse(s: Seq<u8>, off: int) -> Result<(AnnounceCancelView, int), ErrorView> {
        match spec_read_string(s, off) {
            Ok((x_track_namespace, p1)) => {
                match spec_read_var_int(s, p1) {
                    Ok((x_error_code, p2)) => {
                        match spec_read_string(s, p2) {
                            Ok((x_reason_phrase, p3)) => {
                                Ok((AnnounceCancelView { track_namespace: x_track_namespace, error_code: x_error_code, reason_phrase: x_reason_phrase }, p3))
                            },
                            Err(e) => Err(e),
                        }
                    },
                    Err(e) => Err(e),
                }
            },
            Err(e) => Err(e),
        }
    }

    pub fn parse(r: &[u8], pos: usize) -> (res: Result<(AnnounceCancel, usize), Error>)
        ensures
            read_outcome(res, AnnounceCancel::spec_parse(r@, pos as int)),
    {
        let (track_namespace, p1) = match read_string(r, pos) {
            Ok(x) => x,
            Err(e) => return Err(e),
        };
        let (error_code, p2) = match read_var_int(r, p1) {
            Ok(x) => x,
            Err(e) => return Err(e),
        };
        let (reason_phrase, p3) = match read_string(r, p2) {
            Ok(x) => x,
            Err(e) => return Err(e),
        };
        Ok((AnnounceCancel { track_namespace, error_code, reason_phrase }, p3))
    }

    /// A AnnounceCancel written and read back is the same AnnounceCancel.
    pub proof fn lemma_roundtrip(v: AnnounceCancelView, s: Seq<u8>, off: int)
        requires
            AnnounceCancel::spec_wire(v) is Ok,
            fits(v.track_namespace),
            fits(v.reason_phrase),
            at(s, off, AnnounceCancel::spec_wire(v)->Ok_0),
        ensures
            AnnounceCancel::spec_parse(s, off) == Ok::<(AnnounceCancelView, int), ErrorView>(
                (v, off + AnnounceCancel::spec_wire(v)->Ok_0.len()),
            ),
    {
        let b0 = spec_string(v.track_namespace)->Ok_0;
        let b1 = spec_var_int(v.error_code)->Ok_0;
        let b2 = spec_string(v.reason_phrase)->Ok_0;
        lemma_at_split(s, off, (b0 + b1), b2);
        lemma_at_split(s, off, b0, b1);
        lemma_string_roundtrip(v.track_namespace, s, off);
        lemma_u64_roundtrip(v.error_code, s, off + b0.len());
        lemma_string_roundtrip(v.reason_phrase, s, off + (b0 + b1).len());
    }

    pub fn write(&self, w: &mut Vec<u8>) -> (res: Result<usize, Error>)
        ensures
            wrote(old(w)@, final(w)@, res, AnnounceCancel::spec_wire(self@)),
    {
        let ghost old_w = w@;
        let r = write_string(&self.track_namespace, w);
        proof {
            lemma_first_step(old_w, w@, r, spec_string(self.track_namespace@));
        }
        let mut total = match r {
            Ok(l) => l,
            Err(e) => return Err(e),
        };
        let ghost mut acc = spec_string(self.track_namespace@)->Ok_0;
        let r = write_var_int(self.error_code, w);
        proof {
            lemma_then_step(old_w, acc, w@, r, spec_var_int(self.error_code));
            lemma_vec_len(w);
        }
        let l = match r {
            Ok(l) => l,
            Err(e) => return Err(e),
        };
        proof {
            acc = acc + spec_var_int(self.error_code)->Ok_0;
        }
        total = total + l;
        let r = write_string(&self.reason_phrase, w);
        proof {
            lemma_then_step(old_w, acc, w@, r, spec_string(self.reason_phrase@));
            lemma_vec_len(w);
        }
        let l = match r {
            Ok(l) => l,
            Err(e) => return Err(e),
        };
        proof {
            acc = acc + spec_string(self.reason_phrase@)->Ok_0;
        }
        total = total + l;
        Ok(total)
    }
}

impl Serializer for AnnounceCancel {
    open spec fn spec_serialize(v: AnnounceCancelView) -> Result<Seq<u8>, ErrorView> {
        AnnounceCancel::spec_wire(v)
    }

    fn serialize(&self, w: &mut Vec<u8>) -> (res: Result<usize, Error>) {
        self.write(w)
    }
}

impl Deserializer for AnnounceCancel {
    open spec fn spec_deserialize(s: Seq<u8>) -> Result<(AnnounceCancelView, int), ErrorView> {
        AnnounceCancel::spec_parse(s, 0)
    }

    fn deserialize(r: &[u8]) -> (res: Result<(AnnounceCancel, usize), Error>) {
        AnnounceCancel::parse(r, 0)
    }
}
} // verus!
