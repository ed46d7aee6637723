use crate::error::{Error, ErrorView};
use crate::message::fits;
use crate::serde::varint::{lemma_u64_roundtrip, read_var_int, spec_read_var_int, spec_var_int, write_var_int};
use crate::serde::{
    at, lemma_at_split, lemma_first_step, lemma_string_roundtrip, lemma_then_step, lemma_vec_len,
    read_outcome, read_string, spec_read_string, spec_string, then, write_string, wrote,
    Deserializer, Serializer,
};
use vstd::prelude::*;

verus! {

/// Why a subscription was refused.
#[derive(Default, Debug, Copy, Clone, Eq, PartialEq, Structural)]
pub enum SubscribeErrorCode {
    #[default]
    InternalError,
    InvalidRange,
    RetryTrackAlias,
}

impl View for SubscribeErrorCode {
    type V = SubscribeErrorCode;

    open spec fn view(&self) -> SubscribeErrorCode {
        *self
    }
}

impl SubscribeErrorCode {
    /// The wire code of this value.
    pub open spec fn code(self) -> u64 {
        match self {
            SubscribeErrorCode::InternalError => 0,
            SubscribeErrorCode::InvalidRange => 1,
            SubscribeErrorCode::RetryTrackAlias => 2,
        }
    }

    pub fn value(&self) -> (v: u64)
        ensures
            v == self.code(),
    {
        match self {
            SubscribeErrorCode::InternalError => 0,
            SubscribeErrorCode::InvalidRange => 1,
            SubscribeErrorCode::RetryTrackAlias => 2,
        }
    }
}

/// Refuses a subscription.
#[derive(Default, Debug, Clone, Eq, PartialEq)]
pub struct SubscribeError {
    pub subscribe_id: u64,
    pub error_code: u64,
    pub reason_phrase: String,
    pub track_alias: u64,
}

/// The content of a [`SubscribeError`], strings taken by their characters.
pub struct SubscribeErrorView {
    pub subscribe_id: u64,
    pub error_code: u64,
    pub reason_phrase: Seq<char>,
    pub track_alias: u64,
}

impl View for SubscribeError {
    type V = SubscribeErrorView;

    open spec fn view(&self) -> SubscribeErrorView {
        SubscribeErrorView { subscribe_id: self.subscribe_id, error_code: self.error_code, reason_phrase: self.reason_phrase@, track_alias: self.track_alias }
    }
}

impl SubscribeError {
    /// What writing a SubscribeError appends: its fields in order.
    pub open spec fn spec_wire(v: SubscribeErrorView) -> Result<Seq<u8>, ErrorView> {
        then(then(then(spec_var_int(v.subscribe_id), spec_var_int(v.error_code)), spec_string(v.reason_phrase)), spec_var_int(v.track_alias))
    }

    /// Reading a SubscribeError at `off`.
    pub open spec fn spec_parse(s: Seq<u8>, off: int) -> Result<(SubscribeErrorView, int), ErrorView> {
        match spec_read_var_int(s, off) {
            Ok((x_subscribe_id, p1)) => {
                match spec_read_var_int(s, p1) {
                    Ok((x_error_code, p2)) => {
                        match spec_read_string(s, p2) {
                            Ok((x_reason_phrase, p3)) => {
                                match spec_read_var_int(s, p3) {
                                    Ok((x_track_alias, p4)) => {
                                        Ok((SubscribeErrorView { subscribe_id: x_subscribe_id, error_code: x_error_code, reason_phrase: x_reason_phrase, track_alias: x_track_alias }, p4))
                                    },
                                    Err(e) => Err(e),
                                }
                            },
                            Err(e) => Err(e),
                        }
                    },
                    Err(e) => Err(e),
                }
            },
            Err(e) => Err(e),
        }
    }

    pub fn parse(r: &[u8], pos: usize) -> (res: Result<(SubscribeError, usize), Error>)
        ensures
            read_outcome(res, SubscribeError::spec_parse(r@, pos as int)),
    {
        let (subscribe_id, p1) = match read_var_int(r, pos) {
            Ok(x) => x,
            Err(e) => return Err(e),
        };
        let (error_code, p2) = match read_var_int(r, p1) {
            Ok(x) => x,
            Err(e) => return Err(e),
        };
        let (reason_phrase, p3) = match read_string(r, p2) {
            Ok(x) => x,
            Err(e) => return Err(e),
        };
        let (track_alias, p4) = match read_var_int(r, p3) {
            Ok(x) => x,
            Err(e) => return Err(e),
        };
        Ok((SubscribeError { subscribe_id, error_code, reason_phrase, track_alias }, p4))
    }

    /// A SubscribeError written and read back is the same SubscribeError.
    pub proof fn lemma_roundtrip(v: SubscribeErrorView, s: Seq<u8>, off: int)
        requires
            SubscribeError::spec_wire(v) is Ok,
            fits(v.reason_phrase),
            at(s, off, SubscribeError::spec_wire(v)->Ok_0),
        ensures
            SubscribeError::spec_parse(s, off) == Ok::<(SubscribeErrorView, int), ErrorView>(
                (v, off + SubscribeError::spec_wire(v)->Ok_0.len()),
            ),
    {
        let b0 = spec_var_int(v.subscribe_id)->Ok_0;
        let b1 = spec_var_int(v.error_code)->Ok_0;
        let b2 = spec_string(v.reason_phrase)->Ok_0;
        let b3 = spec_var_int(v.track_alias)->Ok_0;
        lemma_at_split(s, off, (b0 + b1 + b2), b3);
        lemma_at_split(s, off, (b0 + b1), b2);
        lemma_at_split(s, off, b0, b1);
        lemma_u64_roundtrip(v.subscribe_id, s, off);
        lemma_u64_roundtrip(v.error_code, s, off + b0.len());
        lemma_string_roundtrip(v.reason_phrase, s, off + (b0 + b1).len());
        lemma_u64_roundtrip(v.track_alias, s, off + (b0 + b1 + b2).len());
    }

    pub fn write(&self, w: &mut Vec<u8>) -> (res: Result<usize, Error>)
        ensures
            wrote(old(w)@, final(w)@, res, SubscribeError::spec_wire(self@)),
    {
        let ghost old_w = w@;
        let r = write_var_int(self.subscribe_id, w);
        proof {
            lemma_first_step(old_w, w@, r, spec_var_int(self.subscribe_id));
        }
        let mut total = match r {
            Ok(l) => l,
            Err(e) => return Err(e),
        };
        let ghost mut acc = spec_var_int(self.subscribe_id)->Ok_0;
        let r = write_var_int(self.error_code, w);
        proof {
            lemma_then_step(old_w, acc, w@, r, spec_var_int(self.error_code));
            lemma_vec_len(w);
        }
        let l = match r {
            Ok(l) => l,
            Err(e) => return Err(e),
        };
        proof {
            acc = acc + spec_var_int(self.error_code)->Ok_0;
        }
        total = total + l;
        let r = write_string(&self.reason_phrase, w);
        proof {
            lemma_then_step(old_w, acc, w@, r, spec_string(self.reason_phrase@));
            lemma_vec_len(w);
        }
        let l = match r {
            Ok(l) => l,
            Err(e) => return Err(e),
        };
        proof {
            acc = acc + spec_string(self.reason_phrase@)->Ok_0;
        }
        total = total + l;
        let r = write_var_int(self.track_alias, w);
        proof {
            lemma_then_step(old_w, acc, w@, r, spec_var_int(self.track_alias));
            lemma_vec_len(w);
        }
        let l = match r {
            Ok(l) => l,
            Err(e) => return Err(e),
        };
        proof {
            acc = acc + spec_var_int(self.track_alias)->Ok_0;
        }
        total = total + l;
        Ok(total)
    }
}

impl Serializer for SubscribeError {
    open spec fn spec_serialize(v: SubscribeErrorView) -> Result<Seq<u8>, ErrorView> {
        SubscribeError::spec_wire(v)
    }

    fn serialize(&self, w: &mut Vec<u8>) -> (res: Result<usize, Error>) {
        self.write(w)
    }
}

impl Deserializer for SubscribeError {
    open spec fn spec_deserialize(s: Seq<u8>) -> Result<(SubscribeErrorView, int), ErrorView> {
        SubscribeError::spec_parse(s, 0)
    }

    fn deserialize(r: &[u8]) -> (res: Result<(SubscribeError, usize), Error>) {
        SubscribeError::parse(r, 0)
    }
}
} // verus!
