use crate::error::{Error, ErrorView};
use crate::message::{fits, read_opt_seq, spec_opt_seq_wire, spec_read_opt_seq, write_opt_seq, lemma_opt_seq_roundtrip, FullSequence};
use crate::serde::varint::{lemma_u64_roundtrip, read_var_int, spec_read_var_int, spec_var_int, write_var_int};
use crate::serde::{
    at, lemma_at_split, lemma_first_step, lemma_string_roundtrip, lemma_then_step, lemma_vec_len,
    read_outcome, read_string, spec_read_string, spec_string, then, write_string, wrote,
    Deserializer, Serializer,
};
use vstd::prelude::*;

verus! {

/// Why a subscription ended.
#[derive(Default, Debug, Copy, Clone, Eq, PartialEq, Structural)]
pub enum SubscribeDoneCode {
    #[default]
    Unsubscribed,
    InternalError,
    Unauthorized,
    TrackEnded,
    SubscriptionEnded,
    GoingAway,
    Expired,
}

impl View for SubscribeDoneCode {
    type V = SubscribeDoneCode;

    open spec fn view(&self) -> SubscribeDoneCode {
        *self
    }
}

impl SubscribeDoneCode {
    /// The wire code of this value.
    pub open spec fn code(self) -> u64 {
        match self {
            SubscribeDoneCode::Unsubscribed => 0x0,
            SubscribeDoneCode::InternalError => 0x1,
            SubscribeDoneCode::Unauthorized => 0x2,
            SubscribeDoneCode::TrackEnded => 0x3,
            SubscribeDoneCode::SubscriptionEnded => 0x4,
            SubscribeDoneCode::GoingAway => 0x5,
            SubscribeDoneCode::Expired => 0x6,
        }
    }

    pub fn value(&self) -> (v: u64)
        ensures
            v == self.code(),
    {
        match self {
            SubscribeDoneCode::Unsubscribed => 0x0,
            SubscribeDoneCode::InternalError => 0x1,
            SubscribeDoneCode::Unauthorized => 0x2,
            SubscribeDoneCode::TrackEnded => 0x3,
            SubscribeDoneCode::SubscriptionEnded => 0x4,
            SubscribeDoneCode::GoingAway => 0x5,
            SubscribeDoneCode::Expired => 0x6,
        }
    }
}

/// Ends a subscription from the publisher side.
#[derive(Default, Debug, Clone, Eq, PartialEq)]
pub struct SubscribeDone {
    pub subscribe_id: u64,
    pub status_code: u64,
    pub reason_phrase: String,
    pub final_group_object: Option<FullSequence>,
}

/// The content of a [`SubscribeDone`], strings taken by their characters.
pub struct SubscribeDoneView {
    pub subscribe_id: u64,
    pub status_code: u64,
    pub reason_phrase: Seq<char>,
    pub final_group_object: Option<FullSequence>,
}

impl View for SubscribeDone {
    type V = SubscribeDoneView;

    open spec fn view(&self) -> SubscribeDoneView {
        SubscribeDoneView { subscribe_id: self.subscribe_id, status_code: self.status_code, reason_phrase: self.reason_phrase@, final_group_object: self.final_group_object }
    }
}

impl SubscribeDone {
    /// What writing a SubscribeDone appends: its fields in order.
    pub open spec fn spec_wire(v: SubscribeDoneView) -> Result<Seq<u8>, ErrorView> {
        then(then(then(spec_var_int(v.subscribe_id), spec_var_int(v.status_code)), spec_string(v.reason_phrase)), spec_opt_seq_wire(v.final_group_object))
    }

    /// Reading a SubscribeDone at `off`.
    pub open spec fn spec_parse(s: Seq<u8>, off: int) -> Result<(SubscribeDoneView, int), ErrorView> {
        match spec_read_var_int(s, off) {
            Ok((x_subscribe_id, p1)) => {
                match spec_read_var_int(s, p1) {
                    Ok((x_status_code, p2)) => {
                        match spec_read_string(s, p2) {
                            Ok((x_reason_phrase, p3)) => {
                                match spec_read_opt_seq(s, p3, "SUBSCRIBE_DONE ContentExists has invalid value "@) {
                                    Ok((x_final_group_object, p4)) => {
                                        Ok((SubscribeDoneView { subscribe_id: x_subscribe_id, status_code: x_status_code, reason_phrase: x_reason_phrase, final_group_object: x_final_group_object }, p4))
                                    },
                                    Err(e) => Err(e),
                                }
                            },
                            Err(e) => Err(e),
                        }
                    },
                    Err(e) => Err(e),
                }
            },
            Err(e) => Err(e),
        }
    }

    pub fn parse(r: &[u8], pos: usize) -> (res: Result<(SubscribeDone, usize), Error>)
        ensures
            read_outcome(res, SubscribeDone::spec_parse(r@, pos as int)),
    {
        let (subscribe_id, p1) = match read_var_int(r, pos) {
            Ok(x) => x,
            Err(e) => return Err(e),
        };
        let (status_code, p2) = match read_var_int(r, p1) {
            Ok(x) => x,
            Err(e) => return Err(e),
        };
        let (reason_phrase, p3) = match read_string(r, p2) {
            Ok(x) => x,
            Err(e) => return Err(e),
        };
        let (final_group_object, p4) = match read_opt_seq(r, p3, "SUBSCRIBE_DONE ContentExists has invalid value ") {
            Ok(x) => x,
            Err(e) => return Err(e),
        };
        Ok((SubscribeDone { subscribe_id, status_code, reason_phrase, final_group_object }, p4))
    }

    /// A SubscribeDone written and read back is the same SubscribeDone.
    pub proof fn lemma_roundtrip(v: SubscribeDoneView, s: Seq<u8>, off: int)
        requires
            SubscribeDone::spec_wire(v) is Ok,
            fits(v.reason_phrase),
            at(s, off, SubscribeDone::spec_wire(v)->Ok_0),
        ensures
            SubscribeDone::spec_parse(s, off) == Ok::<(SubscribeDoneView, int), ErrorView>(
                (v, off + SubscribeDone::spec_wire(v)->Ok_0.len()),
            ),
    {
        let b0 = spec_var_int(v.subscribe_id)->Ok_0;
        let b1 = spec_var_int(v.status_code)->Ok_0;
        let b2 = spec_string(v.reason_phrase)->Ok_0;
        let b3 = spec_opt_seq_wire(v.final_group_object)->Ok_0;
        lemma_at_split(s, off, (b0 + b1 + b2), b3);
        lemma_at_split(s, off, (b0 + b1), b2);
        lemma_at_split(s, off, b0, b1);
        lemma_u64_roundtrip(v.subscribe_id, s, off);
        lemma_u64_roundtrip(v.status_code, s, off + b0.len());
        lemma_string_roundtrip(v.reason_phrase, s, off + (b0 + b1).len());
        lemma_opt_seq_roundtrip(v.final_group_object, s, off + (b0 + b1 + b2).len(), "SUBSCRIBE_DONE ContentExists has invalid value "@);
    }

    pub fn write(&self, w: &mut Vec<u8>) -> (res: Result<usize, Error>)
        ensures
            wrote(old(w)@, final(w)@, res, SubscribeDone::spec_wire(self@)),
    {
        let ghost old_w = w@;
        let r = write_var_int(self.subscribe_id, w);
        proof {
            lemma_first_step(old_w, w@, r, spec_var_int(self.subscribe_id));
        }
        let mut total = match r {
            Ok(l) => l,
            Err(e) => return Err(e),
        };
        let ghost mut acc = spec_var_int(self.subscribe_id)->Ok_0;
        let r = write_var_int(self.status_code, w);
        proof {
            lemma_then_step(old_w, acc, w@, r, spec_var_int(self.status_code));
            lemma_vec_len(w);
        }
        let l = match r {
            Ok(l) => l,
            Err(e) => return Err(e),
        };
        proof {
            acc = acc + spec_var_int(self.status_code)->Ok_0;
        }
        total = total + l;
        let r = write_string(&self.reason_phrase, w);
        proof {
            lemma_then_step(old_w, acc, w@, r, spec_string(self.reason_phrase@));
            lemma_vec_len(w);
        }
        let l = match r {
            Ok(l) => l,
            Err(e) => return Err(e),
        };
        proof {
            acc = acc + spec_string(self.reason_phrase@)->Ok_0;
        }
        total = total + l;
        let r = write_opt_seq(&self.final_group_object, w);
        proof {
            lemma_then_step(old_w, acc, w@, r, spec_opt_seq_wire(self.final_group_object));
            lemma_vec_len(w);
        }
        let l = match r {
            Ok(l) => l,
            Err(e) => return Err(e),
        };
        proof {
            acc = acc + spec_opt_seq_wire(self.final_group_object)->Ok_0;
        }
        total = total + l;
        Ok(total)
    }
}

impl Serializer for SubscribeDone {
    open spec fn spec_serialize(v: SubscribeDoneView) -> Result<Seq<u8>, ErrorView> {
        SubscribeDone::spec_wire(v)
    }

    fn serialize(&self, w: &mut Vec<u8>) -> (res: Result<usize, Error>) {
        self.write(w)
    }
}

impl Deserializer for SubscribeDone {
    open spec fn spec_deserialize(s: Seq<u8>) -> Result<(SubscribeDoneView, int), ErrorView> {
        SubscribeDone::spec_parse(s, 0)
    }

    fn deserialize(r: &[u8]) -> (res: Result<(SubscribeDone, usize), Error>) {
        SubscribeDone::parse(r, 0)
    }
}
} // verus!
