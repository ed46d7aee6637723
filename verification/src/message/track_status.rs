use crate::error::{Error, ErrorView};
use crate::message::{fits, FullSequence};
use crate::serde::varint::{lemma_u64_roundtrip, read_var_int, spec_read_var_int, spec_var_int, write_var_int};
use crate::serde::{
    at, lemma_at_split, lemma_first_step, lemma_string_roundtrip, lemma_then_step, lemma_vec_len,
    read_outcome, read_string, spec_read_string, spec_string, then, write_string, wrote,
    Deserializer, Serializer,
};
use vstd::prelude::*;

verus! {

/// The state of a track.
#[derive(Default, Debug, Copy, Clone, Eq, PartialEq, Structural)]
pub enum TrackStatusCode {
    #[default]
    InProgress,
    DoesNotExist,
    NotYetBegun,
    Finished,
    StatusNotAvailable,
}

impl View for TrackStatusCode {
    type V = TrackStatusCode;

    open spec fn view(&self) -> TrackStatusCode {
        *self
    }
}

impl TrackStatusCode {
    /// The wire code of this value.
    pub open spec fn code(self) -> u64 {
        match self {
            TrackStatusCode::InProgress => 0x0,
            TrackStatusCode::DoesNotExist => 0x1,
            TrackStatusCode::NotYetBegun => 0x2,
            TrackStatusCode::Finished => 0x3,
            TrackStatusCode::StatusNotAvailable => 0x4,
        }
    }

    pub fn value(&self) -> (v: u64)
        ensures
            v == self.code(),
    {
        match self {
            TrackStatusCode::InProgress => 0x0,
            TrackStatusCode::DoesNotExist => 0x1,
            TrackStatusCode::NotYetBegun => 0x2,
            TrackStatusCode::Finished => 0x3,
            TrackStatusCode::StatusNotAvailable => 0x4,
        }
    }
}

/// The status of a track.
#[derive(Default, Debug, Clone, Eq, PartialEq)]
pub struct TrackStatus {
    pub track_namespace: String,
    pub track_name: String,
    pub status_code: u64,
    pub last_group_object: FullSequence,
}

/// The content of a [`TrackStatus`], strings taken by their characters.
pub struct TrackStatusView {
    pub track_namespace: Seq<char>,
    pub track_name: Seq<char>,
    pub status_code: u64,
    pub last_group_object: FullSequence,
}

impl View for TrackStatus {
    type V = TrackStatusView;

    open spec fn view(&self) -> TrackStatusView {
        TrackStatusView { track_namespace: self.track_namespace@, track_name: self.track_name@, status_code: self.status_code, last_group_object: self.last_group_object }
    }
}

impl TrackStatus {
    /// What writing a TrackStatus appends: its fields in order.
    pub open spec fn spec_wire(v: TrackStatusView) -> Result<Seq<u8>, ErrorView> {
        then(then(then(spec_string(v.track_namespace), spec_string(v.track_name)), spec_var_int(v.status_code)), FullSequence::spec_wire(v.last_group_object))
    }

    /// Reading a TrackStatus at `off`.
    pub open spec fn spec_parse(s: Seq<u8>, off: int) -> Result<(TrackStatusView, int), ErrorView> {
        match spec_read_string(s, off) {
            Ok((x_track_namespace, p1)) => {
                match spec_read_string(s, p1) {
                    Ok((x_track_name, p2)) => {
                        match spec_read_var_int(s, p2) {
                            Ok((x_status_code, p3)) => {
                                match FullSequence::spec_parse(s, p3) {
                                    Ok((x_last_group_object, p4)) => {
                                        Ok((TrackStatusView { track_namespace: x_track_namespace, track_name: x_track_name, status_code: x_status_code, last_group_object: x_last_group_object }, p4))
                                    },
                                    Err(e) => Err(e),
                                }
                            },
                            Err(e) => Err(e),
                        }
                    },
                    Err(e) => Err(e),
                }
            },
            Err(e) => Err(e),
        }
    }

    pub fn parse(r: &[u8], pos: usize) -> (res: Result<(TrackStatus, usize), Error>)
        ensures
            read_outcome(res, TrackStatus::spec_parse(r@, pos as int)),
    {
        let (track_namespace, p1) = match read_string(r, pos) {
            Ok(x) => x,
            Err(e) => return Err(e),
        };
        let (track_name, p2) = match read_string(r, p1) {
            Ok(x) => x,
            Err(e) => return Err(e),
        };
        let (status_code, p3) = match read_var_int(r, p2) {
            Ok(x) => x,
            Err(e) => return Err(e),
        };
        let (last_group_object, p4) = match FullSequence::parse(r, p3) {
            Ok(x) => x,
            Err(e) => return Err(e),
        };
        Ok((TrackStatus { track_namespace, track_name, status_code, last_group_object }, p4))
    }

    /// A TrackStatus written and read back is the same TrackStatus.
    pub proof fn lemma_roundtrip(v: TrackStatusView, s: Seq<u8>, off: int)
        requires
            TrackStatus::spec_wire(v) is Ok,
            fits(v.track_namespace),
            fits(v.track_name),
            at(s, off, TrackStatus::spec_wire(v)->Ok_0),
        ensures
            TrackStatus::spec_parse(s, off) == Ok::<(TrackStatusView, int), ErrorView>(
                (v, off + TrackStatus::spec_wire(v)->Ok_0.len()),
            ),
    {
        let b0 = spec_string(v.track_namespace)->Ok_0;
        let b1 = spec_string(v.track_name)->Ok_0;
        let b2 = spec_var_int(v.status_code)->Ok_0;
        let b3 = FullSequence::spec_wire(v.last_group_object)->Ok_0;
        lemma_at_split(s, off, (b0 + b1 + b2), b3);
        lemma_at_split(s, off, (b0 + b1), b2);
        lemma_at_split(s, off, b0, b1);
        lemma_string_roundtrip(v.track_namespace, s, off);
        lemma_string_roundtrip(v.track_name, s, off + b0.len());
        lemma_u64_roundtrip(v.status_code, s, off + (b0 + b1).len());
        FullSequence::lemma_roundtrip(v.last_group_object, s, off + (b0 + b1 + b2).len());
    }

    pub fn write(&self, w: &mut Vec<u8>) -> (res: Result<usize, Error>)
        ensures
            wrote(old(w)@, final(w)@, res, TrackStatus::spec_wire(self@)),
    {
        let ghost old_w = w@;
        let r = write_string(&self.track_namespace, w);
        proof {
            lemma_first_step(old_w, w@, r, spec_string(self.track_namespace@));
        }
        let mut total = match r {
            Ok(l) => l,
            Err(e) => return Err(e),
        };
        let ghost mut acc = spec_string(self.track_namespace@)->Ok_0;
        let r = write_string(&self.track_name, w);
        proof {
            lemma_then_step(old_w, acc, w@, r, spec_string(self.track_name@));
            lemma_vec_len(w);
        }
        let l = match r {
            Ok(l) => l,
            Err(e) => return Err(e),
        };
        proof {
            acc = acc + spec_string(self.track_name@)->Ok_0;
        }
        total = total + l;
        let r = write_var_int(self.status_code, w);
        proof {
            lemma_then_step(old_w, acc, w@, r, spec_var_int(self.status_code));
            lemma_vec_len(w);
        }
        let l = match r {
            Ok(l) => l,
            Err(e) => return Err(e),
        };
        proof {
            acc = acc + spec_var_int(self.status_code)->Ok_0;
        }
        total = total + l;
        let r = self.last_group_object.write(w);
        proof {
            lemma_then_step(old_w, acc, w@, r, FullSequence::spec_wire(self.last_group_object));
            lemma_vec_len(w);
        }
        let l = match r {
            Ok(l) => l,
            Err(e) => return Err(e),
        };
        proof {
            acc = acc + FullSequence::spec_wire(self.last_group_object)->Ok_0;
        }
        total = total + l;
        Ok(total)
    }
}

impl Serializer for TrackStatus {
    open spec fn spec_serialize(v: TrackStatusView) -> Result<Seq<u8>, ErrorView> {
        TrackStatus::spec_wire(v)
    }

    fn serialize(&self, w: &mut Vec<u8>) -> (res: Result<usize, Error>) {
        self.write(w)
    }
}

impl Deserializer for TrackStatus {
    open spec fn spec_deserialize(s: Seq<u8>) -> Result<(TrackStatusView, int), ErrorView> {
        TrackStatus::spec_parse(s, 0)
    }

    fn deserialize(r: &[u8]) -> (res: Result<(TrackStatus, usize), Error>) {
        TrackStatus::parse(r, 0)
    }
}
} // verus!
