use crate::error::{Error, ErrorView};
use crate::message::{end_from_wire, end_object_from_wire, end_object_to_wire, end_to_wire, fits, FullSequence, FullTrackName, FullTrackNameView};
use crate::serde::parameters::{lemma_auth_roundtrip, opt_view, read_auth_list, spec_auth_wire, spec_read_auth_list, write_auth};
use crate::error::{parse_err, ErrorCode};
use crate::text::{decimal_digits, decimal_text, join, text};
use crate::serde::varint::{lemma_u64_roundtrip, read_var_int, spec_read_var_int, spec_var_int, write_var_int};
use crate::serde::{at, lemma_at_split, lemma_first_step, lemma_then_step, lemma_vec_len, read_outcome, then, wrote, Deserializer, Serializer};
use vstd::prelude::*;

verus! {

/// How a fetch names the objects it asks for.
#[derive(Debug, Copy, Clone, Eq, PartialEq, Structural)]
pub enum FetchType {
    Standalone,
    RelativeJoining,
    AbsoluteJoining,
}

impl View for FetchType {
    type V = FetchType;

    open spec fn view(&self) -> FetchType {
        *self
    }
}

impl FetchType {
    /// The wire code of the fetch type.
    pub open spec fn code(self) -> u64 {
        match self {
            FetchType::Standalone => 0x1,
            FetchType::RelativeJoining => 0x2,
            FetchType::AbsoluteJoining => 0x3,
        }
    }

    pub fn value(&self) -> (v: u64)
        ensures
            v == self.code(),
    {
        match self {
            FetchType::Standalone => 0x1,
            FetchType::RelativeJoining => 0x2,
            FetchType::AbsoluteJoining => 0x3,
        }
    }

    /// The fetch type with a code; any other code is a protocol violation.
    pub open spec fn spec_try_from(value: u64) -> Result<FetchType, ErrorView> {
        if value == 0x1 {
            Ok(FetchType::Standalone)
        } else if value == 0x2 {
            Ok(FetchType::RelativeJoining)
        } else if value == 0x3 {
            Ok(FetchType::AbsoluteJoining)
        } else {
            Err(
                ErrorView::ErrParseError(
                    ErrorCode::ProtocolViolation,
                    "Invalid FETCH type "@ + decimal_digits(value as nat),
                ),
            )
        }
    }

    pub fn try_from(value: u64) -> (res: Result<FetchType, Error>)
        ensures
            match FetchType::spec_try_from(value) {
                Ok(t) => res == Ok::<FetchType, Error>(t),
                Err(e) => res matches Err(x) && x@ == e,
            },
    {
        if value == 0x1 {
            Ok(FetchType::Standalone)
        } else if value == 0x2 {
            Ok(FetchType::RelativeJoining)
        } else if value == 0x3 {
            Ok(FetchType::AbsoluteJoining)
        } else {
            let reason = join("Invalid FETCH type ", &decimal_text(value));
            Err(Error::ErrParseError(ErrorCode::ProtocolViolation, reason))
        }
    }

    /// Reading a fetch type at `off`.
    pub open spec fn spec_parse(s: Seq<u8>, off: int) -> Result<(FetchType, int), ErrorView> {
        match spec_read_var_int(s, off) {
            Ok((v, p)) => match FetchType::spec_try_from(v) {
                Ok(t) => Ok((t, p)),
                Err(e) => Err(e),
            },
            Err(e) => Err(e),
        }
    }

    pub fn parse(r: &[u8], pos: usize) -> (res: Result<(FetchType, usize), Error>)
        ensures
            read_outcome(res, FetchType::spec_parse(r@, pos as int)),
    {
        let (v, p) = match read_var_int(r, pos) {
            Ok(x) => x,
            Err(e) => return Err(e),
        };
        match FetchType::try_from(v) {
            Ok(t) => Ok((t, p)),
            Err(e) => Err(e),
        }
    }
}

impl Serializer for FetchType {
    open spec fn spec_serialize(v: FetchType) -> Result<Seq<u8>, ErrorView> {
        spec_var_int(v.code())
    }

    fn serialize(&self, w: &mut Vec<u8>) -> (res: Result<usize, Error>) {
        write_var_int(self.value(), w)
    }
}

impl Deserializer for FetchType {
    open spec fn spec_deserialize(s: Seq<u8>) -> Result<(FetchType, int), ErrorView> {
        FetchType::spec_parse(s, 0)
    }

    fn deserialize(r: &[u8]) -> (res: Result<(FetchType, usize), Error>) {
        FetchType::parse(r, 0)
    }
}

/// A fetch of a range of a named track, from `start` to `end`, both
/// included.
#[derive(Default, Debug, Clone, Eq, PartialEq)]
pub struct StandaloneFetch {
    pub full_track_name: FullTrackName,
    pub start: FullSequence,
    pub end: FullSequence,
}

/// The content of a [`StandaloneFetch`].
pub struct StandaloneFetchView {
    pub full_track_name: FullTrackNameView,
    pub start: FullSequence,
    pub end: FullSequence,
}

impl View for StandaloneFetch {
    type V = StandaloneFetchView;

    open spec fn view(&self) -> StandaloneFetchView {
        StandaloneFetchView { full_track_name: self.full_track_name@, start: self.start, end: self.end }
    }
}

/// A fetch that joins an earlier request.
#[derive(Default, Debug, Copy, Clone, Eq, PartialEq, Structural)]
pub struct JoiningFetch {
    pub joining_request_id: u64,
    pub joining_start: u64,
}

impl View for JoiningFetch {
    type V = JoiningFetch;

    open spec fn view(&self) -> JoiningFetch {
        *self
    }
}

/// What a fetch asks for.
#[derive(Debug, Clone, Eq, PartialEq)]
pub enum FetchTarget {
    Standalone(StandaloneFetch),
    RelativeJoining(JoiningFetch),
    AbsoluteJoining(JoiningFetch),
}

/// The content of a [`FetchTarget`].
pub enum FetchTargetView {
    Standalone(StandaloneFetchView),
    RelativeJoining(JoiningFetch),
    AbsoluteJoining(JoiningFetch),
}

impl View for FetchTarget {
    type V = FetchTargetView;

    open spec fn view(&self) -> FetchTargetView {
        match self {
            FetchTarget::Standalone(f) => FetchTargetView::Standalone(f@),
            FetchTarget::RelativeJoining(j) => FetchTargetView::RelativeJoining(*j),
            FetchTarget::AbsoluteJoining(j) => FetchTargetView::AbsoluteJoining(*j),
        }
    }
}

/// `end` does not come before `start`; otherwise the protocol violation
/// that says which way it fails.
pub open spec fn spec_validate_range(start: FullSequence, end: FullSequence) -> Result<(), ErrorView> {
    if end.group_id < start.group_id {
        Err(parse_err(ErrorCode::ProtocolViolation, "End group is less than start group in FETCH"))
    } else if end.group_id == start.group_id && end.object_id < start.object_id {
        Err(
            parse_err(
                ErrorCode::ProtocolViolation,
                "End object comes before start object in FETCH",
            ),
        )
    } else {
        Ok(())
    }
}

/// Reading the target body of a joining fetch at `off`.
pub open spec fn spec_read_joining(s: Seq<u8>, off: int) -> Result<(JoiningFetch, int), ErrorView> {
    match spec_read_var_int(s, off) {
        Ok((id, p1)) => match spec_read_var_int(s, p1) {
            Ok((start, p2)) => Ok((JoiningFetch { joining_request_id: id, joining_start: start }, p2)),
            Err(e) => Err(e),
        },
        Err(e) => Err(e),
    }
}

impl FetchTarget {
    /// The fetch type that stands before the target.
    pub open spec fn spec_type(v: FetchTargetView) -> FetchType {
        match v {
            FetchTargetView::Standalone(_) => FetchType::Standalone,
            FetchTargetView::RelativeJoining(_) => FetchType::RelativeJoining,
            FetchTargetView::AbsoluteJoining(_) => FetchType::AbsoluteJoining,
        }
    }

    /// What writing a target appends: its fetch type, then the track name,
    /// start and end as written of a standalone fetch (whose range is checked
    /// first), or the joined request and start of a joining fetch.
    pub open spec fn spec_wire(v: FetchTargetView) -> Result<Seq<u8>, ErrorView> {
        match v {
            FetchTargetView::Standalone(f) => match spec_validate_range(f.start, f.end) {
                Ok(_) => then(
                    then(
                        then(spec_var_int(0x1), FullTrackName::spec_wire(f.full_track_name)),
                        FullSequence::spec_wire(f.start),
                    ),
                    FullSequence::spec_wire(end_to_wire(f.end)),
                ),
                Err(e) => Err(e),
            },
            FetchTargetView::RelativeJoining(j) => then(
                then(spec_var_int(0x2), spec_var_int(j.joining_request_id)),
                spec_var_int(j.joining_start),
            ),
            FetchTargetView::AbsoluteJoining(j) => then(
                then(spec_var_int(0x3), spec_var_int(j.joining_request_id)),
                spec_var_int(j.joining_start),
            ),
        }
    }

    /// Reading a target at `off`.
    pub open spec fn spec_parse(s: Seq<u8>, off: int) -> Result<(FetchTargetView, int), ErrorView> {
        match FetchType::spec_parse(s, off) {
            Ok((t, p)) => match t {
                FetchType::Standalone => match FullTrackName::spec_parse(s, p) {
                    Ok((name, p1)) => match FullSequence::spec_parse(s, p1) {
                        Ok((start, p2)) => match FullSequence::spec_parse(s, p2) {
                            Ok((wire_end, p3)) => {
                                let end = end_from_wire(wire_end);
                                match spec_validate_range(start, end) {
                                    Ok(_) => Ok(
                                        (
                                            FetchTargetView::Standalone(
                                                StandaloneFetchView {
                                                    full_track_name: name,
                                                    start,
                                                    end,
                                                },
                                            ),
                                            p3,
                                        ),
                                    ),
                                    Err(e) => Err(e),
                                }
                            },
                            Err(e) => Err(e),
                        },
                        Err(e) => Err(e),
                    },
                    Err(e) => Err(e),
                },
                FetchType::RelativeJoining => match spec_read_joining(s, p) {
                    Ok((j, p2)) => Ok((FetchTargetView::RelativeJoining(j), p2)),
                    Err(e) => Err(e),
                },
                FetchType::AbsoluteJoining => match spec_read_joining(s, p) {
                    Ok((j, p2)) => Ok((FetchTargetView::AbsoluteJoining(j), p2)),
                    Err(e) => Err(e),
                },
            },
            Err(e) => Err(e),
        }
    }

    /// The strings of the target fit in memory.
    pub open spec fn fits_view(v: FetchTargetView) -> bool {
        match v {
            FetchTargetView::Standalone(f) => fits(f.full_track_name.track_namespace) && fits(
                f.full_track_name.track_name,
            ),
            _ => true,
        }
    }

    fn read_joining(r: &[u8], pos: usize) -> (res: Result<(JoiningFetch, usize), Error>)
        ensures
            read_outcome(res, spec_read_joining(r@, pos as int)),
    {
        let (joining_request_id, p1) = match read_var_int(r, pos) {
            Ok(x) => x,
            Err(e) => return Err(e),
        };
        let (joining_start, p2) = match read_var_int(r, p1) {
            Ok(x) => x,
            Err(e) => return Err(e),
        };
        Ok((JoiningFetch { joining_request_id, joining_start }, p2))
    }

    pub fn parse(r: &[u8], pos: usize) -> (res: Result<(FetchTarget, usize), Error>)
        ensures
            read_outcome(res, FetchTarget::spec_parse(r@, pos as int)),
    {
        let (t, p) = match FetchType::parse(r, pos) {
            Ok(x) => x,
            Err(e) => return Err(e),
        };
        match t {
            FetchType::Standalone => {
                let (full_track_name, p1) = match FullTrackName::parse(r, p) {
                    Ok(x) => x,
                    Err(e) => return Err(e),
                };
                let (start, p2) = match FullSequence::parse(r, p1) {
                    Ok(x) => x,
                    Err(e) => return Err(e),
                };
                let (wire_end, p3) = match FullSequence::parse(r, p2) {
                    Ok(x) => x,
                    Err(e) => return Err(e),
                };
                let end = FullSequence {
                    group_id: wire_end.group_id,
                    object_id: end_object_from_wire(wire_end.object_id),
                };
                match Fetch::validate_range(start, end) {
                    Ok(()) => {},
                    Err(e) => return Err(e),
                }
                Ok((FetchTarget::Standalone(StandaloneFetch { full_track_name, start, end }), p3))
            },
            FetchType::RelativeJoining => {
                let (j, p2) = match FetchTarget::read_joining(r, p) {
                    Ok(x) => x,
                    Err(e) => return Err(e),
                };
                Ok((FetchTarget::RelativeJoining(j), p2))
            },
            FetchType::AbsoluteJoining => {
                let (j, p2) = match FetchTarget::read_joining(r, p) {
                    Ok(x) => x,
                    Err(e) => return Err(e),
                };
                Ok((FetchTarget::AbsoluteJoining(j), p2))
            },
        }
    }

    fn write_joining(code: u64, j: &JoiningFetch, w: &mut Vec<u8>) -> (res: Result<usize, Error>)
        ensures
            wrote(
                old(w)@,
                final(w)@,
                res,
                then(
                    then(spec_var_int(code), spec_var_int(j.joining_request_id)),
                    spec_var_int(j.joining_start),
                ),
            ),
    {
        let ghost old_w = w@;
        let r = write_var_int(code, w);
        proof {
            lemma_first_step(old_w, w@, r, spec_var_int(code));
        }
        let mut total = match r {
            Ok(l) => l,
            Err(e) => return Err(e),
        };
        let ghost mut acc = spec_var_int(code)->Ok_0;
        let r = write_var_int(j.joining_request_id, w);
        proof {
            lemma_then_step(old_w, acc, w@, r, spec_var_int(j.joining_request_id));
            lemma_vec_len(w);
        }
        let l = match r {
            Ok(l) => l,
            Err(e) => return Err(e),
        };
        proof {
            acc = acc + spec_var_int(j.joining_request_id)->Ok_0;
        }
        total = total + l;
        let r = write_var_int(j.joining_start, w);
        proof {
            lemma_then_step(old_w, acc, w@, r, spec_var_int(j.joining_start));
            lemma_vec_len(w);
        }
        let l = match r {
            Ok(l) => l,
            Err(e) => return Err(e),
        };
        total = total + l;
        Ok(total)
    }

    pub fn write(&self, w: &mut Vec<u8>) -> (res: Result<usize, Error>)
        ensures
            wrote(old(w)@, final(w)@, res, FetchTarget::spec_wire(self@)),
    {
        match self {
            FetchTarget::Standalone(f) => {
                match Fetch::validate_range(f.start, f.end) {
                    Ok(()) => {},
                    Err(e) => {
                        proof {
                            assert(crate::serde::extends(old(w)@, w@));
                        }
                        return Err(e);
                    },
                }
                let ghost old_w = w@;
                let r = write_var_int(0x1, w);
                proof {
                    lemma_first_step(old_w, w@, r, spec_var_int(0x1));
                }
                let mut total = match r {
                    Ok(l) => l,
                    Err(e) => return Err(e),
                };
                let ghost mut acc = spec_var_int(0x1)->Ok_0;
                let r = f.full_track_name.serialize(w);
                proof {
                    lemma_then_step(old_w, acc, w@, r, FullTrackName::spec_wire(f.full_track_name@));
                    lemma_vec_len(w);
                }
                let l = match r {
                    Ok(l) => l,
                    Err(e) => return Err(e),
                };
                proof {
                    acc = acc + FullTrackName::spec_wire(f.full_track_name@)->Ok_0;
                }
                total = total + l;
                let r = f.start.write(w);
                proof {
                    lemma_then_step(old_w, acc, w@, r, FullSequence::spec_wire(f.start));
                    lemma_vec_len(w);
                }
                let l = match r {
                    Ok(l) => l,
                    Err(e) => return Err(e),
                };
                proof {
                    acc = acc + FullSequence::spec_wire(f.start)->Ok_0;
                }
                total = total + l;
                let end = FullSequence {
                    group_id: f.end.group_id,
                    object_id: end_object_to_wire(f.end.object_id),
                };
                let r = end.write(w);
                proof {
                    lemma_then_step(old_w, acc, w@, r, FullSequence::spec_wire(end_to_wire(f.end)));
                    lemma_vec_len(w);
                }
                let l = match r {
                    Ok(l) => l,
                    Err(e) => return Err(e),
                };
                total = total + l;
                Ok(total)
            },
            FetchTarget::RelativeJoining(j) => FetchTarget::write_joining(0x2, j, w),
            FetchTarget::AbsoluteJoining(j) => FetchTarget::write_joining(0x3, j, w),
        }
    }

    /// A target written and read back is the same target.
    #[verifier::spinoff_prover]
    pub proof fn lemma_roundtrip(v: FetchTargetView, s: Seq<u8>, off: int)
        requires
            FetchTarget::spec_wire(v) is Ok,
            FetchTarget::fits_view(v),
            at(s, off, FetchTarget::spec_wire(v)->Ok_0),
        ensures
            FetchTarget::spec_parse(s, off) == Ok::<(FetchTargetView, int), ErrorView>(
                (v, off + FetchTarget::spec_wire(v)->Ok_0.len()),
            ),
    {
        match v {
            FetchTargetView::Standalone(f) => {
                let b0 = spec_var_int(0x1)->Ok_0;
                let b1 = FullTrackName::spec_wire(f.full_track_name)->Ok_0;
                let b2 = FullSequence::spec_wire(f.start)->Ok_0;
                let b3 = FullSequence::spec_wire(end_to_wire(f.end))->Ok_0;
                lemma_at_split(s, off, b0 + b1 + b2, b3);
                lemma_at_split(s, off, b0 + b1, b2);
                lemma_at_split(s, off, b0, b1);
                lemma_u64_roundtrip(0x1, s, off);
                FullTrackName::lemma_roundtrip(f.full_track_name, s, off + b0.len());
                FullSequence::lemma_roundtrip(f.start, s, off + (b0 + b1).len());
                FullSequence::lemma_roundtrip(end_to_wire(f.end), s, off + (b0 + b1 + b2).len());
                assert(end_from_wire(end_to_wire(f.end)) == f.end);
            },
            FetchTargetView::RelativeJoining(j) => {
                let b0 = spec_var_int(0x2)->Ok_0;
                let b1 = spec_var_int(j.joining_request_id)->Ok_0;
                let b2 = spec_var_int(j.joining_start)->Ok_0;
                lemma_at_split(s, off, b0 + b1, b2);
                lemma_at_split(s, off, b0, b1);
                lemma_u64_roundtrip(0x2, s, off);
                lemma_u64_roundtrip(j.joining_request_id, s, off + b0.len());
                lemma_u64_roundtrip(j.joining_start, s, off + (b0 + b1).len());
            },
            FetchTargetView::AbsoluteJoining(j) => {
                let b0 = spec_var_int(0x3)->Ok_0;
                let b1 = spec_var_int(j.joining_request_id)->Ok_0;
                let b2 = spec_var_int(j.joining_start)->Ok_0;
                lemma_at_split(s, off, b0 + b1, b2);
                lemma_at_split(s, off, b0, b1);
                lemma_u64_roundtrip(0x3, s, off);
                lemma_u64_roundtrip(j.joining_request_id, s, off + b0.len());
                lemma_u64_roundtrip(j.joining_start, s, off + (b0 + b1).len());
            },
        }
    }
}

/// What writing the parameters of a fetch appends: the authorization info
/// as the only parameter, or an empty list.
pub open spec fn spec_fetch_auth_wire(auth: Option<Seq<char>>) -> Result<Seq<u8>, ErrorView> {
    match auth {
        Some(a) => spec_auth_wire(a),
        None => spec_var_int(0),
    }
}

pub fn write_fetch_auth(auth: &Option<String>, w: &mut Vec<u8>) -> (res: Result<usize, Error>)
    ensures
        wrote(old(w)@, final(w)@, res, spec_fetch_auth_wire(opt_view(*auth))),
{
    match auth {
        Some(a) => write_auth(a, w),
        None => write_var_int(0, w),
    }
}

/// The parameters of a fetch written and read back give the same
/// authorization info.
pub proof fn lemma_fetch_auth_roundtrip(auth: Option<Seq<char>>, s: Seq<u8>, off: int)
    requires
        spec_fetch_auth_wire(auth) is Ok,
        auth is Some ==> fits(auth->Some_0),
        at(s, off, spec_fetch_auth_wire(auth)->Ok_0),
    ensures
        spec_read_auth_list(s, off, "AUTHORIZATION_INFO parameter appears twice in FETCH"@, true)
            == Ok::<(Option<Seq<char>>, int), ErrorView>(
            (auth, off + spec_fetch_auth_wire(auth)->Ok_0.len()),
        ),
{
    match auth {
        Some(a) => {
            lemma_auth_roundtrip(a, s, off, "AUTHORIZATION_INFO parameter appears twice in FETCH"@, true);
        },
        None => {
            lemma_u64_roundtrip(0, s, off);
        },
    }
}

impl Fetch {
    /// Checks that `end` does not come before `start`.
    pub fn validate_range(start: FullSequence, end: FullSequence) -> (res: Result<(), Error>)
        ensures
            match spec_validate_range(start, end) {
                Ok(_) => res is Ok,
                Err(e) => res matches Err(x) && x@ == e,
            },
    {
        if end.group_id < start.group_id {
            return Err(
                Error::ErrParseError(
                    ErrorCode::ProtocolViolation,
                    text("End group is less than start group in FETCH"),
                ),
            );
        }
        if end.group_id == start.group_id && end.object_id < start.object_id {
            return Err(
                Error::ErrParseError(
                    ErrorCode::ProtocolViolation,
                    text("End object comes before start object in FETCH"),
                ),
            );
        }
        Ok(())
    }
}


/// Asks for objects that were already published: a range of a track, or the objects of a track that another request joins.
#[derive(Debug, Clone, Eq, PartialEq)]
pub struct Fetch {
    pub request_id: u64,
    pub target: FetchTarget,
    pub authorization_info: Option<String>,
}

/// The content of a [`Fetch`], strings taken by their characters.
pub struct FetchView {
    pub request_id: u64,
    pub target: FetchTargetView,
    pub authorization_info: Option<Seq<char>>,
}

impl View for Fetch {
    type V = FetchView;

    open spec fn view(&self) -> FetchView {
        FetchView { request_id: self.request_id, target: self.target@, authorization_info: opt_view(self.authorization_info) }
    }
}

impl Fetch {
    /// What writing a Fetch appends: its fields in order.
    pub open spec fn spec_wire(v: FetchView) -> Result<Seq<u8>, ErrorView> {
        then(then(spec_var_int(v.request_id), FetchTarget::spec_wire(v.target)), spec_fetch_auth_wire(v.authorization_info))
    }

    /// Reading a Fetch at `off`.
    pub open spec fn spec_parse(s: Seq<u8>, off: int) -> Result<(FetchView, int), ErrorView> {
        match spec_read_var_int(s, off) {
            Ok((x_request_id, p1)) => {
                match FetchTarget::spec_parse(s, p1) {
                    Ok((x_target, p2)) => {
                        match spec_read_auth_list(s, p2, "AUTHORIZATION_INFO parameter appears twice in FETCH"@, true) {
                            Ok((x_authorization_info, p3)) => {
                                Ok((FetchView { request_id: x_request_id, target: x_target, authorization_info: x_authorization_info }, p3))
                            },
                            Err(e) => Err(e),
                        }
                    },
                    Err(e) => Err(e),
                }
            },
            Err(e) => Err(e),
        }
    }

    pub fn parse(r: &[u8], pos: usize) -> (res: Result<(Fetch, usize), Error>)
        ensures
            read_outcome(res, Fetch::spec_parse(r@, pos as int)),
    {
        let (request_id, p1) = match read_var_int(r, pos) {
            Ok(x) => x,
            Err(e) => return Err(e),
        };
        let (target, p2) = match FetchTarget::parse(r, p1) {
            Ok(x) => x,
            Err(e) => return Err(e),
        };
        let (authorization_info, p3) = match read_auth_list(r, p2, "AUTHORIZATION_INFO parameter appears twice in FETCH", true) {
            Ok(x) => x,
            Err(e) => return Err(e),
        };
        Ok((Fetch { request_id, target, authorization_info }, p3))
    }

    /// A Fetch written and read back is the same Fetch.
    #[verifier::spinoff_prover]
    pub proof fn lemma_roundtrip(v: FetchView, s: Seq<u8>, off: int)
        requires
            Fetch::spec_wire(v) is Ok,
            FetchTarget::fits_view(v.target),
            v.authorization_info is Some ==> fits(v.authorization_info->Some_0),
            at(s, off, Fetch::spec_wire(v)->Ok_0),
        ensures
            Fetch::spec_parse(s, off) == Ok::<(FetchView, int), ErrorView>(
                (v, off + Fetch::spec_wire(v)->Ok_0.len()),
            ),
    {
        let b0 = spec_var_int(v.request_id)->Ok_0;
        let b1 = FetchTarget::spec_wire(v.target)->Ok_0;
        let b2 = spec_fetch_auth_wire(v.authorization_info)->Ok_0;
        lemma_at_split(s, off, (b0 + b1), b2);
        lemma_at_split(s, off, b0, b1);
        lemma_u64_roundtrip(v.request_id, s, off);
        FetchTarget::lemma_roundtrip(v.target, s, off + b0.len());
        lemma_fetch_auth_roundtrip(v.authorization_info, s, off + (b0 + b1).len());
    }

    pub fn write(&self, w: &mut Vec<u8>) -> (res: Result<usize, Error>)
        ensures
            wrote(old(w)@, final(w)@, res, Fetch::spec_wire(self@)),
    {
        let ghost old_w = w@;
        let r = write_var_int(self.request_id, w);
        proof {
            lemma_first_step(old_w, w@, r, spec_var_int(self.request_id));
        }
        let mut total = match r {
            Ok(l) => l,
            Err(e) => return Err(e),
        };
        let ghost mut acc = spec_var_int(self.request_id)->Ok_0;
        let r = self.target.write(w);
        proof {
            lemma_then_step(old_w, acc, w@, r, FetchTarget::spec_wire(self.target@));
            lemma_vec_len(w);
        }
        let l = match r {
            Ok(l) => l,
            Err(e) => return Err(e),
        };
        proof {
            acc = acc + FetchTarget::spec_wire(self.target@)->Ok_0;
        }
        total = total + l;
        let r = write_fetch_auth(&self.authorization_info, w);
        proof {
            lemma_then_step(old_w, acc, w@, r, spec_fetch_auth_wire(opt_view(self.authorization_info)));
            lemma_vec_len(w);
        }
        let l = match r {
            Ok(l) => l,
            Err(e) => return Err(e),
        };
        proof {
            acc = acc + spec_fetch_auth_wire(opt_view(self.authorization_info))->Ok_0;
        }
        total = total + l;
        Ok(total)
    }
}

impl Serializer for Fetch {
    open spec fn spec_serialize(v: FetchView) -> Result<Seq<u8>, ErrorView> {
        Fetch::spec_wire(v)
    }

    fn serialize(&self, w: &mut Vec<u8>) -> (res: Result<usize, Error>) {
        self.write(w)
    }
}

impl Deserializer for Fetch {
    open spec fn spec_deserialize(s: Seq<u8>) -> Result<(FetchView, int), ErrorView> {
        Fetch::spec_parse(s, 0)
    }

    fn deserialize(r: &[u8]) -> (res: Result<(Fetch, usize), Error>) {
        Fetch::parse(r, 0)
    }
}
} // verus!
