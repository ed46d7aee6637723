use crate::error::{Error, ErrorView};
use crate::message::{fits, FullSequence};
use crate::serde::parameters::{lemma_auth_roundtrip, opt_view, read_auth_list, spec_auth_list_wire, spec_read_auth_list, write_auth_list};
use crate::error::{frame_err, parse_err, ErrorCode};
use crate::text::text;
use crate::serde::varint::{lemma_u64_roundtrip, read_var_int, spec_read_var_int, spec_var_int, write_var_int};
use crate::serde::{at, lemma_at_split, lemma_first_step, lemma_then_step, lemma_vec_len, read_outcome, then, wrote, Deserializer, Serializer};
use vstd::prelude::*;

verus! {

/// Where the end of an updated subscription is written: one group past the
/// end group, and one object past the end object (0 for the whole group);
/// no end is written as group 0, object 0, and so is an end in the last
/// group that takes the whole group.
pub open spec fn update_end_to_wire(end: Option<FullSequence>) -> Result<FullSequence, ErrorView> {
    match end {
        Some(e) => if e.group_id == u64::MAX {
            if e.object_id != u64::MAX {
                Err(frame_err("Invalid object range"))
            } else {
                Ok(FullSequence { group_id: 0, object_id: 0 })
            }
        } else {
            Ok(
                FullSequence {
                    group_id: (e.group_id + 1) as u64,
                    object_id: if e.object_id == u64::MAX {
                        0
                    } else {
                        (e.object_id + 1) as u64
                    },
                },
            )
        },
        None => Ok(FullSequence { group_id: 0, object_id: 0 }),
    }
}

/// What writing the end of an updated subscription appends.
pub open spec fn spec_update_end_wire(end: Option<FullSequence>) -> Result<Seq<u8>, ErrorView> {
    match update_end_to_wire(end) {
        Ok(x) => FullSequence::spec_wire(x),
        Err(e) => Err(e),
    }
}

/// The end that a written end stands for, checked against the start.
pub open spec fn update_end_from_wire(start: FullSequence, w: FullSequence) -> Result<
    Option<FullSequence>,
    ErrorView,
> {
    if w.group_id == 0 {
        if w.object_id > 0 {
            Err(
                parse_err(
                    ErrorCode::ProtocolViolation,
                    "SUBSCRIBE_UPDATE has end_object but no end_group",
                ),
            )
        } else {
            Ok(None)
        }
    } else {
        let e = FullSequence {
            group_id: (w.group_id - 1) as u64,
            object_id: if w.object_id == 0 {
                u64::MAX
            } else {
                (w.object_id - 1) as u64
            },
        };
        if e.group_id < start.group_id {
            Err(parse_err(ErrorCode::ProtocolViolation, "End group is less than start group"))
        } else if e.group_id == start.group_id && e.object_id < start.object_id {
            Err(parse_err(ErrorCode::ProtocolViolation, "End object comes before start object"))
        } else {
            Ok(Some(e))
        }
    }
}

/// Reading the end of an updated subscription at `off`.
pub open spec fn spec_read_update_end(s: Seq<u8>, off: int, start: FullSequence) -> Result<
    (Option<FullSequence>, int),
    ErrorView,
> {
    match FullSequence::spec_parse(s, off) {
        Ok((w, p)) => match update_end_from_wire(start, w) {
            Ok(e) => Ok((e, p)),
            Err(e) => Err(e),
        },
        Err(e) => Err(e),
    }
}

/// An end that reads back as itself: none, or one before the last group
/// that does not come before the start.
pub open spec fn update_end_ok(end: Option<FullSequence>, start: FullSequence) -> bool {
    match end {
        Some(e) => e.group_id < u64::MAX && start.at_or_before(e),
        None => true,
    }
}

pub fn write_update_end(end: &Option<FullSequence>, w: &mut Vec<u8>) -> (res: Result<usize, Error>)
    ensures
        wrote(old(w)@, final(w)@, res, spec_update_end_wire(*end)),
{
    let wire = match end {
        Some(e) => {
            let group_id = if e.group_id == u64::MAX {
                if e.object_id != u64::MAX {
                    proof {
                        assert(crate::serde::extends(old(w)@, w@));
                    }
                    return Err(Error::ErrFrameError(text("Invalid object range")));
                }
                0
            } else {
                e.group_id + 1
            };
            let object_id = if e.object_id == u64::MAX {
                0
            } else {
                e.object_id + 1
            };
            FullSequence { group_id, object_id }
        },
        None => FullSequence { group_id: 0, object_id: 0 },
    };
    wire.write(w)
}

pub fn read_update_end(r: &[u8], pos: usize, start: FullSequence) -> (res: Result<
    (Option<FullSequence>, usize),
    Error,
>)
    ensures
        read_outcome(res, spec_read_update_end(r@, pos as int, start)),
{
    let (w, p) = match FullSequence::parse(r, pos) {
        Ok(x) => x,
        Err(e) => return Err(e),
    };
    if w.group_id == 0 {
        if w.object_id > 0 {
            return Err(
                Error::ErrParseError(
                    ErrorCode::ProtocolViolation,
                    text("SUBSCRIBE_UPDATE has end_object but no end_group"),
                ),
            );
        }
        return Ok((None, p));
    }
    let e = FullSequence {
        group_id: w.group_id - 1,
        object_id: if w.object_id == 0 {
            u64::MAX
        } else {
            w.object_id - 1
        },
    };
    if e.group_id < start.group_id {
        return Err(
            Error::ErrParseError(
                ErrorCode::ProtocolViolation,
                text("End group is less than start group"),
            ),
        );
    } else if e.group_id == start.group_id && e.object_id < start.object_id {
        return Err(
            Error::ErrParseError(
                ErrorCode::ProtocolViolation,
                text("End object comes before start object"),
            ),
        );
    }
    Ok((Some(e), p))
}

/// An end written and read back against the same start is the same end.
pub proof fn lemma_update_end_roundtrip(end: Option<FullSequence>, start: FullSequence, s: Seq<u8>, off: int)
    requires
        spec_update_end_wire(end) is Ok,
        update_end_ok(end, start),
        at(s, off, spec_update_end_wire(end)->Ok_0),
    ensures
        spec_read_update_end(s, off, start) == Ok::<(Option<FullSequence>, int), ErrorView>(
            (end, off + spec_update_end_wire(end)->Ok_0.len()),
        ),
{
    let w = update_end_to_wire(end)->Ok_0;
    FullSequence::lemma_roundtrip(w, s, off);
}

/// Changes the range or the authorization of a subscription.
#[derive(Default, Debug, Clone, Eq, PartialEq)]
pub struct SubscribeUpdate {
    pub subscribe_id: u64,
    pub start_group_object: FullSequence,
    pub end_group_object: Option<FullSequence>,
    pub authorization_info: Option<String>,
}

/// The content of a [`SubscribeUpdate`], strings taken by their characters.
pub struct SubscribeUpdateView {
    pub subscribe_id: u64,
    pub start_group_object: FullSequence,
    pub end_group_object: Option<FullSequence>,
    pub authorization_info: Option<Seq<char>>,
}

impl View for SubscribeUpdate {
    type V = SubscribeUpdateView;

    open spec fn view(&self) -> SubscribeUpdateView {
        SubscribeUpdateView { subscribe_id: self.subscribe_id, start_group_object: self.start_group_object, end_group_object: self.end_group_object, authorization_info: opt_view(self.authorization_info) }
    }
}

impl SubscribeUpdate {
    /// What writing a SubscribeUpdate appends: its fields in order.
    pub open spec fn spec_wire(v: SubscribeUpdateView) -> Result<Seq<u8>, ErrorView> {
        then(then(then(spec_var_int(v.subscribe_id), FullSequence::spec_wire(v.start_group_object)), spec_update_end_wire(v.end_group_object)), spec_auth_list_wire(v.authorization_info))
    }

    /// Reading a SubscribeUpdate at `off`.
    pub open spec fn spec_parse(s: Seq<u8>, off: int) -> Result<(SubscribeUpdateView, int), ErrorView> {
        match spec_read_var_int(s, off) {
            Ok((x_subscribe_id, p1)) => {
                match FullSequence::spec_parse(s, p1) {
                    Ok((x_start_group_object, p2)) => {
                        match spec_read_update_end(s, p2, x_start_group_object) {
                            Ok((x_end_group_object, p3)) => {
                                match spec_read_auth_list(s, p3, "AUTHORIZATION_INFO parameter appears twice in SUBSCRIBE_UPDATE"@, false) {
                                    Ok((x_authorization_info, p4)) => {
                                        Ok((SubscribeUpdateView { subscribe_id: x_subscribe_id, start_group_object: x_start_group_object, end_group_object: x_end_group_object, authorization_info: x_authorization_info }, p4))
                                    },
                                    Err(e) => Err(e),
                                }
                            },
                            Err(e) => Err(e),
                        }
                    },
                    Err(e) => Err(e),
                }
            },
            Err(e) => Err(e),
        }
    }

    pub fn parse(r: &[u8], pos: usize) -> (res: Result<(SubscribeUpdate, usize), Error>)
        ensures
            read_outcome(res, SubscribeUpdate::spec_parse(r@, pos as int)),
    {
        let (subscribe_id, p1) = match read_var_int(r, pos) {
            Ok(x) => x,
            Err(e) => return Err(e),
        };
        let (start_group_object, p2) = match FullSequence::parse(r, p1) {
            Ok(x) => x,
            Err(e) => return Err(e),
        };
        let (end_group_object, p3) = match read_update_end(r, p2, start_group_object) {
            Ok(x) => x,
            Err(e) => return Err(e),
        };
        let (authorization_info, p4) = match read_auth_list(r, p3, "AUTHORIZATION_INFO parameter appears twice in SUBSCRIBE_UPDATE", false) {
            Ok(x) => x,
            Err(e) => return Err(e),
        };
        Ok((SubscribeUpdate { subscribe_id, start_group_object, end_group_object, authorization_info }, p4))
    }

    /// A SubscribeUpdate written and read back is the same SubscribeUpdate.
    pub proof fn lemma_roundtrip(v: SubscribeUpdateView, s: Seq<u8>, off: int)
        requires
            SubscribeUpdate::spec_wire(v) is Ok,
            update_end_ok(v.end_group_object, v.start_group_object),
            v.authorization_info is Some && fits(v.authorization_info->Some_0),
            at(s, off, SubscribeUpdate::spec_wire(v)->Ok_0),
        ensures
            SubscribeUpdate::spec_parse(s, off) == Ok::<(SubscribeUpdateView, int), ErrorView>(
                (v, off + SubscribeUpdate::spec_wire(v)->Ok_0.len()),
            ),
    {
        let b0 = spec_var_int(v.subscribe_id)->Ok_0;
        let b1 = FullSequence::spec_wire(v.start_group_object)->Ok_0;
        let b2 = spec_update_end_wire(v.end_group_object)->Ok_0;
        let b3 = spec_auth_list_wire(v.authorization_info)->Ok_0;
        lemma_at_split(s, off, (b0 + b1 + b2), b3);
        lemma_at_split(s, off, (b0 + b1), b2);
        lemma_at_split(s, off, b0, b1);
        lemma_u64_roundtrip(v.subscribe_id, s, off);
        FullSequence::lemma_roundtrip(v.start_group_object, s, off + b0.len());
        lemma_update_end_roundtrip(v.end_group_object, v.start_group_object, s, off + (b0 + b1).len());
        lemma_auth_roundtrip(v.authorization_info->Some_0, s, off + (b0 + b1 + b2).len(), "AUTHORIZATION_INFO parameter appears twice in SUBSCRIBE_UPDATE"@, false);
    }

    pub fn write(&self, w: &mut Vec<u8>) -> (res: Result<usize, Error>)
        ensures
            wrote(old(w)@, final(w)@, res, SubscribeUpdate::spec_wire(self@)),
    {
        let ghost old_w = w@;
        let r = write_var_int(self.subscribe_id, w);
        proof {
            lemma_first_step(old_w, w@, r, spec_var_int(self.subscribe_id));
        }
        let mut total = match r {
            Ok(l) => l,
            Err(e) => return Err(e),
        };
        let ghost mut acc = spec_var_int(self.subscribe_id)->Ok_0;
        let r = self.start_group_object.write(w);
        proof {
            lemma_then_step(old_w, acc, w@, r, FullSequence::spec_wire(self.start_group_object));
            lemma_vec_len(w);
        }
        let l = match r {
            Ok(l) => l,
            Err(e) => return Err(e),
        };
        proof {
            acc = acc + FullSequence::spec_wire(self.start_group_object)->Ok_0;
        }
        total = total + l;
        let r = write_update_end(&self.end_group_object, w);
        proof {
            lemma_then_step(old_w, acc, w@, r, spec_update_end_wire(self.end_group_object));
            lemma_vec_len(w);
        }
        let l = match r {
            Ok(l) => l,
            Err(e) => return Err(e),
        };
        proof {
            acc = acc + spec_update_end_wire(self.end_group_object)->Ok_0;
        }
        total = total + l;
        let r = write_auth_list(&self.authorization_info, w);
        proof {
            lemma_then_step(old_w, acc, w@, r, spec_auth_list_wire(opt_view(self.authorization_info)));
            lemma_vec_len(w);
        }
        let l = match r {
            Ok(l) => l,
            Err(e) => return Err(e),
        };
        proof {
            acc = acc + spec_auth_list_wire(opt_view(self.authorization_info))->Ok_0;
        }
        total = total + l;
        Ok(total)
    }
}

impl Serializer for SubscribeUpdate {
    open spec fn spec_serialize(v: SubscribeUpdateView) -> Result<Seq<u8>, ErrorView> {
        SubscribeUpdate::spec_wire(v)
    }

    fn serialize(&self, w: &mut Vec<u8>) -> (res: Result<usize, Error>) {
        self.write(w)
    }
}

impl Deserializer for SubscribeUpdate {
    open spec fn spec_deserialize(s: Seq<u8>) -> Result<(SubscribeUpdateView, int), ErrorView> {
        SubscribeUpdate::spec_parse(s, 0)
    }

    fn deserialize(r: &[u8]) -> (res: Result<(SubscribeUpdate, usize), Error>) {
        SubscribeUpdate::parse(r, 0)
    }
}
} // verus!
