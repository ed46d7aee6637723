//! Parsing of a MoQT stream: control messages, object headers and object
//! payloads, delivered as events as the bytes arrive.
use crate::error::{parse_err, Error, ErrorCode, ErrorView};
use crate::message::object::{ObjectForwardingPreference, ObjectHeader, ObjectStatus};
use crate::message::{ControlMessage, ControlMessageView, MessageType, MAX_MESSSAGE_HEADER_SIZE};
use crate::serde::varint::{read_var_int, read_var_usize, spec_read_var_int, spec_read_var_usize};
use crate::serde::{copy_range, slice_len};
use crate::text::{decimal_digits, decimal_text, join, text};
use std::collections::VecDeque;
use vstd::prelude::*;

verus! {

/// The stream type that opens a fetch stream.
pub const FETCH_STREAM_TYPE: u64 = 0x05;

/// Bits of the serialization flags of a fetch object.
pub const FETCH_HAS_SUBGROUP_ID: u64 = 0x03;

pub const FETCH_HAS_OBJECT_ID: u64 = 0x04;

pub const FETCH_HAS_GROUP_ID: u64 = 0x08;

pub const FETCH_HAS_PRIORITY: u64 = 0x10;

pub const FETCH_HAS_EXTENSIONS: u64 = 0x20;

pub const FETCH_IS_DATAGRAM_LIKE: u64 = 0x40;

/// Serializations that mark the end of a range.
pub const FETCH_END_OF_NON_EXISTENT_RANGE: u64 = 0x8c;

pub const FETCH_END_OF_UNKNOWN_RANGE: u64 = 0x10c;

/// What a stream that carries objects turned out to be.
#[derive(Debug, Copy, Clone, Eq, PartialEq, Structural)]
pub enum ObjectStreamKind {
    Legacy(MessageType),
    Fetch,
}

/// What the parser reports.
#[derive(Debug, Clone, Eq, PartialEq)]
pub enum MessageParserEvent {
    ParsingError(ErrorCode, String),
    ObjectMessage(ObjectHeader, Vec<u8>, bool),
    ControlMessage(ControlMessage),
}

/// The content of a [`MessageParserEvent`].
pub enum EventView {
    ParsingError(ErrorCode, Seq<char>),
    ObjectMessage(ObjectHeader, Seq<u8>, bool),
    ControlMessage(ControlMessageView),
}

impl View for MessageParserEvent {
    type V = EventView;

    open spec fn view(&self) -> EventView {
        match self {
            MessageParserEvent::ParsingError(c, s) => EventView::ParsingError(*c, s@),
            MessageParserEvent::ObjectMessage(h, p, fin) => EventView::ObjectMessage(*h, p@, *fin),
            MessageParserEvent::ControlMessage(m) => EventView::ControlMessage(m@),
        }
    }
}

/// The views of a list of events.
pub open spec fn events_view(s: Seq<MessageParserEvent>) -> Seq<EventView> {
    s.map_values(|e: MessageParserEvent| e@)
}

// ---------------------------------------------------------------------------
// Object headers.
/// Reads a number where `present` holds; stands for 0 and takes nothing
/// otherwise.
pub open spec fn spec_read_var_int_if(present: bool, s: Seq<u8>, off: int) -> Result<(u64, int), ErrorView> {
    if present {
        spec_read_var_int(s, off)
    } else {
        Ok((0, off))
    }
}

fn read_var_int_if(present: bool, r: &[u8], pos: usize) -> (res: Result<(u64, usize), Error>)
    ensures
        crate::serde::read_outcome(res, spec_read_var_int_if(present, r@, pos as int)),
{
    if present {
        read_var_int(r, pos)
    } else {
        Ok((0, pos))
    }
}

/// Reading the header of an object message at `off`: its type, the
/// subscription and track alias, the group unless the stream carries a whole
/// track, the object unless it carries a track or group, the send order, and
/// the status of a single object or datagram. The payload length is not
/// known yet.
pub open spec fn spec_parse_object_header(s: Seq<u8>, off: int) -> Result<(ObjectHeader, int), ErrorView> {
    match MessageType::spec_parse(s, off) {
        Ok((t, p1)) => match spec_read_var_int(s, p1) {
            Ok((subscribe_id, p2)) => match spec_read_var_int(s, p2) {
                Ok((track_alias, p3)) => match spec_read_var_int_if(
                    t != MessageType::StreamHeaderTrack,
                    s,
                    p3,
                ) {
                    Ok((group_id, p4)) => match spec_read_var_int_if(
                        t != MessageType::StreamHeaderTrack && t != MessageType::StreamHeaderGroup,
                        s,
                        p4,
                    ) {
                        Ok((object_id, p5)) => match spec_read_var_int(s, p5) {
                            Ok((object_send_order, p6)) => match spec_read_var_int_if(
                                t == MessageType::ObjectStream || t == MessageType::ObjectDatagram,
                                s,
                                p6,
                            ) {
                                Ok((status, p7)) => match t.forwarding_preference() {
                                    Some(pref) => Ok(
                                        (
                                            ObjectHeader {
                                                subscribe_id,
                                                track_alias,
                                                group_id,
                                                object_id,
                                                object_send_order,
                                                object_status: ObjectStatus::from_code(status),
                                                object_forwarding_preference: pref,
                                                object_payload_length: None,
                                            },
                                            p7,
                                        ),
                                    ),
                                    None => Err(ErrorView::ErrInvalidMessageType(t.code())),
                                },
                                Err(e) => Err(e),
                            },
                            Err(e) => Err(e),
                        },
                        Err(e) => Err(e),
                    },
                    Err(e) => Err(e),
                },
                Err(e) => Err(e),
            },
            Err(e) => Err(e),
        },
        Err(e) => Err(e),
    }
}

/// Reads the header of an object message at `pos`.
pub fn parse_object_header(r: &[u8], pos: usize) -> (res: Result<(ObjectHeader, usize), Error>)
    ensures
        crate::serde::read_outcome(res, spec_parse_object_header(r@, pos as int)),
{
    let (t, p1) = match MessageType::parse(r, pos) {
        Ok(x) => x,
        Err(e) => return Err(e),
    };
    let (subscribe_id, p2) = match read_var_int(r, p1) {
        Ok(x) => x,
        Err(e) => return Err(e),
    };
    let (track_alias, p3) = match read_var_int(r, p2) {
        Ok(x) => x,
        Err(e) => return Err(e),
    };
    let (group_id, p4) = match read_var_int_if(t != MessageType::StreamHeaderTrack, r, p3) {
        Ok(x) => x,
        Err(e) => return Err(e),
    };
    let (object_id, p5) = match read_var_int_if(
        t != MessageType::StreamHeaderTrack && t != MessageType::StreamHeaderGroup,
        r,
        p4,
    ) {
        Ok(x) => x,
        Err(e) => return Err(e),
    };
    let (object_send_order, p6) = match read_var_int(r, p5) {
        Ok(x) => x,
        Err(e) => return Err(e),
    };
    let (status, p7) = match read_var_int_if(
        t == MessageType::ObjectStream || t == MessageType::ObjectDatagram,
        r,
        p6,
    ) {
        Ok(x) => x,
        Err(e) => return Err(e),
    };
    let pref = match t.get_object_forwarding_preference() {
        Ok(p) => p,
        Err(e) => return Err(e),
    };
    Ok(
        (
            ObjectHeader {
                subscribe_id,
                track_alias,
                group_id,
                object_id,
                object_send_order,
                object_status: ObjectStatus::from(status),
                object_forwarding_preference: pref,
                object_payload_length: None,
            },
            p7,
        ),
    )
}

/// Reading a datagram: its header, which must be that of a datagram, then
/// the payload, which is the rest of the datagram.
pub open spec fn spec_process_datagram(s: Seq<u8>) -> Result<(ObjectHeader, Seq<u8>), ErrorView> {
    match spec_parse_object_header(s, 0) {
        Ok((h, p)) => if h.object_forwarding_preference != ObjectForwardingPreference::Datagram {
            Err(parse_err(ErrorCode::ProtocolViolation, "invalid datagram"))
        } else {
            Ok((h, s.subrange(p, s.len() as int)))
        },
        Err(e) => Err(e),
    }
}

// ---------------------------------------------------------------------------
// Fetch objects.
/// Reading the header of a fetch object at `off`. The first object of the
/// stream starts with the stream type and the request; later objects take
/// what their flags leave out from the previous object (the object id one
/// further on).
pub open spec fn spec_parse_fetch_header(s: Seq<u8>, off: int, previous: Option<ObjectHeader>) -> Result<
    (ObjectHeader, int),
    ErrorView,
> {
    let start: Result<int, ErrorView> = match previous {
        None => match spec_read_var_int(s, off) {
            Ok((stream_type, p)) => if stream_type != FETCH_STREAM_TYPE {
                Err(
                    ErrorView::ErrParseError(
                        ErrorCode::ProtocolViolation,
                        "invalid fetch stream type "@ + decimal_digits(stream_type as nat),
                    ),
                )
            } else {
                Ok(p)
            },
            Err(e) => Err(e),
        },
        Some(_) => Ok(off),
    };
    match start {
        Ok(p0) => {
            let request: Result<(u64, int), ErrorView> = match previous {
                Some(prev) => Ok((prev.subscribe_id, p0)),
                None => spec_read_var_int(s, p0),
            };
            match request {
                Ok((request_id, p1)) => match spec_read_var_int(s, p1) {
                    Ok((serialization, p2)) => spec_parse_fetch_fields(
                        s,
                        p2,
                        previous,
                        request_id,
                        serialization,
                    ),
                    Err(e) => Err(e),
                },
                Err(e) => Err(e),
            }
        },
        Err(e) => Err(e),
    }
}

/// The object id after `object_id`, wrapping past the largest one.
pub open spec fn next_object_id(object_id: u64) -> u64 {
    if object_id == u64::MAX {
        0
    } else {
        (object_id + 1) as u64
    }
}

/// The fields of a fetch object after its serialization flags.
pub open spec fn spec_parse_fetch_fields(
    s: Seq<u8>,
    p2: int,
    previous: Option<ObjectHeader>,
    request_id: u64,
    serialization: u64,
) -> Result<(ObjectHeader, int), ErrorView> {
    if serialization == FETCH_END_OF_NON_EXISTENT_RANGE || serialization
        == FETCH_END_OF_UNKNOWN_RANGE {
        Err(
            parse_err(ErrorCode::ProtocolViolation, "fetch range indicators are not supported yet"),
        )
    } else if serialization & FETCH_IS_DATAGRAM_LIKE == 0 {
        Err(parse_err(ErrorCode::ProtocolViolation, "fetch subgroup streams are not supported yet"))
    } else if previous is None && (serialization & FETCH_HAS_OBJECT_ID == 0 || serialization
        & FETCH_HAS_GROUP_ID == 0 || serialization & FETCH_HAS_PRIORITY == 0 || serialization
        & FETCH_HAS_SUBGROUP_ID != 0) {
        Err(
            parse_err(
                ErrorCode::ProtocolViolation,
                "invalid serialization flags for first fetch object",
            ),
        )
    } else {
        let group: Result<(u64, int), ErrorView> = if serialization & FETCH_HAS_GROUP_ID != 0 {
            spec_read_var_int(s, p2)
        } else {
            match previous {
                Some(prev) => Ok((prev.group_id, p2)),
                None => Err(
                    parse_err(ErrorCode::ProtocolViolation, "missing group_id in first fetch object"),
                ),
            }
        };
        match group {
            Ok((group_id, p3)) => {
                let object: Result<(u64, int), ErrorView> = if serialization & FETCH_HAS_OBJECT_ID
                    != 0 {
                    spec_read_var_int(s, p3)
                } else {
                    match previous {
                        Some(prev) => Ok((next_object_id(prev.object_id), p3)),
                        None => Err(
                            parse_err(
                                ErrorCode::ProtocolViolation,
                                "missing object_id in first fetch object",
                            ),
                        ),
                    }
                };
                match object {
                    Ok((object_id, p4)) => {
                        let priority: Result<(u64, int), ErrorView> = if serialization
                            & FETCH_HAS_PRIORITY != 0 {
                            if p4 >= s.len() || p4 < 0 {
                                Err(ErrorView::ErrUnexpectedEnd)
                            } else {
                                Ok((s[p4] as u64, p4 + 1))
                            }
                        } else {
                            match previous {
                                Some(prev) => Ok((prev.object_send_order, p4)),
                                None => Err(
                                    parse_err(
                                        ErrorCode::ProtocolViolation,
                                        "missing publisher priority in first fetch object",
                                    ),
                                ),
                            }
                        };
                        match priority {
                            Ok((object_send_order, p5)) => {
                                let ext: Result<int, ErrorView> = if serialization
                                    & FETCH_HAS_EXTENSIONS != 0 {
                                    match spec_read_var_usize(s, p5) {
                                        Ok((n, q)) => if s.len() - q < n {
                                            Err(ErrorView::ErrBufferTooShort)
                                        } else {
                                            Ok(q + n)
                                        },
                                        Err(e) => Err(e),
                                    }
                                } else {
                                    Ok(p5)
                                };
                                match ext {
                                    Ok(p6) => match spec_read_var_int(s, p6) {
                                        Ok((payload_length, p7)) => if payload_length == 0 {
                                            Err(
                                                parse_err(
                                                    ErrorCode::ProtocolViolation,
                                                    "zero-length fetch objects are not supported yet",
                                                ),
                                            )
                                        } else {
                                            Ok(
                                                (
                                                    ObjectHeader {
                                                        subscribe_id: request_id,
                                                        track_alias: request_id,
                                                        group_id,
                                                        object_id,
                                                        object_send_order,
                                                        object_status: ObjectStatus::Normal,
                                                        object_forwarding_preference: ObjectForwardingPreference::Track,
                                                        object_payload_length: Some(payload_length),
                                                    },
                                                    p7,
                                                ),
                                            )
                                        },
                                        Err(e) => Err(e),
                                    },
                                    Err(e) => Err(e),
                                }
                            },
                            Err(e) => Err(e),
                        }
                    },
                    Err(e) => Err(e),
                }
            },
            Err(e) => Err(e),
        }
    }
}

/// Reads the header of a fetch object at `pos`.
#[verifier::spinoff_prover]
pub fn parse_fetch_header(r: &[u8], pos: usize, previous: Option<ObjectHeader>) -> (res: Result<
    (ObjectHeader, usize),
    Error,
>)
    ensures
        crate::serde::read_outcome(res, spec_parse_fetch_header(r@, pos as int, previous)),
{
    let p0 = match previous {
        None => {
            let (stream_type, p) = match read_var_int(r, pos) {
                Ok(x) => x,
                Err(e) => return Err(e),
            };
            if stream_type != FETCH_STREAM_TYPE {
                let reason = join("invalid fetch stream type ", &decimal_text(stream_type));
                return Err(Error::ErrParseError(ErrorCode::ProtocolViolation, reason));
            }
            p
        },
        Some(_) => pos,
    };
    let (request_id, p1) = match previous {
        Some(prev) => (prev.subscribe_id, p0),
        None => match read_var_int(r, p0) {
            Ok(x) => x,
            Err(e) => return Err(e),
        },
    };
    let (serialization, p2) = match read_var_int(r, p1) {
        Ok(x) => x,
        Err(e) => return Err(e),
    };
    parse_fetch_fields(r, p2, previous, request_id, serialization)
}

fn parse_error_text(reason: &str) -> (e: Error)
    ensures
        e@ == parse_err(ErrorCode::ProtocolViolation, reason),
{
    Error::ErrParseError(ErrorCode::ProtocolViolation, text(reason))
}

#[verifier::spinoff_prover]
fn parse_fetch_fields(
    r: &[u8],
    p2: usize,
    previous: Option<ObjectHeader>,
    request_id: u64,
    serialization: u64,
) -> (res: Result<(ObjectHeader, usize), Error>)
    ensures
        crate::serde::read_outcome(
            res,
            spec_parse_fetch_fields(r@, p2 as int, previous, request_id, serialization),
        ),
{
    if serialization == FETCH_END_OF_NON_EXISTENT_RANGE || serialization
        == FETCH_END_OF_UNKNOWN_RANGE {
        return Err(parse_error_text("fetch range indicators are not supported yet"));
    }
    if serialization & FETCH_IS_DATAGRAM_LIKE == 0 {
        return Err(parse_error_text("fetch subgroup streams are not supported yet"));
    }
    if previous.is_none() && (serialization & FETCH_HAS_OBJECT_ID == 0 || serialization
        & FETCH_HAS_GROUP_ID == 0 || serialization & FETCH_HAS_PRIORITY == 0 || serialization
        & FETCH_HAS_SUBGROUP_ID != 0) {
        return Err(parse_error_text("invalid serialization flags for first fetch object"));
    }
    let (group_id, p3) = if serialization & FETCH_HAS_GROUP_ID != 0 {
        match read_var_int(r, p2) {
            Ok(x) => x,
            Err(e) => return Err(e),
        }
    } else {
        match previous {
            Some(prev) => (prev.group_id, p2),
            None => return Err(parse_error_text("missing group_id in first fetch object")),
        }
    };
    let (object_id, p4) = if serialization & FETCH_HAS_OBJECT_ID != 0 {
        match read_var_int(r, p3) {
            Ok(x) => x,
            Err(e) => return Err(e),
        }
    } else {
        match previous {
            Some(prev) => (
                if prev.object_id == u64::MAX {
                    0
                } else {
                    prev.object_id + 1
                },
                p3,
            ),
            None => return Err(parse_error_text("missing object_id in first fetch object")),
        }
    };
    let (object_send_order, p5) = if serialization & FETCH_HAS_PRIORITY != 0 {
        if p4 >= r.len() {
            return Err(Error::ErrUnexpectedEnd);
        }
        (r[p4] as u64, p4 + 1)
    } else {
        match previous {
            Some(prev) => (prev.object_send_order, p4),
            None => return Err(parse_error_text("missing publisher priority in first fetch object")),
        }
    };
    let p6 = if serialization & FETCH_HAS_EXTENSIONS != 0 {
        let (n, q) = match read_var_usize(r, p5) {
            Ok(x) => x,
            Err(e) => return Err(e),
        };
        if r.len() - q < n {
            return Err(Error::ErrBufferTooShort);
        }
        q + n
    } else {
        p5
    };
    let (payload_length, p7) = match read_var_int(r, p6) {
        Ok(x) => x,
        Err(e) => return Err(e),
    };
    if payload_length == 0 {
        return Err(parse_error_text("zero-length fetch objects are not supported yet"));
    }
    Ok(
        (
            ObjectHeader {
                subscribe_id: request_id,
                track_alias: request_id,
                group_id,
                object_id,
                object_send_order,
                object_status: ObjectStatus::Normal,
                object_forwarding_preference: ObjectForwardingPreference::Track,
                object_payload_length: Some(payload_length),
            },
            p7,
        ),
    )
}

// ---------------------------------------------------------------------------
// The parser.
/// The error codes of parse errors.
pub type ParserErrorCode = ErrorCode;

/// The content of a [`MessageParser`].
pub struct ParserView {
    pub uses_web_transport: bool,
    pub allow_fetch_streams: bool,
    /// A fatal error or the end of the stream was seen.
    pub no_more_data: bool,
    pub parsing_error: bool,
    /// Bytes received and not yet parsed.
    pub buffered: Seq<u8>,
    /// The header of the object being delivered, or of the last one
    /// delivered on the stream.
    pub object_metadata: Option<ObjectHeader>,
    pub object_stream_kind: Option<ObjectStreamKind>,
    /// Bytes of the current object's payload still to come.
    pub payload_length_remaining: usize,
    /// Events not yet polled.
    pub events: Seq<EventView>,
}

/// A header with another group.
pub open spec fn with_group(h: Option<ObjectHeader>, group_id: u64) -> Option<ObjectHeader> {
    match h {
        Some(m) => Some(ObjectHeader { group_id, ..m }),
        None => None,
    }
}

/// A header with the object id, payload length and status of the next
/// object of a track or group stream.
pub open spec fn with_object(h: Option<ObjectHeader>, object_id: u64, length: u64, status: u64) -> Option<
    ObjectHeader,
> {
    match h {
        Some(m) => Some(
            ObjectHeader {
                object_id,
                object_payload_length: Some(length),
                object_status: ObjectStatus::from_code(status),
                ..m
            },
        ),
        None => None,
    }
}

/// Reading, at the start of `s`, the fields that an object on a stream of
/// type `t` carries before its payload: the group on a track stream; the
/// object id, the payload length and, for an empty payload, the status on a
/// track or group stream. The header takes each field as it is read, so it
/// holds those read before a failure.
pub open spec fn spec_payload_fields(h: Option<ObjectHeader>, s: Seq<u8>, t: MessageType) -> (
    Option<ObjectHeader>,
    Result<int, ErrorView>,
) {
    let (h1, r1): (Option<ObjectHeader>, Result<int, ErrorView>) = if t
        == MessageType::StreamHeaderTrack {
        match spec_read_var_int(s, 0) {
            Ok((g, p)) => (with_group(h, g), Ok(p)),
            Err(e) => (h, Err(e)),
        }
    } else {
        (h, Ok(0))
    };
    match r1 {
        Ok(p1) => if t == MessageType::StreamHeaderTrack || t == MessageType::StreamHeaderGroup {
            match spec_read_var_int(s, p1) {
                Ok((o, p2)) => match spec_read_var_int(s, p2) {
                    Ok((len, p3)) => match spec_read_var_int_if(len == 0, s, p3) {
                        Ok((status, p4)) => (with_object(h1, o, len, status), Ok(p4)),
                        Err(e) => (h1, Err(e)),
                    },
                    Err(e) => (h1, Err(e)),
                },
                Err(e) => (h1, Err(e)),
            }
        } else {
            (h1, Ok(p1))
        },
        Err(e) => (h1, Err(e)),
    }
}

/// The payload that follows the fields, at `p` in `s`: an object whose
/// status is not normal is delivered at once with an empty payload (and may
/// carry nothing on a single-object stream); a normal one takes the bytes
/// there are, up to its length where that is known. The result is the event,
/// the payload bytes still to come, and the offset after what was taken.
pub open spec fn spec_payload_rest(h: Option<ObjectHeader>, s: Seq<u8>, p: int, t: MessageType, fin: bool) -> Result<
    (Option<EventView>, usize, int),
    ErrorView,
> {
    match h {
        None => Ok((None, 0, p)),
        Some(m) => if m.object_status == ObjectStatus::Invalid {
            Err(parse_err(ErrorCode::ProtocolViolation, "Invalid object status"))
        } else if m.object_status != ObjectStatus::Normal {
            if (t == MessageType::ObjectStream || t == MessageType::ObjectDatagram) && p < s.len() {
                Err(parse_err(ErrorCode::ProtocolViolation, "Object with non-normal status has payload"))
            } else {
                Ok((Some(EventView::ObjectMessage(m, Seq::empty(), true)), 0, p))
            }
        } else {
            let has_length = m.object_payload_length is Some;
            let payload_length: usize = match m.object_payload_length {
                Some(l) => l as usize,
                None => 0,
            };
            let avail = s.len() - p;
            if fin && has_length && payload_length > avail {
                Err(parse_err(ErrorCode::ProtocolViolation, "Received FIN mid-payload"))
            } else {
                let complete = fin || (has_length && payload_length <= avail);
                let draw = if complete && has_length && payload_length < avail {
                    payload_length as int
                } else {
                    avail
                };
                Ok(
                    (
                        Some(EventView::ObjectMessage(m, s.subrange(p, p + draw), complete)),
                        if has_length {
                            (payload_length - draw) as usize
                        } else {
                            0
                        },
                        p + draw,
                    ),
                )
            }
        },
    }
}

impl ParserView {
    /// Reports a parse error, once: the first error stops the parser.
    pub open spec fn parse_error(self, code: ErrorCode, reason: Seq<char>) -> ParserView {
        if self.parsing_error {
            self
        } else {
            ParserView {
                no_more_data: true,
                parsing_error: true,
                events: self.events.push(EventView::ParsingError(code, reason)),
                ..self
            }
        }
    }

    /// A failed read: a parse error is reported; any other error means that
    /// more bytes are needed, and reports nothing.
    pub open spec fn report(self, e: ErrorView) -> ParserView {
        match e {
            ErrorView::ErrParseError(code, reason) => self.parse_error(code, reason),
            _ => self,
        }
    }

    /// The stream has delivered the metadata that all its objects share.
    pub open spec fn initialized(self) -> bool {
        self.object_metadata is Some && self.object_stream_kind is Some
    }

    /// The stream has delivered an object's metadata but not all of its
    /// payload.
    pub open spec fn payload_in_progress(self) -> bool {
        match self.object_metadata {
            Some(m) => m.object_status == ObjectStatus::Normal && (m.object_forwarding_preference
                == ObjectForwardingPreference::Object || m.object_forwarding_preference
                == ObjectForwardingPreference::Datagram || self.payload_length_remaining > 0),
            None => false,
        }
    }

    /// What every state of the parser keeps: a known payload length belongs
    /// to a track or group stream; the metadata of a stream matches the kind
    /// of the stream; payload still to come belongs to a normal object of
    /// known length.
    pub open spec fn wf(self) -> bool {
        &&& (self.object_metadata matches Some(m) ==> self.object_stream_kind is Some)
        &&& (self.object_metadata matches Some(m) ==> (m.object_payload_length is Some ==> (
        m.object_forwarding_preference == ObjectForwardingPreference::Track
            || m.object_forwarding_preference == ObjectForwardingPreference::Group)))
        &&& (self.payload_length_remaining > 0 ==> (self.object_metadata matches Some(m) && (
        m.object_status == ObjectStatus::Normal && m.object_payload_length is Some)))
        &&& match self.object_stream_kind {
            Some(ObjectStreamKind::Legacy(t)) => (t == MessageType::ObjectStream || t
                == MessageType::StreamHeaderTrack || t == MessageType::StreamHeaderGroup) && (
            self.object_metadata matches Some(m) ==> Some(m.object_forwarding_preference)
                == t.forwarding_preference()),
            Some(ObjectStreamKind::Fetch) => self.object_metadata matches Some(m) ==> (
            m.object_forwarding_preference == ObjectForwardingPreference::Track
                && m.object_payload_length is Some),
            None => true,
        }
    }

    /// One more object of a stream of type `t`: its header where the stream
    /// has none yet, then its fields and payload. The result is the new
    /// state and the number of bytes taken.
    #[verifier::opaque]
    pub open spec fn spec_process_object(self, t: MessageType, fin: bool) -> (ParserView, int) {
        let (st1, ok, processed) = self.spec_object_header_stage(t);
        if !ok {
            (st1, 0)
        } else {
            st1.spec_object_payload_stage(processed, t, fin)
        }
    }

    /// The header of the first object of a stream of type `t`, where the
    /// stream has none yet: the state, whether it was read, and the bytes it
    /// took.
    pub open spec fn spec_object_header_stage(self, t: MessageType) -> (ParserView, bool, int) {
        if !self.initialized() {
            match spec_parse_object_header(self.buffered, 0) {
                Ok((m, len)) => (
                    ParserView {
                        object_metadata: Some(m),
                        object_stream_kind: Some(ObjectStreamKind::Legacy(t)),
                        ..self
                    },
                    true,
                    len,
                ),
                Err(e) => (self.report(e), false, 0),
            }
        } else {
            (self, true, 0)
        }
    }

    /// The fields and payload of an object of a stream of type `t`, after
    /// the `processed` bytes of its header.
    pub open spec fn spec_object_payload_stage(self, processed: int, t: MessageType, fin: bool) -> (
        ParserView,
        int,
    ) {
        let s = self.buffered.subrange(processed, self.buffered.len() as int);
        let (h1, fields) = spec_payload_fields(self.object_metadata, s, t);
        match fields {
            Ok(p) => match spec_payload_rest(h1, s, p, t, fin) {
                Ok((ev, remaining, used)) => (
                    ParserView {
                        object_metadata: h1,
                        payload_length_remaining: remaining,
                        events: match ev {
                            Some(e) => self.events.push(e),
                            None => self.events,
                        },
                        ..self
                    },
                    processed + used,
                ),
                Err(e) => (ParserView { object_metadata: h1, ..self }.report(e), processed),
            },
            Err(e) => (ParserView { object_metadata: h1, ..self }.report(e), processed),
        }
    }

    /// One more object of a fetch stream: its header, then as much of its
    /// payload as there is.
    #[verifier::opaque]
    pub open spec fn spec_process_fetch_object(self, fin: bool) -> (ParserView, int) {
        match spec_parse_fetch_header(self.buffered, 0, self.object_metadata) {
            Ok((h, hl)) => {
                let st1 = ParserView {
                    object_metadata: Some(h),
                    object_stream_kind: Some(ObjectStreamKind::Fetch),
                    ..self
                };
                let payload_length: usize = match h.object_payload_length {
                    Some(l) => l as usize,
                    None => 0,
                };
                let available: int = if self.buffered.len() >= hl {
                    self.buffered.len() - hl
                } else {
                    0
                };
                if fin && payload_length > available {
                    (st1.parse_error(ErrorCode::ProtocolViolation, "Received FIN mid-payload"@), 0)
                } else {
                    let draw: int = if payload_length <= available {
                        payload_length as int
                    } else {
                        available
                    };
                    (
                        ParserView {
                            events: st1.events.push(
                                EventView::ObjectMessage(
                                    h,
                                    self.buffered.subrange(hl, hl + draw),
                                    payload_length <= available,
                                ),
                            ),
                            payload_length_remaining: (payload_length - draw) as usize,
                            ..st1
                        },
                        hl + draw,
                    )
                }
            },
            Err(e) => (self.report(e), 0),
        }
    }

    /// A control message at the start of the buffer. A client setup must
    /// carry a path over raw QUIC and none over WebTransport, and is marked
    /// with the transport.
    #[verifier::opaque]
    pub open spec fn spec_process_control(self) -> (ParserView, int) {
        match ControlMessage::spec_parse(self.buffered, 0) {
            Ok((cm, len)) => match cm {
                ControlMessageView::ClientSetup(cs) => if self.uses_web_transport && cs.path is Some {
                    (
                        self.parse_error(
                            ErrorCode::ProtocolViolation,
                            "WebTransport connection is using PATH parameter in SETUP"@,
                        ),
                        0,
                    )
                } else if !self.uses_web_transport && cs.path is None {
                    (
                        self.parse_error(
                            ErrorCode::ProtocolViolation,
                            "PATH SETUP parameter missing from Client message over QUIC"@,
                        ),
                        0,
                    )
                } else {
                    (
                        ParserView {
                            events: self.events.push(
                                EventView::ControlMessage(
                                    ControlMessageView::ClientSetup(
                                        crate::message::client_setup::ClientSetupView {
                                            uses_web_transport: self.uses_web_transport,
                                            ..cs
                                        },
                                    ),
                                ),
                            ),
                            ..self
                        },
                        len,
                    )
                },
                _ => (ParserView { events: self.events.push(EventView::ControlMessage(cm)), ..self }, len),
            },
            Err(e) => (self.report(e), 0),
        }
    }

    /// The stream opens with the fetch stream type, where fetch streams are
    /// allowed.
    pub open spec fn starts_fetch(self) -> bool {
        self.allow_fetch_streams && match spec_read_var_int(self.buffered, 0) {
            Ok((t, _)) => t == FETCH_STREAM_TYPE,
            Err(_) => false,
        }
    }

    /// One message at the start of the buffer: the next object of a stream
    /// whose kind is known, the first object of a fetch stream, an object
    /// message, or a control message. The result is the new state and the
    /// number of bytes taken, 0 where the message is not complete or is
    /// refused.
    #[verifier::opaque]
    pub open spec fn spec_process_message(self, fin: bool) -> (ParserView, int) {
        if self.initialized() && !self.payload_in_progress() {
            match self.object_stream_kind {
                Some(ObjectStreamKind::Legacy(t)) => self.spec_process_object(t, fin),
                _ => self.spec_process_fetch_object(fin),
            }
        } else if self.starts_fetch() {
            self.spec_process_fetch_object(fin)
        } else {
            match MessageType::spec_parse(self.buffered, 0) {
                Ok((t, _)) => if t == MessageType::ObjectDatagram {
                    (
                        self.parse_error(
                            ErrorCode::ProtocolViolation,
                            "Received OBJECT_DATAGRAM on strea"@,
                        ),
                        0,
                    )
                } else if t == MessageType::ObjectStream || t == MessageType::StreamHeaderTrack || t
                    == MessageType::StreamHeaderGroup {
                    self.spec_process_object(t, fin)
                } else {
                    self.spec_process_control()
                },
                Err(e) => (self.report(e), 0),
            }
        }
    }

    /// Parses messages off the front of the buffer until it is empty or a
    /// message is not complete; an incomplete message that is too long, or
    /// one that the stream ends in, is an error.
    #[verifier::opaque]
    pub open spec fn spec_drain(self, fin: bool) -> ParserView
        decreases self.buffered.len(),
    {
        if self.buffered.len() == 0 {
            self
        } else {
            let (st2, len) = self.spec_process_message(fin);
            if len == 0 {
                if st2.buffered.len() > MAX_MESSSAGE_HEADER_SIZE {
                    st2.parse_error(ErrorCode::InternalError, "Cannot parse non-OBJECT messages > 2KB"@)
                } else if fin {
                    st2.parse_error(ErrorCode::ProtocolViolation, "FIN after incomplete message"@)
                } else {
                    st2
                }
            } else if 0 < len <= st2.buffered.len() && st2.buffered.len() == self.buffered.len() {
                ParserView {
                    buffered: st2.buffered.subrange(len, st2.buffered.len() as int),
                    ..st2
                }.spec_drain(fin)
            } else {
                st2
            }
        }
    }

    /// What receiving `data` (the last bytes of the stream where `fin`
    /// holds) does: a call after the end of the stream reports that data came
    /// after the end (unless an error was reported before) and is otherwise
    /// ignored; the stream may not end
    /// inside a payload or a message; the bytes go first to the payload in
    /// progress, and the rest is parsed into messages.
    #[verifier::opaque]
    pub open spec fn spec_process_data(self, data: Seq<u8>, fin: bool) -> ParserView {
        let st0 = self;
        if self.no_more_data {
            self.parse_error(ErrorCode::ProtocolViolation, "Data after end of stream"@)
        } else if fin && st0.payload_in_progress() && st0.payload_length_remaining > data.len() {
            ParserView { no_more_data: true, ..st0 }.parse_error(
                ErrorCode::ProtocolViolation,
                "End of stream before complete OBJECT PAYLOAD"@,
            )
        } else if fin && st0.buffered.len() > 0 && data.len() == 0 {
            ParserView { no_more_data: true, ..st0 }.parse_error(
                ErrorCode::ProtocolViolation,
                "End of stream before complete message"@,
            )
        } else {
            let st1 = ParserView {
                no_more_data: st0.no_more_data || fin,
                buffered: st0.buffered + data,
                ..st0
            };
            if st1.payload_in_progress() {
                match st1.object_metadata {
                    Some(m) => if m.object_payload_length is None {
                        ParserView {
                            events: st1.events.push(EventView::ObjectMessage(m, st1.buffered, fin)),
                            buffered: Seq::empty(),
                            object_metadata: if fin {
                                None
                            } else {
                                Some(m)
                            },
                            ..st1
                        }
                    } else if st1.buffered.len() < st1.payload_length_remaining {
                        ParserView {
                            payload_length_remaining: (st1.payload_length_remaining
                                - st1.buffered.len()) as usize,
                            events: st1.events.push(EventView::ObjectMessage(m, st1.buffered, false)),
                            buffered: Seq::empty(),
                            ..st1
                        }
                    } else {
                        let r = st1.payload_length_remaining as int;
                        ParserView {
                            events: st1.events.push(
                                EventView::ObjectMessage(m, st1.buffered.subrange(0, r), true),
                            ),
                            buffered: st1.buffered.subrange(r, st1.buffered.len() as int),
                            payload_length_remaining: 0,
                            ..st1
                        }.spec_drain(fin)
                    },
                    None => st1.spec_drain(fin),
                }
            } else {
                st1.spec_drain(fin)
            }
        }
    }
}

/// Parses a MoQT stream into events.
pub struct MessageParser {
    uses_web_transport: bool,
    allow_fetch_streams: bool,
    no_more_data: bool,
    parsing_error: bool,
    buffered_message: Vec<u8>,
    object_metadata: Option<ObjectHeader>,
    object_stream_kind: Option<ObjectStreamKind>,
    payload_length_remaining: usize,
    parser_events: VecDeque<MessageParserEvent>,
}

impl View for MessageParser {
    type V = ParserView;

    closed spec fn view(&self) -> ParserView {
        ParserView {
            uses_web_transport: self.uses_web_transport,
            allow_fetch_streams: self.allow_fetch_streams,
            no_more_data: self.no_more_data,
            parsing_error: self.parsing_error,
            buffered: self.buffered_message@,
            object_metadata: self.object_metadata,
            object_stream_kind: self.object_stream_kind,
            payload_length_remaining: self.payload_length_remaining,
            events: events_view(self.parser_events@),
        }
    }
}

/// A fresh parser.
pub open spec fn fresh_parser(uses_web_transport: bool, allow_fetch_streams: bool) -> ParserView {
    ParserView {
        uses_web_transport,
        allow_fetch_streams,
        no_more_data: false,
        parsing_error: false,
        buffered: Seq::empty(),
        object_metadata: None,
        object_stream_kind: None,
        payload_length_remaining: 0,
        events: Seq::empty(),
    }
}

impl MessageParser {
    pub fn new(use_web_transport: bool) -> (p: MessageParser)
        ensures
            p@ == fresh_parser(use_web_transport, false),
            p@.wf(),
    {
        MessageParser::new_control(use_web_transport)
    }

    /// A parser for the control stream.
    pub fn new_control(use_web_transport: bool) -> (p: MessageParser)
        ensures
            p@ == fresh_parser(use_web_transport, false),
            p@.wf(),
    {
        let p = MessageParser {
            uses_web_transport: use_web_transport,
            allow_fetch_streams: false,
            no_more_data: false,
            parsing_error: false,
            buffered_message: Vec::new(),
            object_metadata: None,
            object_stream_kind: None,
            payload_length_remaining: 0,
            parser_events: VecDeque::new(),
        };
        assert(events_view(p.parser_events@) =~= Seq::<EventView>::empty());
        p
    }

    /// A parser for a data stream, which may be a fetch stream.
    pub fn new_data_stream(use_web_transport: bool) -> (p: MessageParser)
        ensures
            p@ == fresh_parser(use_web_transport, true),
            p@.wf(),
    {
        let mut p = MessageParser::new_control(use_web_transport);
        p.allow_fetch_streams = true;
        p
    }

    /// Takes the oldest event not yet polled.
    pub fn poll_event(&mut self) -> (e: Option<MessageParserEvent>)
        ensures
            match e {
                Some(x) => old(self)@.events.len() > 0 && x@ == old(self)@.events[0] && final(self)@
                    == (ParserView { events: old(self)@.events.drop_first(), ..old(self)@ }),
                None => old(self)@.events.len() == 0 && final(self)@ == old(self)@,
            },
    {
        let ghost before = self.parser_events@;
        let e = self.parser_events.pop_front();
        proof {
            if e is Some {
                assert(events_view(self.parser_events@) =~= events_view(before).drop_first());
            }
        }
        e
    }

    /// Reads a datagram: its header, which must be that of a datagram, and
    /// the payload, the rest of the datagram.
    pub fn process_datagram(r: &[u8]) -> (res: Result<(ObjectHeader, Vec<u8>), Error>)
        ensures
            match spec_process_datagram(r@) {
                Ok((h, payload)) => res matches Ok((h2, p2)) && h2 == h && p2@ == payload,
                Err(e) => res matches Err(x) && x@ == e,
            },
    {
        let (h, p) = match parse_object_header(r, 0) {
            Ok(x) => x,
            Err(e) => return Err(e),
        };
        if h.object_forwarding_preference != ObjectForwardingPreference::Datagram {
            return Err(parse_error_text("invalid datagram"));
        }
        let len = slice_len(r);
        Ok((h, copy_range(r, p, len)))
    }

    fn push_event(&mut self, e: MessageParserEvent)
        ensures
            final(self)@ == (ParserView { events: old(self)@.events.push(e@), ..old(self)@ }),
    {
        let ghost before = self.parser_events@;
        self.parser_events.push_back(e);
        proof {
            assert(events_view(self.parser_events@) =~= events_view(before).push(e@));
        }
    }

    fn parse_error(&mut self, error_code: ErrorCode, error_reason: String)
        ensures
            final(self)@ == old(self)@.parse_error(error_code, error_reason@),
    {
        if self.parsing_error {
            return;
        }
        self.no_more_data = true;
        self.parsing_error = true;
        self.push_event(MessageParserEvent::ParsingError(error_code, error_reason));
    }

    fn report(&mut self, e: Error)
        ensures
            final(self)@ == old(self)@.report(e@),
    {
        match e {
            Error::ErrParseError(code, reason) => self.parse_error(code, reason),
            _ => {},
        }
    }

    fn object_stream_initialized(&self) -> (b: bool)
        ensures
            b == self@.initialized(),
    {
        self.object_metadata.is_some() && self.object_stream_kind.is_some()
    }

    fn object_payload_in_progress(&self) -> (b: bool)
        ensures
            b == self@.payload_in_progress(),
    {
        match &self.object_metadata {
            Some(m) => m.object_status == ObjectStatus::Normal && (m.object_forwarding_preference
                == ObjectForwardingPreference::Object || m.object_forwarding_preference
                == ObjectForwardingPreference::Datagram || self.payload_length_remaining > 0),
            None => false,
        }
    }
}


/// The view of an optional event.
pub open spec fn opt_event_view(o: Option<MessageParserEvent>) -> Option<EventView> {
    match o {
        Some(e) => Some(e@),
        None => None,
    }
}

/// Reads the fields of the next object of a stream of type `t` at the
/// start of `s`.
fn payload_fields(h: Option<ObjectHeader>, s: &[u8], t: MessageType) -> (res: (
    Option<ObjectHeader>,
    Result<usize, Error>,
))
    ensures
        res.0 == spec_payload_fields(h, s@, t).0,
        match spec_payload_fields(h, s@, t).1 {
            Ok(p) => res.1 matches Ok(q) && q == p,
            Err(e) => res.1 matches Err(x) && x@ == e,
        },
{
    let mut h1 = h;
    let mut p1: usize = 0;
    if t == MessageType::StreamHeaderTrack {
        match read_var_int(s, 0) {
            Ok((g, p)) => {
                h1 = match h {
                    Some(m) => Some(ObjectHeader { group_id: g, ..m }),
                    None => None,
                };
                p1 = p;
            },
            Err(e) => return (h, Err(e)),
        }
    }
    if t == MessageType::StreamHeaderTrack || t == MessageType::StreamHeaderGroup {
        let (o, p2) = match read_var_int(s, p1) {
            Ok(x) => x,
            Err(e) => return (h1, Err(e)),
        };
        let (len, p3) = match read_var_int(s, p2) {
            Ok(x) => x,
            Err(e) => return (h1, Err(e)),
        };
        let (status, p4) = match read_var_int_if(len == 0, s, p3) {
            Ok(x) => x,
            Err(e) => return (h1, Err(e)),
        };
        let h2 = match h1 {
            Some(m) => Some(
                ObjectHeader {
                    object_id: o,
                    object_payload_length: Some(len),
                    object_status: ObjectStatus::from(status),
                    ..m
                },
            ),
            None => None,
        };
        (h2, Ok(p4))
    } else {
        (h1, Ok(p1))
    }
}

/// Takes the payload of the object whose fields end at `p` in `s`.
fn payload_rest(h: Option<ObjectHeader>, s: &[u8], p: usize, t: MessageType, fin: bool) -> (res: Result<
    (Option<MessageParserEvent>, usize, usize),
    Error,
>)
    requires
        p <= s@.len(),
    ensures
        match spec_payload_rest(h, s@, p as int, t, fin) {
            Ok((ev, remaining, used)) => res matches Ok((e2, r2, u2)) && opt_event_view(e2) == ev && r2
                == remaining && u2 == used,
            Err(e) => res matches Err(x) && x@ == e,
        },
{
    let m = match h {
        None => return Ok((None, 0, p)),
        Some(m) => m,
    };
    let len = slice_len(s);
    if m.object_status == ObjectStatus::Invalid {
        return Err(parse_error_text("Invalid object status"));
    }
    if m.object_status != ObjectStatus::Normal {
        if (t == MessageType::ObjectStream || t == MessageType::ObjectDatagram) && p < len {
            return Err(parse_error_text("Object with non-normal status has payload"));
        }
        let ev = MessageParserEvent::ObjectMessage(m, Vec::new(), true);
        assert(ev@ == EventView::ObjectMessage(m, Seq::empty(), true));
        return Ok((Some(ev), 0, p));
    }
    let has_length = m.object_payload_length.is_some();
    let payload_length: usize = match m.object_payload_length {
        Some(l) => l as usize,
        None => 0,
    };
    let avail = len - p;
    if fin && has_length && payload_length > avail {
        return Err(parse_error_text("Received FIN mid-payload"));
    }
    let complete = fin || (has_length && payload_length <= avail);
    let draw = if complete && has_length && payload_length < avail {
        payload_length
    } else {
        avail
    };
    let payload = copy_range(s, p, p + draw);
    let remaining = if has_length {
        payload_length - draw
    } else {
        0
    };
    Ok((Some(MessageParserEvent::ObjectMessage(m, payload, complete)), remaining, p + draw))
}

impl MessageParser {
    fn push_opt_event(&mut self, e: Option<MessageParserEvent>)
        ensures
            final(self)@ == (ParserView {
                events: match opt_event_view(e) {
                    Some(x) => old(self)@.events.push(x),
                    None => old(self)@.events,
                },
                ..old(self)@
            }),
    {
        match e {
            Some(x) => self.push_event(x),
            None => {},
        }
    }

    #[verifier::spinoff_prover]
    fn process_object(&mut self, message_type: MessageType, fin: bool) -> (n: usize)
        requires
            old(self)@.wf(),
            !old(self)@.payload_in_progress(),
            message_type == MessageType::ObjectStream || message_type == MessageType::StreamHeaderTrack
                || message_type == MessageType::StreamHeaderGroup,
            old(self)@.initialized() ==> old(self)@.object_stream_kind == Some(
                ObjectStreamKind::Legacy(message_type),
            ),
            !old(self)@.initialized() ==> (MessageType::spec_parse(old(self)@.buffered, 0) matches Ok(
                (t, _),
            ) && t == message_type),
        ensures
            (final(self)@, n as int) == old(self)@.spec_process_object(message_type, fin),
            final(self)@.wf(),
            final(self)@.buffered == old(self)@.buffered,
            final(self)@.payload_in_progress() ==> n == 0 || n == old(self)@.buffered.len(),
    {
        proof {
            reveal(ParserView::spec_process_object);
        }
        let (ok, processed) = self.object_header_stage(message_type);
        if !ok {
            return 0;
        }
        self.object_payload_stage(processed, message_type, fin)
    }

    #[verifier::spinoff_prover]
    fn object_header_stage(&mut self, message_type: MessageType) -> (res: (bool, usize))
        requires
            old(self)@.wf(),
            !old(self)@.payload_in_progress(),
            message_type == MessageType::ObjectStream || message_type == MessageType::StreamHeaderTrack
                || message_type == MessageType::StreamHeaderGroup,
            old(self)@.initialized() ==> old(self)@.object_stream_kind == Some(
                ObjectStreamKind::Legacy(message_type),
            ),
            !old(self)@.initialized() ==> (MessageType::spec_parse(old(self)@.buffered, 0) matches Ok(
                (t, _),
            ) && t == message_type),
        ensures
            (final(self)@, res.0, res.1 as int) == old(self)@.spec_object_header_stage(message_type),
            final(self)@.wf(),
            final(self)@.buffered == old(self)@.buffered,
            !final(self)@.payload_in_progress() || res.0,
            final(self)@.payload_length_remaining == 0,
            res.0 ==> {
                &&& final(self)@.initialized()
                &&& final(self)@.object_stream_kind == Some(ObjectStreamKind::Legacy(message_type))
                &&& res.1 <= final(self)@.buffered.len()
            },
    {
        if !self.object_stream_initialized() {
            match parse_object_header(self.buffered_message.as_slice(), 0) {
                Ok((m, len)) => {
                    self.object_metadata = Some(m);
                    self.object_stream_kind = Some(ObjectStreamKind::Legacy(message_type));
                    return (true, len);
                },
                Err(e) => {
                    self.report(e);
                    return (false, 0);
                },
            }
        }
        (true, 0)
    }

    #[verifier::spinoff_prover]
    #[verifier::rlimit(40)]
    fn object_payload_stage(&mut self, processed: usize, message_type: MessageType, fin: bool) -> (n: usize)
        requires
            old(self)@.wf(),
            old(self)@.initialized(),
            old(self)@.object_stream_kind == Some(ObjectStreamKind::Legacy(message_type)),
            old(self)@.payload_length_remaining == 0,
            processed <= old(self)@.buffered.len(),
        ensures
            (final(self)@, n as int) == old(self)@.spec_object_payload_stage(processed as int, message_type, fin),
            final(self)@.wf(),
            final(self)@.buffered == old(self)@.buffered,
            final(self)@.payload_in_progress() ==> n == old(self)@.buffered.len(),
    {
        let total = self.buffered_message.len();
        let (h1, fields) = payload_fields(
            self.object_metadata,
            &self.buffered_message.as_slice()[processed..total],
            message_type,
        );
        match fields {
            Ok(p) => {
                let rest = payload_rest(
                    h1,
                    &self.buffered_message.as_slice()[processed..total],
                    p,
                    message_type,
                    fin,
                );
                match rest {
                    Ok((ev, remaining, used)) => {
                        self.object_metadata = h1;
                        self.payload_length_remaining = remaining;
                        self.push_opt_event(ev);
                        processed + used
                    },
                    Err(e) => {
                        self.object_metadata = h1;
                        self.report(e);
                        processed
                    },
                }
            },
            Err(e) => {
                self.object_metadata = h1;
                self.report(e);
                processed
            },
        }
    }

    #[verifier::spinoff_prover]
    fn process_fetch_object(&mut self, fin: bool) -> (n: usize)
        requires
            old(self)@.wf(),
            !old(self)@.payload_in_progress(),
        ensures
            (final(self)@, n as int) == old(self)@.spec_process_fetch_object(fin),
            final(self)@.wf(),
            final(self)@.buffered == old(self)@.buffered,
            n <= old(self)@.buffered.len(),
            final(self)@.payload_in_progress() ==> n == 0 || n == old(self)@.buffered.len(),
    {
        proof {
            reveal(ParserView::spec_process_fetch_object);
        }
        let previous = self.object_metadata;
        let (h, header_len) = match parse_fetch_header(self.buffered_message.as_slice(), 0, previous) {
            Ok(x) => x,
            Err(e) => {
                self.report(e);
                return 0;
            },
        };
        self.object_metadata = Some(h);
        self.object_stream_kind = Some(ObjectStreamKind::Fetch);
        let payload_length: usize = match h.object_payload_length {
            Some(l) => l as usize,
            None => 0,
        };
        let total = self.buffered_message.len();
        let available: usize = if total >= header_len {
            total - header_len
        } else {
            0
        };
        if fin && payload_length > available {
            self.parse_error(ErrorCode::ProtocolViolation, text("Received FIN mid-payload"));
            return 0;
        }
        let draw = if payload_length <= available {
            payload_length
        } else {
            available
        };
        let payload = copy_range(self.buffered_message.as_slice(), header_len, header_len + draw);
        self.push_event(MessageParserEvent::ObjectMessage(h, payload, payload_length <= available));
        self.payload_length_remaining = payload_length - draw;
        header_len + draw
    }

    #[verifier::spinoff_prover]
    fn process_control(&mut self) -> (n: usize)
        ensures
            (final(self)@, n as int) == old(self)@.spec_process_control(),
            final(self)@.object_metadata == old(self)@.object_metadata,
            final(self)@.object_stream_kind == old(self)@.object_stream_kind,
            final(self)@.payload_length_remaining == old(self)@.payload_length_remaining,
            final(self)@.buffered == old(self)@.buffered,
    {
        proof {
            reveal(ParserView::spec_process_control);
        }
        match ControlMessage::parse(self.buffered_message.as_slice(), 0) {
            Ok((cm, len)) => {
                match cm {
                    ControlMessage::ClientSetup(mut client_setup) => {
                        if self.uses_web_transport && client_setup.path.is_some() {
                            self.parse_error(
                                ErrorCode::ProtocolViolation,
                                text("WebTransport connection is using PATH parameter in SETUP"),
                            );
                            return 0;
                        } else if !self.uses_web_transport && client_setup.path.is_none() {
                            self.parse_error(
                                ErrorCode::ProtocolViolation,
                                text("PATH SETUP parameter missing from Client message over QUIC"),
                            );
                            return 0;
                        }
                        client_setup.uses_web_transport = self.uses_web_transport;
                        self.push_event(
                            MessageParserEvent::ControlMessage(ControlMessage::ClientSetup(client_setup)),
                        );
                    },
                    other => {
                        self.push_event(MessageParserEvent::ControlMessage(other));
                    },
                }
                len
            },
            Err(e) => {
                self.report(e);
                0
            },
        }
    }

    fn starts_fetch(&self) -> (b: bool)
        ensures
            b == self@.starts_fetch(),
    {
        if !self.allow_fetch_streams {
            return false;
        }
        match read_var_int(self.buffered_message.as_slice(), 0) {
            Ok((t, _)) => t == FETCH_STREAM_TYPE,
            Err(_) => false,
        }
    }

    #[verifier::spinoff_prover]
    fn process_message(&mut self, fin: bool) -> (n: usize)
        requires
            old(self)@.wf(),
            !old(self)@.payload_in_progress(),
        ensures
            (final(self)@, n as int) == old(self)@.spec_process_message(fin),
            final(self)@.wf(),
            final(self)@.buffered == old(self)@.buffered,
            final(self)@.payload_in_progress() ==> n == 0 || n == old(self)@.buffered.len(),
    {
        proof {
            reveal(ParserView::spec_process_message);
        }
        if self.object_stream_initialized() && !self.object_payload_in_progress() {
            match self.object_stream_kind {
                Some(ObjectStreamKind::Legacy(message_type)) => {
                    return self.process_object(message_type, fin);
                },
                _ => {
                    return self.process_fetch_object(fin);
                },
            }
        }
        if self.starts_fetch() {
            return self.process_fetch_object(fin);
        }
        let message_type = match MessageType::parse(self.buffered_message.as_slice(), 0) {
            Ok((t, _)) => t,
            Err(e) => {
                self.report(e);
                return 0;
            },
        };
        if message_type == MessageType::ObjectDatagram {
            self.parse_error(ErrorCode::ProtocolViolation, text("Received OBJECT_DATAGRAM on strea"));
            0
        } else if message_type == MessageType::ObjectStream || message_type
            == MessageType::StreamHeaderTrack || message_type == MessageType::StreamHeaderGroup {
            self.process_object(message_type, fin)
        } else {
            self.process_control()
        }
    }

    /// Parses messages off the front of the buffer.
    #[verifier::spinoff_prover]
    fn drain(&mut self, fin: bool)
        requires
            old(self)@.wf(),
            old(self)@.buffered.len() > 0 ==> !old(self)@.payload_in_progress(),
        ensures
            final(self)@ == old(self)@.spec_drain(fin),
            final(self)@.wf(),
    {
        proof {
            reveal(ParserView::spec_drain);
        }
        while self.buffered_message.len() > 0
            invariant
                self@.wf(),
                self@.buffered.len() > 0 ==> !self@.payload_in_progress(),
                self@.spec_drain(fin) == old(self)@.spec_drain(fin),
            decreases self@.buffered.len(),
        {
            let ghost before = self@;
            proof {
                reveal(ParserView::spec_drain);
            }
            let n = self.process_message(fin);
            if n == 0 {
                if self.buffered_message.len() > MAX_MESSSAGE_HEADER_SIZE {
                    self.parse_error(
                        ErrorCode::InternalError,
                        text("Cannot parse non-OBJECT messages > 2KB"),
                    );
                    return;
                }
                if fin {
                    self.parse_error(ErrorCode::ProtocolViolation, text("FIN after incomplete message"));
                    return;
                }
                return;
            }
            let total = self.buffered_message.len();
            if n > total {
                return;
            }
            self.buffered_message = copy_range(self.buffered_message.as_slice(), n, total);
        }
    }

    /// Takes bytes of the stream, with `fin` where they are its last ones,
    /// and parses every complete message they finish; the events wait to be
    /// polled.
    #[verifier::spinoff_prover]
    pub fn process_data(&mut self, data: &[u8], fin: bool)
        requires
            old(self)@.wf(),
        ensures
            final(self)@ == old(self)@.spec_process_data(data@, fin),
            final(self)@.wf(),
    {
        proof {
            reveal(ParserView::spec_process_data);
        }
        if self.no_more_data {
            self.parse_error(ErrorCode::ProtocolViolation, text("Data after end of stream"));
            return;
        }
        if fin {
            self.no_more_data = true;
            if self.object_payload_in_progress() && self.payload_length_remaining > slice_len(data) {
                self.parse_error(
                    ErrorCode::ProtocolViolation,
                    text("End of stream before complete OBJECT PAYLOAD"),
                );
                return;
            }
            if self.buffered_message.len() > 0 && slice_len(data) == 0 {
                self.parse_error(
                    ErrorCode::ProtocolViolation,
                    text("End of stream before complete message"),
                );
                return;
            }
        }
        crate::serde::append_bytes(data, &mut self.buffered_message);
        if self.object_payload_in_progress() {
            match self.object_metadata {
                Some(m) => {
                    if m.object_payload_length.is_none() {
                        let mut payload: Vec<u8> = Vec::new();
                        std::mem::swap(&mut payload, &mut self.buffered_message);
                        self.push_event(MessageParserEvent::ObjectMessage(m, payload, fin));
                        if fin {
                            self.object_metadata = None;
                        }
                        return;
                    }
                    let total = self.buffered_message.len();
                    if total < self.payload_length_remaining {
                        self.payload_length_remaining = self.payload_length_remaining - total;
                        let mut payload: Vec<u8> = Vec::new();
                        std::mem::swap(&mut payload, &mut self.buffered_message);
                        self.push_event(MessageParserEvent::ObjectMessage(m, payload, false));
                        return;
                    }
                    let r = self.payload_length_remaining;
                    let payload = copy_range(self.buffered_message.as_slice(), 0, r);
                    self.push_event(MessageParserEvent::ObjectMessage(m, payload, true));
                    self.buffered_message = copy_range(self.buffered_message.as_slice(), r, total);
                    self.payload_length_remaining = 0;
                },
                None => {},
            }
        }
        self.drain(fin);
    }
}


// ---------------------------------------------------------------------------
// What the parser gives back of what the framer writes.
/// The message that the parser delivers for `v`: a client setup is marked
/// with the transport of the session.
pub open spec fn delivered(v: ControlMessageView, uses_web_transport: bool) -> ControlMessageView {
    match v {
        ControlMessageView::ClientSetup(cs) => ControlMessageView::ClientSetup(
            crate::message::client_setup::ClientSetupView { uses_web_transport, ..cs },
        ),
        _ => v,
    }
}

/// A client setup carries a path exactly where the transport is raw QUIC.
pub open spec fn setup_fits_transport(v: ControlMessageView, uses_web_transport: bool) -> bool {
    match v {
        ControlMessageView::ClientSetup(cs) => (cs.path is Some) == !uses_web_transport,
        _ => true,
    }
}

/// A control message, written and handed to a new parser of the control
/// stream, is delivered as one event, with nothing left over and no error.
pub proof fn lemma_control_message_delivered(v: ControlMessageView, uses_web_transport: bool)
    requires
        ControlMessage::spec_wire(v) is Ok,
        ControlMessage::readable(v),
        setup_fits_transport(v, uses_web_transport),
    ensures
        ({
            let after = fresh_parser(uses_web_transport, false).spec_process_data(
                ControlMessage::spec_wire(v)->Ok_0,
                false,
            );
            &&& after.events == seq![EventView::ControlMessage(delivered(v, uses_web_transport))]
            &&& after.buffered.len() == 0
            &&& !after.parsing_error
        }),
{
    reveal(ParserView::spec_process_data);
    reveal(ParserView::spec_drain);
    reveal(ParserView::spec_process_message);
    reveal(ParserView::spec_process_control);
    let data = ControlMessage::spec_wire(v)->Ok_0;
    let st = fresh_parser(uses_web_transport, false);
    let t = ControlMessage::spec_type(v);
    let a = crate::serde::varint::var_int_bytes(t.code());
    let b = ControlMessage::spec_body(v)->Ok_0;
    assert(data == a + b);
    crate::serde::lemma_at_end(Seq::empty(), data);
    assert(Seq::<u8>::empty() + data =~= data);
    crate::serde::lemma_at_split(data, 0, a, b);
    MessageType::lemma_roundtrip(t, data, 0);
    ControlMessage::lemma_roundtrip(v, data, 0);
    crate::serde::varint::lemma_var_int_len(t.code());
    let st1 = ParserView { buffered: st.buffered + data, ..st };
    assert(st1.buffered =~= data);
    assert(!st1.payload_in_progress());
    assert(!st1.initialized());
    assert(!st1.starts_fetch());
    let (st2, len) = st1.spec_process_message(false);
    assert(len == data.len());
    let st3 = ParserView { buffered: st2.buffered.subrange(len, st2.buffered.len() as int), ..st2 };
    assert(st3.buffered.len() == 0);
    assert(st3.spec_drain(false) == st3);
    assert(st.spec_process_data(data, false) == st1.spec_drain(false));
}

/// A datagram written by the framer is read back: the same header (whose
/// length is not carried) and the same payload.
pub proof fn lemma_datagram_roundtrip(h: ObjectHeader, payload: Seq<u8>)
    requires
        crate::message::message_framer::spec_datagram_wire(h, payload) is Ok,
        h.object_forwarding_preference == ObjectForwardingPreference::Datagram,
        h.object_payload_length is None,
    ensures
        spec_process_datagram(crate::message::message_framer::spec_datagram_wire(h, payload)->Ok_0)
            == Ok::<(ObjectHeader, Seq<u8>), ErrorView>((h, payload)),
{
    let vs = seq![
        0x1u64,
        h.subscribe_id,
        h.track_alias,
        h.group_id,
        h.object_id,
        h.object_send_order,
        h.object_status.code(),
    ];
    let head = crate::serde::var_chain(vs)->Ok_0;
    let data = crate::message::message_framer::spec_datagram_wire(h, payload)->Ok_0;
    assert(data == head + payload);
    assert(data.subrange(0, data.len() as int) =~= data);
    crate::serde::lemma_at_split(data, 0, head, payload);
    crate::serde::lemma_var_chain_roundtrip(vs, data, 0, Seq::empty());
    assert(Seq::<u64>::empty() + vs =~= vs);
    reveal_with_fuel(crate::serde::spec_read_var_chain, 8);
    assert(data.subrange(head.len() as int, data.len() as int) =~= payload);
}

// ---------------------------------------------------------------------------
// What the parser gives back of the first object of a track or group stream.
/// The numbers that open a track or group stream, up to where the parser's
/// stream header ends: the type, subscription, alias, the group of a group
/// stream, and the send order.
pub open spec fn stream_open_fields(h: ObjectHeader) -> Seq<u64> {
    if h.object_forwarding_preference == ObjectForwardingPreference::Track {
        seq![0x50u64, h.subscribe_id, h.track_alias, h.object_send_order]
    } else {
        seq![0x51u64, h.subscribe_id, h.track_alias, h.group_id, h.object_send_order]
    }
}

/// The numbers of the object itself: the group on a track stream, the
/// object id, the payload length `n` and, where it is zero, the status.
pub open spec fn stream_object_fields(h: ObjectHeader, n: u64) -> Seq<u64> {
    let tail = if n == 0 {
        seq![h.object_status.code()]
    } else {
        Seq::<u64>::empty()
    };
    if h.object_forwarding_preference == ObjectForwardingPreference::Track {
        seq![h.group_id, h.object_id, n] + tail
    } else {
        seq![h.object_id, n] + tail
    }
}

/// The type of the stream that carries objects of a track or group
/// preference.
pub open spec fn stream_type(h: ObjectHeader) -> MessageType {
    if h.object_forwarding_preference == ObjectForwardingPreference::Track {
        MessageType::StreamHeaderTrack
    } else {
        MessageType::StreamHeaderGroup
    }
}

/// The header the parser takes from the opening of a track or group stream.
pub open spec fn stream_opening(h: ObjectHeader) -> ObjectHeader {
    ObjectHeader {
        group_id: if h.object_forwarding_preference == ObjectForwardingPreference::Track {
            0
        } else {
            h.group_id
        },
        object_id: 0,
        object_status: ObjectStatus::Normal,
        object_payload_length: None,
        ..h
    }
}

proof fn lemma_stream_opening_parsed(h: ObjectHeader, data: Seq<u8>)
    requires
        h.object_forwarding_preference == ObjectForwardingPreference::Track
            || h.object_forwarding_preference == ObjectForwardingPreference::Group,
        crate::serde::var_chain(stream_open_fields(h)) is Ok,
        crate::serde::at(data, 0, crate::serde::var_chain(stream_open_fields(h))->Ok_0),
    ensures
        spec_parse_object_header(data, 0) == Ok::<(ObjectHeader, int), ErrorView>(
            (stream_opening(h), crate::serde::var_chain(stream_open_fields(h))->Ok_0.len() as int),
        ),
        MessageType::spec_parse(data, 0) matches Ok((t, _)) && t == stream_type(h),
{
    let f = stream_open_fields(h);
    crate::serde::lemma_var_chain_roundtrip(f, data, 0, Seq::empty());
    assert(Seq::<u64>::empty() + f =~= f);
    reveal_with_fuel(crate::serde::spec_read_var_chain, 6);
    MessageType::lemma_code_roundtrip(MessageType::StreamHeaderTrack);
    MessageType::lemma_code_roundtrip(MessageType::StreamHeaderGroup);
}

/// Two headers of objects of one track or group stream: they share what the
/// opening of the stream carries.
pub open spec fn same_stream(base: ObjectHeader, h: ObjectHeader) -> bool {
    &&& base.subscribe_id == h.subscribe_id
    &&& base.track_alias == h.track_alias
    &&& base.object_send_order == h.object_send_order
    &&& base.object_forwarding_preference == h.object_forwarding_preference
    &&& (h.object_forwarding_preference == ObjectForwardingPreference::Group ==> base.group_id
        == h.group_id)
}

proof fn lemma_stream_object_parsed(base: ObjectHeader, h: ObjectHeader, n: u64, s: Seq<u8>)
    requires
        h.object_forwarding_preference == ObjectForwardingPreference::Track
            || h.object_forwarding_preference == ObjectForwardingPreference::Group,
        h.object_status == ObjectStatus::Normal,
        same_stream(base, h),
        crate::serde::var_chain(stream_object_fields(h, n)) is Ok,
        crate::serde::at(s, 0, crate::serde::var_chain(stream_object_fields(h, n))->Ok_0),
    ensures
        spec_payload_fields(Some(base), s, stream_type(h)) == (
            Some(ObjectHeader { object_payload_length: Some(n), ..h }),
            Ok::<int, ErrorView>(crate::serde::var_chain(stream_object_fields(h, n))->Ok_0.len() as int),
        ),
{
    let f = stream_object_fields(h, n);
    crate::serde::lemma_var_chain_roundtrip(f, s, 0, Seq::empty());
    assert(Seq::<u64>::empty() + f =~= f);
    reveal_with_fuel(crate::serde::spec_read_var_chain, 5);
    let track = h.object_forwarding_preference == ObjectForwardingPreference::Track;
    let k: int = if track { 1 } else { 0 };
    let end = crate::serde::var_chain(f)->Ok_0.len() as int;
    assert(h.object_status.code() == 0);
    if n == 0 {
        assert(f.len() == k + 3);
        assert(f[k + 2] == 0);
    } else {
        assert(f.len() == k + 2);
    }
    assert(f[k] == h.object_id);
    assert(f[k + 1] == n);
    if track {
        assert(f[0] == h.group_id);
    }
}

/// The parser after it delivered the whole object `m`, with payload
/// `payload`, of a track or group stream: it keeps the object's header for
/// the next one, and has nothing buffered.
pub open spec fn stream_after_object(st: ParserView, m: ObjectHeader, payload: Seq<u8>) -> ParserView {
    ParserView {
        buffered: Seq::empty(),
        object_metadata: Some(m),
        object_stream_kind: Some(ObjectStreamKind::Legacy(stream_type(m))),
        payload_length_remaining: 0,
        events: st.events.push(EventView::ObjectMessage(m, payload, true)),
        ..st
    }
}

/// The bytes of the first object of a track or group stream: the opening,
/// the object's numbers, then the payload.
proof fn lemma_stream_object_bytes(h: ObjectHeader, payload: Seq<u8>)
    requires
        h.object_forwarding_preference == ObjectForwardingPreference::Track
            || h.object_forwarding_preference == ObjectForwardingPreference::Group,
        crate::message::message_framer::spec_object_wire(h, true, payload) is Ok,
    ensures
        crate::serde::var_chain(stream_open_fields(h)) is Ok,
        crate::serde::var_chain(stream_object_fields(h, payload.len() as u64)) is Ok,
        crate::message::message_framer::spec_object_wire(h, true, payload)->Ok_0
            == crate::serde::var_chain(stream_open_fields(h))->Ok_0 + crate::serde::var_chain(
            stream_object_fields(h, payload.len() as u64),
        )->Ok_0 + payload,
{
    let n = payload.len() as u64;
    let m = ObjectHeader { object_payload_length: Some(n), ..h };
    let fo = stream_open_fields(h);
    let fb = stream_object_fields(h, n);
    assert(crate::message::message_framer::object_header_fields(m, true)
        == Ok::<Seq<u64>, ErrorView>(fo + fb)) by {
        assert(crate::message::message_framer::object_header_fields(m, true)->Ok_0 =~= fo + fb);
    }
    crate::serde::lemma_var_chain_concat(fo, fb);
}

/// The fields and payload of an object of a track or group stream, after
/// `processed` bytes, when the stream holds the header `base`: the object is
/// delivered whole and its header kept.
proof fn lemma_stream_payload_stage(
    st: ParserView,
    base: ObjectHeader,
    h: ObjectHeader,
    payload: Seq<u8>,
    processed: int,
)
    requires
        h.object_forwarding_preference == ObjectForwardingPreference::Track
            || h.object_forwarding_preference == ObjectForwardingPreference::Group,
        h.object_status == ObjectStatus::Normal,
        same_stream(base, h),
        st.object_metadata == Some(base),
        payload.len() <= usize::MAX,
        crate::serde::var_chain(stream_object_fields(h, payload.len() as u64)) is Ok,
        0 <= processed <= st.buffered.len(),
        st.buffered.subrange(processed, st.buffered.len() as int) == crate::serde::var_chain(
            stream_object_fields(h, payload.len() as u64),
        )->Ok_0 + payload,
    ensures
        st.spec_object_payload_stage(processed, stream_type(h), false) == (
            ParserView {
                object_metadata: Some(ObjectHeader { object_payload_length: Some(payload.len() as u64), ..h }),
                payload_length_remaining: 0,
                events: st.events.push(
                    EventView::ObjectMessage(
                        ObjectHeader { object_payload_length: Some(payload.len() as u64), ..h },
                        payload,
                        true,
                    ),
                ),
                ..st
            },
            st.buffered.len() as int,
        ),
{
    let n = payload.len() as u64;
    let b = crate::serde::var_chain(stream_object_fields(h, n))->Ok_0;
    let s = st.buffered.subrange(processed, st.buffered.len() as int);
    assert(s.subrange(0, b.len() as int) =~= b);
    lemma_stream_object_parsed(base, h, n, s);
    assert(s.subrange(b.len() as int, (b.len() + payload.len()) as int) =~= payload);
    let m = ObjectHeader { object_payload_length: Some(n), ..h };
    assert((n as usize) as int == payload.len());
    assert(spec_payload_rest(Some(m), s, b.len() as int, stream_type(h), false) == Ok::<
        (Option<EventView>, usize, int),
        ErrorView,
    >((Some(EventView::ObjectMessage(m, payload, true)), 0usize, s.len() as int)));
}

/// A new parser holding the bytes of the first object of a track or group
/// stream takes them all as one message and delivers the object.
proof fn lemma_stream_object_message(h: ObjectHeader, payload: Seq<u8>, st: ParserView)
    requires
        h.object_forwarding_preference == ObjectForwardingPreference::Track
            || h.object_forwarding_preference == ObjectForwardingPreference::Group,
        h.object_status == ObjectStatus::Normal,
        payload.len() <= usize::MAX,
        crate::message::message_framer::spec_object_wire(h, true, payload) is Ok,
        st.buffered == crate::message::message_framer::spec_object_wire(h, true, payload)->Ok_0,
        st.object_metadata is None,
        st.object_stream_kind is None,
    ensures
        st.spec_process_object(stream_type(h), false) == (
            ParserView {
                object_metadata: Some(ObjectHeader { object_payload_length: Some(payload.len() as u64), ..h }),
                object_stream_kind: Some(ObjectStreamKind::Legacy(stream_type(h))),
                payload_length_remaining: 0,
                events: st.events.push(
                    EventView::ObjectMessage(
                        ObjectHeader { object_payload_length: Some(payload.len() as u64), ..h },
                        payload,
                        true,
                    ),
                ),
                ..st
            },
            st.buffered.len() as int,
        ),
{
    reveal(ParserView::spec_process_object);
    let n = payload.len() as u64;
    lemma_stream_object_bytes(h, payload);
    let a = crate::serde::var_chain(stream_open_fields(h))->Ok_0;
    let b = crate::serde::var_chain(stream_object_fields(h, n))->Ok_0;
    let data = st.buffered;
    assert(data.subrange(0, a.len() as int) =~= a);
    lemma_stream_opening_parsed(h, data);
    let st1 = ParserView {
        object_metadata: Some(stream_opening(h)),
        object_stream_kind: Some(ObjectStreamKind::Legacy(stream_type(h))),
        ..st
    };
    assert(st.spec_object_header_stage(stream_type(h)) == (st1, true, a.len() as int));
    assert(data.subrange(a.len() as int, data.len() as int) =~= b + payload);
    lemma_stream_payload_stage(st1, stream_opening(h), h, payload, a.len() as int);
}

/// The first object of a track or group stream, written by the framer and
/// handed to a new parser, is delivered as one complete event: the same
/// header, now with its payload length, and the same payload.
pub proof fn lemma_stream_object_delivered(h: ObjectHeader, payload: Seq<u8>, uses_web_transport: bool)
    requires
        h.object_forwarding_preference == ObjectForwardingPreference::Track
            || h.object_forwarding_preference == ObjectForwardingPreference::Group,
        h.object_status == ObjectStatus::Normal,
        payload.len() <= usize::MAX,
        crate::message::message_framer::spec_object_wire(h, true, payload) is Ok,
    ensures
        ({
            let after = fresh_parser(uses_web_transport, false).spec_process_data(
                crate::message::message_framer::spec_object_wire(h, true, payload)->Ok_0,
                false,
            );
            &&& after.events == seq![
                EventView::ObjectMessage(
                    ObjectHeader { object_payload_length: Some(payload.len() as u64), ..h },
                    payload,
                    true,
                ),
            ]
            &&& !after.parsing_error
            &&& after.buffered.len() == 0
            &&& after == stream_after_object(
                fresh_parser(uses_web_transport, false),
                ObjectHeader { object_payload_length: Some(payload.len() as u64), ..h },
                payload,
            )
        }),
{
    reveal(ParserView::spec_process_data);
    reveal(ParserView::spec_drain);
    reveal(ParserView::spec_process_message);
    let data = crate::message::message_framer::spec_object_wire(h, true, payload)->Ok_0;
    let st = fresh_parser(uses_web_transport, false);
    let st1 = ParserView { buffered: st.buffered + data, ..st };
    assert(st1.buffered =~= data);
    lemma_stream_object_bytes(h, payload);
    let a = crate::serde::var_chain(stream_open_fields(h))->Ok_0;
    assert(data.subrange(0, a.len() as int) =~= a);
    lemma_stream_opening_parsed(h, data);
    lemma_stream_object_message(h, payload, st1);
    let (st2, len) = st1.spec_process_message(false);
    assert(len == data.len());
    let st3 = ParserView { buffered: st2.buffered.subrange(len, st2.buffered.len() as int), ..st2 };
    assert(st3.buffered.len() == 0);
    assert(st3.spec_drain(false) == st3);
    let m = ObjectHeader { object_payload_length: Some(payload.len() as u64), ..h };
    assert(st3.buffered =~= Seq::<u8>::empty());
    assert(st3 == stream_after_object(st, m, payload));
}

/// The bytes of a later object of a track or group stream: the object's
/// numbers, then the payload.
proof fn lemma_stream_next_bytes(h: ObjectHeader, payload: Seq<u8>)
    requires
        h.object_forwarding_preference == ObjectForwardingPreference::Track
            || h.object_forwarding_preference == ObjectForwardingPreference::Group,
        crate::message::message_framer::spec_object_wire(h, false, payload) is Ok,
    ensures
        crate::serde::var_chain(stream_object_fields(h, payload.len() as u64)) is Ok,
        crate::message::message_framer::spec_object_wire(h, false, payload)->Ok_0
            == crate::serde::var_chain(stream_object_fields(h, payload.len() as u64))->Ok_0 + payload,
{
    let n = payload.len() as u64;
    let m = ObjectHeader { object_payload_length: Some(n), ..h };
    assert(crate::message::message_framer::object_header_fields(m, false)
        == Ok::<Seq<u64>, ErrorView>(stream_object_fields(h, n))) by {
        assert(crate::message::message_framer::object_header_fields(m, false)->Ok_0 =~= stream_object_fields(h, n));
    }
}

/// A parser that delivered a whole object of a track or group stream, with
/// the bytes of the next object buffered, takes them all as one message.
proof fn lemma_stream_next_message(st: ParserView, m1: ObjectHeader, h2: ObjectHeader, p2: Seq<u8>)
    requires
        m1.object_forwarding_preference == ObjectForwardingPreference::Track
            || m1.object_forwarding_preference == ObjectForwardingPreference::Group,
        m1.object_status == ObjectStatus::Normal,
        h2.object_status == ObjectStatus::Normal,
        same_stream(m1, h2),
        p2.len() <= usize::MAX,
        st.object_metadata == Some(m1),
        st.object_stream_kind == Some(ObjectStreamKind::Legacy(stream_type(m1))),
        st.payload_length_remaining == 0,
        crate::message::message_framer::spec_object_wire(h2, false, p2) is Ok,
        st.buffered == crate::message::message_framer::spec_object_wire(h2, false, p2)->Ok_0,
    ensures
        st.spec_process_message(false) == (
            ParserView {
                object_metadata: Some(ObjectHeader { object_payload_length: Some(p2.len() as u64), ..h2 }),
                payload_length_remaining: 0,
                events: st.events.push(
                    EventView::ObjectMessage(
                        ObjectHeader { object_payload_length: Some(p2.len() as u64), ..h2 },
                        p2,
                        true,
                    ),
                ),
                ..st
            },
            st.buffered.len() as int,
        ),
{
    reveal(ParserView::spec_process_message);
    reveal(ParserView::spec_process_object);
    lemma_stream_next_bytes(h2, p2);
    let data = st.buffered;
    assert(!st.payload_in_progress());
    assert(st.initialized());
    assert(st.spec_object_header_stage(stream_type(h2)) == (st, true, 0int));
    assert(data.subrange(0, data.len() as int) =~= data);
    lemma_stream_payload_stage(st, m1, h2, p2, 0);
}

/// A later object of a track or group stream, written by the framer after
/// the first and handed to the parser that delivered the first, is
/// delivered as the next complete event: its own header, with what the
/// stream's opening carries, its payload length, and its payload.
pub proof fn lemma_stream_follow_on_delivered(
    h1: ObjectHeader,
    p1: Seq<u8>,
    h2: ObjectHeader,
    p2: Seq<u8>,
    uses_web_transport: bool,
)
    requires
        h1.object_forwarding_preference == ObjectForwardingPreference::Track
            || h1.object_forwarding_preference == ObjectForwardingPreference::Group,
        h1.object_status == ObjectStatus::Normal,
        h2.object_status == ObjectStatus::Normal,
        same_stream(h1, h2),
        p1.len() <= usize::MAX,
        p2.len() <= usize::MAX,
        crate::message::message_framer::spec_object_wire(h1, true, p1) is Ok,
        crate::message::message_framer::spec_object_wire(h2, false, p2) is Ok,
    ensures
        ({
            let after1 = fresh_parser(uses_web_transport, false).spec_process_data(
                crate::message::message_framer::spec_object_wire(h1, true, p1)->Ok_0,
                false,
            );
            let after2 = after1.spec_process_data(
                crate::message::message_framer::spec_object_wire(h2, false, p2)->Ok_0,
                false,
            );
            &&& after2.events == seq![
                EventView::ObjectMessage(
                    ObjectHeader { object_payload_length: Some(p1.len() as u64), ..h1 },
                    p1,
                    true,
                ),
                EventView::ObjectMessage(
                    ObjectHeader { object_payload_length: Some(p2.len() as u64), ..h2 },
                    p2,
                    true,
                ),
            ]
            &&& !after2.parsing_error
            &&& after2.buffered.len() == 0
        }),
{
    reveal(ParserView::spec_process_data);
    reveal(ParserView::spec_drain);
    lemma_stream_object_delivered(h1, p1, uses_web_transport);
    let m1 = ObjectHeader { object_payload_length: Some(p1.len() as u64), ..h1 };
    let after1 = stream_after_object(fresh_parser(uses_web_transport, false), m1, p1);
    let data = crate::message::message_framer::spec_object_wire(h2, false, p2)->Ok_0;
    lemma_stream_next_bytes(h2, p2);
    let st1 = ParserView { buffered: after1.buffered + data, ..after1 };
    assert(st1.buffered =~= data);
    assert(!st1.payload_in_progress());
    lemma_stream_next_message(st1, m1, h2, p2);
    let (st2, len) = st1.spec_process_message(false);
    assert(len == data.len());
    let st3 = ParserView { buffered: st2.buffered.subrange(len, st2.buffered.len() as int), ..st2 };
    assert(st3.buffered.len() == 0);
    assert(st3.spec_drain(false) == st3);
}

// ---------------------------------------------------------------------------
// What the parser gives back of a fetch object that the framer writes.
/// The bits of the flags the framer writes: each says whether its field is
/// there, and the flags mark neither a range nor a subgroup.
proof fn lemma_fetch_flag_bits(g: bool, o: bool, p: bool, e: bool)
    ensures
        ({
            let f: u64 = (0x40u64 + ((if g { 8u64 } else { 0u64 }) + (if o { 4u64 } else { 0u64 }) + (
            if p { 0x10u64 } else { 0u64 })) as u64 + if e { 0x20u64 } else { 0u64 }) as u64;
            &&& (f & 8 != 0) == g
            &&& (f & 4 != 0) == o
            &&& (f & 0x10 != 0) == p
            &&& (f & 0x20 != 0) == e
            &&& f & 0x40 != 0
            &&& f & 0x03 == 0
            &&& f != 0x8c
            &&& f != 0x10c
        }),
{
    let gg: u64 = if g { 8u64 } else { 0u64 };
    let oo: u64 = if o { 4u64 } else { 0u64 };
    let pp: u64 = if p { 0x10u64 } else { 0u64 };
    let ee: u64 = if e { 0x20u64 } else { 0u64 };
    assert({
        let f: u64 = (0x40u64 + (gg + oo + pp) as u64 + ee) as u64;
        &&& (f & 8 != 0) == (gg == 8)
        &&& (f & 4 != 0) == (oo == 4)
        &&& (f & 0x10 != 0) == (pp == 0x10)
        &&& (f & 0x20 != 0) == (ee == 0x20)
        &&& f & 0x40 != 0
        &&& f & 0x03 == 0
        &&& f != 0x8c
        &&& f != 0x10c
    }) by (bit_vector)
        requires
            gg == 0 || gg == 8,
            oo == 0 || oo == 4,
            pp == 0 || pp == 0x10,
            ee == 0 || ee == 0x20,
    ;
}

/// The bytes of a fetch object: its numbers, the priority byte where the
/// flags say so, the extensions with their length where there are any, then
/// the payload with its length.
proof fn lemma_fetch_object_bytes(
    h: ObjectHeader,
    previous: Option<ObjectHeader>,
    extensions: Seq<u8>,
    payload: Seq<u8>,
)
    requires
        crate::message::message_framer::spec_fetch_object_wire(h, previous, extensions, payload) is Ok,
    ensures
        ({
            let f = crate::message::message_framer::fetch_flags(h, previous, extensions.len() > 0);
            let head = crate::message::message_framer::fetch_head(h, previous, f);
            let prio = if f & FETCH_HAS_PRIORITY != 0 {
                seq![h.object_send_order as u8]
            } else {
                Seq::<u8>::empty()
            };
            let ext = if f & FETCH_HAS_EXTENSIONS != 0 {
                crate::serde::varint::spec_var_int(extensions.len() as u64)->Ok_0 + extensions
            } else {
                Seq::<u8>::empty()
            };
            &&& crate::serde::var_chain(head) is Ok
            &&& crate::serde::varint::spec_var_int(payload.len() as u64) is Ok
            &&& (f & FETCH_HAS_EXTENSIONS != 0 ==> crate::serde::varint::spec_var_int(
                extensions.len() as u64,
            ) is Ok)
            &&& h.object_status == ObjectStatus::Normal
            &&& h.object_send_order <= 255
            &&& crate::message::message_framer::spec_fetch_object_wire(h, previous, extensions, payload)->Ok_0
                == crate::serde::var_chain(head)->Ok_0 + prio + ext + (crate::serde::varint::spec_var_int(
                payload.len() as u64,
            )->Ok_0 + payload)
        }),
{
}

/// What follows the numbers of a fetch object, at `q`: the priority byte,
/// the extensions, and the payload length, read back as written.
proof fn lemma_fetch_tail_read(
    h: ObjectHeader,
    extensions: Seq<u8>,
    payload: Seq<u8>,
    f: u64,
    data: Seq<u8>,
    q: int,
)
    requires
        0 <= q <= data.len(),
        h.object_send_order <= 255,
        extensions.len() <= usize::MAX,
        crate::serde::varint::spec_var_int(payload.len() as u64) is Ok,
        f & FETCH_HAS_EXTENSIONS != 0 ==> crate::serde::varint::spec_var_int(extensions.len() as u64) is Ok,
        data.subrange(q, data.len() as int) == (if f & FETCH_HAS_PRIORITY != 0 {
            seq![h.object_send_order as u8]
        } else {
            Seq::<u8>::empty()
        }) + (if f & FETCH_HAS_EXTENSIONS != 0 {
            crate::serde::varint::spec_var_int(extensions.len() as u64)->Ok_0 + extensions
        } else {
            Seq::<u8>::empty()
        }) + (crate::serde::varint::spec_var_int(payload.len() as u64)->Ok_0 + payload),
    ensures
        f & FETCH_HAS_PRIORITY != 0 ==> q < data.len() && data[q] as u64 == h.object_send_order,
        ({
            let p5 = if f & FETCH_HAS_PRIORITY != 0 { q + 1 } else { q };
            let ext: Result<int, ErrorView> = if f & FETCH_HAS_EXTENSIONS != 0 {
                match spec_read_var_usize(data, p5) {
                    Ok((n, r)) => if data.len() - r < n {
                        Err(ErrorView::ErrBufferTooShort)
                    } else {
                        Ok(r + n)
                    },
                    Err(e) => Err(e),
                }
            } else {
                Ok(p5)
            };
            &&& ext is Ok
            &&& spec_read_var_int(data, ext->Ok_0) == Ok::<(u64, int), ErrorView>(
                (payload.len() as u64, data.len() - payload.len()),
            )
        }),
{
    let prio = if f & FETCH_HAS_PRIORITY != 0 {
        seq![h.object_send_order as u8]
    } else {
        Seq::<u8>::empty()
    };
    let ext = if f & FETCH_HAS_EXTENSIONS != 0 {
        crate::serde::varint::spec_var_int(extensions.len() as u64)->Ok_0 + extensions
    } else {
        Seq::<u8>::empty()
    };
    let vn = crate::serde::varint::spec_var_int(payload.len() as u64)->Ok_0;
    let rest = data.subrange(q, data.len() as int);
    assert(rest == prio + ext + (vn + payload));
    if f & FETCH_HAS_PRIORITY != 0 {
        assert(rest.len() >= 1);
        assert(rest[0] == prio[0]);
        assert(data[q] == rest[0]);
        assert((h.object_send_order as u8) as u64 == h.object_send_order);
    }
    let p5 = q + prio.len();
    let p6 = p5 + ext.len();
    assert(rest.subrange((prio.len() + ext.len()) as int, rest.len() as int) =~= vn + payload);
    assert(data.subrange(p6, data.len() as int) =~= rest.subrange((prio.len() + ext.len()) as int, rest.len() as int));
    assert(data.subrange(p6, data.len() as int) =~= vn + payload);
    assert(data.subrange(p6, p6 + vn.len()) =~= vn);
    crate::serde::varint::lemma_u64_roundtrip(payload.len() as u64, data, p6);
    if f & FETCH_HAS_EXTENSIONS != 0 {
        let ve = crate::serde::varint::spec_var_int(extensions.len() as u64)->Ok_0;
        assert(rest.subrange(prio.len() as int, (prio.len() + ve.len()) as int) =~= ve);
        assert(data.subrange(p5, p5 + ve.len()) =~= rest.subrange(prio.len() as int, (prio.len() + ve.len()) as int));
        assert(data.subrange(p5, p5 + ve.len()) =~= ve);
        crate::serde::varint::lemma_u64_roundtrip(extensions.len() as u64, data, p5);
    }
}

/// The first fetch object of a stream, laid out as the framer writes it,
/// read back.
#[verifier::spinoff_prover]
proof fn lemma_fetch_first_read(
    h: ObjectHeader,
    previous: Option<ObjectHeader>,
    f: u64,
    head: Seq<u64>,
    hb: Seq<u8>,
    data: Seq<u8>,
    extensions: Seq<u8>,
    payload: Seq<u8>,
)
    requires
        previous is None,
        f & FETCH_HAS_GROUP_ID != 0,
        f & FETCH_HAS_OBJECT_ID != 0,
        f & FETCH_HAS_PRIORITY != 0,
        head == seq![FETCH_STREAM_TYPE, h.subscribe_id, f, h.group_id, h.object_id],
        0 <= hb.len() <= data.len(),
        h.object_send_order <= 255,
        h.object_status == ObjectStatus::Normal,
        h.object_forwarding_preference == ObjectForwardingPreference::Track,
        h.subscribe_id == h.track_alias,
        payload.len() > 0,
        payload.len() <= usize::MAX,
        extensions.len() <= usize::MAX,
        crate::serde::varint::spec_var_int(payload.len() as u64) is Ok,
        f & FETCH_HAS_EXTENSIONS != 0 ==> crate::serde::varint::spec_var_int(extensions.len() as u64) is Ok,
        f & FETCH_IS_DATAGRAM_LIKE != 0,
        f & FETCH_HAS_SUBGROUP_ID == 0,
        f != FETCH_END_OF_NON_EXISTENT_RANGE,
        f != FETCH_END_OF_UNKNOWN_RANGE,
        crate::serde::var_chain(head) is Ok,
        hb == crate::serde::var_chain(head)->Ok_0,
        crate::serde::at(data, 0, hb),
        data.subrange(hb.len() as int, data.len() as int) == (if f & FETCH_HAS_PRIORITY != 0 {
            seq![h.object_send_order as u8]
        } else {
            Seq::<u8>::empty()
        }) + (if f & FETCH_HAS_EXTENSIONS != 0 {
            crate::serde::varint::spec_var_int(extensions.len() as u64)->Ok_0 + extensions
        } else {
            Seq::<u8>::empty()
        }) + (crate::serde::varint::spec_var_int(payload.len() as u64)->Ok_0 + payload),
    ensures
        spec_parse_fetch_header(data, 0, previous) == Ok::<(ObjectHeader, int), ErrorView>(
            (ObjectHeader { object_payload_length: Some(payload.len() as u64), ..h }, data.len() - payload.len()),
        ),
{
    lemma_fetch_tail_read(h, extensions, payload, f, data, hb.len() as int);
    assert(head.take(0) =~= Seq::<u64>::empty());
    assert(head.take(5) =~= head);
    crate::serde::lemma_var_chain_read_at(head, data, 0, 0);
    crate::serde::lemma_var_chain_read_at(head, data, 0, 1);
    crate::serde::lemma_var_chain_read_at(head, data, 0, 2);
    crate::serde::lemma_var_chain_read_at(head, data, 0, 3);
    crate::serde::lemma_var_chain_read_at(head, data, 0, 4);
}

/// A later fetch object of a stream, laid out as the framer writes it after
/// `previous`, read back.
#[verifier::spinoff_prover]
proof fn lemma_fetch_later_read(
    h: ObjectHeader,
    previous: Option<ObjectHeader>,
    f: u64,
    head: Seq<u64>,
    hb: Seq<u8>,
    data: Seq<u8>,
    extensions: Seq<u8>,
    payload: Seq<u8>,
)
    requires
        previous matches Some(p) && p.subscribe_id == h.subscribe_id
            && (f & FETCH_HAS_GROUP_ID == 0 ==> p.group_id == h.group_id)
            && (f & FETCH_HAS_OBJECT_ID == 0 ==> h.object_id == p.object_id + 1)
            && (f & FETCH_HAS_PRIORITY == 0 ==> p.object_send_order == h.object_send_order),
        head == seq![f] + (if f & FETCH_HAS_GROUP_ID != 0 {
            seq![h.group_id]
        } else {
            Seq::<u64>::empty()
        }) + (if f & FETCH_HAS_OBJECT_ID != 0 {
            seq![h.object_id]
        } else {
            Seq::<u64>::empty()
        }),
        0 <= hb.len() <= data.len(),
        h.object_send_order <= 255,
        h.object_status == ObjectStatus::Normal,
        h.object_forwarding_preference == ObjectForwardingPreference::Track,
        h.subscribe_id == h.track_alias,
        payload.len() > 0,
        payload.len() <= usize::MAX,
        extensions.len() <= usize::MAX,
        crate::serde::varint::spec_var_int(payload.len() as u64) is Ok,
        f & FETCH_HAS_EXTENSIONS != 0 ==> crate::serde::varint::spec_var_int(extensions.len() as u64) is Ok,
        f & FETCH_IS_DATAGRAM_LIKE != 0,
        f & FETCH_HAS_SUBGROUP_ID == 0,
        f != FETCH_END_OF_NON_EXISTENT_RANGE,
        f != FETCH_END_OF_UNKNOWN_RANGE,
        crate::serde::var_chain(head) is Ok,
        hb == crate::serde::var_chain(head)->Ok_0,
        crate::serde::at(data, 0, hb),
        data.subrange(hb.len() as int, data.len() as int) == (if f & FETCH_HAS_PRIORITY != 0 {
            seq![h.object_send_order as u8]
        } else {
            Seq::<u8>::empty()
        }) + (if f & FETCH_HAS_EXTENSIONS != 0 {
            crate::serde::varint::spec_var_int(extensions.len() as u64)->Ok_0 + extensions
        } else {
            Seq::<u8>::empty()
        }) + (crate::serde::varint::spec_var_int(payload.len() as u64)->Ok_0 + payload),
    ensures
        spec_parse_fetch_header(data, 0, previous) == Ok::<(ObjectHeader, int), ErrorView>(
            (ObjectHeader { object_payload_length: Some(payload.len() as u64), ..h }, data.len() - payload.len()),
        ),
{
    let pp = previous->Some_0;
    lemma_fetch_tail_read(h, extensions, payload, f, data, hb.len() as int);
    if f & FETCH_HAS_OBJECT_ID == 0 {
        assert(next_object_id(pp.object_id) == h.object_id);
    }
    assert(head.take(0) =~= Seq::<u64>::empty());
    assert(head.take(head.len() as int) =~= head);
    let k: int = if f & FETCH_HAS_GROUP_ID != 0 { 1 } else { 0 };
    assert(head[0] == f);
    crate::serde::lemma_var_chain_read_at(head, data, 0, 0);
    if f & FETCH_HAS_GROUP_ID != 0 {
        assert(head[1] == h.group_id);
        crate::serde::lemma_var_chain_read_at(head, data, 0, 1);
    }
    if f & FETCH_HAS_OBJECT_ID != 0 {
        assert(head[k + 1] == h.object_id);
        crate::serde::lemma_var_chain_read_at(head, data, 0, k + 1);
    }
}

#[verifier::spinoff_prover]
#[verifier::rlimit(50)]
proof fn lemma_fetch_first_roundtrip(
    h: ObjectHeader,
    previous: Option<ObjectHeader>,
    extensions: Seq<u8>,
    payload: Seq<u8>,
)
    requires
        crate::message::message_framer::spec_fetch_object_wire(h, previous, extensions, payload) is Ok,
        h.object_forwarding_preference == ObjectForwardingPreference::Track,
        h.subscribe_id == h.track_alias,
        payload.len() > 0,
        payload.len() <= usize::MAX,
        extensions.len() <= usize::MAX,
        previous matches Some(p) ==> p.subscribe_id == h.subscribe_id,
        previous is None,
    ensures
        ({
            let data = crate::message::message_framer::spec_fetch_object_wire(h, previous, extensions, payload)->Ok_0;
            spec_parse_fetch_header(data, 0, previous) == Ok::<(ObjectHeader, int), ErrorView>(
                (
                    ObjectHeader { object_payload_length: Some(payload.len() as u64), ..h },
                    data.len() - payload.len(),
                ),
            )
        }),
{
    lemma_fetch_flag_bits(true, true, true, extensions.len() > 0);
    lemma_fetch_object_bytes(h, previous, extensions, payload);
    let has_ext = extensions.len() > 0;
    let f = crate::message::message_framer::fetch_flags(h, previous, has_ext);
    let head = crate::message::message_framer::fetch_head(h, previous, f);
    let hb = crate::serde::var_chain(head)->Ok_0;
    let data = crate::message::message_framer::spec_fetch_object_wire(h, previous, extensions, payload)->Ok_0;
    let rest = (if f & FETCH_HAS_PRIORITY != 0 {
        seq![h.object_send_order as u8]
    } else {
        Seq::<u8>::empty()
    }) + (if f & FETCH_HAS_EXTENSIONS != 0 {
        crate::serde::varint::spec_var_int(extensions.len() as u64)->Ok_0 + extensions
    } else {
        Seq::<u8>::empty()
    }) + (crate::serde::varint::spec_var_int(payload.len() as u64)->Ok_0 + payload);
    assert(data == hb + rest);
    assert(data.subrange(0, hb.len() as int) =~= hb);
    assert(data.subrange(hb.len() as int, data.len() as int) =~= rest);
    assert(head =~= seq![FETCH_STREAM_TYPE, h.subscribe_id, f, h.group_id, h.object_id]);
    lemma_fetch_first_read(h, previous, f, head, hb, data, extensions, payload);
}

#[verifier::spinoff_prover]
proof fn lemma_fetch_later_roundtrip(
    h: ObjectHeader,
    previous: Option<ObjectHeader>,
    extensions: Seq<u8>,
    payload: Seq<u8>,
)
    requires
        crate::message::message_framer::spec_fetch_object_wire(h, previous, extensions, payload) is Ok,
        h.object_forwarding_preference == ObjectForwardingPreference::Track,
        h.subscribe_id == h.track_alias,
        payload.len() > 0,
        payload.len() <= usize::MAX,
        extensions.len() <= usize::MAX,
        previous matches Some(p) ==> p.subscribe_id == h.subscribe_id,
        previous is Some,
    ensures
        ({
            let data = crate::message::message_framer::spec_fetch_object_wire(h, previous, extensions, payload)->Ok_0;
            spec_parse_fetch_header(data, 0, previous) == Ok::<(ObjectHeader, int), ErrorView>(
                (
                    ObjectHeader { object_payload_length: Some(payload.len() as u64), ..h },
                    data.len() - payload.len(),
                ),
            )
        }),
{
    let pp = previous->Some_0;
    lemma_fetch_flag_bits(
        h.group_id != pp.group_id,
        h.object_id != pp.object_id + 1,
        h.object_send_order != pp.object_send_order,
        extensions.len() > 0,
    );
    lemma_fetch_object_bytes(h, previous, extensions, payload);
    let has_ext = extensions.len() > 0;
    let f = crate::message::message_framer::fetch_flags(h, previous, has_ext);
    let head = crate::message::message_framer::fetch_head(h, previous, f);
    let hb = crate::serde::var_chain(head)->Ok_0;
    let data = crate::message::message_framer::spec_fetch_object_wire(h, previous, extensions, payload)->Ok_0;
    let rest = (if f & FETCH_HAS_PRIORITY != 0 {
        seq![h.object_send_order as u8]
    } else {
        Seq::<u8>::empty()
    }) + (if f & FETCH_HAS_EXTENSIONS != 0 {
        crate::serde::varint::spec_var_int(extensions.len() as u64)->Ok_0 + extensions
    } else {
        Seq::<u8>::empty()
    }) + (crate::serde::varint::spec_var_int(payload.len() as u64)->Ok_0 + payload);
    assert(data == hb + rest);
    assert(data.subrange(0, hb.len() as int) =~= hb);
    assert(data.subrange(hb.len() as int, data.len() as int) =~= rest);
    lemma_fetch_later_read(h, previous, f, head, hb, data, extensions, payload);
}

/// A fetch object written after `previous` (none for the first object of the
/// stream) is read back, given the same previous object, as the same header
/// with its payload length, ending where its payload starts: what the
/// framer leaves out because it follows from the previous object, the parser
/// takes from it.
pub proof fn lemma_fetch_object_roundtrip(
    h: ObjectHeader,
    previous: Option<ObjectHeader>,
    extensions: Seq<u8>,
    payload: Seq<u8>,
)
    requires
        crate::message::message_framer::spec_fetch_object_wire(h, previous, extensions, payload) is Ok,
        h.object_forwarding_preference == ObjectForwardingPreference::Track,
        h.subscribe_id == h.track_alias,
        payload.len() > 0,
        payload.len() <= usize::MAX,
        extensions.len() <= usize::MAX,
        previous matches Some(p) ==> p.subscribe_id == h.subscribe_id,
    ensures
        ({
            let data = crate::message::message_framer::spec_fetch_object_wire(h, previous, extensions, payload)->Ok_0;
            spec_parse_fetch_header(data, 0, previous) == Ok::<(ObjectHeader, int), ErrorView>(
                (
                    ObjectHeader { object_payload_length: Some(payload.len() as u64), ..h },
                    data.len() - payload.len(),
                ),
            )
        }),
{
    if previous is None {
        lemma_fetch_first_roundtrip(h, previous, extensions, payload);
    } else {
        lemma_fetch_later_roundtrip(h, previous, extensions, payload);
    }
}

/// Data that comes after the end of a stream is ignored: the parser keeps
/// its state, and only reports that data came after the end, where it has
/// reported no error before.
pub proof fn lemma_data_after_end_ignored(st: ParserView, data: Seq<u8>, fin: bool)
    requires
        st.no_more_data,
    ensures
        st.spec_process_data(data, fin) == if st.parsing_error {
            st
        } else {
            ParserView {
                parsing_error: true,
                events: st.events.push(
                    EventView::ParsingError(ErrorCode::ProtocolViolation, "Data after end of stream"@),
                ),
                ..st
            }
        },
{
    reveal(ParserView::spec_process_data);
}

// ---------------------------------------------------------------------------
// A parser reports at most one parsing error.
/// The number of parsing errors among `es`.
pub open spec fn error_count(es: Seq<EventView>) -> nat
    decreases es.len(),
{
    if es.len() == 0 {
        0
    } else {
        error_count(es.drop_last()) + if es.last() is ParsingError {
            1nat
        } else {
            0nat
        }
    }
}

/// From `a` to `b` the parser only adds events, never clears its error, and
/// adds a parsing error exactly when it goes into error.
pub open spec fn error_step(a: ParserView, b: ParserView) -> bool {
    &&& a.events.len() <= b.events.len()
    &&& b.events.subrange(0, a.events.len() as int) == a.events
    &&& (a.parsing_error ==> b.parsing_error)
    &&& error_count(b.events) == error_count(a.events) + if !a.parsing_error && b.parsing_error {
        1nat
    } else {
        0nat
    }
}

proof fn lemma_error_count_push(es: Seq<EventView>, e: EventView)
    ensures
        error_count(es.push(e)) == error_count(es) + if e is ParsingError {
            1nat
        } else {
            0nat
        },
{
    assert(es.push(e).drop_last() =~= es);
}

proof fn lemma_error_step_same(a: ParserView, b: ParserView)
    requires
        b.events == a.events,
        b.parsing_error == a.parsing_error,
    ensures
        error_step(a, b),
{
    assert(b.events.subrange(0, a.events.len() as int) =~= a.events);
}

proof fn lemma_error_step_push(a: ParserView, b: ParserView, e: EventView)
    requires
        b.events == a.events.push(e),
        b.parsing_error == a.parsing_error,
        !(e is ParsingError),
    ensures
        error_step(a, b),
{
    assert(b.events.subrange(0, a.events.len() as int) =~= a.events);
    lemma_error_count_push(a.events, e);
}

proof fn lemma_error_step_trans(a: ParserView, b: ParserView, c: ParserView)
    requires
        error_step(a, b),
        error_step(b, c),
    ensures
        error_step(a, c),
{
    assert(c.events.subrange(0, a.events.len() as int) =~= b.events.subrange(
        0,
        a.events.len() as int,
    )) by {
        assert forall|i: int| 0 <= i < a.events.len() implies c.events[i] == b.events[i] by {
            assert(c.events.subrange(0, b.events.len() as int)[i] == c.events[i]);
        }
    }
}

proof fn lemma_parse_error_step(a: ParserView, code: ErrorCode, reason: Seq<char>)
    ensures
        error_step(a, a.parse_error(code, reason)),
        a.parse_error(code, reason).parsing_error,
{
    if a.parsing_error {
        lemma_error_step_same(a, a);
    } else {
        let b = a.parse_error(code, reason);
        assert(b.events.subrange(0, a.events.len() as int) =~= a.events);
        lemma_error_count_push(a.events, EventView::ParsingError(code, reason));
    }
}

proof fn lemma_report_step(a: ParserView, e: ErrorView)
    ensures
        error_step(a, a.report(e)),
{
    match e {
        ErrorView::ErrParseError(code, reason) => lemma_parse_error_step(a, code, reason),
        _ => lemma_error_step_same(a, a),
    }
}

proof fn lemma_report_with_step(a: ParserView, b: ParserView, e: ErrorView)
    requires
        b.events == a.events,
        b.parsing_error == a.parsing_error,
    ensures
        error_step(a, b.report(e)),
{
    lemma_error_step_same(a, b);
    lemma_report_step(b, e);
    lemma_error_step_trans(a, b, b.report(e));
}

proof fn lemma_process_object_step(a: ParserView, t: MessageType, fin: bool)
    ensures
        error_step(a, a.spec_process_object(t, fin).0),
{
    reveal(ParserView::spec_process_object);
    let (st1, ok, processed) = a.spec_object_header_stage(t);
    if !a.initialized() {
        match spec_parse_object_header(a.buffered, 0) {
            Ok(_) => lemma_error_step_same(a, st1),
            Err(e) => lemma_report_step(a, e),
        }
    } else {
        lemma_error_step_same(a, st1);
    }
    if ok {
        let s = st1.buffered.subrange(processed, st1.buffered.len() as int);
        let (h1, fields) = spec_payload_fields(st1.object_metadata, s, t);
        let b = ParserView { object_metadata: h1, ..st1 };
        match fields {
            Ok(p) => match spec_payload_rest(h1, s, p, t, fin) {
                Ok((ev, remaining, used)) => {
                    let c = st1.spec_object_payload_stage(processed, t, fin).0;
                    match ev {
                        Some(e) => {
                            assert(e is ObjectMessage);
                            lemma_error_step_push(st1, c, e);
                        },
                        None => lemma_error_step_same(st1, c),
                    }
                },
                Err(e) => lemma_report_with_step(st1, b, e),
            },
            Err(e) => lemma_report_with_step(st1, b, e),
        }
        lemma_error_step_trans(a, st1, st1.spec_object_payload_stage(processed, t, fin).0);
    }
}

proof fn lemma_process_fetch_object_step(a: ParserView, fin: bool)
    ensures
        error_step(a, a.spec_process_fetch_object(fin).0),
{
    reveal(ParserView::spec_process_fetch_object);
    match spec_parse_fetch_header(a.buffered, 0, a.object_metadata) {
        Ok((h, hl)) => {
            let st1 = ParserView {
                object_metadata: Some(h),
                object_stream_kind: Some(ObjectStreamKind::Fetch),
                ..a
            };
            lemma_error_step_same(a, st1);
            let b = a.spec_process_fetch_object(fin).0;
            let payload_length: usize = match h.object_payload_length {
                Some(l) => l as usize,
                None => 0,
            };
            let available: int = if a.buffered.len() >= hl {
                a.buffered.len() - hl
            } else {
                0
            };
            if fin && payload_length > available {
                lemma_parse_error_step(st1, ErrorCode::ProtocolViolation, "Received FIN mid-payload"@);
            } else {
                let draw: int = if payload_length <= available {
                    payload_length as int
                } else {
                    available
                };
                lemma_error_step_push(
                    st1,
                    b,
                    EventView::ObjectMessage(h, a.buffered.subrange(hl, hl + draw), payload_length <= available),
                );
            }
            lemma_error_step_trans(a, st1, b);
        },
        Err(e) => lemma_report_step(a, e),
    }
}

proof fn lemma_process_control_step(a: ParserView)
    ensures
        error_step(a, a.spec_process_control().0),
{
    reveal(ParserView::spec_process_control);
    let b = a.spec_process_control().0;
    match ControlMessage::spec_parse(a.buffered, 0) {
        Ok((cm, len)) => match cm {
            ControlMessageView::ClientSetup(cs) => if a.uses_web_transport && cs.path is Some {
                lemma_parse_error_step(
                    a,
                    ErrorCode::ProtocolViolation,
                    "WebTransport connection is using PATH parameter in SETUP"@,
                );
            } else if !a.uses_web_transport && cs.path is None {
                lemma_parse_error_step(
                    a,
                    ErrorCode::ProtocolViolation,
                    "PATH SETUP parameter missing from Client message over QUIC"@,
                );
            } else {
                lemma_error_step_push(a, b, b.events.last());
                assert(b.events == a.events.push(b.events.last()));
            },
            _ => {
                lemma_error_step_push(a, b, EventView::ControlMessage(cm));
            },
        },
        Err(e) => lemma_report_step(a, e),
    }
}

proof fn lemma_process_message_step(a: ParserView, fin: bool)
    ensures
        error_step(a, a.spec_process_message(fin).0),
{
    reveal(ParserView::spec_process_message);
    if a.initialized() && !a.payload_in_progress() {
        match a.object_stream_kind {
            Some(ObjectStreamKind::Legacy(t)) => lemma_process_object_step(a, t, fin),
            _ => lemma_process_fetch_object_step(a, fin),
        }
    } else if a.starts_fetch() {
        lemma_process_fetch_object_step(a, fin);
    } else {
        match MessageType::spec_parse(a.buffered, 0) {
            Ok((t, _)) => if t == MessageType::ObjectDatagram {
                lemma_parse_error_step(a, ErrorCode::ProtocolViolation, "Received OBJECT_DATAGRAM on strea"@);
            } else if t == MessageType::ObjectStream || t == MessageType::StreamHeaderTrack || t
                == MessageType::StreamHeaderGroup {
                lemma_process_object_step(a, t, fin);
            } else {
                lemma_process_control_step(a);
            },
            Err(e) => lemma_report_step(a, e),
        }
    }
}

proof fn lemma_drain_step(a: ParserView, fin: bool)
    ensures
        error_step(a, a.spec_drain(fin)),
    decreases a.buffered.len(),
{
    reveal(ParserView::spec_drain);
    if a.buffered.len() == 0 {
        lemma_error_step_same(a, a);
    } else {
        let (st2, len) = a.spec_process_message(fin);
        lemma_process_message_step(a, fin);
        if len == 0 {
            if st2.buffered.len() > MAX_MESSSAGE_HEADER_SIZE {
                lemma_parse_error_step(st2, ErrorCode::InternalError, "Cannot parse non-OBJECT messages > 2KB"@);
                lemma_error_step_trans(a, st2, a.spec_drain(fin));
            } else if fin {
                lemma_parse_error_step(st2, ErrorCode::ProtocolViolation, "FIN after incomplete message"@);
                lemma_error_step_trans(a, st2, a.spec_drain(fin));
            }
        } else if 0 < len <= st2.buffered.len() && st2.buffered.len() == a.buffered.len() {
            let st3 = ParserView { buffered: st2.buffered.subrange(len, st2.buffered.len() as int), ..st2 };
            lemma_error_step_same(st2, st3);
            lemma_drain_step(st3, fin);
            lemma_error_step_trans(a, st2, st3);
            lemma_error_step_trans(a, st3, a.spec_drain(fin));
        }
    }
}

/// Handing a parser more data only adds events, never clears its error, and
/// adds a parsing error only when the parser goes into error: once a
/// parser has reported a parsing error it reports no other.
pub proof fn lemma_process_data_error_step(a: ParserView, data: Seq<u8>, fin: bool)
    ensures
        error_step(a, a.spec_process_data(data, fin)),
{
    reveal(ParserView::spec_process_data);
    let b = a.spec_process_data(data, fin);
    if a.no_more_data {
        lemma_parse_error_step(a, ErrorCode::ProtocolViolation, "Data after end of stream"@);
    } else if fin && a.payload_in_progress() && a.payload_length_remaining > data.len() {
        let a1 = ParserView { no_more_data: true, ..a };
        lemma_error_step_same(a, a1);
        lemma_parse_error_step(a1, ErrorCode::ProtocolViolation, "End of stream before complete OBJECT PAYLOAD"@);
        lemma_error_step_trans(a, a1, b);
    } else if fin && a.buffered.len() > 0 && data.len() == 0 {
        let a1 = ParserView { no_more_data: true, ..a };
        lemma_error_step_same(a, a1);
        lemma_parse_error_step(a1, ErrorCode::ProtocolViolation, "End of stream before complete message"@);
        lemma_error_step_trans(a, a1, b);
    } else {
        let st1 = ParserView { no_more_data: a.no_more_data || fin, buffered: a.buffered + data, ..a };
        lemma_error_step_same(a, st1);
        if st1.payload_in_progress() {
            match st1.object_metadata {
                Some(m) => if m.object_payload_length is None {
                    lemma_error_step_push(st1, b, EventView::ObjectMessage(m, st1.buffered, fin));
                    lemma_error_step_trans(a, st1, b);
                } else if st1.buffered.len() < st1.payload_length_remaining {
                    lemma_error_step_push(st1, b, EventView::ObjectMessage(m, st1.buffered, false));
                    lemma_error_step_trans(a, st1, b);
                } else {
                    let r = st1.payload_length_remaining as int;
                    let st2 = ParserView {
                        events: st1.events.push(EventView::ObjectMessage(m, st1.buffered.subrange(0, r), true)),
                        buffered: st1.buffered.subrange(r, st1.buffered.len() as int),
                        payload_length_remaining: 0,
                        ..st1
                    };
                    lemma_error_step_push(st1, st2, EventView::ObjectMessage(m, st1.buffered.subrange(0, r), true));
                    lemma_drain_step(st2, fin);
                    lemma_error_step_trans(st1, st2, b);
                    lemma_error_step_trans(a, st1, b);
                },
                None => {
                    lemma_drain_step(st1, fin);
                    lemma_error_step_trans(a, st1, b);
                },
            }
        } else {
            lemma_drain_step(st1, fin);
            lemma_error_step_trans(a, st1, b);
        }
    }
}

/// The parser after each of `calls` in turn.
pub open spec fn process_all(st: ParserView, calls: Seq<(Seq<u8>, bool)>) -> ParserView
    decreases calls.len(),
{
    if calls.len() == 0 {
        st
    } else {
        process_all(st, calls.drop_last()).spec_process_data(calls.last().0, calls.last().1)
    }
}

/// Over any sequence of calls, a parser reports at most one parsing error:
/// a new parser ends with at most one among all the events it produced.
pub proof fn lemma_at_most_one_error(uses_web_transport: bool, allow_fetch_streams: bool, calls: Seq<(Seq<u8>, bool)>)
    ensures
        error_count(process_all(fresh_parser(uses_web_transport, allow_fetch_streams), calls).events) <= 1,
        error_step(fresh_parser(uses_web_transport, allow_fetch_streams), process_all(fresh_parser(uses_web_transport, allow_fetch_streams), calls)),
    decreases calls.len(),
{
    let st = fresh_parser(uses_web_transport, allow_fetch_streams);
    if calls.len() == 0 {
        lemma_error_step_same(st, st);
    } else {
        lemma_at_most_one_error(uses_web_transport, allow_fetch_streams, calls.drop_last());
        let mid = process_all(st, calls.drop_last());
        lemma_process_data_error_step(mid, calls.last().0, calls.last().1);
        lemma_error_step_trans(st, mid, process_all(st, calls));
    }
}

/// The payload of an object of known length that arrives in two pieces is
/// delivered in the same two pieces, the second one completing the object:
/// together they are the bytes received.
pub proof fn lemma_payload_in_pieces(st: ParserView, d1: Seq<u8>, d2: Seq<u8>)
    requires
        st.payload_in_progress(),
        st.object_metadata matches Some(m) && m.object_payload_length is Some,
        st.buffered.len() == 0,
        !st.no_more_data,
        0 < d1.len() < st.payload_length_remaining,
        d1.len() + d2.len() == st.payload_length_remaining,
    ensures
        ({
            let m = st.object_metadata->Some_0;
            let s2 = st.spec_process_data(d1, false).spec_process_data(d2, false);
            &&& s2.events == st.events.push(EventView::ObjectMessage(m, d1, false)).push(
                EventView::ObjectMessage(m, d2, true),
            )
            &&& s2.payload_length_remaining == 0
            &&& s2.buffered.len() == 0
            &&& s2.parsing_error == st.parsing_error
        }),
{
    reveal(ParserView::spec_process_data);
    reveal(ParserView::spec_drain);
    let m = st.object_metadata->Some_0;
    assert(st.buffered + d1 =~= d1);
    let s1 = st.spec_process_data(d1, false);
    assert(s1.buffered.len() == 0);
    assert(s1.payload_length_remaining == st.payload_length_remaining - d1.len());
    assert(s1.buffered + d2 =~= d2);
    assert(d2.subrange(0, d2.len() as int) =~= d2);
    let r = s1.payload_length_remaining as int;
    let s3 = ParserView {
        events: s1.events.push(EventView::ObjectMessage(m, d2.subrange(0, r), true)),
        buffered: d2.subrange(r, d2.len() as int),
        payload_length_remaining: 0,
        no_more_data: false,
        ..s1
    };
    assert(s3.buffered.len() == 0);
    assert(s3.spec_drain(false) == s3);
}

} // verus!
