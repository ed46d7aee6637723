//! Writing control messages and objects onto streams and datagrams.
use crate::error::{Error, ErrorView};
use crate::message::object::{ObjectForwardingPreference, ObjectHeader, ObjectStatus};
use crate::message::ControlMessage;
use crate::serde::varint::{spec_var_int, write_var_usize};
use crate::serde::{
    append_bytes, lemma_first_step, lemma_then_step, lemma_vec_len, slice_len, then, var_chain,
    write_var_chain, wrote,
};
use crate::text::text;
use vstd::prelude::*;

verus! {

/// The stream type that opens a fetch stream.
pub const FETCH_STREAM_TYPE: u64 = 0x05;

/// Flags of a fetch object: which fields follow.
pub const FETCH_HAS_OBJECT_ID: u64 = 0x04;

pub const FETCH_HAS_GROUP_ID: u64 = 0x08;

pub const FETCH_HAS_PRIORITY: u64 = 0x10;

pub const FETCH_HAS_EXTENSIONS: u64 = 0x20;

pub const FETCH_IS_DATAGRAM_LIKE: u64 = 0x40;

/// An object that cannot be written, with the reason.
pub open spec fn invalid_object(reason: &str) -> ErrorView {
    ErrorView::ErrInvalidObjectType(reason@)
}

/// The length of the payload, 0 where it is not known.
pub open spec fn payload_len(h: ObjectHeader) -> u64 {
    match h.object_payload_length {
        Some(l) => l,
        None => 0,
    }
}

/// The status of an object whose payload is empty, written after its
/// length; nothing where the payload is not empty.
pub open spec fn status_tail(h: ObjectHeader) -> Seq<u64> {
    if payload_len(h) == 0 {
        seq![h.object_status.code()]
    } else {
        Seq::empty()
    }
}

/// The numbers written for an object header: on the first object of a
/// stream, its message type and the fields that the type carries; on a
/// later object of a track or group stream, only what changes from object to
/// object. Refused: an unknown length on a track or group stream, a payload
/// with a status other than normal, and an object or datagram header after
/// the first object of a stream.
pub open spec fn object_header_fields(h: ObjectHeader, first: bool) -> Result<Seq<u64>, ErrorView> {
    let pref = h.object_forwarding_preference;
    let len = payload_len(h);
    if h.object_payload_length is None && !(pref == ObjectForwardingPreference::Object || pref
        == ObjectForwardingPreference::Datagram) {
        Err(
            invalid_object(
                "Track or Group forwarding preference requires knowing the object length in advance",
            ),
        )
    } else if h.object_status != ObjectStatus::Normal && len > 0 {
        Err(invalid_object("Object status must be kNormal if payload is non-empty"))
    } else if !first {
        match pref {
            ObjectForwardingPreference::Track => Ok(
                seq![h.group_id, h.object_id, len] + status_tail(h),
            ),
            ObjectForwardingPreference::Group => Ok(seq![h.object_id, len] + status_tail(h)),
            _ => Err(invalid_object("Object or Datagram forwarding_preference must be first in stream")),
        }
    } else {
        let t = pref.message_type().code();
        match pref {
            ObjectForwardingPreference::Track => Ok(
                seq![t, h.subscribe_id, h.track_alias, h.object_send_order, h.group_id, h.object_id, len]
                    + status_tail(h),
            ),
            ObjectForwardingPreference::Group => Ok(
                seq![t, h.subscribe_id, h.track_alias, h.group_id, h.object_send_order, h.object_id, len]
                    + status_tail(h),
            ),
            _ => Ok(
                seq![
                    t,
                    h.subscribe_id,
                    h.track_alias,
                    h.group_id,
                    h.object_id,
                    h.object_send_order,
                    h.object_status.code(),
                ],
            ),
        }
    }
}

/// What writing an object header appends.
pub open spec fn spec_object_header_wire(h: ObjectHeader, first: bool) -> Result<Seq<u8>, ErrorView> {
    match object_header_fields(h, first) {
        Ok(vs) => var_chain(vs),
        Err(e) => Err(e),
    }
}

/// What writing an object appends: its header, with the payload's length,
/// then the payload.
pub open spec fn spec_object_wire(h: ObjectHeader, first: bool, payload: Seq<u8>) -> Result<
    Seq<u8>,
    ErrorView,
> {
    then(
        spec_object_header_wire(
            ObjectHeader { object_payload_length: Some(payload.len() as u64), ..h },
            first,
        ),
        Ok(payload),
    )
}

/// What writing an object as a datagram appends: its type and fields, then
/// the payload; a payload with a status other than normal is refused.
pub open spec fn spec_datagram_wire(h: ObjectHeader, payload: Seq<u8>) -> Result<Seq<u8>, ErrorView> {
    if h.object_status != ObjectStatus::Normal && payload.len() > 0 {
        Err(invalid_object("Object status must be kNormal if payload is non-empty"))
    } else {
        then(
            var_chain(
                seq![
                    0x1,
                    h.subscribe_id,
                    h.track_alias,
                    h.group_id,
                    h.object_id,
                    h.object_send_order,
                    h.object_status.code(),
                ],
            ),
            Ok(payload),
        )
    }
}

/// A datagram without payload ends with the wire code of its status: 0 for
/// normal, 1 where the object does not exist, 2 where the group does not,
/// 3 at the end of a group, 4 at the end of the track.
pub proof fn lemma_datagram_ends_with_status(h: ObjectHeader)
    requires
        spec_datagram_wire(h, Seq::empty()) is Ok,
    ensures
        ({
            let b = spec_datagram_wire(h, Seq::empty())->Ok_0;
            &&& b.len() > 0
            &&& h.object_status == ObjectStatus::Normal ==> b.last() == 0
            &&& h.object_status == ObjectStatus::ObjectDoesNotExist ==> b.last() == 1
            &&& h.object_status == ObjectStatus::GroupDoesNotExist ==> b.last() == 2
            &&& h.object_status == ObjectStatus::EndOfGroup ==> b.last() == 3
            &&& h.object_status == ObjectStatus::EndOfTrack ==> b.last() == 4
        }),
{
    let vs = seq![
        0x1,
        h.subscribe_id,
        h.track_alias,
        h.group_id,
        h.object_id,
        h.object_send_order,
        h.object_status.code(),
    ];
    let code = h.object_status.code();
    assert(vs.last() == code);
    assert(code < 0x40);
    assert(spec_var_int(code) == Ok::<Seq<u8>, ErrorView>(seq![code as u8]));
    assert(var_chain(vs) == then(var_chain(vs.drop_last()), spec_var_int(vs.last())));
    let front = var_chain(vs.drop_last())->Ok_0;
    assert(var_chain(vs)->Ok_0 == front + seq![code as u8]);
    let b = spec_datagram_wire(h, Seq::empty())->Ok_0;
    assert(b == var_chain(vs)->Ok_0 + Seq::<u8>::empty());
    assert(b =~= front + seq![code as u8]);
}

/// The flags of a fetch object: every field on the first object of a
/// stream; afterwards, the group where it changes, the object id where it
/// does not follow the previous one, and the priority where it changes; and
/// the extensions where there are any.
pub open spec fn fetch_flags(h: ObjectHeader, previous: Option<ObjectHeader>, has_extensions: bool) -> u64 {
    let fields: u64 = match previous {
        Some(p) => ((if h.group_id != p.group_id {
            FETCH_HAS_GROUP_ID
        } else {
            0
        }) + (if h.object_id != p.object_id + 1 {
            FETCH_HAS_OBJECT_ID
        } else {
            0
        }) + (if h.object_send_order != p.object_send_order {
            FETCH_HAS_PRIORITY
        } else {
            0
        })) as u64,
        None => (FETCH_HAS_GROUP_ID + FETCH_HAS_OBJECT_ID + FETCH_HAS_PRIORITY) as u64,
    };
    (FETCH_IS_DATAGRAM_LIKE + fields + if has_extensions {
        FETCH_HAS_EXTENSIONS
    } else {
        0
    }) as u64
}

/// The numbers that open a fetch object: the stream type and request on
/// the first object, the flags, and the group and object ids that the flags
/// announce.
pub open spec fn fetch_head(h: ObjectHeader, previous: Option<ObjectHeader>, flags: u64) -> Seq<u64> {
    (if previous is None {
        seq![FETCH_STREAM_TYPE, h.subscribe_id]
    } else {
        Seq::empty()
    }) + seq![flags] + (if flags & FETCH_HAS_GROUP_ID != 0 {
        seq![h.group_id]
    } else {
        Seq::empty()
    }) + (if flags & FETCH_HAS_OBJECT_ID != 0 {
        seq![h.object_id]
    } else {
        Seq::empty()
    })
}

/// What writing a fetch object appends: its head, the priority byte, the
/// extensions with their length, and the payload with its length. Only
/// normal objects with a priority that fits in a byte can be written.
pub open spec fn spec_fetch_object_wire(
    h: ObjectHeader,
    previous: Option<ObjectHeader>,
    extensions: Seq<u8>,
    payload: Seq<u8>,
) -> Result<Seq<u8>, ErrorView> {
    if h.object_status != ObjectStatus::Normal {
        Err(invalid_object("fetch stream objects only support normal status"))
    } else if h.object_send_order > 255 {
        Err(invalid_object("fetch stream priority must fit in one byte"))
    } else {
        let flags = fetch_flags(h, previous, extensions.len() > 0);
        then(
            then(
                then(
                    var_chain(fetch_head(h, previous, flags)),
                    Ok(
                        if flags & FETCH_HAS_PRIORITY != 0 {
                            seq![h.object_send_order as u8]
                        } else {
                            Seq::empty()
                        },
                    ),
                ),
                if flags & FETCH_HAS_EXTENSIONS != 0 {
                    then(spec_var_int(extensions.len() as u64), Ok(extensions))
                } else {
                    Ok(Seq::empty())
                },
            ),
            then(spec_var_int(payload.len() as u64), Ok(payload)),
        )
    }
}

/// Writes control messages and objects.
pub struct MessageFramer;

impl MessageFramer {
    pub fn serialize_control_message(control_message: ControlMessage, w: &mut Vec<u8>) -> (res:
        Result<usize, Error>)
        ensures
            wrote(old(w)@, final(w)@, res, ControlMessage::spec_wire(control_message@)),
    {
        control_message.write(w)
    }

    fn push_status_tail(h: &ObjectHeader, len: u64, fields: &mut Vec<u64>)
        requires
            len == payload_len(*h),
        ensures
            final(fields)@ == old(fields)@ + status_tail(*h),
    {
        if len == 0 {
            fields.push(h.object_status.value());
        } else {
            assert(old(fields)@ + status_tail(*h) =~= old(fields)@);
        }
    }

    /// The numbers of an object header, or why it cannot be written.
    fn object_header_fields(h: &ObjectHeader, is_first_in_stream: bool) -> (res: Result<Vec<u64>, Error>)
        ensures
            match object_header_fields(*h, is_first_in_stream) {
                Ok(vs) => res matches Ok(v) && v@ == vs,
                Err(e) => res matches Err(x) && x@ == e,
            },
    {
        let pref = h.object_forwarding_preference;
        if h.object_payload_length.is_none() && !(pref == ObjectForwardingPreference::Object || pref
            == ObjectForwardingPreference::Datagram) {
            return Err(
                Error::ErrInvalidObjectType(
                    text(
                        "Track or Group forwarding preference requires knowing the object length in advance",
                    ),
                ),
            );
        }
        let len = match h.object_payload_length {
            Some(l) => l,
            None => 0,
        };
        if h.object_status != ObjectStatus::Normal && len > 0 {
            return Err(
                Error::ErrInvalidObjectType(
                    text("Object status must be kNormal if payload is non-empty"),
                ),
            );
        }
        let mut fields: Vec<u64> = Vec::new();
        if !is_first_in_stream {
            match pref {
                ObjectForwardingPreference::Track => {
                    fields.push(h.group_id);
                    fields.push(h.object_id);
                    fields.push(len);
                    MessageFramer::push_status_tail(h, len, &mut fields);
                },
                ObjectForwardingPreference::Group => {
                    fields.push(h.object_id);
                    fields.push(len);
                    MessageFramer::push_status_tail(h, len, &mut fields);
                },
                _ => {
                    return Err(
                        Error::ErrInvalidObjectType(
                            text("Object or Datagram forwarding_preference must be first in stream"),
                        ),
                    );
                },
            }
        } else {
            let t = pref.get_message_type().value();
            fields.push(t);
            fields.push(h.subscribe_id);
            fields.push(h.track_alias);
            match pref {
                ObjectForwardingPreference::Track => {
                    fields.push(h.object_send_order);
                    fields.push(h.group_id);
                    fields.push(h.object_id);
                    fields.push(len);
                    MessageFramer::push_status_tail(h, len, &mut fields);
                },
                ObjectForwardingPreference::Group => {
                    fields.push(h.group_id);
                    fields.push(h.object_send_order);
                    fields.push(h.object_id);
                    fields.push(len);
                    MessageFramer::push_status_tail(h, len, &mut fields);
                },
                _ => {
                    fields.push(h.group_id);
                    fields.push(h.object_id);
                    fields.push(h.object_send_order);
                    fields.push(h.object_status.value());
                },
            }
        }
        proof {
            assert(fields@ =~= object_header_fields(*h, is_first_in_stream)->Ok_0);
        }
        Ok(fields)
    }

    pub fn serialize_object_header(
        object_header: ObjectHeader,
        is_first_in_stream: bool,
        w: &mut Vec<u8>,
    ) -> (res: Result<usize, Error>)
        ensures
            wrote(old(w)@, final(w)@, res, spec_object_header_wire(object_header, is_first_in_stream)),
            object_header_fields(object_header, is_first_in_stream) is Err ==> final(w)@ == old(w)@,
    {
        match MessageFramer::object_header_fields(&object_header, is_first_in_stream) {
            Ok(fields) => write_var_chain(&fields, w),
            Err(e) => {
                proof {
                    assert(crate::serde::extends(old(w)@, w@));
                }
                Err(e)
            },
        }
    }

    pub fn serialize_object(
        object_header: ObjectHeader,
        is_first_in_stream: bool,
        payload: &[u8],
        w: &mut Vec<u8>,
    ) -> (res: Result<usize, Error>)
        ensures
            wrote(old(w)@, final(w)@, res, spec_object_wire(object_header, is_first_in_stream, payload@)),
            object_header_fields(
                ObjectHeader { object_payload_length: Some(payload@.len() as u64), ..object_header },
                is_first_in_stream,
            ) is Err ==> final(w)@ == old(w)@,
    {
        let len = slice_len(payload);
        let adjusted = ObjectHeader { object_payload_length: Some(len as u64), ..object_header };
        let ghost old_w = w@;
        let r = MessageFramer::serialize_object_header(adjusted, is_first_in_stream, w);
        proof {
            lemma_first_step(old_w, w@, r, spec_object_header_wire(adjusted, is_first_in_stream));
        }
        let l = match r {
            Ok(l) => l,
            Err(e) => return Err(e),
        };
        append_bytes(payload, w);
        proof {
            lemma_vec_len(w);
            let b = spec_object_header_wire(adjusted, is_first_in_stream)->Ok_0;
            assert(w@ =~= old_w + (b + payload@));
        }
        Ok(l + len)
    }

    pub fn serialize_fetch_object(
        object_header: ObjectHeader,
        is_first_in_stream: bool,
        extension_headers: &[u8],
        payload: &[u8],
        w: &mut Vec<u8>,
    ) -> (res: Result<usize, Error>)
        requires
            !is_first_in_stream ==> object_header.object_id < u64::MAX,
        ensures
            object_header.object_status != ObjectStatus::Normal || object_header.object_send_order
                > 255 ==> final(w)@ == old(w)@,
            wrote(
                old(w)@,
                final(w)@,
                res,
                spec_fetch_object_wire(
                    object_header,
                    if is_first_in_stream {
                        None
                    } else {
                        Some(object_header)
                    },
                    extension_headers@,
                    payload@,
                ),
            ),
    {
        MessageFramer::serialize_fetch_object_with_previous(
            object_header,
            if is_first_in_stream {
                None
            } else {
                Some(object_header)
            },
            extension_headers,
            payload,
            w,
        )
    }

    /// Appends the length of `data`, then `data`.
    fn write_sized(data: &[u8], w: &mut Vec<u8>) -> (res: Result<usize, Error>)
        ensures
            wrote(
                old(w)@,
                final(w)@,
                res,
                then(spec_var_int(data@.len() as u64), Ok(data@)),
            ),
    {
        let ghost old_w = w@;
        let len = slice_len(data);
        let r = write_var_usize(len, w);
        proof {
            lemma_first_step(old_w, w@, r, spec_var_int(data@.len() as u64));
        }
        let l = match r {
            Ok(l) => l,
            Err(e) => return Err(e),
        };
        append_bytes(data, w);
        proof {
            lemma_vec_len(w);
            let b = spec_var_int(data@.len() as u64)->Ok_0;
            assert(w@ =~= old_w + (b + data@));
        }
        Ok(l + len)
    }

    #[verifier::spinoff_prover]
    #[verifier::rlimit(40)]
    pub fn serialize_fetch_object_with_previous(
        object_header: ObjectHeader,
        previous_object: Option<ObjectHeader>,
        extension_headers: &[u8],
        payload: &[u8],
        w: &mut Vec<u8>,
    ) -> (res: Result<usize, Error>)
        requires
            previous_object matches Some(p) ==> p.object_id < u64::MAX,
        ensures
            object_header.object_status != ObjectStatus::Normal || object_header.object_send_order
                > 255 ==> final(w)@ == old(w)@,
            wrote(
                old(w)@,
                final(w)@,
                res,
                spec_fetch_object_wire(object_header, previous_object, extension_headers@, payload@),
            ),
    {
        let h = object_header;
        if h.object_status != ObjectStatus::Normal {
            return Err(
                Error::ErrInvalidObjectType(text("fetch stream objects only support normal status")),
            );
        }
        if h.object_send_order > 255 {
            return Err(
                Error::ErrInvalidObjectType(text("fetch stream priority must fit in one byte")),
            );
        }
        let ext_len = slice_len(extension_headers);
        let mut flags: u64 = FETCH_IS_DATAGRAM_LIKE;
        match previous_object {
            Some(p) => {
                if h.group_id != p.group_id {
                    flags = flags + FETCH_HAS_GROUP_ID;
                }
                if h.object_id != p.object_id + 1 {
                    flags = flags + FETCH_HAS_OBJECT_ID;
                }
                if h.object_send_order != p.object_send_order {
                    flags = flags + FETCH_HAS_PRIORITY;
                }
            },
            None => {
                flags = flags + FETCH_HAS_GROUP_ID + FETCH_HAS_OBJECT_ID + FETCH_HAS_PRIORITY;
            },
        }
        if ext_len > 0 {
            flags = flags + FETCH_HAS_EXTENSIONS;
        }
        let ghost spec_flags = fetch_flags(h, previous_object, extension_headers@.len() > 0);
        assert(flags == spec_flags);
        let mut head: Vec<u64> = Vec::new();
        if previous_object.is_none() {
            head.push(FETCH_STREAM_TYPE);
            head.push(h.subscribe_id);
        }
        head.push(flags);
        if flags & FETCH_HAS_GROUP_ID != 0 {
            head.push(h.group_id);
        }
        if flags & FETCH_HAS_OBJECT_ID != 0 {
            head.push(h.object_id);
        }
        proof {
            assert(head@ =~= fetch_head(h, previous_object, flags));
        }
        let ghost old_w = w@;
        let r = write_var_chain(&head, w);
        proof {
            lemma_first_step(old_w, w@, r, var_chain(head@));
        }
        let mut total = match r {
            Ok(l) => l,
            Err(e) => return Err(e),
        };
        let ghost mut acc = var_chain(head@)->Ok_0;
        if flags & FETCH_HAS_PRIORITY != 0 {
            w.push(h.object_send_order as u8);
            proof {
                lemma_vec_len(w);
                assert(w@ =~= old_w + (acc + seq![h.object_send_order as u8]));
                acc = acc + seq![h.object_send_order as u8];
            }
            total = total + 1;
        } else {
            proof {
                assert(acc + Seq::<u8>::empty() =~= acc);
            }
        }
        if flags & FETCH_HAS_EXTENSIONS != 0 {
            let r = MessageFramer::write_sized(extension_headers, w);
            proof {
                lemma_then_step(
                    old_w,
                    acc,
                    w@,
                    r,
                    then(spec_var_int(extension_headers@.len() as u64), Ok(extension_headers@)),
                );
                lemma_vec_len(w);
            }
            let l = match r {
                Ok(l) => l,
                Err(e) => return Err(e),
            };
            proof {
                acc = acc + then(
                    spec_var_int(extension_headers@.len() as u64),
                    Ok(extension_headers@),
                )->Ok_0;
            }
            total = total + l;
        } else {
            proof {
                assert(acc + Seq::<u8>::empty() =~= acc);
            }
        }
        let r = MessageFramer::write_sized(payload, w);
        proof {
            lemma_then_step(old_w, acc, w@, r, then(spec_var_int(payload@.len() as u64), Ok(payload@)));
            lemma_vec_len(w);
        }
        let l = match r {
            Ok(l) => l,
            Err(e) => return Err(e),
        };
        total = total + l;
        Ok(total)
    }

    pub fn serialize_object_datagram(object_header: ObjectHeader, payload: &[u8], w: &mut Vec<u8>) -> (res:
        Result<usize, Error>)
        ensures
            wrote(old(w)@, final(w)@, res, spec_datagram_wire(object_header, payload@)),
            object_header.object_status != ObjectStatus::Normal && payload@.len() > 0
                ==> final(w)@ == old(w)@,
    {
        let h = object_header;
        let len = slice_len(payload);
        if h.object_status != ObjectStatus::Normal && len > 0 {
            return Err(
                Error::ErrInvalidObjectType(
                    text("Object status must be kNormal if payload is non-empty"),
                ),
            );
        }
        let mut fields: Vec<u64> = Vec::new();
        fields.push(0x1);
        fields.push(h.subscribe_id);
        fields.push(h.track_alias);
        fields.push(h.group_id);
        fields.push(h.object_id);
        fields.push(h.object_send_order);
        fields.push(h.object_status.value());
        let ghost vs = seq![
            0x1,
            h.subscribe_id,
            h.track_alias,
            h.group_id,
            h.object_id,
            h.object_send_order,
            h.object_status.code(),
        ];
        assert(fields@ =~= vs);
        let ghost old_w = w@;
        let r = write_var_chain(&fields, w);
        proof {
            lemma_first_step(old_w, w@, r, var_chain(vs));
        }
        let l = match r {
            Ok(l) => l,
            Err(e) => return Err(e),
        };
        append_bytes(payload, w);
        proof {
            lemma_vec_len(w);
            let b = var_chain(vs)->Ok_0;
            assert(w@ =~= old_w + (b + payload@));
        }
        Ok(l + len)
    }
}

} // verus!
