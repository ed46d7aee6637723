//! Objects: their metadata and how they are carried.
use crate::error::{Error, ErrorView};
use crate::message::MessageType;
use crate::serde::varint::{read_var_int, spec_read_var_int, spec_var_int, write_var_int};
use crate::serde::{read_outcome, wrote};
use vstd::prelude::*;

pub mod datagram;
pub mod group;
pub mod stream;
pub mod track;

verus! {

/// How the objects of a track are mapped onto streams and datagrams.
#[derive(Default, Debug, Copy, Clone, Eq, PartialEq, Structural)]
pub enum ObjectForwardingPreference {
    #[default]
    Object,
    Datagram,
    Track,
    Group,
}

impl View for ObjectForwardingPreference {
    type V = ObjectForwardingPreference;

    open spec fn view(&self) -> ObjectForwardingPreference {
        *self
    }
}

impl ObjectForwardingPreference {
    /// The message type of the objects sent with this preference.
    pub open spec fn message_type(self) -> MessageType {
        match self {
            ObjectForwardingPreference::Object => MessageType::ObjectStream,
            ObjectForwardingPreference::Datagram => MessageType::ObjectDatagram,
            ObjectForwardingPreference::Track => MessageType::StreamHeaderTrack,
            ObjectForwardingPreference::Group => MessageType::StreamHeaderGroup,
        }
    }

    pub fn get_message_type(&self) -> (t: MessageType)
        ensures
            t == self.message_type(),
    {
        match self {
            ObjectForwardingPreference::Object => MessageType::ObjectStream,
            ObjectForwardingPreference::Datagram => MessageType::ObjectDatagram,
            ObjectForwardingPreference::Track => MessageType::StreamHeaderTrack,
            ObjectForwardingPreference::Group => MessageType::StreamHeaderGroup,
        }
    }
}

/// The status of an object.
#[derive(Default, Debug, Copy, Clone, Eq, PartialEq, Structural)]
pub enum ObjectStatus {
    #[default]
    Normal,
    ObjectDoesNotExist,
    GroupDoesNotExist,
    EndOfGroup,
    EndOfTrack,
    Invalid,
}

impl View for ObjectStatus {
    type V = ObjectStatus;

    open spec fn view(&self) -> ObjectStatus {
        *self
    }
}

impl ObjectStatus {
    /// The wire code of a status.
    pub open spec fn code(self) -> u64 {
        match self {
            ObjectStatus::Normal => 0x0,
            ObjectStatus::ObjectDoesNotExist => 0x1,
            ObjectStatus::GroupDoesNotExist => 0x2,
            ObjectStatus::EndOfGroup => 0x3,
            ObjectStatus::EndOfTrack => 0x4,
            ObjectStatus::Invalid => 0x5,
        }
    }

    /// The status that a wire code stands for; unknown codes are `Invalid`.
    pub open spec fn from_code(value: u64) -> ObjectStatus {
        if value == 0 {
            ObjectStatus::Normal
        } else if value == 1 {
            ObjectStatus::ObjectDoesNotExist
        } else if value == 2 {
            ObjectStatus::GroupDoesNotExist
        } else if value == 3 {
            ObjectStatus::EndOfGroup
        } else if value == 4 {
            ObjectStatus::EndOfTrack
        } else {
            ObjectStatus::Invalid
        }
    }

    pub fn value(&self) -> (v: u64)
        ensures
            v == self.code(),
            *self == ObjectStatus::Normal ==> v == 0,
            *self == ObjectStatus::ObjectDoesNotExist ==> v == 1,
            *self == ObjectStatus::GroupDoesNotExist ==> v == 2,
            *self == ObjectStatus::EndOfGroup ==> v == 3,
            *self == ObjectStatus::EndOfTrack ==> v == 4,
            *self == ObjectStatus::Invalid ==> v == 5,
    {
        match self {
            ObjectStatus::Normal => 0x0,
            ObjectStatus::ObjectDoesNotExist => 0x1,
            ObjectStatus::GroupDoesNotExist => 0x2,
            ObjectStatus::EndOfGroup => 0x3,
            ObjectStatus::EndOfTrack => 0x4,
            ObjectStatus::Invalid => 0x5,
        }
    }

    pub fn from(value: u64) -> (s: ObjectStatus)
        ensures
            s == ObjectStatus::from_code(value),
            value == 0 ==> s == ObjectStatus::Normal,
            value == 1 ==> s == ObjectStatus::ObjectDoesNotExist,
            value == 2 ==> s == ObjectStatus::GroupDoesNotExist,
            value == 3 ==> s == ObjectStatus::EndOfGroup,
            value == 4 ==> s == ObjectStatus::EndOfTrack,
            value > 4 ==> s == ObjectStatus::Invalid,
    {
        if value == 0 {
            ObjectStatus::Normal
        } else if value == 1 {
            ObjectStatus::ObjectDoesNotExist
        } else if value == 2 {
            ObjectStatus::GroupDoesNotExist
        } else if value == 3 {
            ObjectStatus::EndOfGroup
        } else if value == 4 {
            ObjectStatus::EndOfTrack
        } else {
            ObjectStatus::Invalid
        }
    }
}

/// The wire codes of the object statuses: normal 0, object does not exist 1,
/// group does not exist 2, end of group 3, end of track 4; a code read back
/// gives the status it was written for, and a code above 4 reads as invalid.
pub proof fn lemma_status_codes(s: ObjectStatus, value: u64)
    ensures
        ObjectStatus::Normal.code() == 0,
        ObjectStatus::ObjectDoesNotExist.code() == 1,
        ObjectStatus::GroupDoesNotExist.code() == 2,
        ObjectStatus::EndOfGroup.code() == 3,
        ObjectStatus::EndOfTrack.code() == 4,
        s != ObjectStatus::Invalid ==> ObjectStatus::from_code(s.code()) == s,
        value <= 4 ==> ObjectStatus::from_code(value).code() == value,
        value > 4 ==> ObjectStatus::from_code(value) == ObjectStatus::Invalid,
{
}


/// The data contained in every Object message, although the message type
/// implies some of the values. |payload_length| has no value if the length
/// is unknown (because it runs to the end of the stream.)
#[derive(Default, Debug, Copy, Clone, Eq, PartialEq, Structural)]
pub struct ObjectHeader {
    pub subscribe_id: u64,
    pub track_alias: u64,
    pub group_id: u64,
    pub object_id: u64,
    pub object_send_order: u64,
    pub object_status: ObjectStatus,
    pub object_forwarding_preference: ObjectForwardingPreference,
    pub object_payload_length: Option<u64>,
}

impl View for ObjectHeader {
    type V = ObjectHeader;

    open spec fn view(&self) -> ObjectHeader {
        *self
    }
}


/// What writing a number that may be absent appends: nothing where it is
/// absent.
pub open spec fn spec_opt_var_int(o: Option<u64>) -> Result<Seq<u8>, ErrorView> {
    match o {
        Some(v) => spec_var_int(v),
        None => Ok(Seq::empty()),
    }
}

/// Reading a number at `off` where `present` says there is one.
pub open spec fn spec_read_opt_var_int(present: bool, s: Seq<u8>, off: int) -> Result<
    (Option<u64>, int),
    ErrorView,
> {
    if present {
        match spec_read_var_int(s, off) {
            Ok((v, p)) => Ok((Some(v), p)),
            Err(e) => Err(e),
        }
    } else {
        Ok((None, off))
    }
}

pub fn write_opt_var_int(o: Option<u64>, w: &mut Vec<u8>) -> (res: Result<usize, Error>)
    ensures
        wrote(old(w)@, final(w)@, res, spec_opt_var_int(o)),
{
    match o {
        Some(v) => write_var_int(v, w),
        None => {
            assert(w@ =~= old(w)@ + Seq::<u8>::empty());
            Ok(0)
        },
    }
}

pub fn read_opt_var_int(present: bool, r: &[u8], pos: usize) -> (res: Result<(Option<u64>, usize), Error>)
    ensures
        read_outcome(res, spec_read_opt_var_int(present, r@, pos as int)),
{
    if present {
        match read_var_int(r, pos) {
            Ok((v, p)) => Ok((Some(v), p)),
            Err(e) => Err(e),
        }
    } else {
        Ok((None, pos))
    }
}

} // verus!
