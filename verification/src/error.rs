use crate::webtransport::StreamId;
use std::string::FromUtf8Error;
use vstd::prelude::*;

verus! {

/// Error codes carried by parse and stream errors.
#[derive(Default, Debug, Copy, Clone, Eq, PartialEq)]
pub enum ErrorCode {
    #[default]
    NoError,
    InternalError,
    Unauthorized,
    ProtocolViolation,
    DuplicateTrackAlias,
    ParameterLengthMismatch,
    GoawayTimeout,
}

/// The standard library's UTF-8 decoding error, carried through unchanged.
#[verifier::external_type_specification]
#[verifier::external_body]
pub struct ExFromUtf8Error(FromUtf8Error);

/// Errors of encoding, decoding and session handling.
#[derive(Debug, PartialEq)]
#[non_exhaustive]
pub enum Error {
    ErrVarIntBoundsExceeded,
    ErrUnexpectedEnd,
    ErrMalformedVarInt,
    ErrBufferTooShort,
    ErrDuplicateParameter,
    ErrMissingParameter,
    ErrUnsupportedParameter(u64),
    ErrInvalidMessageType(u64),
    ErrInvalidFilterType(u64),
    ErrInvalidBooleanValue(u8),
    ErrUnsupportedVersion(u64),
    ErrInvalidRole(u64),
    ErrInvalidObjectType(String),
    ErrTrackGroupForwardPreferenceRequiresLength,
    ErrNonEmptyPayloadMustBeWithNormalObjectStatus,
    ErrParseError(ErrorCode, String),
    ErrFrameError(String),
    ErrStreamError(ErrorCode, String),
    ErrOther(String),
    ErrStreamNotExisted(StreamId),
    ErrStreamClosed(StreamId),
    ErrInvalidString(FromUtf8Error),
}

pub type Result<T> = std::result::Result<T, Error>;

/// The mathematical content of an [`Error`]: strings are taken by their
/// characters, and a UTF-8 error by its kind alone.
pub enum ErrorView {
    ErrVarIntBoundsExceeded,
    ErrUnexpectedEnd,
    ErrMalformedVarInt,
    ErrBufferTooShort,
    ErrDuplicateParameter,
    ErrMissingParameter,
    ErrUnsupportedParameter(u64),
    ErrInvalidMessageType(u64),
    ErrInvalidFilterType(u64),
    ErrInvalidBooleanValue(u8),
    ErrUnsupportedVersion(u64),
    ErrInvalidRole(u64),
    ErrInvalidObjectType(Seq<char>),
    ErrTrackGroupForwardPreferenceRequiresLength,
    ErrNonEmptyPayloadMustBeWithNormalObjectStatus,
    ErrParseError(ErrorCode, Seq<char>),
    ErrFrameError(Seq<char>),
    ErrStreamError(ErrorCode, Seq<char>),
    ErrOther(Seq<char>),
    ErrStreamNotExisted(StreamId),
    ErrStreamClosed(StreamId),
    ErrInvalidString,
}

impl View for Error {
    type V = ErrorView;

    open spec fn view(&self) -> ErrorView {
        match self {
            Error::ErrVarIntBoundsExceeded => ErrorView::ErrVarIntBoundsExceeded,
            Error::ErrUnexpectedEnd => ErrorView::ErrUnexpectedEnd,
            Error::ErrMalformedVarInt => ErrorView::ErrMalformedVarInt,
            Error::ErrBufferTooShort => ErrorView::ErrBufferTooShort,
            Error::ErrDuplicateParameter => ErrorView::ErrDuplicateParameter,
            Error::ErrMissingParameter => ErrorView::ErrMissingParameter,
            Error::ErrUnsupportedParameter(v) => ErrorView::ErrUnsupportedParameter(*v),
            Error::ErrInvalidMessageType(v) => ErrorView::ErrInvalidMessageType(*v),
            Error::ErrInvalidFilterType(v) => ErrorView::ErrInvalidFilterType(*v),
            Error::ErrInvalidBooleanValue(v) => ErrorView::ErrInvalidBooleanValue(*v),
            Error::ErrUnsupportedVersion(v) => ErrorView::ErrUnsupportedVersion(*v),
            Error::ErrInvalidRole(v) => ErrorView::ErrInvalidRole(*v),
            Error::ErrInvalidObjectType(s) => ErrorView::ErrInvalidObjectType(s@),
            Error::ErrTrackGroupForwardPreferenceRequiresLength => ErrorView::ErrTrackGroupForwardPreferenceRequiresLength,
            Error::ErrNonEmptyPayloadMustBeWithNormalObjectStatus => ErrorView::ErrNonEmptyPayloadMustBeWithNormalObjectStatus,
            Error::ErrParseError(c, s) => ErrorView::ErrParseError(*c, s@),
            Error::ErrFrameError(s) => ErrorView::ErrFrameError(s@),
            Error::ErrStreamError(c, s) => ErrorView::ErrStreamError(*c, s@),
            Error::ErrOther(s) => ErrorView::ErrOther(s@),
            Error::ErrStreamNotExisted(id) => ErrorView::ErrStreamNotExisted(*id),
            Error::ErrStreamClosed(id) => ErrorView::ErrStreamClosed(*id),
            Error::ErrInvalidString(_) => ErrorView::ErrInvalidString,
        }
    }
}

/// A parse error whose reason is a fixed text.
pub open spec fn parse_err(code: ErrorCode, reason: &str) -> ErrorView {
    ErrorView::ErrParseError(code, reason@)
}

/// A frame error whose reason is a fixed text.
pub open spec fn frame_err(reason: &str) -> ErrorView {
    ErrorView::ErrFrameError(reason@)
}

} // verus!
