//! Media over QUIC Transport (MOQT): wire formats, framing, parsing and
//! session bookkeeping, with contracts checked by Verus.
#![allow(non_upper_case_globals)]
#![allow(non_camel_case_types)]
#![allow(non_snake_case)]

use vstd::prelude::*;

pub mod error;
pub mod message;
pub mod moqt_const;
pub mod moqt_framer;
pub mod moqt_priority;
pub mod protocol;
pub mod serde;
pub mod session;
pub mod text;
pub mod webtransport;

pub use error::{Error, ErrorView, Result};
pub use webtransport::StreamId;

