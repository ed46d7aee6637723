//! The settings of a session.
use crate::message::Version;
use vstd::prelude::*;

verus! {

/// Which end of the session this endpoint is.
#[derive(Default, Debug, Copy, Clone, Eq, PartialEq, Structural)]
pub enum Perspective {
    #[default]
    Server,
    Client,
}

/// The settings a session starts with.
#[derive(Default, Debug, Clone, Eq, PartialEq)]
pub struct Config {
    pub version: Version,
    pub perspective: Perspective,
    pub use_web_transport: bool,
    pub path: String,
    pub deliver_partial_objects: bool,
}

impl From<Perspective> for crate::protocol::Perspective {
    fn from(value: Perspective) -> (p: crate::protocol::Perspective) {
        match value {
            Perspective::Server => crate::protocol::Perspective::Server,
            Perspective::Client => crate::protocol::Perspective::Client,
        }
    }
}

impl vstd::std_specs::convert::FromSpecImpl<Perspective> for crate::protocol::Perspective {
    open spec fn obeys_from_spec() -> bool {
        true
    }

    open spec fn from_spec(v: Perspective) -> crate::protocol::Perspective {
        match v {
            Perspective::Server => crate::protocol::Perspective::Server,
            Perspective::Client => crate::protocol::Perspective::Client,
        }
    }
}

/// The settings of the session core are those of the session.
impl From<Config> for crate::protocol::Config {
    fn from(value: Config) -> (c: crate::protocol::Config) {
        let perspective = match value.perspective {
            Perspective::Server => crate::protocol::Perspective::Server,
            Perspective::Client => crate::protocol::Perspective::Client,
        };
        crate::protocol::Config {
            version: value.version,
            perspective,
            use_web_transport: value.use_web_transport,
            path: value.path,
            deliver_partial_objects: value.deliver_partial_objects,
        }
    }
}

impl vstd::std_specs::convert::FromSpecImpl<Config> for crate::protocol::Config {
    open spec fn obeys_from_spec() -> bool {
        true
    }

    open spec fn from_spec(v: Config) -> crate::protocol::Config {
        crate::protocol::Config {
            version: v.version,
            perspective: match v.perspective {
                Perspective::Server => crate::protocol::Perspective::Server,
                Perspective::Client => crate::protocol::Perspective::Client,
            },
            use_web_transport: v.use_web_transport,
            path: v.path,
            deliver_partial_objects: v.deliver_partial_objects,
        }
    }
}

} // verus!
