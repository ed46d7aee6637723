use crate::error::{parse_err, Error, ErrorCode, ErrorView};
use crate::message::{Role, Version};
use crate::serde::parameters::{
    lemma_setup_roundtrip, read_setup_list, setup_outcome, spec_read_setup_list, spec_setup_wire,
    write_setup,
};
use crate::serde::{
    at, lemma_at_split, lemma_first_step, lemma_then_step, lemma_vec_len, read_outcome, then,
    wrote, Deserializer, Serializer,
};
use crate::text::text;
use vstd::prelude::*;

verus! {

/// Answers a client setup: the version chosen and the server's role.
#[derive(Default, Debug, Clone, Eq, PartialEq, Structural)]
pub struct ServerSetup {
    pub supported_version: Version,
    pub role: Option<Role>,
}

impl View for ServerSetup {
    type V = ServerSetup;

    open spec fn view(&self) -> ServerSetup {
        *self
    }
}

impl ServerSetup {
    /// What writing a server setup appends: the version, then the role as a
    /// parameter.
    pub open spec fn spec_wire(v: ServerSetup) -> Result<Seq<u8>, ErrorView> {
        then(Version::spec_wire(v.supported_version), spec_setup_wire(v.role, None))
    }

    /// Reading a server setup at `off`; a path parameter, and a setup
    /// without a role, are refused.
    pub open spec fn spec_parse(s: Seq<u8>, off: int) -> Result<(ServerSetup, int), ErrorView> {
        match Version::spec_parse(s, off) {
            Ok((version, p1)) => match spec_read_setup_list(s, p1, false) {
                Ok((role, _path, p2)) => if role is None {
                    Err(
                        parse_err(
                            ErrorCode::ProtocolViolation,
                            "ROLE parameter missing from SERVER_SETUP message",
                        ),
                    )
                } else {
                    Ok((ServerSetup { supported_version: version, role }, p2))
                },
                Err(e) => Err(e),
            },
            Err(e) => Err(e),
        }
    }

    pub fn parse(r: &[u8], pos: usize) -> (res: Result<(ServerSetup, usize), Error>)
        ensures
            read_outcome(res, ServerSetup::spec_parse(r@, pos as int)),
    {
        let (supported_version, p1) = match Version::parse(r, pos) {
            Ok(x) => x,
            Err(e) => return Err(e),
        };
        let res = read_setup_list(r, p1, false);
        proof {
            assert(setup_outcome(res, spec_read_setup_list(r@, p1 as int, false)));
        }
        let (role, _path, p2) = match res {
            Ok(x) => x,
            Err(e) => return Err(e),
        };
        if role.is_none() {
            return Err(
                Error::ErrParseError(
                    ErrorCode::ProtocolViolation,
                    text("ROLE parameter missing from SERVER_SETUP message"),
                ),
            );
        }
        Ok((ServerSetup { supported_version, role }, p2))
    }

    pub fn write(&self, w: &mut Vec<u8>) -> (res: Result<usize, Error>)
        ensures
            wrote(old(w)@, final(w)@, res, ServerSetup::spec_wire(*self)),
    {
        let ghost old_w = w@;
        let r = self.supported_version.write(w);
        proof {
            lemma_first_step(old_w, w@, r, Version::spec_wire(self.supported_version));
        }
        let l1 = match r {
            Ok(l) => l,
            Err(e) => return Err(e),
        };
        let ghost acc = Version::spec_wire(self.supported_version)->Ok_0;
        let r = write_setup(&self.role, &None, w);
        proof {
            lemma_then_step(old_w, acc, w@, r, spec_setup_wire(self.role, None));
            lemma_vec_len(w);
        }
        let l2 = match r {
            Ok(l) => l,
            Err(e) => return Err(e),
        };
        Ok(l1 + l2)
    }

    /// A server setup with a known version and a role is read back as
    /// written.
    pub proof fn lemma_roundtrip(v: ServerSetup, s: Seq<u8>, off: int)
        requires
            ServerSetup::spec_wire(v) is Ok,
            v.supported_version.is_canonical(),
            v.role is Some,
            at(s, off, ServerSetup::spec_wire(v)->Ok_0),
        ensures
            ServerSetup::spec_parse(s, off) == Ok::<(ServerSetup, int), ErrorView>(
                (v, off + ServerSetup::spec_wire(v)->Ok_0.len()),
            ),
    {
        let b0 = Version::spec_wire(v.supported_version)->Ok_0;
        let b1 = spec_setup_wire(v.role, None)->Ok_0;
        lemma_at_split(s, off, b0, b1);
        Version::lemma_roundtrip(v.supported_version, s, off);
        lemma_setup_roundtrip(v.role->Some_0, None, s, off + b0.len(), false);
    }
}

impl Serializer for ServerSetup {
    open spec fn spec_serialize(v: ServerSetup) -> Result<Seq<u8>, ErrorView> {
        ServerSetup::spec_wire(v)
    }

    fn serialize(&self, w: &mut Vec<u8>) -> (res: Result<usize, Error>) {
        self.write(w)
    }
}

impl Deserializer for ServerSetup {
    open spec fn spec_deserialize(s: Seq<u8>) -> Result<(ServerSetup, int), ErrorView> {
        ServerSetup::spec_parse(s, 0)
    }

    fn deserialize(r: &[u8]) -> (res: Result<(ServerSetup, usize), Error>) {
        ServerSetup::parse(r, 0)
    }
}

} // verus!
