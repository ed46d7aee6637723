use crate::error::{parse_err, Error, ErrorCode, ErrorView};
use crate::message::{fits, Role, Version};
use crate::serde::parameters::{
    lemma_setup_roundtrip, opt_view, read_setup_list, setup_outcome, spec_read_setup_list,
    spec_setup_wire, write_setup,
};
use crate::serde::varint::{
    lemma_u64_roundtrip, read_var_usize, spec_read_var_usize, spec_var_int, write_var_usize,
};
use crate::serde::{
    at, lemma_at_split, lemma_first_step, lemma_then_step, lemma_vec_len, read_outcome, then,
    wrote, Deserializer, Serializer,
};
use crate::text::text;
use vstd::prelude::*;

verus! {

/// What writing a list of versions appends: each version in turn.
pub open spec fn versions_wire(vs: Seq<Version>) -> Result<Seq<u8>, ErrorView>
    decreases vs.len(),
{
    if vs.len() == 0 {
        Ok(Seq::empty())
    } else {
        then(Version::spec_wire(vs[0]), versions_wire(vs.drop_first()))
    }
}

/// Reading `n` more versions at `off`, after those in `acc`.
pub open spec fn spec_read_versions(s: Seq<u8>, off: int, n: nat, acc: Seq<Version>) -> Result<
    (Seq<Version>, int),
    ErrorView,
>
    decreases n,
{
    if n == 0 {
        Ok((acc, off))
    } else {
        match Version::spec_parse(s, off) {
            Ok((v, p)) => spec_read_versions(s, p, (n - 1) as nat, acc.push(v)),
            Err(e) => Err(e),
        }
    }
}

/// Versions written one after another are read back in order.
pub proof fn lemma_versions_roundtrip(vs: Seq<Version>, s: Seq<u8>, off: int, acc: Seq<Version>)
    requires
        forall|i: int| 0 <= i < vs.len() ==> (#[trigger] vs[i]).is_canonical(),
        at(s, off, versions_wire(vs)->Ok_0),
    ensures
        versions_wire(vs) is Ok,
        spec_read_versions(s, off, vs.len(), acc) == Ok::<(Seq<Version>, int), ErrorView>(
            (acc + vs, off + versions_wire(vs)->Ok_0.len()),
        ),
    decreases vs.len(),
{
    if vs.len() == 0 {
        assert(acc + vs =~= acc);
    } else {
        let rest = vs.drop_first();
        assert forall|i: int| 0 <= i < rest.len() implies (#[trigger] rest[i]).is_canonical() by {
            assert(rest[i] == vs[i + 1]);
        }
        assert(vs[0].is_canonical());
        lemma_versions_wire_ok(vs);
        lemma_versions_wire_ok(rest);
        let b0 = Version::spec_wire(vs[0])->Ok_0;
        let b1 = versions_wire(rest)->Ok_0;
        lemma_at_split(s, off, b0, b1);
        Version::lemma_roundtrip(vs[0], s, off);
        lemma_versions_roundtrip(rest, s, off + b0.len(), acc.push(vs[0]));
        assert(acc.push(vs[0]) + rest =~= acc + vs);
    }
}

/// Versions can always be written.
pub proof fn lemma_versions_wire_ok(vs: Seq<Version>)
    ensures
        versions_wire(vs) is Ok,
    decreases vs.len(),
{
    if vs.len() > 0 {
        lemma_versions_wire_ok(vs.drop_first());
        crate::serde::varint::lemma_var_int_len(vs[0].code());
    }
}

/// Opens a session from the client side: the versions it speaks, its role,
/// and the path where the transport has none; whether the session runs over
/// WebTransport is noted by the parser, not carried on the wire.
#[derive(Default, Debug, Clone, Eq, PartialEq)]
pub struct ClientSetup {
    pub supported_versions: Vec<Version>,
    pub role: Option<Role>,
    pub path: Option<String>,
    pub uses_web_transport: bool,
}

/// The content of a [`ClientSetup`].
pub struct ClientSetupView {
    pub supported_versions: Seq<Version>,
    pub role: Option<Role>,
    pub path: Option<Seq<char>>,
    pub uses_web_transport: bool,
}

impl View for ClientSetup {
    type V = ClientSetupView;

    open spec fn view(&self) -> ClientSetupView {
        ClientSetupView {
            supported_versions: self.supported_versions@,
            role: self.role,
            path: opt_view(self.path),
            uses_web_transport: self.uses_web_transport,
        }
    }
}

impl ClientSetup {
    /// What writing a client setup appends: the number of versions, the
    /// versions, then the role and path as parameters.
    pub open spec fn spec_wire(v: ClientSetupView) -> Result<Seq<u8>, ErrorView> {
        then(
            then(
                spec_var_int(v.supported_versions.len() as u64),
                versions_wire(v.supported_versions),
            ),
            spec_setup_wire(v.role, v.path),
        )
    }

    /// Reading a client setup at `off`; a setup without a role is refused.
    pub open spec fn spec_parse(s: Seq<u8>, off: int) -> Result<(ClientSetupView, int), ErrorView> {
        match spec_read_var_usize(s, off) {
            Ok((n, p1)) => match spec_read_versions(s, p1, n as nat, Seq::empty()) {
                Ok((vs, p2)) => match spec_read_setup_list(s, p2, true) {
                    Ok((role, path, p3)) => if role is None {
                        Err(
                            parse_err(
                                ErrorCode::ProtocolViolation,
                                "ROLE parameter missing from CLIENT_SETUP message",
                            ),
                        )
                    } else {
                        Ok(
                            (
                                ClientSetupView {
                                    supported_versions: vs,
                                    role,
                                    path,
                                    uses_web_transport: false,
                                },
                                p3,
                            ),
                        )
                    },
                    Err(e) => Err(e),
                },
                Err(e) => Err(e),
            },
            Err(e) => Err(e),
        }
    }

    pub fn parse(r: &[u8], pos: usize) -> (res: Result<(ClientSetup, usize), Error>)
        ensures
            read_outcome(res, ClientSetup::spec_parse(r@, pos as int)),
    {
        let (n, p1) = match read_var_usize(r, pos) {
            Ok(x) => x,
            Err(e) => return Err(e),
        };
        let mut supported_versions: Vec<Version> = Vec::new();
        let mut p = p1;
        let mut i: usize = 0;
        while i < n
            invariant
                i <= n,
                spec_read_var_usize(r@, pos as int) == Ok::<(usize, int), ErrorView>((n, p1 as int)),
                spec_read_versions(r@, p1 as int, n as nat, Seq::empty()) == spec_read_versions(
                    r@,
                    p as int,
                    (n - i) as nat,
                    supported_versions@,
                ),
            decreases n - i,
        {
            let ghost acc = supported_versions@;
            let res = Version::parse(r, p);
            proof {
                assert(spec_read_versions(r@, p as int, (n - i) as nat, acc) == match Version::spec_parse(r@, p as int) {
                    Ok((v, q)) => spec_read_versions(r@, q, (n - i - 1) as nat, acc.push(v)),
                    Err(e) => Err(e),
                });
            }
            let (v, q) = match res {
                Ok(x) => x,
                Err(e) => return Err(e),
            };
            supported_versions.push(v);
            p = q;
            i = i + 1;
        }
        let res = read_setup_list(r, p, true);
        proof {
            assert(setup_outcome(res, spec_read_setup_list(r@, p as int, true)));
        }
        let (role, path, p3) = match res {
            Ok(x) => x,
            Err(e) => return Err(e),
        };
        if role.is_none() {
            return Err(
                Error::ErrParseError(
                    ErrorCode::ProtocolViolation,
                    text("ROLE parameter missing from CLIENT_SETUP message"),
                ),
            );
        }
        Ok((ClientSetup { supported_versions, role, path, uses_web_transport: false }, p3))
    }

    fn write_versions(vs: &Vec<Version>, w: &mut Vec<u8>) -> (res: Result<usize, Error>)
        ensures
            wrote(old(w)@, final(w)@, res, versions_wire(vs@)),
    {
        let ghost old_w = w@;
        let ghost mut acc: Seq<u8> = Seq::empty();
        let mut total: usize = 0;
        let mut i: usize = 0;
        proof {
            lemma_versions_wire_ok(vs@);
            assert(vs@.skip(0) =~= vs@);
            assert(versions_wire(vs@) == then(Ok(acc), versions_wire(vs@.skip(0)))) by {
                assert(acc + versions_wire(vs@)->Ok_0 =~= versions_wire(vs@)->Ok_0);
            }
            assert(w@ =~= old_w + acc);
        }
        while i < vs.len()
            invariant
                i <= vs@.len(),
                old_w == old(w)@,
                w@ == old_w + acc,
                total == acc.len(),
                versions_wire(vs@.skip(i as int)) is Ok,
                versions_wire(vs@) == then(Ok(acc), versions_wire(vs@.skip(i as int))),
            decreases vs@.len() - i,
        {
            let ghost rest = vs@.skip(i as int);
            let r = vs[i].write(w);
            proof {
                lemma_versions_wire_ok(rest.drop_first());
                assert(rest[0] == vs@[i as int]);
                assert(rest.drop_first() =~= vs@.skip(i + 1));
                lemma_then_step(old_w, acc, w@, r, Version::spec_wire(vs@[i as int]));
                lemma_vec_len(w);
            }
            let l = match r {
                Ok(l) => l,
                Err(e) => return Err(e),
            };
            proof {
                let b = Version::spec_wire(vs@[i as int])->Ok_0;
                let tail = versions_wire(vs@.skip(i + 1))->Ok_0;
                assert(acc + (b + tail) =~= (acc + b) + tail);
                acc = acc + b;
            }
            total = total + l;
            i = i + 1;
        }
        proof {
            assert(vs@.skip(vs@.len() as int) =~= Seq::<Version>::empty());
            assert(acc + Seq::<u8>::empty() =~= acc);
        }
        Ok(total)
    }

    pub fn write(&self, w: &mut Vec<u8>) -> (res: Result<usize, Error>)
        ensures
            wrote(old(w)@, final(w)@, res, ClientSetup::spec_wire(self@)),
    {
        let ghost old_w = w@;
        let r = write_var_usize(self.supported_versions.len(), w);
        proof {
            lemma_first_step(old_w, w@, r, spec_var_int(self.supported_versions@.len() as u64));
        }
        let mut total = match r {
            Ok(l) => l,
            Err(e) => return Err(e),
        };
        let ghost mut acc = spec_var_int(self.supported_versions@.len() as u64)->Ok_0;
        let r = ClientSetup::write_versions(&self.supported_versions, w);
        proof {
            lemma_then_step(old_w, acc, w@, r, versions_wire(self.supported_versions@));
            lemma_vec_len(w);
        }
        let l = match r {
            Ok(l) => l,
            Err(e) => return Err(e),
        };
        proof {
            acc = acc + versions_wire(self.supported_versions@)->Ok_0;
        }
        total = total + l;
        let r = write_setup(&self.role, &self.path, w);
        proof {
            lemma_then_step(old_w, acc, w@, r, spec_setup_wire(self.role, opt_view(self.path)));
            lemma_vec_len(w);
        }
        let l = match r {
            Ok(l) => l,
            Err(e) => return Err(e),
        };
        total = total + l;
        Ok(total)
    }

    /// A client setup with a role, known versions, and a flag that is not
    /// set (the wire does not carry it) is read back as written.
    pub proof fn lemma_roundtrip(v: ClientSetupView, s: Seq<u8>, off: int)
        requires
            ClientSetup::spec_wire(v) is Ok,
            v.supported_versions.len() <= usize::MAX,
            forall|i: int|
                0 <= i < v.supported_versions.len() ==> (#[trigger] v.supported_versions[i]).is_canonical(),
            v.role is Some,
            v.path is Some ==> fits(v.path->Some_0),
            !v.uses_web_transport,
            at(s, off, ClientSetup::spec_wire(v)->Ok_0),
        ensures
            ClientSetup::spec_parse(s, off) == Ok::<(ClientSetupView, int), ErrorView>(
                (v, off + ClientSetup::spec_wire(v)->Ok_0.len()),
            ),
    {
        let vs = v.supported_versions;
        lemma_versions_wire_ok(vs);
        let b0 = spec_var_int(vs.len() as u64)->Ok_0;
        let b1 = versions_wire(vs)->Ok_0;
        let b2 = spec_setup_wire(v.role, v.path)->Ok_0;
        lemma_at_split(s, off, b0 + b1, b2);
        lemma_at_split(s, off, b0, b1);
        lemma_u64_roundtrip(vs.len() as u64, s, off);
        lemma_versions_roundtrip(vs, s, off + b0.len(), Seq::empty());
        assert(Seq::<Version>::empty() + vs =~= vs);
        lemma_setup_roundtrip(v.role->Some_0, v.path, s, off + (b0 + b1).len(), true);
    }
}

impl Serializer for ClientSetup {
    open spec fn spec_serialize(v: ClientSetupView) -> Result<Seq<u8>, ErrorView> {
        ClientSetup::spec_wire(v)
    }

    fn serialize(&self, w: &mut Vec<u8>) -> (res: Result<usize, Error>) {
        self.write(w)
    }
}

impl Deserializer for ClientSetup {
    open spec fn spec_deserialize(s: Seq<u8>) -> Result<(ClientSetupView, int), ErrorView> {
        ClientSetup::spec_parse(s, 0)
    }

    fn deserialize(r: &[u8]) -> (res: Result<(ClientSetup, usize), Error>) {
        ClientSetup::parse(r, 0)
    }
}

} // verus!
