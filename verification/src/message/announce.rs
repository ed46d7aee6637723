use crate::error::{Error, ErrorView};
use crate::message::fits;
use crate::serde::parameters::{lemma_auth_roundtrip, opt_view, read_auth_list, spec_auth_list_wire, spec_read_auth_list, write_auth_list};
use crate::serde::{
    at, lemma_at_split, lemma_first_step, lemma_string_roundtrip, lemma_then_step, lemma_vec_len,
    read_outcome, read_string, spec_read_string, spec_string, then, write_string, wrote,
    Deserializer, Serializer,
};
use vstd::prelude::*;

verus! {

/// Announces a track namespace; the authorization info, where there is one, travels as a parameter.
#[derive(Default, Debug, Clone, Eq, PartialEq)]
pub struct Announce {
    pub track_namespace: String,
    pub authorization_info: Option<String>,
}

/// The content of a [`Announce`], strings taken by their characters.
pub struct AnnounceView {
    pub track_namespace: Seq<char>,
    pub authorization_info: Option<Seq<char>>,
}

impl View for Announce {
    type V = AnnounceView;

    open spec fn view(&self) -> AnnounceView {
        AnnounceView { track_namespace: self.track_namespace@, authorization_info: opt_view(self.authorization_info) }
    }
}

impl Announce {
    /// What writing a Announce appends: its fields in order.
    pub open spec fn spec_wire(v: AnnounceView) -> Result<Seq<u8>, ErrorView> {
        then(spec_string(v.track_namespace), spec_auth_list_wire(v.authorization_info))
    }

    /// Reading a Announce at `off`.
    pub open spec fn spec_parse(s: Seq<u8>, off: int) -> Result<(AnnounceView, int), ErrorView> {
        match spec_read_string(s, off) {
            Ok((x_track_namespace, p1)) => {
                match spec_read_auth_list(s, p1, "AUTHORIZATION_INFO parameter appears twice in ANNOUNCE"@, false) {
                    Ok((x_authorization_info, p2)) => {
                        Ok((AnnounceView { track_namespace: x_track_namespace, authorization_info: x_authorization_info }, p2))
                    },
                    Err(e) => Err(e),
                }
            },
            Err(e) => Err(e),
        }
    }

    pub fn parse(r: &[u8], pos: usize) -> (res: Result<(Announce, usize), Error>)
        ensures
            read_outcome(res, Announce::spec_parse(r@, pos as int)),
    {
        let (track_namespace, p1) = match read_string(r, pos) {
            Ok(x) => x,
            Err(e) => return Err(e),
        };
        let (authorization_info, p2) = match read_auth_list(r, p1, "AUTHORIZATION_INFO parameter appears twice in ANNOUNCE", false) {
            Ok(x) => x,
            Err(e) => return Err(e),
        };
        Ok((Announce { track_namespace, authorization_info }, p2))
    }

    /// A Announce written and read back is the same Announce.
    pub proof fn lemma_roundtrip(v: AnnounceView, s: Seq<u8>, off: int)
        requires
            Announce::spec_wire(v) is Ok,
            fits(v.track_namespace),
            v.authorization_info is Some && fits(v.authorization_info->Some_0),
            at(s, off, Announce::spec_wire(v)->Ok_0),
        ensures
            Announce::spec_parse(s, off) == Ok::<(AnnounceView, int), ErrorView>(
                (v, off + Announce::spec_wire(v)->Ok_0.len()),
            ),
    {
        let b0 = spec_string(v.track_namespace)->Ok_0;
        let b1 = spec_auth_list_wire(v.authorization_info)->Ok_0;
        lemma_at_split(s, off, b0, b1);
        lemma_string_roundtrip(v.track_namespace, s, off);
        lemma_auth_roundtrip(v.authorization_info->Some_0, s, off + b0.len(), "AUTHORIZATION_INFO parameter appears twice in ANNOUNCE"@, false);
    }

    pub fn write(&self, w: &mut Vec<u8>) -> (res: Result<usize, Error>)
        ensures
            wrote(old(w)@, final(w)@, res, Announce::spec_wire(self@)),
    {
        let ghost old_w = w@;
        let r = write_string(&self.track_namespace, w);
        proof {
            lemma_first_step(old_w, w@, r, spec_string(self.track_namespace@));
        }
        let mut total = match r {
            Ok(l) => l,
            Err(e) => return Err(e),
        };
        let ghost mut acc = spec_string(self.track_namespace@)->Ok_0;
        let r = write_auth_list(&self.authorization_info, w);
        proof {
            lemma_then_step(old_w, acc, w@, r, spec_auth_list_wire(opt_view(self.authorization_info)));
            lemma_vec_len(w);
        }
        let l = match r {
            Ok(l) => l,
            Err(e) => return Err(e),
        };
        proof {
            acc = acc + spec_auth_list_wire(opt_view(self.authorization_info))->Ok_0;
        }
        total = total + l;
        Ok(total)
    }
}

impl Serializer for Announce {
    open spec fn spec_serialize(v: AnnounceView) -> Result<Seq<u8>, ErrorView> {
        Announce::spec_wire(v)
    }

    fn serialize(&self, w: &mut Vec<u8>) -> (res: Result<usize, Error>) {
        self.write(w)
    }
}

impl Deserializer for Announce {
    open spec fn spec_deserialize(s: Seq<u8>) -> Result<(AnnounceView, int), ErrorView> {
        Announce::spec_parse(s, 0)
    }

    fn deserialize(r: &[u8]) -> (res: Result<(Announce, usize), Error>) {
        Announce::parse(r, 0)
    }
}
} // verus!
