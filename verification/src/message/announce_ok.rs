use crate::error::{Error, ErrorView};
use crate::message::fits;
use crate::serde::{at, lemma_first_step, lemma_string_roundtrip, read_outcome, read_string, spec_read_string, spec_string, write_string, wrote, Deserializer, Serializer};
use vstd::prelude::*;

verus! {

/// Accepts an announcement.
#[derive(Default, Debug, Clone, Eq, PartialEq)]
pub struct AnnounceOk {
    pub track_namespace: String,
}

/// The content of a [`AnnounceOk`], strings taken by their characters.
pub struct AnnounceOkView {
    pub track_namespace: Seq<char>,
}

impl View for AnnounceOk {
    type V = AnnounceOkView;

    open spec fn view(&self) -> AnnounceOkView {
        AnnounceOkView { track_namespace: self.track_namespace@ }
    }
}

impl AnnounceOk {
    /// What writing a AnnounceOk appends: its fields in order.
    pub open spec fn spec_wire(v: AnnounceOkView) -> Result<Seq<u8>, ErrorView> {
        spec_string(v.track_namespace)
    }

    /// Reading a AnnounceOk at `off`.
    pub open spec fn spec_parse(s: Seq<u8>, off: int) -> Result<(AnnounceOkView, int), ErrorView> {
        match spec_read_string(s, off) {
            Ok((x_track_namespace, p1)) => {
                Ok((AnnounceOkView { track_namespace: x_track_namespace }, p1))
            },
            Err(e) => Err(e),
        }
    }

    pub fn parse(r: &[u8], pos: usize) -> (res: Result<(AnnounceOk, usize), Error>)
        ensures
            read_outcome(res, AnnounceOk::spec_parse(r@, pos as int)),
    {
        let (track_namespace, p1) = match read_string(r, pos) {
            Ok(x) => x,
            Err(e) => return Err(e),
        };
        Ok((AnnounceOk { track_namespace }, p1))
    }

    /// A AnnounceOk written and read back is the same AnnounceOk.
    pub proof fn lemma_roundtrip(v: AnnounceOkView, s: Seq<u8>, off: int)
        requires
            AnnounceOk::spec_wire(v) is Ok,
            fits(v.track_namespace),
            at(s, off, AnnounceOk::spec_wire(v)->Ok_0),
        ensures
            AnnounceOk::spec_parse(s, off) == Ok::<(AnnounceOkView, int), ErrorView>(
                (v, off + AnnounceOk::spec_wire(v)->Ok_0.len()),
            ),
    {
        let b0 = spec_string(v.track_namespace)->Ok_0;
        lemma_string_roundtrip(v.track_namespace, s, off);
    }

    pub fn write(&self, w: &mut Vec<u8>) -> (res: Result<usize, Error>)
        ensures
            wrote(old(w)@, final(w)@, res, AnnounceOk::spec_wire(self@)),
    {
        let ghost old_w = w@;
        let r = write_string(&self.track_namespace, w);
        proof {
            lemma_first_step(old_w, w@, r, spec_string(self.track_namespace@));
        }
        let mut total = match r {
            Ok(l) => l,
            Err(e) => return Err(e),
        };
        let ghost mut acc = spec_string(self.track_namespace@)->Ok_0;
        Ok(total)
    }
}

impl Serializer for AnnounceOk {
    open spec fn spec_serialize(v: AnnounceOkView) -> Result<Seq<u8>, ErrorView> {
        AnnounceOk::spec_wire(v)
    }

    fn serialize(&self, w: &mut Vec<u8>) -> (res: Result<usize, Error>) {
        self.write(w)
    }
}

impl Deserializer for AnnounceOk {
    open spec fn spec_deserialize(s: Seq<u8>) -> Result<(AnnounceOkView, int), ErrorView> {
        AnnounceOk::spec_parse(s, 0)
    }

    fn deserialize(r: &[u8]) -> (res: Result<(AnnounceOk, usize), Error>) {
        AnnounceOk::parse(r, 0)
    }
}
} // verus!
