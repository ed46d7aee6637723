use crate::error::{Error, ErrorView};
use crate::message::fits;
use crate::serde::{at, lemma_first_step, lemma_string_roundtrip, read_outcome, read_string, spec_read_string, spec_string, write_string, wrote, Deserializer, Serializer};
use vstd::prelude::*;

verus! {

/// Withdraws an announcement.
#[derive(Default, Debug, Clone, Eq, PartialEq)]
pub struct UnAnnounce {
    pub track_namespace: String,
}

/// The content of a [`UnAnnounce`], strings taken by their characters.
pub struct UnAnnounceView {
    pub track_namespace: Seq<char>,
}

impl View for UnAnnounce {
    type V = UnAnnounceView;

    open spec fn view(&self) -> UnAnnounceView {
        UnAnnounceView { track_namespace: self.track_namespace@ }
    }
}

impl UnAnnounce {
    /// What writing a UnAnnounce appends: its fields in order.
    pub open spec fn spec_wire(v: UnAnnounceView) -> Result<Seq<u8>, ErrorView> {
        spec_string(v.track_namespace)
    }

    /// Reading a UnAnnounce at `off`.
    pub open spec fn spec_parse(s: Seq<u8>, off: int) -> Result<(UnAnnounceView, int), ErrorView> {
        match spec_read_string(s, off) {
            Ok((x_track_namespace, p1)) => {
                Ok((UnAnnounceView { track_namespace: x_track_namespace }, p1))
            },
            Err(e) => Err(e),
        }
    }

    pub fn parse(r: &[u8], pos: usize) -> (res: Result<(UnAnnounce, usize), Error>)
        ensures
            read_outcome(res, UnAnnounce::spec_parse(r@, pos as int)),
    {
        let (track_namespace, p1) = match read_string(r, pos) {
            Ok(x) => x,
            Err(e) => return Err(e),
        };
        Ok((UnAnnounce { track_namespace }, p1))
    }

    /// A UnAnnounce written and read back is the same UnAnnounce.
    pub proof fn lemma_roundtrip(v: UnAnnounceView, s: Seq<u8>, off: int)
        requires
            UnAnnounce::spec_wire(v) is Ok,
            fits(v.track_namespace),
            at(s, off, UnAnnounce::spec_wire(v)->Ok_0),
        ensures
            UnAnnounce::spec_parse(s, off) == Ok::<(UnAnnounceView, int), ErrorView>(
                (v, off + UnAnnounce::spec_wire(v)->Ok_0.len()),
            ),
    {
        let b0 = spec_string(v.track_namespace)->Ok_0;
        lemma_string_roundtrip(v.track_namespace, s, off);
    }

    pub fn write(&self, w: &mut Vec<u8>) -> (res: Result<usize, Error>)
        ensures
            wrote(old(w)@, final(w)@, res, UnAnnounce::spec_wire(self@)),
    {
        let ghost old_w = w@;
        let r = write_string(&self.track_namespace, w);
        proof {
            lemma_first_step(old_w, w@, r, spec_string(self.track_namespace@));
        }
        let mut total = match r {
            Ok(l) => l,
            Err(e) => return Err(e),
        };
        let ghost mut acc = spec_string(self.track_namespace@)->Ok_0;
        Ok(total)
    }
}

impl Serializer for UnAnnounce {
    open spec fn spec_serialize(v: UnAnnounceView) -> Result<Seq<u8>, ErrorView> {
        UnAnnounce::spec_wire(v)
    }

    fn serialize(&self, w: &mut Vec<u8>) -> (res: Result<usize, Error>) {
        self.write(w)
    }
}

impl Deserializer for UnAnnounce {
    open spec fn spec_deserialize(s: Seq<u8>) -> Result<(UnAnnounceView, int), ErrorView> {
        UnAnnounce::spec_parse(s, 0)
    }

    fn deserialize(r: &[u8]) -> (res: Result<(UnAnnounce, usize), Error>) {
        UnAnnounce::parse(r, 0)
    }
}
} // verus!
