use crate::error::{Error, ErrorView};
use crate::message::fits;
use crate::serde::{at, lemma_first_step, lemma_string_roundtrip, read_outcome, read_string, spec_read_string, spec_string, write_string, wrote, Deserializer, Serializer};
use vstd::prelude::*;

verus! {

/// Tells the peer to move to a new session.
#[derive(Default, Debug, Clone, Eq, PartialEq)]
pub struct GoAway {
    pub new_session_uri: String,
}

/// The content of a [`GoAway`], strings taken by their characters.
pub struct GoAwayView {
    pub new_session_uri: Seq<char>,
}

impl View for GoAway {
    type V = GoAwayView;

    open spec fn view(&self) -> GoAwayView {
        GoAwayView { new_session_uri: self.new_session_uri@ }
    }
}

impl GoAway {
    /// What writing a GoAway appends: its fields in order.
    pub open spec fn spec_wire(v: GoAwayView) -> Result<Seq<u8>, ErrorView> {
        spec_string(v.new_session_uri)
    }

    /// Reading a GoAway at `off`.
    pub open spec fn spec_parse(s: Seq<u8>, off: int) -> Result<(GoAwayView, int), ErrorView> {
        match spec_read_string(s, off) {
            Ok((x_new_session_uri, p1)) => {
                Ok((GoAwayView { new_session_uri: x_new_session_uri }, p1))
            },
            Err(e) => Err(e),
        }
    }

    pub fn parse(r: &[u8], pos: usize) -> (res: Result<(GoAway, usize), Error>)
        ensures
            read_outcome(res, GoAway::spec_parse(r@, pos as int)),
    {
        let (new_session_uri, p1) = match read_string(r, pos) {
            Ok(x) => x,
            Err(e) => return Err(e),
        };
        Ok((GoAway { new_session_uri }, p1))
    }

    /// A GoAway written and read back is the same GoAway.
    pub proof fn lemma_roundtrip(v: GoAwayView, s: Seq<u8>, off: int)
        requires
            GoAway::spec_wire(v) is Ok,
            fits(v.new_session_uri),
            at(s, off, GoAway::spec_wire(v)->Ok_0),
        ensures
            GoAway::spec_parse(s, off) == Ok::<(GoAwayView, int), ErrorView>(
                (v, off + GoAway::spec_wire(v)->Ok_0.len()),
            ),
    {
        let b0 = spec_string(v.new_session_uri)->Ok_0;
        lemma_string_roundtrip(v.new_session_uri, s, off);
    }

    pub fn write(&self, w: &mut Vec<u8>) -> (res: Result<usize, Error>)
        ensures
            wrote(old(w)@, final(w)@, res, GoAway::spec_wire(self@)),
    {
        let ghost old_w = w@;
        let r = write_string(&self.new_session_uri, w);
        proof {
            lemma_first_step(old_w, w@, r, spec_string(self.new_session_uri@));
        }
        let mut total = match r {
            Ok(l) => l,
            Err(e) => return Err(e),
        };
        let ghost mut acc = spec_string(self.new_session_uri@)->Ok_0;
        Ok(total)
    }
}

impl Serializer for GoAway {
    open spec fn spec_serialize(v: GoAwayView) -> Result<Seq<u8>, ErrorView> {
        GoAway::spec_wire(v)
    }

    fn serialize(&self, w: &mut Vec<u8>) -> (res: Result<usize, Error>) {
        self.write(w)
    }
}

impl Deserializer for GoAway {
    open spec fn spec_deserialize(s: Seq<u8>) -> Result<(GoAwayView, int), ErrorView> {
        GoAway::spec_parse(s, 0)
    }

    fn deserialize(r: &[u8]) -> (res: Result<(GoAway, usize), Error>) {
        GoAway::parse(r, 0)
    }
}
} // verus!
