//! Tracks of the peer to which the session has subscribed.
use crate::message::object::{ObjectForwardingPreference, ObjectHeader};
use crate::message::{FullTrackName, FullTrackNameView};
use vstd::prelude::*;

verus! {

/// The answer to a subscription: the track, and the reason where it was
/// refused.
pub struct RemoteTrackOnReply {
    pub full_track_name: FullTrackName,
    pub error_reason_phrase: Option<String>,
}

/// A piece of an object received on a subscribed track.
pub struct RemoteTrackOnObjectFragment {
    pub object_header: ObjectHeader,
    pub payload: Vec<u8>,
    pub fin: bool,
}

/// The content of a [`RemoteTrack`].
pub struct RemoteTrackView {
    pub full_track_name: FullTrackNameView,
    pub track_alias: u64,
    pub forwarding_preference: Option<ObjectForwardingPreference>,
}

/// A track on the peer to which the session has subscribed.
pub struct RemoteTrack {
    full_track_name: FullTrackName,
    track_alias: u64,
    forwarding_preference: Option<ObjectForwardingPreference>,
}

impl View for RemoteTrack {
    type V = RemoteTrackView;

    closed spec fn view(&self) -> RemoteTrackView {
        RemoteTrackView {
            full_track_name: self.full_track_name@,
            track_alias: self.track_alias,
            forwarding_preference: self.forwarding_preference,
        }
    }
}

impl RemoteTrackView {
    /// What checking an object's forwarding preference does: the first one
    /// is taken and accepted; later ones are accepted where they are that one.
    pub open spec fn spec_check_forwarding_preference(self, preference: ObjectForwardingPreference) -> (
        RemoteTrackView,
        bool,
    ) {
        match self.forwarding_preference {
            Some(p) => (self, p == preference),
            None => (RemoteTrackView { forwarding_preference: Some(preference), ..self }, true),
        }
    }
}

/// Once a track has taken a forwarding preference, every later check keeps
/// it, and accepts exactly the objects of that preference.
pub proof fn lemma_preference_fixed(
    v: RemoteTrackView,
    first: ObjectForwardingPreference,
    later: ObjectForwardingPreference,
)
    requires
        v.forwarding_preference is None,
    ensures
        ({
            let (v1, ok1) = v.spec_check_forwarding_preference(first);
            let (v2, ok2) = v1.spec_check_forwarding_preference(later);
            &&& ok1
            &&& v2 == v1
            &&& v1.forwarding_preference == Some(first)
            &&& ok2 == (later == first)
        }),
{
}

impl RemoteTrack {
    pub fn new(full_track_name: FullTrackName, track_alias: u64) -> (t: RemoteTrack)
        ensures
            t@ == (RemoteTrackView {
                full_track_name: full_track_name@,
                track_alias,
                forwarding_preference: None,
            }),
    {
        RemoteTrack { full_track_name, track_alias, forwarding_preference: None }
    }

    pub fn full_track_name(&self) -> (n: &FullTrackName)
        ensures
            n@ == self@.full_track_name,
    {
        &self.full_track_name
    }

    pub fn track_alias(&self) -> (a: u64)
        ensures
            a == self@.track_alias,
    {
        self.track_alias
    }

    /// On the first object of the track, takes the forwarding preference of
    /// its encoding and returns true; afterwards, returns whether an object's
    /// preference is that one.
    pub fn check_forwarding_preference(&mut self, preference: ObjectForwardingPreference) -> (ok: bool)
        ensures
            (final(self)@, ok) == old(self)@.spec_check_forwarding_preference(preference),
    {
        match self.forwarding_preference {
            Some(p) => p == preference,
            None => {
                self.forwarding_preference = Some(preference);
                true
            },
        }
    }
}

} // verus!
