//! Tracks to which the peer might subscribe.
use crate::message::object::{ObjectForwardingPreference, ObjectStatus};
use crate::message::{FullSequence, FullTrackName, FullTrackNameView};
use crate::session::subscribe_window::{
    newest_first_holding, subscribe_ids, without_id, SubscribeWindow, SubscribeWindowView,
    SubscribeWindows,
};
use std::collections::HashMap;
use vstd::prelude::*;

verus! {

broadcast use vstd::std_specs::hash::group_hash_axioms;

/// A request that the application publish again the objects of a
/// subscription that come before the newest one.
pub struct LocalTrackOnSubscribeForPast {
    window: SubscribeWindow,
}

/// The content of a [`LocalTrack`].
pub struct LocalTrackView {
    pub full_track_name: FullTrackNameView,
    pub forwarding_preference: ObjectForwardingPreference,
    pub track_alias: Option<u64>,
    pub windows: Map<u64, SubscribeWindowView>,
    /// The subscribe ids with a window, in the order the windows were added.
    pub window_order: Seq<u64>,
    pub next_sequence: FullSequence,
    pub max_object_ids: Map<u64, u64>,
    pub announce_canceled: bool,
}

/// A track to which the peer might subscribe.
pub struct LocalTrack {
    full_track_name: FullTrackName,
    forwarding_preference: ObjectForwardingPreference,
    // The first SUBSCRIBE sets the track alias.
    track_alias: Option<u64>,
    // The locations of this track to which the peer is subscribed.
    windows: SubscribeWindows,
    // One past the largest location published.
    next_sequence: FullSequence,
    // The last object id of each group whose end is known, by group id.
    max_object_ids: HashMap<u64, u64>,
    // The session received ANNOUNCE_CANCELED for this namespace.
    announce_canceled: bool,
}

impl View for LocalTrack {
    type V = LocalTrackView;

    closed spec fn view(&self) -> LocalTrackView {
        LocalTrackView {
            full_track_name: self.full_track_name@,
            forwarding_preference: self.forwarding_preference,
            track_alias: self.track_alias,
            windows: self.windows@,
            window_order: self.windows.order(),
            next_sequence: self.next_sequence,
            max_object_ids: self.max_object_ids@,
            announce_canceled: self.announce_canceled,
        }
    }
}

impl LocalTrackView {
    /// The end of a new window: none without an end group; the given object
    /// with one; and without an end object, the last object of the end group
    /// where that group is over and its last object is known, or else the
    /// whole group.
    pub open spec fn window_end(self, end_group: Option<u64>, end_object: Option<u64>) -> Option<
        FullSequence,
    > {
        match end_group {
            Some(g) => match end_object {
                Some(o) => Some(FullSequence { group_id: g, object_id: o }),
                None => if g >= self.next_sequence.group_id || !self.max_object_ids.dom().contains(
                    g,
                ) {
                    Some(FullSequence { group_id: g, object_id: u64::MAX })
                } else {
                    Some(FullSequence { group_id: g, object_id: self.max_object_ids[g] })
                },
            },
            None => None,
        }
    }

    /// What publishing the object at `seq` with `status` records: the next
    /// location moves past it (to the next group after the end of a group),
    /// and the end of a group or of the track records its last object id.
    pub open spec fn spec_sent_sequence(self, seq: FullSequence, status: ObjectStatus) -> LocalTrackView {
        match status {
            ObjectStatus::Normal | ObjectStatus::ObjectDoesNotExist => if self.next_sequence.at_or_before(
                seq,
            ) {
                LocalTrackView {
                    next_sequence: FullSequence {
                        group_id: seq.group_id,
                        object_id: (seq.object_id + 1) as u64,
                    },
                    ..self
                }
            } else {
                self
            },
            ObjectStatus::GroupDoesNotExist => LocalTrackView {
                max_object_ids: self.max_object_ids.insert(seq.group_id, 0),
                ..self
            },
            ObjectStatus::EndOfGroup => LocalTrackView {
                max_object_ids: self.max_object_ids.insert(seq.group_id, seq.object_id),
                next_sequence: if self.next_sequence.at_or_before(seq) {
                    FullSequence { group_id: (seq.group_id + 1) as u64, object_id: 0 }
                } else {
                    self.next_sequence
                },
                ..self
            },
            ObjectStatus::EndOfTrack => LocalTrackView {
                max_object_ids: self.max_object_ids.insert(seq.group_id, seq.object_id),
                ..self
            },
            ObjectStatus::Invalid => self,
        }
    }

    /// The inputs that publishing accepts: the object comes after the last
    /// object of its group where that is known, and moving the next location
    /// past it does not overflow.
    pub open spec fn sent_sequence_allowed(self, seq: FullSequence, status: ObjectStatus) -> bool {
        &&& self.max_object_ids.dom().contains(seq.group_id) ==> self.max_object_ids[seq.group_id]
            < seq.object_id
        &&& self.next_sequence.at_or_before(seq) ==> match status {
            ObjectStatus::Normal | ObjectStatus::ObjectDoesNotExist => seq.object_id < u64::MAX,
            ObjectStatus::EndOfGroup => seq.group_id < u64::MAX,
            _ => true,
        }
    }
}


/// A window added with an end group and an end object ends at that very
/// location: it holds that location where the start is not after it, holds
/// nothing later, and in particular not the next object of that group.
pub proof fn lemma_window_ends_at_end_object(
    v: LocalTrackView,
    subscribe_id: u64,
    start: FullSequence,
    g: u64,
    o: u64,
    seq: FullSequence,
)
    ensures
        ({
            let w = SubscribeWindowView::spec_new(
                subscribe_id,
                v.forwarding_preference,
                v.next_sequence,
                start,
                v.window_end(Some(g), Some(o)),
            );
            &&& w.end == Some(FullSequence { group_id: g, object_id: o })
            &&& (start.group_id < g || (start.group_id == g && start.object_id <= o)) ==> w.in_window(
                FullSequence { group_id: g, object_id: o },
            )
            &&& o < u64::MAX ==> !w.in_window(FullSequence { group_id: g, object_id: (o + 1) as u64 })
            &&& w.in_window(seq) ==> (seq.group_id < g || (seq.group_id == g && seq.object_id <= o))
        }),
{
}

/// Publishing never moves the next location back.
pub proof fn lemma_next_sequence_grows(v: LocalTrackView, seq: FullSequence, status: ObjectStatus)
    requires
        v.sent_sequence_allowed(seq, status),
    ensures
        v.next_sequence.at_or_before(v.spec_sent_sequence(seq, status).next_sequence),
{
}

/// Publishing an object that is not before the next location moves the
/// next location past it, unless its status is the end of the track or
/// invalid.
pub proof fn lemma_next_sequence_passes(v: LocalTrackView, seq: FullSequence, status: ObjectStatus)
    requires
        v.sent_sequence_allowed(seq, status),
        v.next_sequence.at_or_before(seq),
        status != ObjectStatus::EndOfTrack,
        status != ObjectStatus::Invalid,
        status != ObjectStatus::GroupDoesNotExist,
    ensures
        seq.before(v.spec_sent_sequence(seq, status).next_sequence),
{
}

impl LocalTrack {
    /// The windows are well formed and map streams as the track does.
    pub closed spec fn wf(&self) -> bool {
        &&& self.windows.wf()
        &&& self.windows.preference() == self.forwarding_preference
    }

    /// The subscribe ids with a window are those of the window order, each
    /// listed once; there are finitely many.
    pub proof fn lemma_windows_finite(&self)
        requires
            self.wf(),
        ensures
            self@.window_order.no_duplicates(),
            self@.windows.dom() == self@.window_order.to_set(),
            self@.windows.dom().finite(),
    {
        self.windows.lemma_order();
    }

    pub fn new(
        full_track_name: FullTrackName,
        forwarding_preference: ObjectForwardingPreference,
        next_sequence: Option<FullSequence>,
    ) -> (t: LocalTrack)
        ensures
            t.wf(),
            t@ == (LocalTrackView {
                full_track_name: full_track_name@,
                forwarding_preference,
                track_alias: None,
                windows: Map::empty(),
                window_order: Seq::empty(),
                next_sequence: match next_sequence {
                    Some(s) => s,
                    None => FullSequence { group_id: 0, object_id: 0 },
                },
                max_object_ids: Map::empty(),
                announce_canceled: false,
            }),
    {
        let t = LocalTrack {
            full_track_name,
            forwarding_preference,
            track_alias: None,
            windows: SubscribeWindows::new(forwarding_preference),
            next_sequence: match next_sequence {
                Some(s) => s,
                None => FullSequence { group_id: 0, object_id: 0 },
            },
            max_object_ids: HashMap::new(),
            announce_canceled: false,
        };
        assert(t.max_object_ids@ =~= Map::<u64, u64>::empty());
        t
    }

    pub fn full_track_name(&self) -> (n: &FullTrackName)
        ensures
            n@ == self@.full_track_name,
    {
        &self.full_track_name
    }

    pub fn track_alias(&self) -> (a: Option<u64>)
        ensures
            a == self@.track_alias,
    {
        self.track_alias
    }

    pub fn set_track_alias(&mut self, track_alias: u64)
        requires
            old(self).wf(),
        ensures
            final(self).wf(),
            final(self)@ == (LocalTrackView { track_alias: Some(track_alias), ..old(self)@ }),
    {
        self.track_alias = Some(track_alias);
    }

    /// The windows that want the object at `sequence`, each once, the last
    /// added first.
    pub fn should_send(&self, sequence: FullSequence) -> (r: Vec<&SubscribeWindow>)
        requires
            self.wf(),
        ensures
            subscribe_ids(r@) == newest_first_holding(self@.window_order, self@.windows, sequence),
            forall|i: int| 0 <= i < r@.len() ==> (#[trigger] r@[i])@ == self@.windows[r@[i]@.subscribe_id]
                && r@[i].wf(),
    {
        self.windows.sequence_is_subscribed(sequence)
    }

    /// Adds the window of a subscription from `start`, ending where
    /// `window_end` says.
    pub fn add_window(
        &mut self,
        subscribe_id: u64,
        start: FullSequence,
        end_group: Option<u64>,
        end_object: Option<u64>,
    )
        requires
            old(self).wf(),
        ensures
            final(self).wf(),
            final(self)@ == (LocalTrackView {
                windows: old(self)@.windows.insert(
                    subscribe_id,
                    SubscribeWindowView::spec_new(
                        subscribe_id,
                        old(self)@.forwarding_preference,
                        old(self)@.next_sequence,
                        start,
                        old(self)@.window_end(end_group, end_object),
                    ),
                ),
                window_order: without_id(old(self)@.window_order, subscribe_id).push(subscribe_id),
                ..old(self)@
            }),
            final(self)@.windows.dom().len() > 0,
    {
        let end = match end_group {
            Some(end_group) => match end_object {
                Some(end_object) => Some(FullSequence { group_id: end_group, object_id: end_object }),
                None => {
                    let max_object_id = self.max_object_ids.get(&end_group);
                    match max_object_id {
                        Some(m) => {
                            if end_group >= self.next_sequence.group_id {
                                Some(FullSequence { group_id: end_group, object_id: u64::MAX })
                            } else {
                                Some(FullSequence { group_id: end_group, object_id: *m })
                            }
                        },
                        None => Some(FullSequence { group_id: end_group, object_id: u64::MAX }),
                    }
                },
            },
            None => None,
        };
        self.windows.add_window(subscribe_id, self.next_sequence, start, end);
        proof {
            self.lemma_windows_finite();
            assert(self@.windows.dom().contains(subscribe_id));
        }
    }

    pub fn delete_window(&mut self, subscribe_id: u64)
        requires
            old(self).wf(),
        ensures
            final(self).wf(),
            final(self)@ == (LocalTrackView {
                windows: old(self)@.windows.remove(subscribe_id),
                window_order: without_id(old(self)@.window_order, subscribe_id),
                ..old(self)@
            }),
    {
        self.windows.remove_window(subscribe_id);
    }

    /// One past the largest location published.
    pub fn next_sequence(&self) -> (s: &FullSequence)
        ensures
            *s == self@.next_sequence,
    {
        &self.next_sequence
    }

    /// Records that the object at `sequence` was published with `status`.
    pub fn sent_sequence(&mut self, sequence: FullSequence, status: ObjectStatus)
        requires
            old(self).wf(),
            old(self)@.sent_sequence_allowed(sequence, status),
        ensures
            final(self).wf(),
            final(self)@ == old(self)@.spec_sent_sequence(sequence, status),
    {
        match status {
            ObjectStatus::Normal | ObjectStatus::ObjectDoesNotExist => {
                if self.next_sequence.is_at_or_before(&sequence) {
                    self.next_sequence = sequence.next();
                }
            },
            ObjectStatus::GroupDoesNotExist => {
                self.max_object_ids.insert(sequence.group_id, 0);
            },
            ObjectStatus::EndOfGroup => {
                self.max_object_ids.insert(sequence.group_id, sequence.object_id);
                if self.next_sequence.is_at_or_before(&sequence) {
                    self.next_sequence = FullSequence { group_id: sequence.group_id + 1, object_id: 0 };
                }
            },
            ObjectStatus::EndOfTrack => {
                self.max_object_ids.insert(sequence.group_id, sequence.object_id);
            },
            ObjectStatus::Invalid => {},
        }
    }

    pub fn has_subscriber(&self) -> (b: bool)
        ensures
            b == (self@.windows.dom().len() > 0),
    {
        !self.windows.is_empty()
    }

    pub fn get_window(&self, subscribe_id: u64) -> (r: Option<&SubscribeWindow>)
        requires
            self.wf(),
        ensures
            match r {
                Some(w) => self@.windows.dom().contains(subscribe_id) && w@ == self@.windows[subscribe_id]
                    && w.wf(),
                None => !self@.windows.dom().contains(subscribe_id),
            },
    {
        self.windows.get_window(subscribe_id)
    }

    pub fn forwarding_preference(&self) -> (p: ObjectForwardingPreference)
        ensures
            p == self@.forwarding_preference,
    {
        self.forwarding_preference
    }

    pub fn set_announce_cancel(&mut self)
        requires
            old(self).wf(),
        ensures
            final(self).wf(),
            final(self)@ == (LocalTrackView { announce_canceled: true, ..old(self)@ }),
    {
        self.announce_canceled = true;
    }

    pub fn canceled(&self) -> (b: bool)
        ensures
            b == self@.announce_canceled,
    {
        self.announce_canceled
    }
}

} // verus!
