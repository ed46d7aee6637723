//! Subscriptions to local tracks: the locations subscribed, the streams
//! involved, and the subscribe ids.
use crate::message::object::{ObjectForwardingPreference, ObjectStatus};
use crate::message::FullSequence;
use crate::webtransport::StreamId;
use std::collections::HashMap;
use vstd::std_specs::iter::IteratorSpec;
use vstd::prelude::*;

verus! {

broadcast use vstd::std_specs::hash::group_hash_axioms;

/// The map that a list of (location, stream) entries stands for, where no
/// location occurs twice.
pub open spec fn streams_map(s: Seq<(FullSequence, StreamId)>) -> Map<FullSequence, StreamId> {
    Map::new(
        |k: FullSequence| exists|i: int| 0 <= i < s.len() && s[i].0 == k,
        |k: FullSequence| s[choose|i: int| 0 <= i < s.len() && s[i].0 == k].1,
    )
}

/// No location occurs twice in the list.
pub open spec fn distinct_keys(s: Seq<(FullSequence, StreamId)>) -> bool {
    forall|i: int, j: int| 0 <= i < s.len() && 0 <= j < s.len() && i != j ==> s[i].0 != s[j].0
}

/// The entry at `i` is what the map holds under its location.
proof fn lemma_streams_at(s: Seq<(FullSequence, StreamId)>, i: int)
    requires
        distinct_keys(s),
        0 <= i < s.len(),
    ensures
        streams_map(s).dom().contains(s[i].0),
        streams_map(s)[s[i].0] == s[i].1,
{
    let k = s[i].0;
    assert(exists|j: int| 0 <= j < s.len() && s[j].0 == k);
    let j = choose|j: int| 0 <= j < s.len() && s[j].0 == k;
    assert(j == i);
}

/// The content of a [`SubscribeWindow`].
pub struct SubscribeWindowView {
    pub subscribe_id: u64,
    pub start: FullSequence,
    pub end: Option<FullSequence>,
    pub largest_delivered: Option<FullSequence>,
    pub next_to_backfill: Option<FullSequence>,
    pub original_next_object: FullSequence,
    pub send_streams: Map<FullSequence, StreamId>,
    pub forwarding_preference: ObjectForwardingPreference,
}

impl SubscribeWindowView {
    /// `seq` lies between the start and the end (both included; no end is no
    /// limit).
    pub open spec fn in_window(self, seq: FullSequence) -> bool {
        &&& !seq.before(self.start)
        &&& match self.end {
            Some(e) => seq.at_or_before(e),
            None => true,
        }
    }

    /// The window of a new subscription: objects before the first one not
    /// yet published are to be sent again, starting from `start`.
    pub open spec fn spec_new(
        subscribe_id: u64,
        forwarding_preference: ObjectForwardingPreference,
        next_object: FullSequence,
        start: FullSequence,
        end: Option<FullSequence>,
    ) -> SubscribeWindowView {
        SubscribeWindowView {
            subscribe_id,
            start,
            end,
            largest_delivered: None,
            next_to_backfill: if start.before(next_object) {
                Some(start)
            } else {
                None
            },
            original_next_object: next_object,
            send_streams: Map::empty(),
            forwarding_preference,
        }
    }

    /// What sending the object at `seq` with `status` does to the window:
    /// the largest location delivered, and the next location to send again;
    /// and whether that completes the subscription.
    pub open spec fn spec_on_object_sent(self, seq: FullSequence, status: ObjectStatus) -> (
        SubscribeWindowView,
        bool,
    ) {
        let largest = match self.largest_delivered {
            Some(l) => if l.before(seq) {
                Some(seq)
            } else {
                self.largest_delivered
            },
            None => Some(seq),
        };
        let backfill = if seq.before(self.original_next_object) {
            let b1 = match self.next_to_backfill {
                Some(b) => if b.at_or_before(seq) {
                    match status {
                        ObjectStatus::Normal | ObjectStatus::ObjectDoesNotExist => Some(
                            FullSequence { group_id: seq.group_id, object_id: (seq.object_id + 1) as u64 },
                        ),
                        ObjectStatus::EndOfGroup => Some(
                            FullSequence { group_id: (seq.group_id + 1) as u64, object_id: 0 },
                        ),
                        _ => None,
                    }
                } else {
                    self.next_to_backfill
                },
                None => None,
            };
            match b1 {
                Some(b) => if b == self.original_next_object || self.end == Some(b) {
                    None
                } else {
                    b1
                },
                None => None,
            }
        } else {
            self.next_to_backfill
        };
        let done = backfill is None && match self.end {
            Some(e) => e.at_or_before(seq),
            None => false,
        };
        (SubscribeWindowView { largest_delivered: largest, next_to_backfill: backfill, ..self }, done)
    }

    /// Sending the object at `seq` with `status` stays within the numbers:
    /// moving the next location to send again past it does not overflow.
    pub open spec fn object_sent_defined(self, seq: FullSequence, status: ObjectStatus) -> bool {
        let moves = match self.next_to_backfill {
            Some(b) => seq.before(self.original_next_object) && b.at_or_before(seq),
            None => false,
        };
        moves ==> match status {
            ObjectStatus::Normal | ObjectStatus::ObjectDoesNotExist => seq.object_id < u64::MAX,
            ObjectStatus::EndOfGroup => seq.group_id < u64::MAX,
            _ => true,
        }
    }

    /// The new start and end, where they do not widen the window: the new
    /// start lies in the window, and the end does not move later nor go
    /// away.
    pub open spec fn spec_update_start_end(
        self,
        start: FullSequence,
        end: Option<FullSequence>,
    ) -> (SubscribeWindowView, bool) {
        let ok = self.in_window(start) && match self.end {
            Some(old_end) => match end {
                Some(new_end) => !old_end.before(new_end),
                None => false,
            },
            None => true,
        };
        if ok {
            (SubscribeWindowView { start, end, ..self }, true)
        } else {
            (self, false)
        }
    }
}

/// Updating the start and end of a window never lets in a location that the
/// window did not hold.
pub proof fn lemma_update_narrows(v: SubscribeWindowView, start: FullSequence, end: Option<FullSequence>, seq: FullSequence)
    requires
        v.spec_update_start_end(start, end).0.in_window(seq),
    ensures
        v.in_window(seq),
{
}

/// An update is accepted exactly where it does not widen the window: the new
/// start is neither before the old start nor after the old end, and where the
/// window has an end, the new end is given and is not later than it (an
/// equal end is accepted). An accepted update sets exactly that start and
/// end; a refused one leaves the window as it was.
pub proof fn lemma_update_accepts_narrowing(v: SubscribeWindowView, start: FullSequence, end: Option<FullSequence>)
    ensures
        ({
            let start_in = !(start.group_id < v.start.group_id || (start.group_id == v.start.group_id
                && start.object_id < v.start.object_id)) && match v.end {
                Some(e) => start.group_id < e.group_id || (start.group_id == e.group_id
                    && start.object_id <= e.object_id),
                None => true,
            };
            let end_kept = match v.end {
                Some(old_end) => match end {
                    Some(new_end) => new_end.group_id < old_end.group_id || (new_end.group_id
                        == old_end.group_id && new_end.object_id <= old_end.object_id),
                    None => false,
                },
                None => true,
            };
            let (after, accepted) = v.spec_update_start_end(start, end);
            &&& accepted == (start_in && end_kept)
            &&& accepted ==> after == (SubscribeWindowView { start, end, ..v })
            &&& !accepted ==> after == v
        }),
{
}

/// Sending an object never lowers the largest location delivered, and
/// leaves it at or after the object sent.
pub proof fn lemma_largest_delivered_grows(v: SubscribeWindowView, seq: FullSequence, status: ObjectStatus)
    ensures
        v.spec_on_object_sent(seq, status).0.largest_delivered matches Some(l) && seq.at_or_before(l)
            && (v.largest_delivered matches Some(old_l) ==> old_l.at_or_before(l)),
{
}

/// The location under which the stream of `seq` is kept: (0, 0) for the
/// whole track, (group, 0) for a group, the location itself for an object,
/// and (0, 0) for datagrams, which have no stream.
pub open spec fn spec_sequence_to_index(pref: ObjectForwardingPreference, seq: FullSequence) -> FullSequence {
    match pref {
        ObjectForwardingPreference::Track => FullSequence { group_id: 0, object_id: 0 },
        ObjectForwardingPreference::Group => FullSequence { group_id: seq.group_id, object_id: 0 },
        ObjectForwardingPreference::Object => seq,
        ObjectForwardingPreference::Datagram => FullSequence { group_id: 0, object_id: 0 },
    }
}

/// A subscription to a local track.
#[derive(Default, Debug, Clone, PartialEq, Eq)]
pub struct SubscribeWindow {
    subscribe_id: u64,
    start: FullSequence,
    end: Option<FullSequence>,
    largest_delivered: Option<FullSequence>,
    // The next location to send again, because it was published before the
    // subscription; none if nothing is to be sent again.
    next_to_backfill: Option<FullSequence>,
    // The first unpublished location when the subscriber arrived.
    original_next_object: FullSequence,
    // The open streams of this subscription, by the location of
    // `sequence_to_index`.
    send_streams: Vec<(FullSequence, StreamId)>,
    forwarding_preference: ObjectForwardingPreference,
}

impl View for SubscribeWindow {
    type V = SubscribeWindowView;

    closed spec fn view(&self) -> SubscribeWindowView {
        SubscribeWindowView {
            subscribe_id: self.subscribe_id,
            start: self.start,
            end: self.end,
            largest_delivered: self.largest_delivered,
            next_to_backfill: self.next_to_backfill,
            original_next_object: self.original_next_object,
            send_streams: streams_map(self.send_streams@),
            forwarding_preference: self.forwarding_preference,
        }
    }
}

impl SubscribeWindow {
    /// No location has two streams.
    pub closed spec fn wf(&self) -> bool {
        distinct_keys(self.send_streams@)
    }

    pub fn new(
        subscribe_id: u64,
        forwarding_preference: ObjectForwardingPreference,
        next_object: FullSequence,
        start: FullSequence,
        end: Option<FullSequence>,
    ) -> (w: SubscribeWindow)
        ensures
            w.wf(),
            w@ == SubscribeWindowView::spec_new(
                subscribe_id,
                forwarding_preference,
                next_object,
                start,
                end,
            ),
    {
        let w = SubscribeWindow {
            subscribe_id,
            start,
            end,
            largest_delivered: None,
            next_to_backfill: if start.is_before(&next_object) {
                Some(start)
            } else {
                None
            },
            original_next_object: next_object,
            send_streams: Vec::new(),
            forwarding_preference,
        };
        assert(streams_map(w.send_streams@) =~= Map::<FullSequence, StreamId>::empty());
        w
    }

    pub fn subscribe_id(&self) -> (id: u64)
        ensures
            id == self@.subscribe_id,
    {
        self.subscribe_id
    }

    pub fn in_window(&self, seq: FullSequence) -> (b: bool)
        ensures
            b == self@.in_window(seq),
    {
        if seq.is_before(&self.start) {
            return false;
        }
        match &self.end {
            Some(end) => seq.is_at_or_before(end),
            None => true,
        }
    }

    fn sequence_to_index(&self, seq: FullSequence) -> (i: FullSequence)
        ensures
            i == spec_sequence_to_index(self@.forwarding_preference, seq),
    {
        match self.forwarding_preference {
            ObjectForwardingPreference::Track => FullSequence { group_id: 0, object_id: 0 },
            ObjectForwardingPreference::Group => FullSequence { group_id: seq.group_id, object_id: 0 },
            ObjectForwardingPreference::Object => seq,
            ObjectForwardingPreference::Datagram => FullSequence { group_id: 0, object_id: 0 },
        }
    }

    /// The place of `index` in the list of streams.
    fn find(&self, index: FullSequence) -> (r: Option<usize>)
        requires
            self.wf(),
        ensures
            match r {
                Some(i) => i < self.send_streams@.len() && self.send_streams@[i as int].0 == index,
                None => !self@.send_streams.dom().contains(index),
            },
    {
        let mut i: usize = 0;
        while i < self.send_streams.len()
            invariant
                i <= self.send_streams@.len(),
                forall|j: int| 0 <= j < i ==> self.send_streams@[j].0 != index,
            decreases self.send_streams@.len() - i,
        {
            if self.send_streams[i].0 == index {
                return Some(i);
            }
            i = i + 1;
        }
        None
    }

    /// Returns the stream to send `seq` on, if already opened.
    pub fn get_stream_for_sequence(&self, seq: FullSequence) -> (r: Option<&StreamId>)
        requires
            self.wf(),
        ensures
            match r {
                Some(id) => self@.send_streams.dom().contains(
                    spec_sequence_to_index(self@.forwarding_preference, seq),
                ) && *id == self@.send_streams[spec_sequence_to_index(
                    self@.forwarding_preference,
                    seq,
                )],
                None => !self@.send_streams.dom().contains(
                    spec_sequence_to_index(self@.forwarding_preference, seq),
                ),
            },
    {
        let index = self.sequence_to_index(seq);
        match self.find(index) {
            Some(i) => {
                proof {
                    lemma_streams_at(self.send_streams@, i as int);
                }
                Some(&self.send_streams[i].1)
            },
            None => None,
        }
    }

    /// Records the stream used for the track, group or object of `seq`,
    /// where `seq` lies in the window, the track does not go by datagrams, and
    /// no stream is recorded there yet; otherwise nothing changes.
    pub fn add_stream(&mut self, group_id: u64, object_id: u64, stream_id: StreamId)
        requires
            old(self).wf(),
        ensures
            final(self).wf(),
            ({
                let seq = FullSequence { group_id, object_id };
                let index = spec_sequence_to_index(old(self)@.forwarding_preference, seq);
                final(self)@ == if old(self)@.in_window(seq) && old(self)@.forwarding_preference
                    != ObjectForwardingPreference::Datagram && !old(
                    self,
                )@.send_streams.dom().contains(index) {
                    SubscribeWindowView {
                        send_streams: old(self)@.send_streams.insert(index, stream_id),
                        ..old(self)@
                    }
                } else {
                    old(self)@
                }
            }),
    {
        let seq = FullSequence { group_id, object_id };
        if !self.in_window(seq) {
            return;
        }
        let index = self.sequence_to_index(seq);
        if self.forwarding_preference == ObjectForwardingPreference::Datagram {
            return;
        }
        if self.find(index).is_some() {
            return;
        }
        let ghost old_s = self.send_streams@;
        self.send_streams.push((index, stream_id));
        proof {
            let s = self.send_streams@;
            assert(s == old_s.push((index, stream_id)));
            assert forall|i: int, j: int|
                0 <= i < s.len() && 0 <= j < s.len() && i != j implies s[i].0 != s[j].0 by {
                if i == s.len() - 1 {
                    assert(s[j] == old_s[j]);
                    assert(streams_map(old_s).dom().contains(old_s[j].0));
                } else if j == s.len() - 1 {
                    assert(s[i] == old_s[i]);
                    assert(streams_map(old_s).dom().contains(old_s[i].0));
                }
            }
            assert forall|k: FullSequence| #[trigger] streams_map(s).dom().contains(k) <==> streams_map(
                old_s,
            ).insert(index, stream_id).dom().contains(k) by {
                if streams_map(s).dom().contains(k) {
                    let i = choose|i: int| 0 <= i < s.len() && s[i].0 == k;
                    if i < old_s.len() {
                        assert(old_s[i].0 == k);
                    }
                }
                if streams_map(old_s).dom().contains(k) {
                    let i = choose|i: int| 0 <= i < old_s.len() && old_s[i].0 == k;
                    assert(s[i].0 == k);
                }
                if k == index {
                    assert(s[s.len() - 1].0 == k);
                }
            }
            assert forall|k: FullSequence| #[trigger] streams_map(s).dom().contains(k) implies streams_map(
                s,
            )[k] == streams_map(old_s).insert(index, stream_id)[k] by {
                let i = choose|i: int| 0 <= i < s.len() && s[i].0 == k;
                lemma_streams_at(s, i);
                if i < old_s.len() {
                    lemma_streams_at(old_s, i);
                }
            }
            assert(streams_map(s) =~= streams_map(old_s).insert(index, stream_id));
        }
    }

    /// Forgets the stream of the track, group or object of the location.
    pub fn remove_stream(&mut self, group_id: u64, object_id: u64)
        requires
            old(self).wf(),
        ensures
            final(self).wf(),
            final(self)@ == (SubscribeWindowView {
                send_streams: old(self)@.send_streams.remove(
                    spec_sequence_to_index(
                        old(self)@.forwarding_preference,
                        FullSequence { group_id, object_id },
                    ),
                ),
                ..old(self)@
            }),
    {
        let index = self.sequence_to_index(FullSequence { group_id, object_id });
        match self.find(index) {
            Some(i) => {
                let ghost old_s = self.send_streams@;
                self.send_streams.remove(i);
                proof {
                    let s = self.send_streams@;
                    assert(s == old_s.remove(i as int));
                    assert forall|a: int, b: int|
                        0 <= a < s.len() && 0 <= b < s.len() && a != b implies s[a].0 != s[b].0 by {
                        let a2 = if a < i {
                            a
                        } else {
                            a + 1
                        };
                        let b2 = if b < i {
                            b
                        } else {
                            b + 1
                        };
                        assert(s[a] == old_s[a2]);
                        assert(s[b] == old_s[b2]);
                    }
                    assert forall|k: FullSequence| #[trigger] streams_map(s).dom().contains(k) <==> streams_map(
                        old_s,
                    ).remove(index).dom().contains(k) by {
                        if streams_map(s).dom().contains(k) {
                            let a = choose|a: int| 0 <= a < s.len() && s[a].0 == k;
                            let a2 = if a < i {
                                a
                            } else {
                                a + 1
                            };
                            assert(old_s[a2].0 == k);
                            assert(a2 != i);
                        }
                        if streams_map(old_s).dom().contains(k) && k != index {
                            let a = choose|a: int| 0 <= a < old_s.len() && old_s[a].0 == k;
                            assert(a != i);
                            if a < i {
                                assert(s[a].0 == k);
                            } else {
                                assert(s[a - 1].0 == k);
                            }
                        }
                    }
                    assert forall|k: FullSequence| #[trigger] streams_map(s).dom().contains(k) implies streams_map(
                        s,
                    )[k] == streams_map(old_s)[k] by {
                        let a = choose|a: int| 0 <= a < s.len() && s[a].0 == k;
                        lemma_streams_at(s, a);
                        let a2 = if a < i {
                            a
                        } else {
                            a + 1
                        };
                        assert(s[a] == old_s[a2]);
                        lemma_streams_at(old_s, a2);
                    }
                    assert(streams_map(s) =~= streams_map(old_s).remove(index));
                }
            },
            None => {
                assert(self@.send_streams.remove(index) =~= self@.send_streams);
            },
        }
    }

    pub fn has_end(&self) -> (b: bool)
        ensures
            b == self@.end is Some,
    {
        self.end.is_some()
    }

    pub fn forwarding_preference(&self) -> (p: ObjectForwardingPreference)
        ensures
            p == self@.forwarding_preference,
    {
        self.forwarding_preference
    }

    /// Records that the object at `sequence` was sent with `status`; returns
    /// true if that completes the subscription.
    pub fn on_object_sent(&mut self, sequence: FullSequence, status: ObjectStatus) -> (done: bool)
        requires
            old(self)@.object_sent_defined(sequence, status),
        ensures
            (final(self)@, done) == old(self)@.spec_on_object_sent(sequence, status),
            final(self).wf() == old(self).wf(),
    {
        let update = match &self.largest_delivered {
            Some(largest) => largest.is_before(&sequence),
            None => true,
        };
        if update {
            self.largest_delivered = Some(sequence);
        }
        if sequence.is_before(&self.original_next_object) {
            match self.next_to_backfill {
                Some(next) => {
                    if next.is_at_or_before(&sequence) {
                        match status {
                            ObjectStatus::Normal | ObjectStatus::ObjectDoesNotExist => {
                                self.next_to_backfill = Some(sequence.next());
                            },
                            ObjectStatus::EndOfGroup => {
                                self.next_to_backfill = Some(
                                    FullSequence { group_id: sequence.group_id + 1, object_id: 0 },
                                );
                            },
                            _ => {
                                self.next_to_backfill = None;
                            },
                        }
                    }
                },
                None => {},
            }
            match self.next_to_backfill {
                Some(next) => {
                    let at_end = match &self.end {
                        Some(end) => next == *end,
                        None => false,
                    };
                    if next == self.original_next_object || at_end {
                        self.next_to_backfill = None;
                    }
                },
                None => {},
            }
        }
        let reached_end = match &self.end {
            Some(end) => end.is_at_or_before(&sequence),
            None => false,
        };
        self.next_to_backfill.is_none() && reached_end
    }

    pub fn largest_delivered(&self) -> (l: Option<FullSequence>)
        ensures
            l == self@.largest_delivered,
    {
        self.largest_delivered
    }

    /// Narrows the window; returns true if the new start and end are valid
    /// (the window cannot grow), leaving it as it was otherwise.
    pub fn update_start_end(&mut self, start: FullSequence, end: Option<FullSequence>) -> (ok: bool)
        ensures
            (final(self)@, ok) == old(self)@.spec_update_start_end(start, end),
            final(self).wf() == old(self).wf(),
    {
        if !self.in_window(start) {
            return false;
        }
        match &self.end {
            Some(old_end) => match &end {
                Some(new_end) => {
                    if old_end.is_before(new_end) {
                        return false;
                    }
                },
                None => {
                    return false;
                },
            },
            None => {},
        }
        self.start = start;
        self.end = end;
        true
    }
}

/// The subscription windows of a track, by subscribe id, with the ids in
/// the order their windows were added.
pub struct SubscribeWindows {
    windows: HashMap<u64, SubscribeWindow>,
    order: Vec<u64>,
    forwarding_preference: ObjectForwardingPreference,
}

impl View for SubscribeWindows {
    type V = Map<u64, SubscribeWindowView>;

    closed spec fn view(&self) -> Map<u64, SubscribeWindowView> {
        self.windows@.map_values(|w: SubscribeWindow| w@)
    }
}

/// The ids of `ids` other than `id`, in their order.
pub open spec fn without_id(ids: Seq<u64>, id: u64) -> Seq<u64> {
    ids.filter(|k: u64| k != id)
}

/// The ids of `ids` whose windows hold `seq`, the last added first.
pub open spec fn newest_first_holding(
    ids: Seq<u64>,
    windows: Map<u64, SubscribeWindowView>,
    seq: FullSequence,
) -> Seq<u64> {
    ids.reverse().filter(|id: u64| windows[id].in_window(seq))
}

/// The ids of `v` other than `id`, in their order.
fn without(v: &Vec<u64>, id: u64) -> (r: Vec<u64>)
    ensures
        r@ == without_id(v@, id),
        forall|x: u64| #[trigger] r@.contains(x) <==> (v@.contains(x) && x != id),
        v@.no_duplicates() ==> r@.no_duplicates(),
{
    let mut r: Vec<u64> = Vec::new();
    let mut i: usize = 0;
    proof {
        reveal(Seq::filter);
        assert(v@.take(0) =~= Seq::<u64>::empty());
        assert(r@ =~= without_id(v@.take(0), id));
    }
    while i < v.len()
        invariant
            i <= v@.len(),
            r@ == without_id(v@.take(i as int), id),
            forall|x: u64| #[trigger] r@.contains(x) <==> (v@.take(i as int).contains(x) && x != id),
            v@.no_duplicates() ==> r@.no_duplicates(),
        decreases v@.len() - i,
    {
        let k = v[i];
        let ghost before = r@;
        proof {
            reveal(Seq::filter);
            assert(v@.take(i + 1).drop_last() =~= v@.take(i as int));
            assert(v@.take(i + 1).last() == k);
            let t0 = v@.take(i as int);
            let t1 = v@.take(i + 1);
            assert forall|x: u64| #[trigger] t1.contains(x) <==> (t0.contains(x) || x == k) by {
                if t1.contains(x) {
                    let j = choose|j: int| 0 <= j < t1.len() && t1[j] == x;
                    if j < i {
                        assert(t0[j] == x);
                    }
                }
                if t0.contains(x) {
                    let j = choose|j: int| 0 <= j < t0.len() && t0[j] == x;
                    assert(t1[j] == x);
                }
                if x == k {
                    assert(t1[i as int] == x);
                }
            }
            if v@.no_duplicates() && k != id {
                assert(!t0.contains(k)) by {
                    if t0.contains(k) {
                        let j = choose|j: int| 0 <= j < t0.len() && t0[j] == k;
                        assert(v@[j] == v@[i as int]);
                    }
                }
            }
        }
        if k != id {
            r.push(k);
            proof {
                if v@.no_duplicates() {
                    assert forall|a: int, b: int| 0 <= a < b < r@.len() implies r@[a] != r@[b] by {
                        if b == r@.len() - 1 {
                            assert(before[a] == r@[a]);
                            assert(before.contains(r@[a]));
                        } else {
                            assert(before[a] == r@[a]);
                            assert(before[b] == r@[b]);
                        }
                    }
                }
                assert forall|x: u64| #[trigger] r@.contains(x) <==> (v@.take(i + 1).contains(x) && x != id) by {
                    if r@.contains(x) && x != k {
                        let j = choose|j: int| 0 <= j < r@.len() && r@[j] == x;
                        assert(before[j] == x);
                        assert(before.contains(x));
                    }
                    if before.contains(x) {
                        let j = choose|j: int| 0 <= j < before.len() && before[j] == x;
                        assert(r@[j] == x);
                    }
                    if x == k {
                        assert(r@[before.len() as int] == x);
                    }
                }
            }
        }
        i = i + 1;
    }
    proof {
        assert(v@.take(v@.len() as int) =~= v@);
    }
    r
}

impl SubscribeWindows {
    /// Each window is well formed, is kept under its own subscribe id, and
    /// maps streams as the track does; each id with a window is listed once
    /// in the order of addition, and no other id is.
    pub closed spec fn wf(&self) -> bool {
        &&& forall|id: u64| #[trigger]
            self.windows@.dom().contains(id) ==> {
                &&& self.windows@[id].wf()
                &&& self.windows@[id]@.subscribe_id == id
                &&& self.windows@[id]@.forwarding_preference == self.forwarding_preference
            }
        &&& self.order@.no_duplicates()
        &&& forall|id: u64| #[trigger] self.order@.contains(id) <==> self.windows@.dom().contains(id)
    }

    /// How the windows map streams.
    pub closed spec fn preference(&self) -> ObjectForwardingPreference {
        self.forwarding_preference
    }

    /// The subscribe ids with a window, in the order their windows were added.
    pub closed spec fn order(&self) -> Seq<u64> {
        self.order@
    }

    /// The ids with a window are those listed in the order, each once; there
    /// are finitely many.
    pub proof fn lemma_order(&self)
        requires
            self.wf(),
        ensures
            self.order().no_duplicates(),
            self@.dom() == self.order().to_set(),
            self@.dom().finite(),
    {
        assert(self@.dom() =~= self.order().to_set());
    }

    pub fn new(forwarding_preference: ObjectForwardingPreference) -> (w: SubscribeWindows)
        ensures
            w.wf(),
            w@ == Map::<u64, SubscribeWindowView>::empty(),
            w.order() == Seq::<u64>::empty(),
            w.preference() == forwarding_preference,
    {
        let w = SubscribeWindows { windows: HashMap::new(), order: Vec::new(), forwarding_preference };
        assert(w@ =~= Map::<u64, SubscribeWindowView>::empty());
        w
    }

    /// The windows that hold `sequence`, each once, the last added first.
    pub fn sequence_is_subscribed(&self, sequence: FullSequence) -> (r: Vec<&SubscribeWindow>)
        requires
            self.wf(),
        ensures
            subscribe_ids(r@) == newest_first_holding(self.order(), self@, sequence),
            forall|i: int| 0 <= i < r@.len() ==> (#[trigger] r@[i])@ == self@[r@[i]@.subscribe_id]
                && r@[i].wf(),
    {
        let mut out: Vec<&SubscribeWindow> = Vec::new();
        let ghost rev = self.order@.reverse();
        let ghost pred = |id: u64| self@[id].in_window(sequence);
        let n = self.order.len();
        let mut j: usize = 0;
        proof {
            reveal(Seq::filter);
            assert(rev.take(0) =~= Seq::<u64>::empty());
            assert(subscribe_ids(out@) =~= Seq::<u64>::empty());
        }
        while j < n
            invariant
                self.wf(),
                n == self.order@.len(),
                rev == self.order@.reverse(),
                pred == (|id: u64| self@[id].in_window(sequence)),
                j <= n,
                subscribe_ids(out@) == rev.take(j as int).filter(pred),
                forall|i: int| 0 <= i < out@.len() ==> (#[trigger] out@[i])@ == self@[out@[i]@.subscribe_id]
                    && out@[i].wf(),
            decreases n - j,
        {
            let id = self.order[n - 1 - j];
            proof {
                reveal(Seq::filter);
                assert(rev[j as int] == id);
                assert(rev.take(j + 1).drop_last() =~= rev.take(j as int));
                assert(rev.take(j + 1).last() == id);
                assert(self.order@.contains(id));
            }
            let ghost before = out@;
            match self.windows.get(&id) {
                Some(w) => {
                    if w.in_window(sequence) {
                        out.push(w);
                        proof {
                            assert(subscribe_ids(out@) =~= subscribe_ids(before).push(id));
                        }
                    }
                },
                None => {
                    proof {
                        assert(false);
                    }
                },
            }
            j = j + 1;
        }
        proof {
            assert(rev.take(n as int) =~= rev);
        }
        out
    }

    /// Adds the window of a subscription, replacing any window under the
    /// same id; the id becomes the last added.
    pub fn add_window(
        &mut self,
        subscribe_id: u64,
        next_object: FullSequence,
        start: FullSequence,
        end: Option<FullSequence>,
    )
        requires
            old(self).wf(),
        ensures
            final(self).wf(),
            final(self).preference() == old(self).preference(),
            final(self)@ == old(self)@.insert(
                subscribe_id,
                SubscribeWindowView::spec_new(
                    subscribe_id,
                    old(self).preference(),
                    next_object,
                    start,
                    end,
                ),
            ),
            final(self).order() == without_id(old(self).order(), subscribe_id).push(subscribe_id),
    {
        let w = SubscribeWindow::new(subscribe_id, self.forwarding_preference, next_object, start, end);
        self.windows.insert(subscribe_id, w);
        let mut o = without(&self.order, subscribe_id);
        let ghost o0 = o@;
        o.push(subscribe_id);
        self.order = o;
        proof {
            assert(self.order@.drop_last() =~= o0);
            assert(self@ =~= old(self)@.insert(subscribe_id, w@));
            assert forall|x: u64| #[trigger] self.order@.contains(x) <==> self.windows@.dom().contains(x) by {
                if self.order@.contains(x) && x != subscribe_id {
                    let k = choose|k: int| 0 <= k < self.order@.len() && self.order@[k] == x;
                    assert(self.order@.drop_last()[k] == x);
                    assert(self.order@.drop_last().contains(x));
                }
                if x == subscribe_id {
                    assert(self.order@[self.order@.len() - 1] == x);
                }
                if self.windows@.dom().contains(x) && x != subscribe_id {
                    assert(old(self).order@.contains(x));
                    assert(self.order@.drop_last().contains(x));
                    let k = choose|k: int| 0 <= k < self.order@.drop_last().len() && self.order@.drop_last()[k] == x;
                    assert(self.order@[k] == x);
                }
            }
            assert(self.order@.drop_last().no_duplicates());
            assert(!self.order@.drop_last().contains(subscribe_id));
            assert forall|a: int, b: int| 0 <= a < b < self.order@.len() implies self.order@[a] != self.order@[b] by {
                if b == self.order@.len() - 1 {
                    assert(self.order@.drop_last()[a] == self.order@[a]);
                } else {
                    assert(self.order@.drop_last()[a] == self.order@[a]);
                    assert(self.order@.drop_last()[b] == self.order@[b]);
                }
            }
        }
    }

    /// Removes the window of a subscription.
    pub fn remove_window(&mut self, subscribe_id: u64)
        requires
            old(self).wf(),
        ensures
            final(self).wf(),
            final(self).preference() == old(self).preference(),
            final(self)@ == old(self)@.remove(subscribe_id),
            final(self).order() == without_id(old(self).order(), subscribe_id),
    {
        self.windows.remove(&subscribe_id);
        self.order = without(&self.order, subscribe_id);
        proof {
            assert(self@ =~= old(self)@.remove(subscribe_id));
        }
    }

    pub fn is_empty(&self) -> (b: bool)
        ensures
            b == (self@.dom().len() == 0),
    {
        proof {
            assert(self@.dom() =~= self.windows@.dom());
        }
        self.windows.is_empty()
    }

    pub fn get_window(&self, subscribe_id: u64) -> (r: Option<&SubscribeWindow>)
        requires
            self.wf(),
        ensures
            match r {
                Some(w) => self@.dom().contains(subscribe_id) && w@ == self@[subscribe_id] && w.wf(),
                None => !self@.dom().contains(subscribe_id),
            },
    {
        self.windows.get(&subscribe_id)
    }
}

/// The subscribe ids of a list of windows.
pub open spec fn subscribe_ids(ws: Seq<&SubscribeWindow>) -> Seq<u64> {
    ws.map_values(|w: &SubscribeWindow| w@.subscribe_id)
}

} // verus!
