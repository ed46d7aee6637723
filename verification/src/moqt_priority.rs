//! Priorities of MoQT streams, and how they map onto the WebTransport send
//! order (a larger send order is sent first).
use crate::webtransport::SendOrder;
use vstd::prelude::*;

verus! {

/// Priority that can be assigned to a track or individual streams associated
/// with the track by either the publisher or the subscriber.
pub type MoqtPriority = u8;

/// Indicates the desired order of delivering groups associated with a given
/// track.
#[derive(Default, Debug, Copy, Clone, Eq, PartialEq, Structural)]
pub enum MoqtDeliveryOrder {
    #[default]
    kAscending,
    kDescending,
}

/// WebTransport send order set on the MoQT control stream.
pub const kMoqtControlStreamSendOrder: SendOrder = i64::MAX;

/// WebTransport send order set on MoQT bandwidth probe streams.
pub const kMoqtProbeStreamSendOrder: SendOrder = i64::MIN;

/// The largest number of `n` bits.
pub open spec fn all_ones(n: u64) -> u64 {
    ((1u64 << n) - 1) as u64
}

/// `number` counted down from the largest number of `num_bits` bits.
fn flip(num_bits: u64, number: u64) -> (r: u64)
    requires
        num_bits <= 63,
        number <= all_ones(num_bits),
    ensures
        r == all_ones(num_bits) - number,
{
    assert(1u64 << num_bits >= 1) by (bit_vector)
        requires
            num_bits <= 63,
    ;
    (1u64 << num_bits) - 1 - number
}

/// The lowest `n` bits of `value`.
fn only_lowest_nbits(n: u64, value: u64) -> (r: u64)
    requires
        n <= 62,
    ensures
        r == value & all_ones(n),
        r <= all_ones(n),
{
    assert(1u64 << n >= 1 && value & (((1u64 << n) - 1) as u64) <= (((1u64 << n) - 1) as u64)) by (bit_vector)
        requires
            n <= 62,
    ;
    value & ((1u64 << n) - 1)
}

/// Bits 54 to 61 hold the subscriber priority and bits 46 to 53 the
/// publisher priority, each counted down from 255, so that a higher priority
/// (a lower number) gives a larger send order.
pub open spec fn track_bits(subscriber_priority: u8, publisher_priority: u8) -> u64 {
    ((((255 - subscriber_priority) as u64) << 54u64) | (((255 - publisher_priority) as u64)
        << 46u64)) as u64
}

/// The lowest bits of a data stream's send order. With one stream per
/// group: bits 0 to 45 hold the lowest 46 bits of the group id, counted down
/// from 2^46 - 1 when groups go in ascending order. With one stream per
/// subgroup: bits 20 to 45 hold the lowest 26 bits of the group id, counted
/// down from 2^26 - 1 when groups go in ascending order, and bits 0 to 19 the
/// lowest 20 bits of the subgroup id counted down from 2^20 - 1.
pub open spec fn low_bits(group_id: u64, subgroup_id: Option<u64>, order: MoqtDeliveryOrder) -> u64 {
    match subgroup_id {
        None => {
            let g = group_id & 0x3fff_ffff_ffff;
            if order == MoqtDeliveryOrder::kAscending {
                (0x3fff_ffff_ffff - g) as u64
            } else {
                g
            }
        },
        Some(s) => {
            let g = group_id & 0x3ff_ffff;
            let g2 = if order == MoqtDeliveryOrder::kAscending {
                (0x3ff_ffff - g) as u64
            } else {
                g
            };
            ((g2 << 20u64) | (0xf_ffff - (s & 0xf_ffff)) as u64) as u64
        },
    }
}

/// The send order of a data stream: the priority bits over the low bits;
/// bits 62 and 63 are zero.
pub open spec fn spec_send_order(
    subscriber_priority: u8,
    publisher_priority: u8,
    group_id: u64,
    subgroup_id: Option<u64>,
    order: MoqtDeliveryOrder,
) -> i64 {
    (track_bits(subscriber_priority, publisher_priority) | low_bits(group_id, subgroup_id, order)) as i64
}

/// Computes WebTransport send order for an MoQT data stream with the specified
/// parameters.
pub fn send_order_for_stream(
    subscriber_priority: MoqtPriority,
    publisher_priority: MoqtPriority,
    group_id: u64,
    subgroup_id: Option<u64>,
    delivery_order: MoqtDeliveryOrder,
) -> (r: SendOrder)
    ensures
        r == spec_send_order(subscriber_priority, publisher_priority, group_id, subgroup_id, delivery_order),
{
    match subgroup_id {
        Some(subgroup_id) => send_order_for_stream_with_subgroup_id(
            subscriber_priority,
            publisher_priority,
            group_id,
            subgroup_id,
            delivery_order,
        ),
        None => {
            let track = track_bits_of(subscriber_priority, publisher_priority);
            let mut group_id = only_lowest_nbits(46, group_id);
            proof {
                assert(all_ones(46) == 0x3fff_ffff_ffff) by (bit_vector);
            }
            if delivery_order == MoqtDeliveryOrder::kAscending {
                group_id = flip(46, group_id);
            }
            (track | group_id) as i64
        },
    }
}

/// The priority bits, computed.
fn track_bits_of(subscriber_priority: u8, publisher_priority: u8) -> (r: u64)
    ensures
        r == track_bits(subscriber_priority, publisher_priority),
{
    proof {
        assert(all_ones(8) == 255) by (bit_vector);
    }
    let sub = flip(8, subscriber_priority as u64);
    let publ = flip(8, publisher_priority as u64);
    (sub << 54) | (publ << 46)
}

fn send_order_for_stream_with_subgroup_id(
    subscriber_priority: MoqtPriority,
    publisher_priority: MoqtPriority,
    group_id: u64,
    subgroup_id: u64,
    delivery_order: MoqtDeliveryOrder,
) -> (r: SendOrder)
    ensures
        r == spec_send_order(
            subscriber_priority,
            publisher_priority,
            group_id,
            Some(subgroup_id),
            delivery_order,
        ),
{
    let track = track_bits_of(subscriber_priority, publisher_priority);
    proof {
        assert(all_ones(26) == 0x3ff_ffff) by (bit_vector);
        assert(all_ones(20) == 0xf_ffff) by (bit_vector);
    }
    let mut group_id = only_lowest_nbits(26, group_id);
    let mut subgroup_id = only_lowest_nbits(20, subgroup_id);
    if delivery_order == MoqtDeliveryOrder::kAscending {
        group_id = flip(26, group_id);
    }
    subgroup_id = flip(20, subgroup_id);
    (track | ((group_id << 20) | subgroup_id)) as i64
}

/// The send order with its subscriber priority bits replaced: the lowest 54
/// bits are kept and the new priority, counted down from 255, is set in bits
/// 54 to 61.
pub open spec fn spec_update_send_order(send_order: i64, subscriber_priority: u8) -> i64 {
    ((send_order as u64 & 0x3f_ffff_ffff_ffff) | (((255 - subscriber_priority) as u64) << 54u64)) as i64
}

/// Returns |send_order| updated with the new |subscriber_priority|.
pub fn update_send_order_for_subscriber_priority(
    send_order: SendOrder,
    subscriber_priority: MoqtPriority,
) -> (r: SendOrder)
    ensures
        r == spec_update_send_order(send_order, subscriber_priority),
{
    proof {
        assert(all_ones(54) == 0x3f_ffff_ffff_ffff) by (bit_vector);
        assert(all_ones(8) == 255) by (bit_vector);
    }
    let low = only_lowest_nbits(54, send_order as u64);
    let sub = flip(8, subscriber_priority as u64);
    (low | (sub << 54)) as i64
}

/// The low bits stay below bit 46.
pub proof fn lemma_low_bits_bound(group_id: u64, subgroup_id: Option<u64>, order: MoqtDeliveryOrder)
    ensures
        low_bits(group_id, subgroup_id, order) < 0x4000_0000_0000,
{
    match subgroup_id {
        None => {
            assert((group_id & 0x3fff_ffff_ffff) <= 0x3fff_ffff_ffff) by (bit_vector);
        },
        Some(s) => {
            let g = group_id & 0x3ff_ffff;
            assert(g <= 0x3ff_ffff) by (bit_vector)
                requires
                    g == group_id & 0x3ff_ffff,
            ;
            let g2 = if order == MoqtDeliveryOrder::kAscending {
                (0x3ff_ffff - g) as u64
            } else {
                g
            };
            let s1 = s & 0xf_ffff;
            assert(s1 <= 0xf_ffff) by (bit_vector)
                requires
                    s1 == s & 0xf_ffff,
            ;
            let s2 = (0xf_ffff - s1) as u64;
            assert(((g2 << 20u64) | s2) < 0x4000_0000_0000) by (bit_vector)
                requires
                    g2 <= 0x3ff_ffff,
                    s2 <= 0xf_ffff,
            ;
        },
    }
}

/// Priority bits over low bits below bit 46 compare as the priorities do.
proof fn lemma_compose(a1: u8, p1: u8, l1: u64, a2: u8, p2: u8, l2: u64)
    requires
        l1 < 0x4000_0000_0000,
        l2 < 0x4000_0000_0000,
    ensures
        a1 < a2 ==> (track_bits(a1, p1) | l1) > (track_bits(a2, p2) | l2),
        a1 == a2 && p1 < p2 ==> (track_bits(a1, p1) | l1) > (track_bits(a2, p2) | l2),
        a1 == a2 && p1 == p2 && l1 > l2 ==> (track_bits(a1, p1) | l1) > (track_bits(a2, p2) | l2),
        (track_bits(a1, p1) | l1) < 0x4000_0000_0000_0000,
{
    assert(a1 < a2 ==> ((((((255 - a1) as u64) << 54u64) | (((255 - p1) as u64) << 46u64)) as u64)
        | l1) > ((((((255 - a2) as u64) << 54u64) | (((255 - p2) as u64) << 46u64)) as u64) | l2))
        by (bit_vector)
        requires
            l1 < 0x4000_0000_0000,
            l2 < 0x4000_0000_0000,
    ;
    assert(a1 == a2 && p1 < p2 ==> ((((((255
        - a1) as u64) << 54u64) | (((255 - p1) as u64) << 46u64)) as u64) | l1) > ((((((255
        - a2) as u64) << 54u64) | (((255 - p2) as u64) << 46u64)) as u64) | l2)) by (bit_vector)
        requires
            l1 < 0x4000_0000_0000,
            l2 < 0x4000_0000_0000,
    ;
    assert(a1 == a2 && p1 == p2 && l1 > l2 ==> ((((((255 - a1) as u64)
        << 54u64) | (((255 - p1) as u64) << 46u64)) as u64) | l1) > ((((((255 - a2) as u64)
        << 54u64) | (((255 - p2) as u64) << 46u64)) as u64) | l2)) by (bit_vector)
        requires
            l1 < 0x4000_0000_0000,
            l2 < 0x4000_0000_0000,
    ;
    assert(((((((255 - a1) as u64) << 54u64) | (((255 - p1) as u64) << 46u64)) as u64) | l1)
        < 0x4000_0000_0000_0000) by (bit_vector)
        requires
            l1 < 0x4000_0000_0000,
    ;
}

/// A send order, cut to its 64 bits, is the number it stands for: the
/// highest two bits are zero.
proof fn lemma_send_order_value(
    subscriber_priority: u8,
    publisher_priority: u8,
    group_id: u64,
    subgroup_id: Option<u64>,
    order: MoqtDeliveryOrder,
)
    ensures
        spec_send_order(subscriber_priority, publisher_priority, group_id, subgroup_id, order)
            == (track_bits(subscriber_priority, publisher_priority) | low_bits(
            group_id,
            subgroup_id,
            order,
        )),
        0 <= spec_send_order(subscriber_priority, publisher_priority, group_id, subgroup_id, order)
            < 0x4000_0000_0000_0000,
{
    let l = low_bits(group_id, subgroup_id, order);
    lemma_low_bits_bound(group_id, subgroup_id, order);
    lemma_compose(subscriber_priority, publisher_priority, l, subscriber_priority, publisher_priority, l);
    let x = track_bits(subscriber_priority, publisher_priority) | l;
    assert(x < 0x4000_0000_0000_0000 ==> x as i64 == x) by (bit_vector);
}

/// A stream of a track with a higher subscriber priority (a lower number)
/// is sent before any stream of a track with a lower one, whatever the
/// publisher priorities, groups and subgroups.
pub proof fn lemma_subscriber_priority_first(
    sub1: u8,
    pub1: u8,
    group1: u64,
    subgroup1: Option<u64>,
    order1: MoqtDeliveryOrder,
    sub2: u8,
    pub2: u8,
    group2: u64,
    subgroup2: Option<u64>,
    order2: MoqtDeliveryOrder,
)
    requires
        sub1 < sub2,
    ensures
        spec_send_order(sub1, pub1, group1, subgroup1, order1) > spec_send_order(
            sub2,
            pub2,
            group2,
            subgroup2,
            order2,
        ),
{
    lemma_send_order_value(sub1, pub1, group1, subgroup1, order1);
    lemma_send_order_value(sub2, pub2, group2, subgroup2, order2);
    lemma_low_bits_bound(group1, subgroup1, order1);
    lemma_low_bits_bound(group2, subgroup2, order2);
    lemma_compose(
        sub1,
        pub1,
        low_bits(group1, subgroup1, order1),
        sub2,
        pub2,
        low_bits(group2, subgroup2, order2),
    );
}

/// Under the same subscriber priority, a stream whose publisher priority is
/// higher (a lower number) is sent first, whatever the groups and subgroups.
pub proof fn lemma_publisher_priority_next(
    sub: u8,
    pub1: u8,
    group1: u64,
    subgroup1: Option<u64>,
    order1: MoqtDeliveryOrder,
    pub2: u8,
    group2: u64,
    subgroup2: Option<u64>,
    order2: MoqtDeliveryOrder,
)
    requires
        pub1 < pub2,
    ensures
        spec_send_order(sub, pub1, group1, subgroup1, order1) > spec_send_order(
            sub,
            pub2,
            group2,
            subgroup2,
            order2,
        ),
{
    lemma_send_order_value(sub, pub1, group1, subgroup1, order1);
    lemma_send_order_value(sub, pub2, group2, subgroup2, order2);
    lemma_low_bits_bound(group1, subgroup1, order1);
    lemma_low_bits_bound(group2, subgroup2, order2);
    lemma_compose(
        sub,
        pub1,
        low_bits(group1, subgroup1, order1),
        sub,
        pub2,
        low_bits(group2, subgroup2, order2),
    );
}

/// With one stream per group, streams of the same track go by group: the
/// earlier group first in ascending order and the later one first in
/// descending order, for group ids below 2^46.
pub proof fn lemma_group_order(sub: u8, publ: u8, group1: u64, group2: u64)
    requires
        group1 < group2 < 0x4000_0000_0000,
    ensures
        spec_send_order(sub, publ, group1, None, MoqtDeliveryOrder::kAscending) > spec_send_order(
            sub,
            publ,
            group2,
            None,
            MoqtDeliveryOrder::kAscending,
        ),
        spec_send_order(sub, publ, group2, None, MoqtDeliveryOrder::kDescending) > spec_send_order(
            sub,
            publ,
            group1,
            None,
            MoqtDeliveryOrder::kDescending,
        ),
{
    assert((group1 & 0x3fff_ffff_ffff) == group1 && (group2 & 0x3fff_ffff_ffff) == group2)
        by (bit_vector)
        requires
            group1 < group2 < 0x4000_0000_0000,
    ;
    let a = MoqtDeliveryOrder::kAscending;
    let d = MoqtDeliveryOrder::kDescending;
    lemma_send_order_value(sub, publ, group1, None, a);
    lemma_send_order_value(sub, publ, group2, None, a);
    lemma_send_order_value(sub, publ, group1, None, d);
    lemma_send_order_value(sub, publ, group2, None, d);
    lemma_compose(sub, publ, low_bits(group1, None, a), sub, publ, low_bits(group2, None, a));
    lemma_compose(sub, publ, low_bits(group2, None, d), sub, publ, low_bits(group1, None, d));
}

/// With one stream per subgroup, streams of the same group go by subgroup,
/// the earlier one first, in either order of groups.
pub proof fn lemma_subgroup_order(
    sub: u8,
    publ: u8,
    group: u64,
    subgroup1: u64,
    subgroup2: u64,
    order: MoqtDeliveryOrder,
)
    requires
        subgroup1 < subgroup2 < 0x10_0000,
    ensures
        spec_send_order(sub, publ, group, Some(subgroup1), order) > spec_send_order(
            sub,
            publ,
            group,
            Some(subgroup2),
            order,
        ),
{
    assert((subgroup1 & 0xf_ffff) == subgroup1 && (subgroup2 & 0xf_ffff) == subgroup2)
        by (bit_vector)
        requires
            subgroup1 < subgroup2 < 0x10_0000,
    ;
    lemma_send_order_value(sub, publ, group, Some(subgroup1), order);
    lemma_send_order_value(sub, publ, group, Some(subgroup2), order);
    let g = group & 0x3ff_ffff;
    assert(g <= 0x3ff_ffff) by (bit_vector)
        requires
            g == group & 0x3ff_ffff,
    ;
    let g2 = if order == MoqtDeliveryOrder::kAscending {
        (0x3ff_ffff - g) as u64
    } else {
        g
    };
    let s1 = (0xf_ffff - subgroup1) as u64;
    let s2 = (0xf_ffff - subgroup2) as u64;
    let t = track_bits(sub, publ);
    assert(t & 0x3fff_ffff_ffff == 0) by (bit_vector)
        requires
            t == ((((255 - sub) as u64) << 54u64) | (((255 - publ) as u64) << 46u64)) as u64,
    ;
    assert((t | ((g2 << 20u64) | s1)) > (t | ((g2 << 20u64) | s2))) by (bit_vector)
        requires
            g2 <= 0x3ff_ffff,
            s1 > s2,
            s1 <= 0xf_ffff,
            t & 0x3fff_ffff_ffff == 0,
    ;
}

/// With one stream per subgroup, streams of different groups go by group,
/// whatever their subgroups: the earlier group first in ascending order and
/// the later one first in descending order, for group ids below 2^26.
pub proof fn lemma_subgroup_group_order(
    sub: u8,
    publ: u8,
    group1: u64,
    subgroup1: u64,
    group2: u64,
    subgroup2: u64,
)
    requires
        group1 < group2 < 0x400_0000,
        subgroup1 < 0x10_0000,
        subgroup2 < 0x10_0000,
    ensures
        spec_send_order(sub, publ, group1, Some(subgroup1), MoqtDeliveryOrder::kAscending)
            > spec_send_order(sub, publ, group2, Some(subgroup2), MoqtDeliveryOrder::kAscending),
        spec_send_order(sub, publ, group2, Some(subgroup2), MoqtDeliveryOrder::kDescending)
            > spec_send_order(sub, publ, group1, Some(subgroup1), MoqtDeliveryOrder::kDescending),
{
    assert((group1 & 0x3ff_ffff) == group1 && (group2 & 0x3ff_ffff) == group2) by (bit_vector)
        requires
            group1 < group2 < 0x400_0000,
    ;
    assert((subgroup1 & 0xf_ffff) == subgroup1 && (subgroup2 & 0xf_ffff) == subgroup2)
        by (bit_vector)
        requires
            subgroup1 < 0x10_0000,
            subgroup2 < 0x10_0000,
    ;
    let a = MoqtDeliveryOrder::kAscending;
    let d = MoqtDeliveryOrder::kDescending;
    lemma_send_order_value(sub, publ, group1, Some(subgroup1), a);
    lemma_send_order_value(sub, publ, group2, Some(subgroup2), a);
    lemma_send_order_value(sub, publ, group1, Some(subgroup1), d);
    lemma_send_order_value(sub, publ, group2, Some(subgroup2), d);
    let t = track_bits(sub, publ);
    assert(t & 0x3fff_ffff_ffff == 0) by (bit_vector)
        requires
            t == ((((255 - sub) as u64) << 54u64) | (((255 - publ) as u64) << 46u64)) as u64,
    ;
    let s1 = (0xf_ffff - subgroup1) as u64;
    let s2 = (0xf_ffff - subgroup2) as u64;
    let ga1 = (0x3ff_ffff - group1) as u64;
    let ga2 = (0x3ff_ffff - group2) as u64;
    assert((t | ((ga1 << 20u64) | s1)) > (t | ((ga2 << 20u64) | s2))) by (bit_vector)
        requires
            ga1 > ga2,
            ga1 <= 0x3ff_ffff,
            s1 <= 0xf_ffff,
            s2 <= 0xf_ffff,
            t & 0x3fff_ffff_ffff == 0,
    ;
    assert((t | ((group2 << 20u64) | s2)) > (t | ((group1 << 20u64) | s1))) by (bit_vector)
        requires
            group2 > group1,
            group2 < 0x400_0000,
            s1 <= 0xf_ffff,
            s2 <= 0xf_ffff,
            t & 0x3fff_ffff_ffff == 0,
    ;
}

/// Replacing the subscriber priority of a stream's send order gives the
/// send order of the stream computed with the new priority.
pub proof fn lemma_update_subscriber_priority(
    sub: u8,
    publ: u8,
    group_id: u64,
    subgroup_id: Option<u64>,
    order: MoqtDeliveryOrder,
    new_sub: u8,
)
    ensures
        spec_update_send_order(spec_send_order(sub, publ, group_id, subgroup_id, order), new_sub)
            == spec_send_order(new_sub, publ, group_id, subgroup_id, order),
{
    let l = low_bits(group_id, subgroup_id, order);
    lemma_low_bits_bound(group_id, subgroup_id, order);
    lemma_send_order_value(sub, publ, group_id, subgroup_id, order);
    lemma_send_order_value(new_sub, publ, group_id, subgroup_id, order);
    let x = track_bits(sub, publ) | l;
    assert(((x as i64) as u64) == x) by (bit_vector)
        requires
            x < 0x4000_0000_0000_0000,
    ;
    assert(((((((255 - sub) as u64) << 54u64) | (((255 - publ) as u64) << 46u64)) as u64) | l)
        & 0x3f_ffff_ffff_ffff | (((255 - new_sub) as u64) << 54u64) == (((((255 - new_sub) as u64)
        << 54u64) | (((255 - publ) as u64) << 46u64)) as u64) | l) by (bit_vector)
        requires
            l < 0x4000_0000_0000,
    ;
    let y = track_bits(new_sub, publ) | l;
    assert(y < 0x4000_0000_0000_0000 ==> (y as i64) as u64 == y) by (bit_vector);
}

/// The control stream is sent before every data stream.
pub proof fn lemma_control_stream_first(
    sub: u8,
    publ: u8,
    group_id: u64,
    subgroup_id: Option<u64>,
    order: MoqtDeliveryOrder,
)
    ensures
        kMoqtControlStreamSendOrder > spec_send_order(sub, publ, group_id, subgroup_id, order),
{
    lemma_send_order_value(sub, publ, group_id, subgroup_id, order);
}

} // verus!
