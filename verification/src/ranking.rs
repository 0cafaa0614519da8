//! The order in which a scan's networks are handed out: strongest signal
//! first, and among equals the one met first.

use vstd::prelude::*;
use crate::scan_model::WifiNetworkRecord;
use crate::scanner::{records_of, WifiNetwork};

verus! {

/// The number of records at the head of `records` whose signal is `level`
/// or stronger.
pub open spec fn head_at_least(records: Seq<WifiNetworkRecord>, level: int) -> int
    decreases records.len(),
{
    if records.len() > 0 && records[0].signal_strength >= level {
        1 + head_at_least(records.drop_first(), level)
    } else {
        0
    }
}

/// `ranked` with `r` put in: behind the records at its head that are as
/// strong as `r` or stronger, before all others.
pub open spec fn placed(ranked: Seq<WifiNetworkRecord>, r: WifiNetworkRecord) -> Seq<
    WifiNetworkRecord,
> {
    ranked.insert(head_at_least(ranked, r.signal_strength as int), r)
}

/// The records ordered by signal strength, strongest first; records of
/// equal strength stay in the order in which they came.
pub open spec fn ranked(records: Seq<WifiNetworkRecord>) -> Seq<WifiNetworkRecord>
    decreases records.len(),
{
    if records.len() == 0 {
        records
    } else {
        placed(ranked(records.drop_last()), records.last())
    }
}

/// No record stands before a stronger one.
pub open spec fn strongest_first(records: Seq<WifiNetworkRecord>) -> bool {
    forall|i: int, j: int|
        0 <= i < j < records.len() ==> records[i].signal_strength >= records[j].signal_strength
}

/// The records of `records` with a signal of exactly `level`, in order.
pub open spec fn at_level(records: Seq<WifiNetworkRecord>, level: int) -> Seq<WifiNetworkRecord> {
    records.filter(|r: WifiNetworkRecord| r.signal_strength == level)
}

pub proof fn lemma_head_at_least(records: Seq<WifiNetworkRecord>, level: int)
    ensures
        0 <= head_at_least(records, level) <= records.len(),
        forall|i: int|
            0 <= i < head_at_least(records, level) ==> (#[trigger] records[i]).signal_strength
                >= level,
        head_at_least(records, level) < records.len() ==> records[head_at_least(
            records,
            level,
        )].signal_strength < level,
    decreases records.len(),
{
    if records.len() > 0 && records[0].signal_strength >= level {
        let rest = records.drop_first();
        lemma_head_at_least(rest, level);
        assert forall|i: int| 0 <= i < head_at_least(records, level) implies (
        #[trigger] records[i]).signal_strength >= level by {
            if i > 0 {
                assert(records[i] == rest[i - 1]);
            }
        }
        if head_at_least(records, level) < records.len() {
            assert(records[head_at_least(records, level)] == rest[head_at_least(rest, level)]);
        }
    }
}

/// A run of `n` records at the head that are at least as strong as `level`,
/// followed by a weaker one or the end, is the whole such head.
pub proof fn lemma_head_at_least_is(records: Seq<WifiNetworkRecord>, level: int, n: int)
    requires
        0 <= n <= records.len(),
        forall|i: int| 0 <= i < n ==> (#[trigger] records[i]).signal_strength >= level,
        n < records.len() ==> records[n].signal_strength < level,
    ensures
        head_at_least(records, level) == n,
    decreases n,
{
    if n > 0 {
        let rest = records.drop_first();
        assert(records[0].signal_strength >= level);
        assert forall|i: int| 0 <= i < n - 1 implies (#[trigger] rest[i]).signal_strength
            >= level by {
            assert(rest[i] == records[i + 1]);
        }
        lemma_head_at_least_is(rest, level, n - 1);
    }
}

/// Putting a record into an ordered sequence leaves it ordered.
pub proof fn lemma_placed_strongest_first(ranked: Seq<WifiNetworkRecord>, r: WifiNetworkRecord)
    requires
        strongest_first(ranked),
    ensures
        strongest_first(placed(ranked, r)),
        placed(ranked, r).len() == ranked.len() + 1,
{
    let level = r.signal_strength as int;
    let p = head_at_least(ranked, level);
    lemma_head_at_least(ranked, level);
    let out = placed(ranked, r);
    assert forall|i: int, j: int| 0 <= i < j < out.len() implies out[i].signal_strength
        >= out[j].signal_strength by {
        if j < p {
            assert(out[i] == ranked[i] && out[j] == ranked[j]);
        } else if j == p {
            assert(out[i] == ranked[i] && out[j] == r);
        } else if i < p {
            assert(out[i] == ranked[i] && out[j] == ranked[j - 1]);
        } else if i == p {
            assert(out[i] == r && out[j] == ranked[j - 1]);
            assert(ranked[p].signal_strength >= ranked[j - 1].signal_strength || p == j - 1);
        } else {
            assert(out[i] == ranked[i - 1] && out[j] == ranked[j - 1]);
        }
    }
}

/// The ranked records stand strongest first, and there are as many of them
/// as came in.
pub proof fn lemma_ranked_strongest_first(records: Seq<WifiNetworkRecord>)
    ensures
        strongest_first(ranked(records)),
        ranked(records).len() == records.len(),
    decreases records.len(),
{
    if records.len() > 0 {
        lemma_ranked_strongest_first(records.drop_last());
        lemma_placed_strongest_first(ranked(records.drop_last()), records.last());
    }
}

/// Where no record has the signal `level`, none is at that level.
pub proof fn lemma_at_level_none(records: Seq<WifiNetworkRecord>, level: int)
    requires
        forall|i: int| 0 <= i < records.len() ==> (#[trigger] records[i]).signal_strength != level,
    ensures
        at_level(records, level) == Seq::<WifiNetworkRecord>::empty(),
    decreases records.len(),
{
    reveal(Seq::filter);
    if records.len() > 0 {
        let rest = records.drop_last();
        assert forall|i: int| 0 <= i < rest.len() implies (#[trigger] rest[i]).signal_strength
            != level by {
            assert(rest[i] == records[i]);
        }
        lemma_at_level_none(rest, level);
        assert(records.last() == records[records.len() - 1]);
    }
}

/// Putting `r` into an ordered sequence adds it at the end of the records
/// of its own level and changes no other level.
pub proof fn lemma_placed_at_level(
    ranked: Seq<WifiNetworkRecord>,
    r: WifiNetworkRecord,
    level: int,
)
    requires
        strongest_first(ranked),
    ensures
        at_level(placed(ranked, r), level) == if r.signal_strength == level {
            at_level(ranked, level).push(r)
        } else {
            at_level(ranked, level)
        },
{
    broadcast use Seq::filter_distributes_over_add, Seq::lemma_filter_push;

    let own = r.signal_strength as int;
    let p = head_at_least(ranked, own);
    lemma_head_at_least(ranked, own);
    let head = ranked.subrange(0, p);
    let tail = ranked.subrange(p, ranked.len() as int);
    assert(ranked == head + tail);
    assert(placed(ranked, r) == head.push(r) + tail);
    assert(at_level(ranked, level) == at_level(head, level) + at_level(tail, level));
    assert(at_level(placed(ranked, r), level) == at_level(head.push(r), level) + at_level(
        tail,
        level,
    ));
    if r.signal_strength == level {
        assert forall|i: int| 0 <= i < tail.len() implies (#[trigger] tail[i]).signal_strength
            != level by {
            assert(tail[i] == ranked[p + i]);
            assert(ranked[p].signal_strength >= ranked[p + i].signal_strength || i == 0);
        }
        lemma_at_level_none(tail, level);
        assert(at_level(head, level) + Seq::<WifiNetworkRecord>::empty() == at_level(head, level));
        assert(at_level(head, level).push(r) + Seq::<WifiNetworkRecord>::empty() == at_level(
            head,
            level,
        ).push(r));
    } else {
    }
}

/// Ranking keeps, level by level, the records that came in and their
/// order: it is stable, and it neither drops nor adds a record.
pub proof fn lemma_ranked_keeps_levels(records: Seq<WifiNetworkRecord>, level: int)
    ensures
        at_level(ranked(records), level) == at_level(records, level),
    decreases records.len(),
{
    broadcast use Seq::lemma_filter_push;

    if records.len() > 0 {
        let before = records.drop_last();
        lemma_ranked_keeps_levels(before, level);
        lemma_ranked_strongest_first(before);
        lemma_placed_at_level(ranked(before), records.last(), level);
        assert(records == before.push(records.last()));
    }
}

/// The records at a level are the first record, where it is at that
/// level, and then those among the rest.
pub proof fn lemma_at_level_first(records: Seq<WifiNetworkRecord>, level: int)
    requires
        records.len() > 0,
    ensures
        at_level(records, level) == if records[0].signal_strength == level {
            seq![records[0]] + at_level(records.drop_first(), level)
        } else {
            at_level(records.drop_first(), level)
        },
{
    broadcast use Seq::filter_distributes_over_add;

    let first = seq![records[0]];
    assert(records == first + records.drop_first());
    assert(first == Seq::<WifiNetworkRecord>::empty().push(records[0]));
    assert(at_level(first, level) == if records[0].signal_strength == level {
        first
    } else {
        Seq::<WifiNetworkRecord>::empty()
    }) by {
        reveal_with_fuel(Seq::filter, 2);
        assert(first.drop_last() == Seq::<WifiNetworkRecord>::empty());
    }
    assert(at_level(records, level) == at_level(first, level) + at_level(
        records.drop_first(),
        level,
    ));
    assert(Seq::<WifiNetworkRecord>::empty() + at_level(records.drop_first(), level) == at_level(
        records.drop_first(),
        level,
    ));
}

/// Two sequences that both stand strongest first and hold, level by level,
/// the same records in the same order are one and the same.
pub proof fn lemma_levels_fix_the_order(a: Seq<WifiNetworkRecord>, b: Seq<WifiNetworkRecord>)
    requires
        strongest_first(a),
        strongest_first(b),
        forall|level: int| at_level(a, level) == at_level(b, level),
    ensures
        a == b,
    decreases a.len() + b.len(),
{
    if a.len() == 0 && b.len() == 0 {
        assert(a == b);
    } else if a.len() == 0 || b.len() == 0 {
        let (full, empty) = if a.len() == 0 {
            (b, a)
        } else {
            (a, b)
        };
        let level = full[0].signal_strength as int;
        lemma_at_level_first(full, level);
        lemma_at_level_none(empty, level);
        assert(at_level(full, level).len() > 0);
        assert(at_level(a, level) == at_level(b, level));
    } else {
        let top_a = a[0].signal_strength as int;
        let top_b = b[0].signal_strength as int;
        lemma_at_level_first(a, top_a);
        lemma_at_level_first(b, top_b);
        assert(at_level(a, top_b) == at_level(b, top_b));
        assert(at_level(a, top_a) == at_level(b, top_a));
        if top_a != top_b {
            if forall|i: int| 0 <= i < a.len() ==> (#[trigger] a[i]).signal_strength != top_b {
                lemma_at_level_none(a, top_b);
            }
            if forall|i: int| 0 <= i < b.len() ==> (#[trigger] b[i]).signal_strength != top_a {
                lemma_at_level_none(b, top_a);
            }
            assert(at_level(b, top_b).len() > 0);
            assert(at_level(a, top_a).len() > 0);
            let i = choose|i: int| 0 <= i < a.len() && (#[trigger] a[i]).signal_strength == top_b;
            let j = choose|j: int| 0 <= j < b.len() && (#[trigger] b[j]).signal_strength == top_a;
            assert(a[0].signal_strength >= a[i].signal_strength || i == 0);
            assert(b[0].signal_strength >= b[j].signal_strength || j == 0);
        }
        assert(top_a == top_b);
        assert(at_level(a, top_a)[0] == a[0]);
        assert(at_level(b, top_a)[0] == b[0]);
        let rest_a = a.drop_first();
        let rest_b = b.drop_first();
        assert forall|level: int| at_level(rest_a, level) == at_level(rest_b, level) by {
            lemma_at_level_first(a, level);
            lemma_at_level_first(b, level);
            assert(at_level(a, level) == at_level(b, level));
            if level == top_a {
                let xa = at_level(rest_a, level);
                let xb = at_level(rest_b, level);
                assert((seq![a[0]] + xa).drop_first() == xa);
                assert((seq![b[0]] + xb).drop_first() == xb);
            }
        }
        assert forall|i: int, j: int| 0 <= i < j < rest_a.len() implies rest_a[i].signal_strength
            >= rest_a[j].signal_strength by {
            assert(rest_a[i] == a[i + 1] && rest_a[j] == a[j + 1]);
        }
        assert forall|i: int, j: int| 0 <= i < j < rest_b.len() implies rest_b[i].signal_strength
            >= rest_b[j].signal_strength by {
            assert(rest_b[i] == b[i + 1] && rest_b[j] == b[j + 1]);
        }
        lemma_levels_fix_the_order(rest_a, rest_b);
        assert(a == seq![a[0]] + rest_a);
        assert(b == seq![b[0]] + rest_b);
    }
}

/// The ranking is the one order that stands strongest first and keeps,
/// level by level, the records that came in and their order.
pub proof fn lemma_ranked_is_the_only_such_order(
    order: Seq<WifiNetworkRecord>,
    records: Seq<WifiNetworkRecord>,
)
    requires
        strongest_first(order),
        forall|level: int| at_level(order, level) == at_level(records, level),
    ensures
        order == ranked(records),
{
    lemma_ranked_strongest_first(records);
    assert forall|level: int| at_level(order, level) == at_level(ranked(records), level) by {
        lemma_ranked_keeps_levels(records, level);
    }
    lemma_levels_fix_the_order(order, ranked(records));
}

/// The networks ordered by signal strength, strongest first; networks of
/// equal strength stay in the order in which they came.
pub fn rank_networks(found: Vec<WifiNetwork>) -> (order: Vec<WifiNetwork>)
    ensures
        records_of(order@) == ranked(records_of(found@)),
{
    let ghost all = found@;
    let mut order: Vec<WifiNetwork> = Vec::new();
    assert(records_of(all.take(0)) == Seq::<WifiNetworkRecord>::empty());
    for network in iter: found
        invariant
            iter.seq() == all,
            records_of(order@) == ranked(records_of(all.take(iter.index() as int))),
    {
        let ghost k = iter.index() as int;
        let mut at: usize = 0;
        while at < order.len() && order[at].signal_strength >= network.signal_strength
            invariant
                at <= order.len(),
                forall|i: int|
                    0 <= i < at ==> (#[trigger] records_of(order@)[i]).signal_strength
                        >= network.signal_strength,
            decreases order.len() - at,
        {
            at += 1;
        }
        proof {
            let before = records_of(order@);
            assert(at < order.len() ==> before[at as int].signal_strength
                < network.signal_strength);
            lemma_head_at_least_is(before, network.signal_strength as int, at as int);
            assert(records_of(order@.insert(at as int, network)) == before.insert(
                at as int,
                network@,
            ));
            let seen = records_of(all.take(k + 1));
            assert(seen.drop_last() == records_of(all.take(k)));
            assert(seen.last() == network@);
        }
        order.insert(at, network);
    }
    assert(all.take(all.len() as int) == all);
    order
}

} // verus!
