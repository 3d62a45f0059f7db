//! The order of the rows of a report.

use vstd::prelude::*;
use crate::kubernetes::{records, Record, ResouceRequests};
use crate::utils::Filter;

verus! {

/// The number that a row is ordered by. Without a sort key every row has
/// the same.
pub open spec fn sort_key(r: Record, by: Filter) -> nat {
    match by {
        Filter::Cpu => r.requested.cpu,
        Filter::Mem => r.requested.mem,
        Filter::Storage => r.requested.storage,
        Filter::Pods => r.requested.pods,
        Filter::Unsorted => 0,
    }
}

/// Where a row with key `k` goes into rows that are in report order:
/// before the first row whose key is smaller, behind every row whose key
/// is as large.
pub open spec fn place(rows: Seq<Record>, by: Filter, k: nat) -> int
    decreases rows.len(),
{
    if rows.len() == 0 || sort_key(rows[0], by) < k {
        0
    } else {
        1 + place(rows.skip(1), by, k)
    }
}

/// The rows in report order: descending by the sort key, rows with the
/// same key in the order in which they came. The summary row is a row
/// like any other.
pub open spec fn report_order(rows: Seq<Record>, by: Filter) -> Seq<Record>
    decreases rows.len(),
{
    if rows.len() == 0 {
        rows
    } else {
        let sorted = report_order(rows.drop_last(), by);
        sorted.insert(place(sorted, by, sort_key(rows.last(), by)), rows.last())
    }
}

fn key_of(r: &ResouceRequests, by: Filter) -> (k: u64)
    ensures
        k == sort_key(r@, by),
{
    match by {
        Filter::Cpu => r.cpu_requests as u64,
        Filter::Mem => r.mem_requests,
        Filter::Storage => r.storage_requests,
        Filter::Pods => r.pods as u64,
        Filter::Unsorted => 0,
    }
}

/// Whether the sort keys of the rows never rise from one row to the next.
pub open spec fn descending(rows: Seq<Record>, by: Filter) -> bool {
    forall|i: int, j: int|
        0 <= i < j < rows.len() ==> sort_key(#[trigger] rows[i], by) >= sort_key(
            #[trigger] rows[j],
            by,
        )
}

/// The rows whose sort key is `k`, in the order in which they stand.
pub open spec fn with_key(rows: Seq<Record>, by: Filter, k: nat) -> Seq<Record> {
    rows.filter(|r: Record| sort_key(r, by) == k)
}

/// A row is placed behind every row whose key is at least its own and
/// before a row whose key is smaller.
pub proof fn lemma_place(rows: Seq<Record>, by: Filter, k: nat)
    ensures
        0 <= place(rows, by, k) <= rows.len(),
        forall|i: int| 0 <= i < place(rows, by, k) ==> sort_key(#[trigger] rows[i], by) >= k,
        place(rows, by, k) < rows.len() ==> sort_key(rows[place(rows, by, k)], by) < k,
    decreases rows.len(),
{
    if rows.len() > 0 && sort_key(rows[0], by) >= k {
        let rest = rows.skip(1);
        lemma_place(rest, by, k);
        assert forall|i: int| 0 <= i < place(rows, by, k) implies sort_key(
            #[trigger] rows[i],
            by,
        ) >= k by {
            if i > 0 {
                assert(rows[i] == rest[i - 1]);
            }
        }
        if place(rows, by, k) < rows.len() {
            assert(rows[place(rows, by, k)] == rest[place(rest, by, k)]);
        }
    }
}

/// Report order keeps every row and is descending by the sort key.
pub proof fn lemma_report_order_descending(rows: Seq<Record>, by: Filter)
    ensures
        report_order(rows, by).len() == rows.len(),
        descending(report_order(rows, by), by),
    decreases rows.len(),
{
    if rows.len() > 0 {
        let sorted = report_order(rows.drop_last(), by);
        let k = sort_key(rows.last(), by);
        let at = place(sorted, by, k);
        lemma_report_order_descending(rows.drop_last(), by);
        lemma_place(sorted, by, k);
        let out = sorted.insert(at, rows.last());
        assert forall|i: int, j: int| 0 <= i < j < out.len() implies sort_key(
            #[trigger] out[i],
            by,
        ) >= sort_key(#[trigger] out[j], by) by {
            if at < sorted.len() {
                if j > at {
                    assert(out[j] == sorted[j - 1]);
                    assert(sort_key(sorted[at], by) >= sort_key(sorted[j - 1], by) || at == j
                        - 1);
                }
            }
            if i < at {
                assert(out[i] == sorted[i]);
            } else if i > at {
                assert(out[i] == sorted[i - 1]);
            }
            if j < at {
                assert(out[j] == sorted[j]);
            } else if j > at {
                assert(out[j] == sorted[j - 1]);
            }
        }
    }
}

/// Among rows none of which has the key `k`, none is found with it.
proof fn lemma_with_key_absent(rows: Seq<Record>, by: Filter, k: nat)
    requires
        forall|i: int| 0 <= i < rows.len() ==> sort_key(#[trigger] rows[i], by) != k,
    ensures
        with_key(rows, by, k) == Seq::<Record>::empty(),
    decreases rows.len(),
{
    reveal(Seq::filter);
    if rows.len() > 0 {
        lemma_with_key_absent(rows.drop_last(), by, k);
    }
}

/// Report order is stable and loses nothing: for every key, the rows with
/// that key are the same before and after, in the same order.
pub proof fn lemma_report_order_stable(rows: Seq<Record>, by: Filter, k: nat)
    ensures
        with_key(report_order(rows, by), by, k) == with_key(rows, by, k),
    decreases rows.len(),
{
    reveal(Seq::filter);
    if rows.len() > 0 {
        let pred = |r: Record| sort_key(r, by) == k;
        let last = rows.last();
        let sorted = report_order(rows.drop_last(), by);
        let at = place(sorted, by, sort_key(last, by));
        lemma_report_order_stable(rows.drop_last(), by, k);
        lemma_report_order_descending(rows.drop_last(), by);
        lemma_place(sorted, by, sort_key(last, by));
        let front = sorted.take(at);
        let back = sorted.skip(at);
        let out = sorted.insert(at, last);
        assert(out == front + seq![last] + back);
        assert(sorted == front + back);
        Seq::filter_distributes_over_add(front, back, pred);
        Seq::filter_distributes_over_add(front, seq![last], pred);
        Seq::filter_distributes_over_add(front + seq![last], back, pred);
        assert(seq![last].drop_last() == Seq::<Record>::empty());
        assert(Seq::<Record>::empty().filter(pred) == Seq::<Record>::empty());
        if sort_key(last, by) == k {
            assert forall|i: int| 0 <= i < back.len() implies sort_key(
                #[trigger] back[i],
                by,
            ) != k by {
                assert(back[i] == sorted[at + i]);
                assert(sort_key(sorted[at], by) >= sort_key(sorted[at + i], by) || i == 0);
            }
            lemma_with_key_absent(back, by, k);
            assert(seq![last].filter(pred) == seq![last]);
            assert(out.filter(pred) == front.filter(pred) + seq![last]);
            assert(sorted.filter(pred) == front.filter(pred));
            assert(front.filter(pred) + seq![last] == front.filter(pred).push(last));
        } else {
            assert(seq![last].filter(pred) == Seq::<Record>::empty());
            assert(front.filter(pred) + Seq::<Record>::empty() == front.filter(pred));
        }
    }
}

/// Without a sort key the rows stay as they came, the summary row last.
pub proof fn lemma_unsorted_keeps_order(rows: Seq<Record>)
    ensures
        report_order(rows, Filter::Unsorted) == rows,
    decreases rows.len(),
{
    if rows.len() > 0 {
        let sorted = report_order(rows.drop_last(), Filter::Unsorted);
        lemma_unsorted_keeps_order(rows.drop_last());
        lemma_place(sorted, Filter::Unsorted, 0);
        assert(place(sorted, Filter::Unsorted, 0) == sorted.len());
        assert(sorted.insert(sorted.len() as int, rows.last()) == rows);
    }
}

/// Puts the rows into report order: descending by the sort key, rows with
/// the same key in the order in which they came, no row added or lost.
/// Without a sort key the rows stay as they are.
pub fn sort_records(rrs: Vec<ResouceRequests>, by: Filter) -> (out: Vec<ResouceRequests>)
    ensures
        records(out@) == report_order(records(rrs@), by),
        out.len() == rrs.len(),
        descending(records(out@), by),
        forall|k: nat| with_key(records(out@), by, k) == with_key(records(rrs@), by, k),
        by == Filter::Unsorted ==> records(out@) == records(rrs@),
{
    proof {
        lemma_report_order_descending(records(rrs@), by);
        lemma_unsorted_keeps_order(records(rrs@));
        assert forall|k: nat|
            with_key(report_order(records(rrs@), by), by, k) == with_key(records(rrs@), by, k) by {
            lemma_report_order_stable(records(rrs@), by, k);
        }
    }
    if by == Filter::Unsorted {
        return rrs;
    }
    let mut out: Vec<ResouceRequests> = Vec::new();
    let ghost all = records(rrs@);
    assert(all.take(0) == Seq::<Record>::empty());
    for r in it: rrs
        invariant
            all == records(it.seq()),
            records(out@) == report_order(all.take(it.index()), by),
    {
        let ghost sorted = records(out@);
        let ghost n = it.index();
        let k = key_of(&r, by);
        let mut j: usize = 0;
        assert(sorted.skip(0) == sorted);
        while j < out.len() && key_of(&out[j], by) >= k
            invariant
                j <= out.len(),
                sorted == records(out@),
                place(sorted, by, k as nat) == j + place(sorted.skip(j as int), by, k as nat),
            decreases out.len() - j,
        {
            assert(sorted.skip(j as int).skip(1) == sorted.skip(j + 1));
            j += 1;
        }
        assert(place(sorted, by, k as nat) == j);
        out.insert(j, r);
        proof {
            assert(all.take(n + 1).drop_last() == all.take(n));
            assert(all.take(n + 1).last() == r@);
            assert(records(out@) == sorted.insert(j as int, r@));
        }
    }
    assert(all.take(all.len() as int) == all);
    out
}

} // verus!
