//! Splitting a span of blocks into the ranges that event and log queries ask
//! for.

use vstd::prelude::*;
use vstd::arithmetic::mul::*;
use vstd::arithmetic::div_mod::*;

verus! {

/// The number of chunks, less one, that `start..=end` is split into for
/// event queries of `limit` blocks.
pub open spec fn chunk_count(start: nat, end: nat, limit: nat) -> nat {
    ((end - start) as nat) / limit
}

/// The `j`-th event query range: it ends `chunk_count - j` chunks before
/// `end` and starts one chunk earlier, but not before `start`.
pub open spec fn event_range(start: nat, end: nat, limit: nat, j: nat) -> (nat, nat) {
    let n = (end - (chunk_count(start, end, limit) - j) * limit) as nat;
    (if n - limit < start { start } else { (n - limit) as nat }, n)
}

/// The event query ranges for the blocks `start..=end` in chunks of `limit`
/// blocks, oldest first. The first chunk is computed as ending `chunk_count`
/// chunks before `end` and starting a chunk before that, which must not go
/// below block 0.
pub fn event_block_ranges(start: u64, end: u64, limit: u64) -> (r: Vec<(u64, u64)>)
    requires
        start <= end,
        limit > 0,
        end - chunk_count(start as nat, end as nat, limit as nat) * limit >= limit,
    ensures
        r.len() == chunk_count(start as nat, end as nat, limit as nat) + 1,
        forall|j: int|
            0 <= j < r.len() ==> (#[trigger] r[j]).0 as nat == event_range(
                start as nat,
                end as nat,
                limit as nat,
                j as nat,
            ).0 && r[j].1 as nat == event_range(start as nat, end as nat, limit as nat, j as nat).1,
{
    let big_n: u64 = (end - start) / limit;
    let ghost bn = chunk_count(start as nat, end as nat, limit as nat);
    assert(big_n == bn);
    proof {
        lemma_fundamental_div_mod((end - start) as int, limit as int);
        lemma_mul_is_commutative(limit as int, big_n as int);
    }
    proof {
        lemma_mul_is_distributive_add(limit as int, big_n as int, 1);
        lemma_mul_is_commutative(limit as int, (big_n + 1) as int);
        lemma_mul_increases(limit as int, (big_n + 1) as int);
    }
    let count: u64 = big_n + 1;
    let mut ranges: Vec<(u64, u64)> = Vec::new();
    let mut j: u64 = 0;
    while j < count
        invariant
            big_n == bn,
            bn == chunk_count(start as nat, end as nat, limit as nat),
            count == big_n + 1,
            big_n * limit <= end - start,
            end - big_n * limit >= limit,
            limit > 0,
            start <= end,
            j <= count,
            ranges.len() == j,
            forall|t: int|
                0 <= t < j ==> (#[trigger] ranges[t]).0 as nat == event_range(
                    start as nat,
                    end as nat,
                    limit as nat,
                    t as nat,
                ).0 && ranges[t].1 as nat == event_range(start as nat, end as nat, limit as nat, t as nat).1,
        decreases count - j,
    {
        let k: u64 = big_n - j;
        proof {
            lemma_mul_inequality(k as int, big_n as int, limit as int);
            lemma_mul_inequality(k as int, big_n as int, limit as int);
            lemma_mul_nonnegative(k as int, limit as int);
        }
        let n: u64 = end - k * limit;
        assert(n >= limit);
        let n_minus: u64 = if n - limit < start { start } else { n - limit };
        let ghost before = ranges@;
        ranges.push((n_minus, n));
        proof {
            assert(ranges[j as int] == (n_minus, n));
            assert(k as int == chunk_count(start as nat, end as nat, limit as nat) - j);
            assert(k * limit == (chunk_count(start as nat, end as nat, limit as nat) - j) * limit);
            assert(n as nat == event_range(start as nat, end as nat, limit as nat, j as nat).1);
            assert forall|t: int| 0 <= t < j implies ranges[t] == before[t] by {}
        }
        j = j + 1;
    }
    ranges
}

/// The log query ranges for the blocks after `start` up to `end`: one block
/// each, `(b - 1, b)` for `b` from `start + 1` to `end`, oldest first.
pub fn log_block_ranges(start: u64, end: u64) -> (r: Vec<(u64, u64)>)
    requires
        start <= end,
    ensures
        r.len() == end - start,
        forall|j: int|
            0 <= j < r.len() ==> (#[trigger] r[j]).0 == start + j && r[j].1 == start + j + 1,
{
    let big_n: u64 = end - start;
    let mut ranges: Vec<(u64, u64)> = Vec::new();
    let mut j: u64 = 0;
    while j < big_n
        invariant
            big_n == end - start,
            j <= big_n,
            ranges.len() == j,
            forall|t: int|
                0 <= t < j ==> (#[trigger] ranges[t]).0 == start + t && ranges[t].1 == start + t + 1,
        decreases big_n - j,
    {
        let k: u64 = big_n - 1 - j;
        let n: u64 = end - k;
        let n_minus: u64 = n - 1;
        ranges.push((n_minus, n));
        j = j + 1;
    }
    ranges
}

/// The event query ranges cover `start..=end` without a gap: the first starts
/// at `start`, the last ends at `end`, each starts where the one before ends,
/// and none spans more than `limit` blocks.
pub proof fn law_event_ranges_tile(start: nat, end: nat, limit: nat)
    requires
        start <= end,
        limit > 0,
        end - chunk_count(start, end, limit) * limit >= limit,
    ensures
        event_range(start, end, limit, 0).0 == start,
        event_range(start, end, limit, chunk_count(start, end, limit)).1 == end,
        forall|j: nat|
            j < chunk_count(start, end, limit) ==> #[trigger] event_range(start, end, limit, j).1
                == event_range(start, end, limit, j + 1).0,
        forall|j: nat|
            j <= chunk_count(start, end, limit) ==> event_range(start, end, limit, j).0
                <= #[trigger] event_range(start, end, limit, j).1 <= event_range(
                start,
                end,
                limit,
                j,
            ).0 + limit,
{
    let bn = chunk_count(start, end, limit);
    lemma_fundamental_div_mod((end - start) as int, limit as int);
    lemma_mul_is_commutative(limit as int, bn as int);
    let r = ((end - start) as nat) % limit;
    assert(end - start == bn * limit + r);
    assert(r < limit) by {
        lemma_mod_bound((end - start) as int, limit as int);
    }
    assert(event_range(start, end, limit, 0).0 == start) by {
        let n = end - bn * limit;
        assert(n - limit < start);
    }
    assert forall|j: nat| j < bn implies #[trigger] event_range(start, end, limit, j).1
        == event_range(start, end, limit, j + 1).0 by {
        let k = bn - j;
        lemma_mul_is_distributive_sub(limit as int, k as int, 1);
        lemma_mul_is_commutative(limit as int, k as int);
        lemma_mul_is_commutative(limit as int, (k - 1) as int);
        lemma_mul_inequality((k - 1) as int, bn as int, limit as int);
        lemma_mul_inequality(k as int, bn as int, limit as int);
        assert(k * limit == (k - 1) * limit + limit);
        let n1 = end - (k - 1) * limit;
        assert(n1 - limit == end - k * limit);
        assert(end - k * limit >= end - bn * limit);
    }
    assert forall|j: nat| j <= bn implies event_range(start, end, limit, j).0
        <= #[trigger] event_range(start, end, limit, j).1 <= event_range(start, end, limit, j).0
        + limit by {
        let k = bn - j;
        lemma_mul_inequality(k as int, bn as int, limit as int);
        lemma_mul_nonnegative(k as int, limit as int);
    }
}

} // verus!
