//! Dump retention: an age policy, then a size policy, oldest dumps first.

use vstd::prelude::*;

verus! {

/// Nothing to do when neither policy is on.
pub fn retention_enabled(retention_days: i32, size_cap: Option<u64>) -> (r: bool)
    ensures
        r == (retention_days > 0 || size_cap is Some),
{
    retention_days > 0 || size_cap.is_some()
}

/// Nanoseconds in a day.
pub const NANOS_PER_DAY: u128 = 86400000000000;

/// A dump has aged out: the age policy is on and the file was last written
/// more than `retention_days` days before `now_nanos` (both in nanoseconds
/// since the epoch).
pub fn aged_out(modified_nanos: u128, now_nanos: u128, retention_days: i32) -> (r: bool)
    requires
        retention_days > 0 ==> retention_days * NANOS_PER_DAY <= now_nanos,
    ensures
        r == (retention_days > 0 && modified_nanos < now_nanos - retention_days * NANOS_PER_DAY),
{
    if retention_days <= 0 {
        return false;
    }
    let span: u128 = (retention_days as u128) * NANOS_PER_DAY;
    modified_nanos < now_nanos - span
}

/// The sum of sizes.
pub open spec fn total_of(sizes: Seq<u64>) -> int
    decreases sizes.len(),
{
    if sizes.len() == 0 { 0 } else { total_of(sizes.drop_last()) + sizes.last() }
}

/// The size policy in progress: the bytes the remaining dumps hold, and the
/// cap.
#[derive(Debug, Clone, Copy)]
pub struct SizePass {
    pub total: u64,
    pub cap: u64,
}

impl SizePass {
    /// Start the size policy over the remaining dumps' sizes; `None` when
    /// their total does not fit in 64 bits.
    pub fn new(sizes: &Vec<u64>, cap: u64) -> (r: Option<SizePass>)
        ensures
            match r {
                Some(p) => p.total == total_of(sizes@) && p.cap == cap,
                None => total_of(sizes@) > u64::MAX,
            },
    {
        let mut total: u64 = 0;
        let mut i: usize = 0;
        while i < sizes.len()
            invariant
                i <= sizes@.len(),
                total == total_of(sizes@.take(i as int)),
            decreases sizes.len() - i,
        {
            proof {
                assert(sizes@.take(i + 1).drop_last() =~= sizes@.take(i as int));
                lemma_total_prefix_le(sizes@, i + 1);
            }
            match total.checked_add(sizes[i]) {
                Some(t) => {
                    total = t;
                },
                None => {
                    return None;
                },
            }
            i = i + 1;
        }
        assert(sizes@.take(sizes@.len() as int) =~= sizes@);
        Some(SizePass { total, cap })
    }

    /// More dumps must go: the total is over the cap.
    pub fn over_cap(&self) -> (r: bool)
        ensures
            r == (self.total > self.cap),
    {
        self.total > self.cap
    }

    /// A dump of `size` bytes was deleted.
    pub fn removed(&mut self, size: u64)
        requires
            size <= old(self).total,
        ensures
            final(self).total == old(self).total - size,
            final(self).cap == old(self).cap,
    {
        self.total = self.total - size;
    }
}

/// How many of the oldest dumps the size policy deletes when every deletion
/// succeeds: none once the rest fit under the cap, else the oldest and then
/// as many of the others as they need.
pub open spec fn prune_count(sizes: Seq<u64>, cap: u64) -> nat
    decreases sizes.len(),
{
    if sizes.len() == 0 || total_of(sizes) <= cap {
        0
    } else {
        1 + prune_count(sizes.drop_first(), cap)
    }
}

proof fn lemma_total_split(sizes: Seq<u64>, j: int)
    requires
        0 <= j <= sizes.len(),
    ensures
        total_of(sizes) == total_of(sizes.take(j)) + total_of(sizes.skip(j)),
    decreases sizes.len(),
{
    if j == sizes.len() {
        assert(sizes.take(j) =~= sizes);
        assert(sizes.skip(j).len() == 0);
    } else {
        let init = sizes.drop_last();
        lemma_total_split(init, j);
        assert(init.take(j) =~= sizes.take(j));
        assert(sizes.skip(j).drop_last() =~= init.skip(j));
        assert(sizes.skip(j).last() == sizes.last());
    }
}

proof fn lemma_total_first(sizes: Seq<u64>)
    requires
        sizes.len() > 0,
    ensures
        total_of(sizes) == sizes[0] + total_of(sizes.drop_first()),
{
    lemma_total_split(sizes, 1);
    assert(sizes.skip(1) =~= sizes.drop_first());
    assert(sizes.take(1).drop_last() =~= Seq::<u64>::empty());
    assert(total_of(Seq::<u64>::empty()) == 0);
    assert(total_of(sizes.take(1)) == sizes[0]);
}

proof fn lemma_total_skip_le(sizes: Seq<u64>, j: int)
    requires
        0 <= j <= sizes.len(),
    ensures
        total_of(sizes.skip(j)) <= total_of(sizes),
{
    lemma_total_split(sizes, j);
    lemma_total_nonneg(sizes.take(j));
}

proof fn lemma_total_nonneg(sizes: Seq<u64>)
    ensures
        total_of(sizes) >= 0,
    decreases sizes.len(),
{
    if sizes.len() > 0 {
        lemma_total_nonneg(sizes.drop_last());
    }
}

/// The size policy deletes the oldest dumps first and no more than it must.
/// With the pass started on the total of `sizes` (oldest first) and each
/// deleted dump's size taken off, after the oldest `j` are gone it reads the
/// total of the others; it is still over the cap exactly while `j` is below
/// `prune_count`; and once that many are gone the rest fit under the cap.
pub proof fn law_size_policy_deletes_oldest_prefix(sizes: Seq<u64>, cap: u64, j: int)
    requires
        0 <= j <= sizes.len(),
    ensures
        total_of(sizes) - total_of(sizes.take(j)) == total_of(sizes.skip(j)),
        total_of(sizes.skip(j)) > cap <==> j < prune_count(sizes, cap),
        prune_count(sizes, cap) <= sizes.len(),
        total_of(sizes.skip(prune_count(sizes, cap) as int)) <= cap,
    decreases sizes.len(),
{
    lemma_total_split(sizes, j);
    if sizes.len() == 0 || total_of(sizes) <= cap {
        lemma_total_skip_le(sizes, j);
        assert(sizes.skip(0) =~= sizes);
    } else {
        let rest = sizes.drop_first();
        lemma_total_first(sizes);
        if j == 0 {
            assert(sizes.skip(0) =~= sizes);
            law_size_policy_deletes_oldest_prefix(rest, cap, 0);
        } else {
            law_size_policy_deletes_oldest_prefix(rest, cap, j - 1);
            assert(sizes.skip(j) =~= rest.skip(j - 1));
        }
        let k = prune_count(rest, cap);
        law_size_policy_deletes_oldest_prefix(rest, cap, k as int);
        assert(sizes.skip(k + 1int) =~= rest.skip(k as int));
    }
}

proof fn lemma_total_prefix_le(sizes: Seq<u64>, n: int)
    requires
        0 <= n <= sizes.len(),
    ensures
        total_of(sizes.take(n)) <= total_of(sizes),
    decreases sizes.len(),
{
    if n < sizes.len() {
        let init = sizes.drop_last();
        assert(init.take(n) =~= sizes.take(n));
        lemma_total_prefix_le(init, n);
    } else {
        assert(sizes.take(n) =~= sizes);
    }
}

} // verus!
