//! The allocation ledger: categorized memory reservations under a hard
//! capacity ceiling, with an idle-time eviction pass over the lowest-priority
//! category.
//!
//! The manager tracks logical reservations, not real memory pages.  Its two
//! core invariants are that `current_allocation` always equals the sum of the
//! live record sizes, and that each category's usage counter always equals
//! the sum of the live record sizes in that category.  Time is read from an
//! internal monotonic clock that the owner advances explicitly, so that the
//! idle-time policy is deterministic and testable.

use vstd::prelude::*;

verus! {

/// Priority tier of a reservation.  Only `Background` is ever reclaimed
/// automatically by the eviction policy.
#[derive(Debug, Clone, Copy, PartialEq, Eq, Structural)]
pub enum MemoryCategory {
    /// Critical system memory, never evicted.
    System,
    /// Short-term memory for immediate work, never evicted.
    ShortTerm,
    /// Working memory for active processing, never evicted.
    Working,
    /// Long-term memory for persistent storage, never evicted.
    LongTerm,
    /// Low-priority memory; the only eviction target.
    Background,
}

/// Policy profile controlling how eager the eviction pass is.
#[derive(Debug, Clone, Copy, PartialEq, Eq, Structural)]
pub enum OptimizationStrategy {
    /// Evicts after 60 idle seconds, and runs opportunistically when an
    /// allocation would overflow the ceiling.
    Aggressive,
    /// Evicts after 300 idle seconds, only when asked explicitly.
    Balanced,
    /// Evicts after 900 idle seconds, only when asked explicitly.
    Conservative,
}

/// The ways an operation on the ledger can fail.
#[derive(Debug, Clone, Copy, PartialEq, Eq, Structural)]
pub enum MemoryError {
    /// The supplied handle does not resolve to a live record.
    NotFound,
    /// The allocation would exceed the capacity ceiling, even after an
    /// eviction attempt where the strategy allows one.
    CapacityExceeded,
}

/// Reference to one live allocation record.  Callers treat handles as
/// opaque; the identifier inside is minted from a per-manager counter and is
/// never reused, so a handle is collision-free for its manager's lifetime.
#[derive(Debug, Clone, Copy, PartialEq, Eq, Hash, Structural)]
pub struct MemoryHandle {
    /// Identifier, unique per manager.
    pub id: u64,
}

/// One logical memory reservation.
#[derive(Debug)]
pub struct AllocationRecord {
    /// Handle under which the record was issued.
    pub handle: MemoryHandle,
    /// Size of the reservation in bytes; immutable after creation.
    pub size: usize,
    /// Free-form description of the reservation's purpose.
    pub purpose: String,
    /// Priority tier; immutable after creation.
    pub category: MemoryCategory,
    /// Clock reading at creation.
    pub allocated_at: u64,
    /// Clock reading of the most recent access.
    pub last_accessed: u64,
    /// How many times the record has been accessed.
    pub access_count: usize,
}

/// Aggregate bytes per category; each field equals the sum of the live
/// record sizes in that category.
#[derive(Debug, Clone, Copy, PartialEq, Eq, Structural)]
pub struct CategoryUsage {
    /// Aggregate bytes of `System` records.
    pub system: usize,
    /// Aggregate bytes of `ShortTerm` records.
    pub short_term: usize,
    /// Aggregate bytes of `Working` records.
    pub working: usize,
    /// Aggregate bytes of `LongTerm` records.
    pub long_term: usize,
    /// Aggregate bytes of `Background` records.
    pub background: usize,
}

impl CategoryUsage {
    /// The counter held for `c`, as a mathematical integer.
    pub open spec fn spec_usage(self, c: MemoryCategory) -> int {
        match c {
            MemoryCategory::System => self.system as int,
            MemoryCategory::ShortTerm => self.short_term as int,
            MemoryCategory::Working => self.working as int,
            MemoryCategory::LongTerm => self.long_term as int,
            MemoryCategory::Background => self.background as int,
        }
    }

    /// All five counters at zero.
    pub fn zero() -> (u: CategoryUsage)
        ensures
            forall|c: MemoryCategory| u.spec_usage(c) == 0,
    {
        CategoryUsage { system: 0, short_term: 0, working: 0, long_term: 0, background: 0 }
    }

    /// Read the counter for `c`.
    pub fn get(&self, c: MemoryCategory) -> (n: usize)
        ensures
            n == self.spec_usage(c),
    {
        match c {
            MemoryCategory::System => self.system,
            MemoryCategory::ShortTerm => self.short_term,
            MemoryCategory::Working => self.working,
            MemoryCategory::LongTerm => self.long_term,
            MemoryCategory::Background => self.background,
        }
    }

    /// Add `n` bytes to the counter for `c`.
    pub fn add(&mut self, c: MemoryCategory, n: usize)
        requires
            old(self).spec_usage(c) + n <= usize::MAX,
        ensures
            final(self).spec_usage(c) == old(self).spec_usage(c) + n,
            forall|d: MemoryCategory| d != c ==> final(self).spec_usage(d) == old(self).spec_usage(d),
    {
        match c {
            MemoryCategory::System => { self.system = self.system + n; },
            MemoryCategory::ShortTerm => { self.short_term = self.short_term + n; },
            MemoryCategory::Working => { self.working = self.working + n; },
            MemoryCategory::LongTerm => { self.long_term = self.long_term + n; },
            MemoryCategory::Background => { self.background = self.background + n; },
        }
    }

    /// Remove `n` bytes from the counter for `c`, flooring at zero.  The
    /// floor is defensive: under the ledger invariants the counter never
    /// actually drops below the amount removed.
    pub fn sub_saturating(&mut self, c: MemoryCategory, n: usize)
        ensures
            final(self).spec_usage(c) == if n <= old(self).spec_usage(c) {
                old(self).spec_usage(c) - n
            } else {
                0
            },
            forall|d: MemoryCategory| d != c ==> final(self).spec_usage(d) == old(self).spec_usage(d),
    {
        match c {
            MemoryCategory::System => { self.system = self.system.saturating_sub(n); },
            MemoryCategory::ShortTerm => { self.short_term = self.short_term.saturating_sub(n); },
            MemoryCategory::Working => { self.working = self.working.saturating_sub(n); },
            MemoryCategory::LongTerm => { self.long_term = self.long_term.saturating_sub(n); },
            MemoryCategory::Background => { self.background = self.background.saturating_sub(n); },
        }
    }
}

/// Sum of the sizes of all records in `s`.
pub open spec fn sum_sizes(s: Seq<AllocationRecord>) -> int
    decreases s.len(),
{
    if s.len() == 0 {
        0
    } else {
        sum_sizes(s.drop_last()) + s.last().size
    }
}

/// Sum of the sizes of the records in `s` whose category is `c`.
pub open spec fn sum_sizes_of(s: Seq<AllocationRecord>, c: MemoryCategory) -> int
    decreases s.len(),
{
    if s.len() == 0 {
        0
    } else {
        sum_sizes_of(s.drop_last(), c) + if s.last().category == c {
            s.last().size as int
        } else {
            0
        }
    }
}

/// Whether some record in `s` carries the handle identifier `id`.
pub open spec fn contains_handle(s: Seq<AllocationRecord>, id: u64) -> bool {
    exists|i: int| 0 <= i < s.len() && s[i].handle.id == id
}

/// The strategy a name denotes; any unrecognized name falls back to
/// `Balanced`, the deliberate default.
pub open spec fn strategy_of(s: Seq<char>) -> OptimizationStrategy {
    if s == "aggressive"@ {
        OptimizationStrategy::Aggressive
    } else if s == "conservative"@ {
        OptimizationStrategy::Conservative
    } else {
        OptimizationStrategy::Balanced
    }
}

/// The idle time, in seconds, beyond which a `Background` record becomes an
/// eviction candidate under `strategy`.
pub open spec fn idle_threshold_s(strategy: OptimizationStrategy) -> u64 {
    match strategy {
        OptimizationStrategy::Aggressive => 60,
        OptimizationStrategy::Balanced => 300,
        OptimizationStrategy::Conservative => 900,
    }
}

/// The sum of all record sizes is non-negative.
proof fn lemma_sum_sizes_nonneg(s: Seq<AllocationRecord>)
    ensures
        0 <= sum_sizes(s),
    decreases s.len(),
{
    if s.len() > 0 {
        lemma_sum_sizes_nonneg(s.drop_last());
    }
}

/// The sum of one category's record sizes is non-negative and no more than
/// the sum over all records.
proof fn lemma_sum_sizes_of_bounds(s: Seq<AllocationRecord>, c: MemoryCategory)
    ensures
        0 <= sum_sizes_of(s, c) <= sum_sizes(s),
    decreases s.len(),
{
    if s.len() > 0 {
        lemma_sum_sizes_of_bounds(s.drop_last(), c);
    }
}

/// Appending a record adds its size to the total.
proof fn lemma_sum_sizes_push(s: Seq<AllocationRecord>, r: AllocationRecord)
    ensures
        sum_sizes(s.push(r)) == sum_sizes(s) + r.size,
{
    assert(s.push(r).drop_last() =~= s);
}

/// Appending a record adds its size to its own category's sum and leaves
/// the other categories' sums unchanged.
proof fn lemma_sum_sizes_of_push(s: Seq<AllocationRecord>, r: AllocationRecord, c: MemoryCategory)
    ensures
        sum_sizes_of(s.push(r), c) == sum_sizes_of(s, c) + if r.category == c {
            r.size as int
        } else {
            0
        },
{
    assert(s.push(r).drop_last() =~= s);
}

/// Removing a record subtracts its size from the total.
proof fn lemma_sum_sizes_remove(s: Seq<AllocationRecord>, i: int)
    requires
        0 <= i < s.len(),
    ensures
        sum_sizes(s.remove(i)) == sum_sizes(s) - s[i].size,
    decreases s.len(),
{
    if i == s.len() - 1 {
        assert(s.remove(i) =~= s.drop_last());
    } else {
        lemma_sum_sizes_remove(s.drop_last(), i);
        assert(s.remove(i).drop_last() =~= s.drop_last().remove(i));
        assert(s.remove(i).last() == s.last());
    }
}

/// Removing a record subtracts its size from its own category's sum and
/// leaves the other categories' sums unchanged.
proof fn lemma_sum_sizes_of_remove(s: Seq<AllocationRecord>, i: int, c: MemoryCategory)
    requires
        0 <= i < s.len(),
    ensures
        sum_sizes_of(s.remove(i), c) == sum_sizes_of(s, c) - if s[i].category == c {
            s[i].size as int
        } else {
            0
        },
    decreases s.len(),
{
    if i == s.len() - 1 {
        assert(s.remove(i) =~= s.drop_last());
    } else {
        lemma_sum_sizes_of_remove(s.drop_last(), i, c);
        assert(s.remove(i).drop_last() =~= s.drop_last().remove(i));
        assert(s.remove(i).last() == s.last());
    }
}

/// Two record sequences that agree pointwise on sizes and categories have
/// the same total sum.
proof fn lemma_sum_sizes_congruent(s1: Seq<AllocationRecord>, s2: Seq<AllocationRecord>)
    requires
        s1.len() == s2.len(),
        forall|k: int|
            0 <= k < s1.len() ==> (#[trigger] s1[k]).size == (#[trigger] s2[k]).size
                && s1[k].category == s2[k].category,
    ensures
        sum_sizes(s1) == sum_sizes(s2),
    decreases s1.len(),
{
    if s1.len() > 0 {
        lemma_sum_sizes_congruent(s1.drop_last(), s2.drop_last());
    }
}

/// Two record sequences that agree pointwise on sizes and categories have
/// the same sum in every category.
proof fn lemma_sum_sizes_of_congruent(
    s1: Seq<AllocationRecord>,
    s2: Seq<AllocationRecord>,
    c: MemoryCategory,
)
    requires
        s1.len() == s2.len(),
        forall|k: int|
            0 <= k < s1.len() ==> (#[trigger] s1[k]).size == (#[trigger] s2[k]).size
                && s1[k].category == s2[k].category,
    ensures
        sum_sizes_of(s1, c) == sum_sizes_of(s2, c),
    decreases s1.len(),
{
    if s1.len() > 0 {
        lemma_sum_sizes_of_congruent(s1.drop_last(), s2.drop_last(), c);
    }
}

/// Owner of the allocation ledger: enforces the capacity ceiling, keeps the
/// aggregate counters in step with the live records, and reclaims idle
/// `Background` records under pressure.
#[derive(Debug)]
pub struct MemoryManager {
    /// Capacity ceiling in bytes, fixed at construction.
    pub max_allocation: usize,
    /// Sum of all live record sizes, in bytes.
    pub current_allocation: usize,
    /// The live allocation records.
    pub records: Vec<AllocationRecord>,
    /// Eviction policy profile, fixed at construction.
    pub strategy: OptimizationStrategy,
    /// Aggregate bytes per category.
    pub category_usage: CategoryUsage,
    /// Clock reading of the most recent completed optimization pass.
    pub last_optimization: u64,
    /// The manager's monotonic clock, in seconds; advanced only by
    /// `advance_clock`.
    pub clock: u64,
    /// Identifier the next allocation will be issued under.
    pub next_handle: u64,
}

impl MemoryManager {
    /// Well-formedness: the accounting invariants (the total and per-category
    /// counters equal the corresponding sums over live records, and the total
    /// never exceeds the ceiling), uniqueness and freshness of handles, and
    /// monotonicity of the stored timestamps with respect to the clock.
    pub open spec fn wf(self) -> bool {
        &&& 1 <= self.max_allocation
        &&& self.current_allocation == sum_sizes(self.records@)
        &&& self.current_allocation <= self.max_allocation
        &&& forall|c: MemoryCategory|
            #[trigger] self.category_usage.spec_usage(c) == sum_sizes_of(self.records@, c)
        &&& forall|i: int, j: int|
            0 <= i < j < self.records@.len() ==> #[trigger] self.records@[i].handle.id
                != #[trigger] self.records@[j].handle.id
        &&& forall|i: int|
            0 <= i < self.records@.len() ==> #[trigger] self.records@[i].handle.id
                < self.next_handle
        &&& forall|i: int|
            0 <= i < self.records@.len() ==> (#[trigger] self.records@[i].allocated_at)
                <= self.records@[i].last_accessed <= self.clock
        &&& self.last_optimization <= self.clock
    }

    /// Whether a record under `id` is live.
    pub open spec fn has_live(self, id: u64) -> bool {
        contains_handle(self.records@, id)
    }

    /// Usage has reached the 70% high-water mark that arms the eviction
    /// pass: `current / max * 100 >= 70`, compared exactly.
    pub open spec fn above_high_water(self) -> bool {
        100 * self.current_allocation >= 70 * self.max_allocation
    }

    /// Create a manager with a ceiling of `max_allocation_mb` megabytes and
    /// the named strategy; an unrecognized strategy name means `Balanced`.
    /// The ledger starts empty and the clock at zero.
    pub fn new(max_allocation_mb: usize, optimization_strategy: &str) -> (m: MemoryManager)
        requires
            1 <= max_allocation_mb,
            max_allocation_mb * 1048576 <= usize::MAX,
        ensures
            m.wf(),
            m.max_allocation == max_allocation_mb * 1048576,
            m.current_allocation == 0,
            m.records@.len() == 0,
            m.strategy == strategy_of(optimization_strategy@),
            m.last_optimization == 0,
            m.clock == 0,
            m.next_handle == 0,
    {
        let strategy = if crate::text::str_eq(optimization_strategy, "aggressive") {
            OptimizationStrategy::Aggressive
        } else if crate::text::str_eq(optimization_strategy, "conservative") {
            OptimizationStrategy::Conservative
        } else {
            OptimizationStrategy::Balanced
        };
        MemoryManager {
            max_allocation: max_allocation_mb * 1048576,
            current_allocation: 0,
            records: Vec::new(),
            strategy,
            category_usage: CategoryUsage::zero(),
            last_optimization: 0,
            clock: 0,
            next_handle: 0,
        }
    }

    /// Current total usage in bytes.
    pub fn current_usage(&self) -> (n: usize)
        ensures
            n == self.current_allocation,
    {
        self.current_allocation
    }

    /// The capacity ceiling in bytes.
    pub fn max_allocation(&self) -> (n: usize)
        ensures
            n == self.max_allocation,
    {
        self.max_allocation
    }

    /// Usage as a percentage of the ceiling, rounded down.
    pub fn usage_percentage(&self) -> (p: u64)
        requires
            self.wf(),
        ensures
            p == 100 * (self.current_allocation as int) / (self.max_allocation as int),
            p <= 100,
    {
        let percent: u128 = (self.current_allocation as u128) * 100 / (self.max_allocation as u128);
        assert(percent <= 100) by (nonlinear_arith)
            requires
                percent == 100 * (self.current_allocation as int) / (self.max_allocation as int),
                self.current_allocation <= self.max_allocation,
                1 <= self.max_allocation,
        ;
        percent as u64
    }

    /// Usage of one category in bytes; zero when no live record has it.
    pub fn category_usage(&self, category: MemoryCategory) -> (n: usize)
        ensures
            n == self.category_usage.spec_usage(category),
    {
        self.category_usage.get(category)
    }

    /// Advance the monotonic clock by `seconds`.  The clock only ever moves
    /// forward; nothing else changes.
    pub fn advance_clock(&mut self, seconds: u64)
        requires
            old(self).wf(),
            old(self).clock + seconds <= u64::MAX,
        ensures
            final(self).wf(),
            final(self).clock == old(self).clock + seconds,
            *final(self) == (MemoryManager { clock: (old(self).clock + seconds) as u64, ..*old(self) }),
    {
        self.clock = self.clock + seconds;
    }

    /// Index of the live record under `id`, if any.
    fn find_record(&self, id: u64) -> (r: Option<usize>)
        ensures
            match r {
                Some(i) => i < self.records@.len() && self.records@[i as int].handle.id == id,
                None => !contains_handle(self.records@, id),
            },
    {
        let n = self.records.len();
        let mut k: usize = 0;
        while k < n
            invariant
                n == self.records@.len(),
                k <= n,
                forall|j: int| 0 <= j < k ==> (#[trigger] self.records@[j]).handle.id != id,
            decreases n - k,
        {
            if self.records[k].handle.id == id {
                return Some(k);
            }
            k = k + 1;
        }
        None
    }

    /// Record an access: refresh the record's last-accessed time from the
    /// clock and bump its access count.  Fails with `NotFound`, changing
    /// nothing, exactly when no live record carries the handle.  Size
    /// accounting is untouched either way.
    pub fn access(&mut self, handle: MemoryHandle) -> (r: Result<(), MemoryError>)
        requires
            old(self).wf(),
        ensures
            final(self).wf(),
            r is Ok <==> old(self).has_live(handle.id),
            r is Ok ==> access_post(*old(self), handle.id, *final(self)),
            !old(self).has_live(handle.id) ==> r == Err::<(), MemoryError>(MemoryError::NotFound)
                && *final(self) == *old(self),
    {
        match self.find_record(handle.id) {
            None => Err(MemoryError::NotFound),
            Some(i) => {
                let ghost s0 = self.records@;
                let mut rec = self.records.remove(i);
                rec.last_accessed = self.clock;
                if rec.access_count < usize::MAX {
                    rec.access_count = rec.access_count + 1;
                }
                let ghost updated = rec;
                self.records.insert(i, rec);
                proof {
                    assert(self.records@ =~= s0.update(i as int, updated));
                    lemma_sum_sizes_congruent(s0, self.records@);
                    assert forall|c: MemoryCategory|
                        #[trigger] self.category_usage.spec_usage(c)
                            == sum_sizes_of(self.records@, c) by {
                        lemma_sum_sizes_of_congruent(s0, self.records@, c);
                    }
                }
                Ok(())
            },
        }
    }

    /// Release the record under `handle`: drop it from the ledger and give
    /// its size back to the total and to its category's counter (the latter
    /// floored at zero, a defensive floor the invariants keep from ever
    /// binding).  Fails with `NotFound`, changing nothing, exactly when no
    /// live record carries the handle.
    pub fn deallocate(&mut self, handle: MemoryHandle) -> (r: Result<(), MemoryError>)
        requires
            old(self).wf(),
        ensures
            final(self).wf(),
            r is Ok <==> old(self).has_live(handle.id),
            r is Ok ==> deallocate_post(*old(self), handle.id, *final(self)),
            !old(self).has_live(handle.id) ==> r == Err::<(), MemoryError>(MemoryError::NotFound)
                && *final(self) == *old(self),
    {
        match self.find_record(handle.id) {
            None => Err(MemoryError::NotFound),
            Some(i) => {
                let ghost s0 = self.records@;
                let rec = self.records.remove(i);
                proof {
                    lemma_sum_sizes_remove(s0, i as int);
                    lemma_sum_sizes_nonneg(self.records@);
                    lemma_sum_sizes_of_bounds(self.records@, rec.category);
                    lemma_sum_sizes_of_remove(s0, i as int, rec.category);
                }
                self.current_allocation = self.current_allocation - rec.size;
                self.category_usage.sub_saturating(rec.category, rec.size);
                proof {
                    assert forall|c: MemoryCategory|
                        #[trigger] self.category_usage.spec_usage(c)
                            == sum_sizes_of(self.records@, c) by {
                        lemma_sum_sizes_of_remove(s0, i as int, c);
                    }
                }
                Ok(())
            },
        }
    }

    /// One optimization pass: record the pass on the clock and, while usage
    /// has reached the 70% high-water mark, evict every `Background` record
    /// idle past the strategy's threshold.  The pass never fails; it
    /// returns the number of bytes it freed.
    pub fn optimize(&mut self) -> (freed: usize)
        requires
            old(self).wf(),
        ensures
            final(self).wf(),
            optimize_post(*old(self), *final(self)),
            freed == old(self).current_allocation - final(self).current_allocation,
    {
        self.last_optimization = self.clock;
        if (self.current_allocation as u128) * 100 < (self.max_allocation as u128) * 70 {
            return 0;
        }
        let threshold: u64 = match self.strategy {
            OptimizationStrategy::Aggressive => 60,
            OptimizationStrategy::Balanced => 300,
            OptimizationStrategy::Conservative => 900,
        };
        let now = self.clock;
        let ghost keep = eviction_keep(now, threshold);
        let mut pending: Vec<AllocationRecord> = Vec::new();
        core::mem::swap(&mut pending, &mut self.records);
        let ghost orig = pending@;
        let ghost mut processed = Seq::<AllocationRecord>::empty();
        let mut freed: usize = 0;
        proof {
            reveal(Seq::filter);
            assert(self.records@ =~= processed.filter(keep));
            assert(orig =~= processed + pending@);
        }
        while pending.len() > 0
            invariant
                old(self).wf(),
                orig == old(self).records@,
                orig == processed + pending@,
                self.records@ == processed.filter(keep),
                keep == eviction_keep(now, threshold),
                now == old(self).clock,
                freed + sum_sizes(self.records@) + sum_sizes(pending@) == sum_sizes(orig),
                freed + sum_sizes_of(self.records@, MemoryCategory::Background) + sum_sizes_of(
                    pending@,
                    MemoryCategory::Background,
                ) == sum_sizes_of(orig, MemoryCategory::Background),
                forall|c: MemoryCategory|
                    c != MemoryCategory::Background ==> #[trigger] sum_sizes_of(self.records@, c)
                        + sum_sizes_of(pending@, c) == sum_sizes_of(orig, c),
                forall|i: int, j: int|
                    0 <= i < j < self.records@.len() ==> (#[trigger] self.records@[i]).handle.id
                        != (#[trigger] self.records@[j]).handle.id,
                forall|i: int, j: int|
                    0 <= i < j < pending@.len() ==> (#[trigger] pending@[i]).handle.id
                        != (#[trigger] pending@[j]).handle.id,
                forall|i: int, j: int|
                    0 <= i < self.records@.len() && 0 <= j < pending@.len() ==> (
                    #[trigger] self.records@[i]).handle.id != (#[trigger] pending@[j]).handle.id,
                forall|i: int|
                    0 <= i < self.records@.len() ==> (#[trigger] self.records@[i]).handle.id
                        < self.next_handle && self.records@[i].allocated_at
                        <= self.records@[i].last_accessed <= now,
                forall|j: int|
                    0 <= j < pending@.len() ==> (#[trigger] pending@[j]).handle.id
                        < self.next_handle && pending@[j].allocated_at
                        <= pending@[j].last_accessed <= now,
                self.max_allocation == old(self).max_allocation,
                self.current_allocation == old(self).current_allocation,
                self.strategy == old(self).strategy,
                self.category_usage == old(self).category_usage,
                self.clock == old(self).clock,
                self.next_handle == old(self).next_handle,
                self.last_optimization == old(self).clock,
            decreases pending@.len(),
        {
            let ghost pend0 = pending@;
            let ghost recs0 = self.records@;
            let r = pending.remove(0);
            proof {
                assert(pend0[0] == r);
                assert(pending@ =~= pend0.remove(0));
                lemma_sum_sizes_remove(pend0, 0);
                lemma_sum_sizes_nonneg(pending@);
                lemma_sum_sizes_nonneg(recs0);
                assert forall|c: MemoryCategory| #[trigger] sum_sizes_of(pend0, c) == sum_sizes_of(
                    pending@,
                    c,
                ) + (if r.category == c {
                    r.size as int
                } else {
                    0
                }) by {
                    lemma_sum_sizes_of_remove(pend0, 0, c);
                    lemma_sum_sizes_of_bounds(pending@, c);
                }
            }
            let is_background = r.category == MemoryCategory::Background;
            if is_background && now - r.last_accessed > threshold {
                proof {
                    let p0 = processed;
                    processed = p0.push(r);
                    lemma_filter_push(p0, r, keep);
                    assert(!keep(r));
                    assert(orig =~= processed + pending@);
                    assert(freed + sum_sizes(recs0) + sum_sizes(pend0) == sum_sizes(orig));
                    assert(sum_sizes(pend0) == sum_sizes(pending@) + r.size);
                    assert(sum_sizes(orig) == old(self).current_allocation);
                    assert(freed + r.size <= old(self).current_allocation);
                }
                freed = freed + r.size;
            } else {
                proof {
                    let p0 = processed;
                    processed = p0.push(r);
                    lemma_filter_push(p0, r, keep);
                    assert(keep(r));
                    assert(orig =~= processed + pending@);
                    lemma_sum_sizes_push(recs0, r);
                    assert forall|c: MemoryCategory| #[trigger] sum_sizes_of(recs0.push(r), c)
                        == sum_sizes_of(recs0, c) + (if r.category == c {
                        r.size as int
                    } else {
                        0
                    }) by {
                        lemma_sum_sizes_of_push(recs0, r, c);
                    }
                }
                self.records.push(r);
            }
        }
        proof {
            assert(pending@ =~= Seq::<AllocationRecord>::empty());
            assert(orig =~= processed);
            assert(self.records@ == orig.filter(keep));
            lemma_sum_sizes_nonneg(self.records@);
            lemma_sum_sizes_of_bounds(self.records@, MemoryCategory::Background);
        }
        self.current_allocation = self.current_allocation - freed;
        self.category_usage.sub_saturating(MemoryCategory::Background, freed);
        proof {
            assert forall|c: MemoryCategory| #[trigger] self.category_usage.spec_usage(c)
                == sum_sizes_of(self.records@, c) by {
                lemma_sum_sizes_of_bounds(self.records@, c);
            }
        }
        freed
    }

    /// Reserve `size_bytes` bytes under a fresh handle.  When the sum would
    /// exceed the ceiling, the `Aggressive` strategy first runs one
    /// optimization pass and re-checks; the other strategies fail at once.
    /// A refused allocation changes no record and no counter (an eviction
    /// the guard performed stands), and is reported as `CapacityExceeded`.
    pub fn allocate(
        &mut self,
        size_bytes: usize,
        purpose: &str,
        category: MemoryCategory,
    ) -> (r: Result<MemoryHandle, MemoryError>)
        requires
            old(self).wf(),
            old(self).next_handle < u64::MAX,
        ensures
            final(self).wf(),
            allocate_post(*old(self), size_bytes, purpose@, category, r, *final(self)),
    {
        if size_bytes > self.max_allocation - self.current_allocation {
            if self.strategy == OptimizationStrategy::Aggressive {
                let _freed = self.optimize();
            }
            if size_bytes > self.max_allocation - self.current_allocation {
                return Err(MemoryError::CapacityExceeded);
            }
        }
        let handle = MemoryHandle { id: self.next_handle };
        self.next_handle = self.next_handle + 1;
        let now = self.clock;
        let record = AllocationRecord {
            handle,
            size: size_bytes,
            purpose: purpose.to_owned(),
            category,
            allocated_at: now,
            last_accessed: now,
            access_count: 0,
        };
        let ghost recs0 = self.records@;
        let ghost rec_g = record;
        proof {
            lemma_sum_sizes_push(recs0, rec_g);
            lemma_sum_sizes_of_bounds(recs0, category);
            assert forall|c: MemoryCategory| #[trigger] sum_sizes_of(recs0.push(rec_g), c)
                == sum_sizes_of(recs0, c) + (if rec_g.category == c {
                rec_g.size as int
            } else {
                0
            }) by {
                lemma_sum_sizes_of_push(recs0, rec_g, c);
            }
        }
        self.records.push(record);
        self.current_allocation = self.current_allocation + size_bytes;
        self.category_usage.add(category, size_bytes);
        proof {
            assert(self.records@.drop_last() =~= recs0);
            assert(self.records@ == recs0.push(rec_g));
            assert(self.records@.len() == recs0.len() + 1);
            let n = recs0.len() as int;
            assert(self.records@[n] == rec_g);
            assert forall|i: int| 0 <= i < n implies #[trigger] self.records@[i] == recs0[i] by {
            }
            assert forall|i: int|
                0 <= i < self.records@.len() implies (#[trigger] self.records@[i]).handle.id
                < self.next_handle by {
                if i < n {
                    assert(self.records@[i] == recs0[i]);
                    assert(recs0[i].handle.id < rec_g.handle.id);
                }
            }
            assert forall|i: int|
                0 <= i < self.records@.len() implies (#[trigger] self.records@[i]).allocated_at
                <= self.records@[i].last_accessed <= self.clock by {
                if i < n {
                    assert(self.records@[i] == recs0[i]);
                }
            }
            assert forall|i: int, j: int|
                0 <= i < j < self.records@.len() implies (#[trigger] self.records@[i]).handle.id
                != (#[trigger] self.records@[j]).handle.id by {
                assert(self.records@[i] == recs0[i]);
                if j < n {
                    assert(self.records@[j] == recs0[j]);
                } else {
                    assert(self.records@[j] == rec_g);
                    assert(recs0[i].handle.id < rec_g.handle.id);
                }
            }
        }
        Ok(handle)
    }
}

/// Whether `r` is an eviction candidate at clock reading `now`: only
/// `Background` records are, and only once idle for longer than `threshold`
/// seconds.
pub open spec fn evictable(r: AllocationRecord, now: u64, threshold: u64) -> bool {
    r.category == MemoryCategory::Background && now - r.last_accessed > threshold
}

/// The predicate an optimization pass keeps records by.
pub open spec fn eviction_keep(now: u64, threshold: u64) -> spec_fn(AllocationRecord) -> bool {
    |r: AllocationRecord| !evictable(r, now, threshold)
}

/// The records an optimization pass of `m` leaves live: all of them while
/// usage is under the high-water mark, otherwise everything but the idle
/// `Background` records.
pub open spec fn kept_after_optimize(m: MemoryManager) -> Seq<AllocationRecord> {
    if m.above_high_water() {
        m.records@.filter(eviction_keep(m.clock, idle_threshold_s(m.strategy)))
    } else {
        m.records@
    }
}

/// What one optimization pass did to the manager: the pass is recorded on
/// the clock unconditionally, the ledger shrinks to `kept_after_optimize`,
/// and the counters follow the ledger.
pub open spec fn optimize_post(pre: MemoryManager, post: MemoryManager) -> bool {
    &&& post.max_allocation == pre.max_allocation
    &&& post.strategy == pre.strategy
    &&& post.clock == pre.clock
    &&& post.next_handle == pre.next_handle
    &&& post.last_optimization == pre.clock
    &&& post.records@ == kept_after_optimize(pre)
    &&& post.current_allocation == sum_sizes(post.records@)
    &&& forall|c: MemoryCategory|
        #[trigger] post.category_usage.spec_usage(c) == sum_sizes_of(post.records@, c)
}

/// Whether `allocate` of `size` more bytes on `pre` engages the capacity
/// guard: only when the sum would exceed the ceiling, and only under the
/// `Aggressive` strategy.
pub open spec fn guard_runs(pre: MemoryManager, size: usize) -> bool {
    pre.current_allocation + size > pre.max_allocation && pre.strategy
        == OptimizationStrategy::Aggressive
}

/// The records still live at the moment `allocate` of `size` bytes decides:
/// the original ones, thinned by an eviction pass where the guard ran.
pub open spec fn kept_records(pre: MemoryManager, size: usize) -> Seq<AllocationRecord> {
    if guard_runs(pre, size) {
        kept_after_optimize(pre)
    } else {
        pre.records@
    }
}

/// The record a successful allocation appends: issued under `id`, with both
/// timestamps at `now` and no accesses yet.
pub open spec fn fresh_record(
    r: AllocationRecord,
    id: u64,
    size: usize,
    purpose: Seq<char>,
    category: MemoryCategory,
    now: u64,
) -> bool {
    &&& r.handle.id == id
    &&& r.size == size
    &&& r.purpose@ == purpose
    &&& r.category == category
    &&& r.allocated_at == now
    &&& r.last_accessed == now
    &&& r.access_count == 0
}

/// What one `allocate` call did to the manager.  With `kept` the records
/// live after any guard eviction: when `size` more bytes fit under the
/// ceiling, a fresh record is appended under the next handle and the
/// counters grow by `size`; otherwise the call reports `CapacityExceeded`
/// and adds nothing, though an eviction the guard performed stands.
pub open spec fn allocate_post(
    pre: MemoryManager,
    size: usize,
    purpose: Seq<char>,
    category: MemoryCategory,
    r: Result<MemoryHandle, MemoryError>,
    post: MemoryManager,
) -> bool {
    let kept = kept_records(pre, size);
    &&& post.max_allocation == pre.max_allocation
    &&& post.strategy == pre.strategy
    &&& post.clock == pre.clock
    &&& post.last_optimization == if guard_runs(pre, size) {
        pre.clock
    } else {
        pre.last_optimization
    }
    &&& if sum_sizes(kept) + size <= pre.max_allocation {
        &&& r == Ok::<MemoryHandle, MemoryError>((MemoryHandle { id: pre.next_handle }))
        &&& post.next_handle == pre.next_handle + 1
        &&& post.records@.len() == kept.len() + 1
        &&& post.records@.drop_last() == kept
        &&& fresh_record(post.records@.last(), pre.next_handle, size, purpose, category, pre.clock)
        &&& post.current_allocation == sum_sizes(kept) + size
        &&& forall|c: MemoryCategory|
            #[trigger] post.category_usage.spec_usage(c) == sum_sizes_of(kept, c) + if c
                == category {
                size as int
            } else {
                0
            }
    } else {
        &&& r == Err::<MemoryHandle, MemoryError>(MemoryError::CapacityExceeded)
        &&& post.next_handle == pre.next_handle
        &&& post.records@ == kept
        &&& post.current_allocation == sum_sizes(kept)
        &&& forall|c: MemoryCategory|
            #[trigger] post.category_usage.spec_usage(c) == sum_sizes_of(kept, c)
    }
}

/// Filtering after appending one record keeps the append exactly when the
/// record satisfies the predicate.
proof fn lemma_filter_push(
    s: Seq<AllocationRecord>,
    r: AllocationRecord,
    pred: spec_fn(AllocationRecord) -> bool,
)
    ensures
        s.push(r).filter(pred) == if pred(r) {
            s.filter(pred).push(r)
        } else {
            s.filter(pred)
        },
{
    reveal(Seq::filter);
    assert(s.push(r).drop_last() =~= s);
    assert(s.push(r).last() == r);
}

/// A sequence whose records all satisfy `pred` is left whole by filtering.
proof fn lemma_filter_all_kept(s: Seq<AllocationRecord>, pred: spec_fn(AllocationRecord) -> bool)
    requires
        forall|k: int| 0 <= k < s.len() ==> pred(#[trigger] s[k]),
    ensures
        s.filter(pred) == s,
    decreases s.len(),
{
    reveal(Seq::filter);
    if s.len() > 0 {
        lemma_filter_all_kept(s.drop_last(), pred);
        assert(s.filter(pred) =~= s);
    } else {
        assert(s.filter(pred) =~= s);
    }
}

/// Filtering is idempotent: a second pass with the same predicate removes
/// nothing more.
proof fn lemma_filter_idempotent(s: Seq<AllocationRecord>, pred: spec_fn(AllocationRecord) -> bool)
    ensures
        s.filter(pred).filter(pred) == s.filter(pred),
{
    let t = s.filter(pred);
    assert forall|k: int| 0 <= k < t.len() implies pred(#[trigger] t[k]) by {
        s.lemma_filter_pred(pred, k);
    }
    lemma_filter_all_kept(t, pred);
}

/// The accounting invariants, spelled out: the total equals the sum of the
/// live record sizes; each category's counter equals the sum of the live
/// record sizes in that category, and so is never negative; and the total
/// never exceeds the ceiling.
pub proof fn lemma_ledger_accounting(m: MemoryManager)
    requires
        m.wf(),
    ensures
        m.current_allocation == sum_sizes(m.records@),
        forall|c: MemoryCategory|
            #[trigger] m.category_usage.spec_usage(c) == sum_sizes_of(m.records@, c),
        forall|c: MemoryCategory| 0 <= #[trigger] m.category_usage.spec_usage(c),
        m.current_allocation <= m.max_allocation,
{
    assert forall|c: MemoryCategory| 0 <= #[trigger] m.category_usage.spec_usage(c) by {
        lemma_sum_sizes_of_bounds(m.records@, c);
    }
}

/// Allocating and then deallocating the same handle returns the ledger, the
/// total, and every category counter to their pre-allocation values.  The
/// allocation is assumed to fit under the ceiling outright, so no eviction
/// intervenes.
pub proof fn lemma_allocate_then_deallocate(
    pre: MemoryManager,
    mid: MemoryManager,
    post: MemoryManager,
    size: usize,
    purpose: Seq<char>,
    category: MemoryCategory,
    h: MemoryHandle,
)
    requires
        pre.wf(),
        mid.wf(),
        post.wf(),
        pre.current_allocation + size <= pre.max_allocation,
        allocate_post(pre, size, purpose, category, Ok(h), mid),
        deallocate_post(mid, h.id, post),
    ensures
        post.records@ == pre.records@,
        post.current_allocation == pre.current_allocation,
        forall|c: MemoryCategory|
            #[trigger] post.category_usage.spec_usage(c) == pre.category_usage.spec_usage(c),
{
    assert(!guard_runs(pre, size));
    assert(kept_records(pre, size) == pre.records@);
    assert(h.id == pre.next_handle);
    let n = pre.records@.len() as int;
    let i = choose|i: int|
        0 <= i < mid.records@.len() && (#[trigger] mid.records@[i]).handle.id == h.id
            && post.records@ == mid.records@.remove(i)
            && post.current_allocation == mid.current_allocation - mid.records@[i].size
            && (forall|c: MemoryCategory|
            #[trigger] post.category_usage.spec_usage(c) == mid.category_usage.spec_usage(c)
                - if mid.records@[i].category == c {
                mid.records@[i].size as int
            } else {
                0
            });
    assert(0 <= i < mid.records@.len());
    if i < n {
        assert(mid.records@[i] == mid.records@.drop_last()[i]);
        assert(mid.records@[i] == pre.records@[i]);
        assert(pre.records@[i].handle.id < pre.next_handle);
        assert(false);
    }
    assert(i == n);
    assert(post.records@ =~= pre.records@);
    assert forall|c: MemoryCategory|
        #[trigger] post.category_usage.spec_usage(c) == pre.category_usage.spec_usage(c) by {
        assert(sum_sizes_of(post.records@, c) == sum_sizes_of(pre.records@, c));
    }
}

/// Two optimization passes in immediate succession: with the clock
/// unmoved, the second pass finds no new candidates, removes no record,
/// and frees nothing.
pub proof fn lemma_optimize_idempotent(pre: MemoryManager, mid: MemoryManager, post: MemoryManager)
    requires
        pre.wf(),
        mid.wf(),
        post.wf(),
        optimize_post(pre, mid),
        optimize_post(mid, post),
    ensures
        post.records@ == mid.records@,
        post.current_allocation == mid.current_allocation,
{
    if mid.above_high_water() {
        if pre.above_high_water() {
            let keep = eviction_keep(pre.clock, idle_threshold_s(pre.strategy));
            assert(mid.records@ == pre.records@.filter(keep));
            assert(kept_after_optimize(mid) == mid.records@.filter(keep));
            lemma_filter_idempotent(pre.records@, keep);
        } else {
            assert(mid.records@ == pre.records@);
            assert(mid.current_allocation == pre.current_allocation);
            assert(false);
        }
    }
}

/// A zero-size allocation always succeeds, is issued under a handle no live
/// record carries, and leaves the total and every category counter
/// unchanged.
pub proof fn lemma_zero_size_allocation(
    pre: MemoryManager,
    post: MemoryManager,
    purpose: Seq<char>,
    category: MemoryCategory,
    r: Result<MemoryHandle, MemoryError>,
)
    requires
        pre.wf(),
        post.wf(),
        allocate_post(pre, 0, purpose, category, r, post),
    ensures
        r == Ok::<MemoryHandle, MemoryError>((MemoryHandle { id: pre.next_handle })),
        !pre.has_live(pre.next_handle),
        post.current_allocation == pre.current_allocation,
        forall|c: MemoryCategory|
            #[trigger] post.category_usage.spec_usage(c) == pre.category_usage.spec_usage(c),
{
    assert(!guard_runs(pre, 0));
    assert(kept_records(pre, 0) == pre.records@);
    assert(sum_sizes(pre.records@) + 0 <= pre.max_allocation);
    assert(post.records@ =~= pre.records@.push(post.records@.last()));
    assert forall|c: MemoryCategory|
        #[trigger] post.category_usage.spec_usage(c) == pre.category_usage.spec_usage(c) by {
        lemma_sum_sizes_of_push(pre.records@, post.records@.last(), c);
    }
}

/// An optimization pass at usage below the 70% high-water mark is a no-op
/// on the ledger, whatever the idle times: it only records that the pass
/// ran.
pub proof fn lemma_optimize_below_high_water(pre: MemoryManager, post: MemoryManager)
    requires
        pre.wf(),
        post.wf(),
        !pre.above_high_water(),
        optimize_post(pre, post),
    ensures
        post.records@ == pre.records@,
        post.current_allocation == pre.current_allocation,
        forall|c: MemoryCategory|
            #[trigger] post.category_usage.spec_usage(c) == pre.category_usage.spec_usage(c),
        post.last_optimization == pre.clock,
{
}

/// How one access call changes a record: the observation fields move to the
/// clock reading and the next count, everything else stays.  The count
/// stops one short of the machine maximum rather than overflow.
pub open spec fn record_accessed(before: AllocationRecord, after: AllocationRecord, now: u64) -> bool {
    &&& after.handle == before.handle
    &&& after.size == before.size
    &&& after.purpose == before.purpose
    &&& after.category == before.category
    &&& after.allocated_at == before.allocated_at
    &&& after.last_accessed == now
    &&& after.access_count == if before.access_count < usize::MAX {
        before.access_count + 1
    } else {
        before.access_count as int
    }
}

/// What a successful `access` of the record under `id` did to the manager:
/// only that record's observation fields changed.
pub open spec fn access_post(pre: MemoryManager, id: u64, post: MemoryManager) -> bool {
    &&& post.max_allocation == pre.max_allocation
    &&& post.current_allocation == pre.current_allocation
    &&& post.strategy == pre.strategy
    &&& post.category_usage == pre.category_usage
    &&& post.last_optimization == pre.last_optimization
    &&& post.clock == pre.clock
    &&& post.next_handle == pre.next_handle
    &&& post.records@.len() == pre.records@.len()
    &&& exists|i: int|
        0 <= i < pre.records@.len() && (#[trigger] pre.records@[i]).handle.id == id
            && record_accessed(pre.records@[i], post.records@[i], pre.clock)
            && (forall|j: int|
                0 <= j < pre.records@.len() && j != i ==> #[trigger] post.records@[j]
                    == pre.records@[j])
}

/// What a successful `deallocate` of the record under `id` did to the
/// manager: the record left the ledger and its size left the total and its
/// category's counter.
pub open spec fn deallocate_post(pre: MemoryManager, id: u64, post: MemoryManager) -> bool {
    &&& post.max_allocation == pre.max_allocation
    &&& post.strategy == pre.strategy
    &&& post.last_optimization == pre.last_optimization
    &&& post.clock == pre.clock
    &&& post.next_handle == pre.next_handle
    &&& exists|i: int|
        0 <= i < pre.records@.len() && (#[trigger] pre.records@[i]).handle.id == id
            && post.records@ == pre.records@.remove(i)
            && post.current_allocation == pre.current_allocation - pre.records@[i].size
            && (forall|c: MemoryCategory|
                #[trigger] post.category_usage.spec_usage(c) == pre.category_usage.spec_usage(c)
                    - if pre.records@[i].category == c {
                    pre.records@[i].size as int
                } else {
                    0
                })
}

} // verus!
