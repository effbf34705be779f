//! Amounts and the container that keeps values by denomination.

use vstd::prelude::*;

verus! {

/// An amount of money, in thousandths of a satoshi. A denomination (tier) is
/// an amount too.
#[derive(Clone, Copy, Debug, PartialEq, Eq, Structural, PartialOrd, Ord, Hash)]
pub struct Amount {
    pub msats: u64,
}

/// The refusal of a tier that is not among the supported ones.
#[derive(Clone, Copy, Debug, PartialEq, Eq, Hash)]
pub struct InvalidAmountTierError(pub Amount);

/// The entries are in ascending order of their tiers.
pub open spec fn tiers_ascending<T>(items: Seq<(Amount, T)>) -> bool {
    forall|i: int, j: int|
        0 <= i < j < items.len() ==> (#[trigger] items[i]).0.msats <= (#[trigger] items[j]).0.msats
}

/// Where a new entry of a tier goes: behind every entry of that tier or a
/// lower one, in front of every entry of a higher one.
pub open spec fn is_insert_position<T>(items: Seq<(Amount, T)>, tier: Amount, pos: int) -> bool {
    &&& 0 <= pos <= items.len()
    &&& forall|i: int| 0 <= i < pos ==> (#[trigger] items[i]).0.msats <= tier.msats
    &&& forall|i: int| pos <= i < items.len() ==> (#[trigger] items[i]).0.msats > tier.msats
}

/// The listing after a value was added under a tier.
pub open spec fn after_insert<T>(items: Seq<(Amount, T)>, tier: Amount, value: T) -> Seq<(Amount, T)> {
    items.insert(choose|pos: int| is_insert_position(items, tier, pos), (tier, value))
}

/// The listing after the first `n` of some entries were added, one by one.
pub open spec fn after_extend<T>(items: Seq<(Amount, T)>, added: Seq<(Amount, T)>, n: int) -> Seq<(Amount, T)>
    decreases n,
{
    if n <= 0 {
        items
    } else {
        after_insert(after_extend(items, added, n - 1), added[n - 1].0, added[n - 1].1)
    }
}

/// A listing has at most one position for a new entry of a tier.
pub proof fn lemma_insert_position_unique<T>(items: Seq<(Amount, T)>, tier: Amount, p: int, q: int)
    requires
        is_insert_position(items, tier, p),
        is_insert_position(items, tier, q),
    ensures
        p == q,
{
    if p < q {
        assert(items[p].0.msats <= tier.msats);
    } else if q < p {
        assert(items[q].0.msats <= tier.msats);
    }
}

/// The sum of the tiers of the first `n` entries.
pub open spec fn total_msats<T>(items: Seq<(Amount, T)>, n: int) -> int
    decreases n,
{
    if n <= 0 {
        0
    } else {
        total_msats(items, n - 1) + items[n - 1].0.msats
    }
}

/// How many of the first `n` entries are of the tier.
pub open spec fn tier_count<T>(items: Seq<(Amount, T)>, tier: Amount, n: int) -> int
    decreases n,
{
    if n <= 0 {
        0
    } else {
        tier_count(items, tier, n - 1) + if items[n - 1].0 == tier { 1int } else { 0int }
    }
}

/// Two collections have as many entries, of the same tiers at each position.
pub open spec fn same_shape<A, B>(a: Seq<(Amount, A)>, b: Seq<(Amount, B)>) -> bool {
    &&& a.len() == b.len()
    &&& forall|i: int| 0 <= i < a.len() ==> (#[trigger] a[i]).0 == (#[trigger] b[i]).0
}

/// Values kept by denomination: any number of values under each tier. Its
/// view lists them as (tier, value) from the lowest tier to the highest, and
/// within a tier in the order in which they were inserted.
#[derive(Clone, Debug, PartialEq, Eq, Hash)]
pub struct TieredMulti<T> {
    items: Vec<(Amount, T)>,
}

impl<T> View for TieredMulti<T> {
    type V = Seq<(Amount, T)>;

    closed spec fn view(&self) -> Seq<(Amount, T)> {
        self.items@
    }
}

impl<T> TieredMulti<T> {
    /// The entries are in ascending order of their tiers: so it is of every
    /// collection that was made by `new` and filled by `insert`.
    pub open spec fn wf(&self) -> bool {
        tiers_ascending(self@)
    }

    /// The sum of the tiers of all values, where it fits the amount's range.
    pub open spec fn spec_total(&self) -> Option<Amount> {
        let sum = total_msats(self@, self@.len() as int);
        if sum <= u64::MAX {
            Some(Amount { msats: sum as u64 })
        } else {
            None
        }
    }

    /// A collection with the given listing. It is well formed where the
    /// listing is in ascending order of its tiers.
    pub(crate) fn from_listing(items: Vec<(Amount, T)>) -> (tiered: Self)
        ensures
            tiered@ == items@,
    {
        TieredMulti { items }
    }

    /// The collection without entries.
    pub fn new() -> (tiered: Self)
        ensures
            tiered@.len() == 0,
            tiered.wf(),
    {
        TieredMulti { items: Vec::new() }
    }

    /// Adds a value under a tier, behind the values that the tier has.
    pub fn insert(&mut self, tier: Amount, value: T)
        requires
            old(self).wf(),
        ensures
            final(self)@ == after_insert(old(self)@, tier, value),
            final(self)@.len() == old(self)@.len() + 1,
            final(self).wf(),
    {
        let ghost before = self.items@;
        let mut pos: usize = 0;
        while pos < self.items.len() && self.items[pos].0.msats <= tier.msats
            invariant
                self.items@ == before,
                pos <= before.len(),
                forall|i: int| 0 <= i < pos ==> (#[trigger] before[i]).0.msats <= tier.msats,
            decreases before.len() - pos,
        {
            pos += 1;
        }
        self.items.insert(pos, (tier, value));
        proof {
            let after = self.items@;
            assert(after == before.insert(pos as int, (tier, value)));
            assert forall|i: int| pos <= i < before.len() implies (#[trigger] before[i]).0.msats
                > tier.msats by {
                if i > pos {
                    assert(before[pos as int].0.msats <= before[i].0.msats);
                }
            }
            assert(is_insert_position(before, tier, pos as int));
            lemma_insert_position_unique(
                before,
                tier,
                pos as int,
                choose|p: int| is_insert_position(before, tier, p),
            );
            assert forall|i: int, j: int| 0 <= i < j < after.len() implies (#[trigger] after[i]).0.msats
                <= (#[trigger] after[j]).0.msats by {
                let bi = if i < pos { i } else { i - 1 };
                let bj = if j < pos { j } else { j - 1 };
                if i != pos && j != pos {
                    assert(after[i] == before[bi]);
                    assert(after[j] == before[bj]);
                    if bi < bj {
                        assert(before[bi].0.msats <= before[bj].0.msats);
                    }
                } else if i == pos {
                    assert(after[j] == before[bj]);
                } else {
                    assert(after[i] == before[bi]);
                }
            }
        }
    }

    /// The number of values, over all tiers.
    pub fn count_items(&self) -> (n: usize)
        ensures
            n == self@.len(),
    {
        self.items.len()
    }

    /// The entry at a position of the ascending listing.
    pub fn item(&self, index: usize) -> (entry: &(Amount, T))
        requires
            index < self@.len(),
        ensures
            *entry == self@[index as int],
    {
        &self.items[index]
    }

    /// The number of values under one tier.
    pub fn count_tier(&self, tier: Amount) -> (n: usize)
        ensures
            n == tier_count(self@, tier, self@.len() as int),
    {
        let mut n: usize = 0;
        let mut i: usize = 0;
        while i < self.items.len()
            invariant
                i <= self.items@.len(),
                n <= i,
                n == tier_count(self.items@, tier, i as int),
            decreases self.items@.len() - i,
        {
            if self.items[i].0 == tier {
                n += 1;
            }
            i += 1;
        }
        n
    }

    /// The sum of the tiers of all values, where it fits the amount's range.
    pub fn total_amount(&self) -> (total: Option<Amount>)
        ensures
            total == self.spec_total(),
    {
        let mut sum: u64 = 0;
        let mut i: usize = 0;
        while i < self.items.len()
            invariant
                i <= self.items@.len(),
                sum == total_msats(self.items@, i as int),
            decreases self.items@.len() - i,
        {
            let tier: u64 = self.items[i].0.msats;
            if tier > u64::MAX - sum {
                proof {
                    lemma_total_grows(self.items@, i as int + 1, self.items@.len() as int);
                }
                return None;
            }
            sum += tier;
            i += 1;
        }
        Some(Amount { msats: sum })
    }

    /// Whether another collection has as many entries, of the same tiers at
    /// each position.
    pub fn structural_eq<O>(&self, other: &TieredMulti<O>) -> (eq: bool)
        ensures
            eq == same_shape(self@, other@),
    {
        if self.items.len() != other.items.len() {
            return false;
        }
        let mut i: usize = 0;
        while i < self.items.len()
            invariant
                i <= self.items@.len(),
                self.items@.len() == other.items@.len(),
                forall|j: int| 0 <= j < i ==> (#[trigger] self.items@[j]).0 == (#[trigger] other.items@[j]).0,
            decreases self.items@.len() - i,
        {
            if self.items[i].0 != other.items[i].0 {
                return false;
            }
            i += 1;
        }
        true
    }
}

/// The sum over a longer prefix is no smaller.
pub proof fn lemma_total_grows<T>(items: Seq<(Amount, T)>, m: int, n: int)
    requires
        0 <= m <= n,
    ensures
        total_msats(items, m) <= total_msats(items, n),
    decreases n - m,
{
    if m < n {
        lemma_total_grows(items, m, n - 1);
    }
}

} // verus!
