//! A bounded bag of items, counted per item key.
use vstd::prelude::*;
use crate::item::{
    all_item_keys_spec, key_index, lemma_key_index_matches_list, ItemKey, INVENTORY_CAPACITY,
    ITEM_KEY_COUNT,
};

verus! {

/// Sum of a sequence of counts.
pub open spec fn seq_sum(s: Seq<u32>) -> nat
    decreases s.len(),
{
    if s.len() == 0 {
        0
    } else {
        seq_sum(s.drop_last()) + s.last() as nat
    }
}

/// Changing one count changes the sum by the difference.
pub proof fn lemma_seq_sum_update(s: Seq<u32>, i: int, v: u32)
    requires
        0 <= i < s.len(),
    ensures
        seq_sum(s.update(i, v)) == seq_sum(s) - s[i] + v,
    decreases s.len(),
{
    if i == s.len() - 1 {
        assert(s.update(i, v).drop_last() =~= s.drop_last());
    } else {
        lemma_seq_sum_update(s.drop_last(), i, v);
        assert(s.update(i, v).drop_last() =~= s.drop_last().update(i, v));
    }
}

/// A prefix never sums to more than the whole.
pub proof fn lemma_seq_sum_prefix(s: Seq<u32>, i: int)
    requires
        0 <= i <= s.len(),
    ensures
        seq_sum(s.take(i)) <= seq_sum(s),
    decreases s.len(),
{
    if i == s.len() {
        assert(s.take(i) =~= s);
    } else {
        lemma_seq_sum_prefix(s.drop_last(), i);
        assert(s.drop_last().take(i) =~= s.take(i));
    }
}

/// The sum is zero exactly when every count is zero.
pub proof fn lemma_seq_sum_zero(s: Seq<u32>)
    ensures
        seq_sum(s) == 0 <==> (forall|j: int| 0 <= j < s.len() ==> s[j] == 0),
    decreases s.len(),
{
    if s.len() > 0 {
        lemma_seq_sum_zero(s.drop_last());
        if seq_sum(s) == 0 {
            assert forall|j: int| 0 <= j < s.len() implies s[j] == 0 by {
                if j < s.len() - 1 {
                    assert(s.drop_last()[j] == s[j]);
                }
            }
        }
        if forall|j: int| 0 <= j < s.len() ==> s[j] == 0 {
            assert forall|j: int| 0 <= j < s.drop_last().len() implies s.drop_last()[j] == 0 by {
                assert(s[j] == 0);
            }
            assert(s.last() == 0);
        }
    }
}

/// The sum of a sequence of zeros.
pub proof fn lemma_seq_sum_zeros(n: nat)
    ensures
        seq_sum(Seq::new(n, |_i: int| 0u32)) == 0,
{
    lemma_seq_sum_zero(Seq::new(n, |_i: int| 0u32));
}

/// A bag of items with a limit on how many it holds in total.
#[derive(Debug)]
pub struct Inventory {
    counts: Vec<u32>,
    capacity: u32,
}

impl Inventory {
    #[verifier::type_invariant]
    spec fn well_formed(self) -> bool {
        &&& self.counts.len() == ITEM_KEY_COUNT
        &&& seq_sum(self.counts@) <= u32::MAX
    }

    /// The count of each item, indexed by the key's position.
    pub closed spec fn counts(self) -> Seq<u32> {
        self.counts@
    }

    /// The counts of an empty bag.
    pub open spec fn new_counts() -> Seq<u32> {
        Seq::new(ITEM_KEY_COUNT as nat, |_i: int| 0u32)
    }

    /// The most items the bag holds in total.
    pub closed spec fn capacity(self) -> u32 {
        self.capacity
    }

    /// How many of an item the bag holds.
    pub open spec fn count_of(self, k: ItemKey) -> u32 {
        self.counts()[key_index(k)]
    }

    /// How many items the bag holds in total.
    pub open spec fn total(self) -> nat {
        seq_sum(self.counts())
    }

    /// The same contents with `n` more of one item.
    pub open spec fn added(self, k: ItemKey, n: u32) -> Seq<u32> {
        self.counts().update(key_index(k), (self.count_of(k) + n) as u32)
    }

    /// The same contents with one item less.
    pub open spec fn removed_one(self, k: ItemKey) -> Seq<u32> {
        self.counts().update(key_index(k), (self.count_of(k) - 1) as u32)
    }

    /// Whether the bag holds nothing.
    pub open spec fn holds_nothing(self) -> bool {
        forall|k: ItemKey| #[trigger] self.count_of(k) == 0
    }

    fn empty_counts() -> (r: Vec<u32>)
        ensures
            r@ == Seq::new(ITEM_KEY_COUNT as nat, |_i: int| 0u32),
    {
        let mut v: Vec<u32> = Vec::new();
        let mut i: usize = 0;
        while i < ITEM_KEY_COUNT
            invariant
                i <= ITEM_KEY_COUNT,
                v@ == Seq::new(i as nat, |_i: int| 0u32),
            decreases ITEM_KEY_COUNT - i,
        {
            v.push(0);
            i = i + 1;
            assert(v@ =~= Seq::new(i as nat, |_i: int| 0u32));
        }
        v
    }

    /// An empty bag that holds up to the member limit.
    pub fn new() -> (r: Self)
        ensures
            r.counts() == Self::new_counts(),
            r.capacity() == INVENTORY_CAPACITY,
    {
        Self::with_capacity(INVENTORY_CAPACITY)
    }

    /// An empty bag that holds up to `capacity` items.
    pub fn with_capacity(capacity: u32) -> (r: Self)
        ensures
            r.counts() == Self::new_counts(),
            r.capacity() == capacity,
    {
        let counts = Self::empty_counts();
        proof { lemma_seq_sum_zeros(ITEM_KEY_COUNT as nat); }
        Inventory { counts, capacity }
    }

    /// Adds `count` of an item, whatever the limit.
    pub fn add(&mut self, item: ItemKey, count: u32)
        requires
            old(self).total() + count <= u32::MAX,
        ensures
            final(self).counts() == old(self).added(item, count),
            final(self).capacity() == old(self).capacity(),
            final(self).total() == old(self).total() + count,
    {
        proof { use_type_invariant(&*self); }
        let i = item.index();
        proof {
            lemma_seq_sum_update(self.counts@, i as int, 0u32);
            assert(self.counts@[i as int] <= seq_sum(self.counts@));
            lemma_seq_sum_update(self.counts@, i as int, (self.counts@[i as int] + count) as u32);
        }
        let c = self.counts[i] + count;
        let mut counts = self.counts.clone();
        proof { assert(counts@ =~= self.counts@); }
        counts.set(i, c);
        *self = Inventory { counts, capacity: self.capacity };
    }

    /// How many items the bag holds in total.
    pub fn total_count(&self) -> (r: u32)
        ensures
            r == self.total(),
    {
        proof { use_type_invariant(self); }
        let mut sum: u32 = 0;
        let mut i: usize = 0;
        while i < self.counts.len()
            invariant
                i <= self.counts@.len(),
                self.counts@.len() == ITEM_KEY_COUNT,
                seq_sum(self.counts@) <= u32::MAX,
                sum == seq_sum(self.counts@.take(i as int)),
            decreases self.counts@.len() - i,
        {
            proof {
                assert(self.counts@.take(i + 1).drop_last() =~= self.counts@.take(i as int));
                lemma_seq_sum_prefix(self.counts@, i + 1);
            }
            sum = sum + self.counts[i];
            i = i + 1;
        }
        proof { assert(self.counts@.take(i as int) =~= self.counts@); }
        sum
    }

    /// Whether `count` more items fit under the limit.
    pub fn can_add(&self, count: u32) -> (r: bool)
        requires
            self.total() + count <= u32::MAX,
        ensures
            r == (self.total() + count <= self.capacity()),
    {
        self.total_count() + count <= self.capacity
    }

    /// Adds `count` of an item if it fits under the limit; says whether it did.
    pub fn try_add(&mut self, item: ItemKey, count: u32) -> (r: bool)
        requires
            old(self).total() + count <= u32::MAX,
        ensures
            r == (old(self).total() + count <= old(self).capacity()),
            r ==> final(self).counts() == old(self).added(item, count),
            r ==> final(self).total() == old(self).total() + count,
            !r ==> final(self).counts() == old(self).counts(),
            final(self).capacity() == old(self).capacity(),
    {
        if !self.can_add(count) {
            return false;
        }
        self.add(item, count);
        true
    }

    fn take_one(&mut self, item: ItemKey) -> (r: bool)
        ensures
            r == (old(self).count_of(item) > 0),
            r ==> final(self).counts() == old(self).removed_one(item),
            !r ==> final(self).counts() == old(self).counts(),
            final(self).capacity() == old(self).capacity(),
    {
        proof { use_type_invariant(&*self); }
        let i = item.index();
        if self.counts[i] > 0 {
            let c = self.counts[i] - 1;
            proof { lemma_seq_sum_update(self.counts@, i as int, c); }
            let mut counts = self.counts.clone();
            proof { assert(counts@ =~= self.counts@); }
            counts.set(i, c);
            *self = Inventory { counts, capacity: self.capacity };
            true
        } else {
            false
        }
    }

    /// Uses up one of an item; false when there is none.
    pub fn use_item(&mut self, item: ItemKey) -> (r: bool)
        ensures
            r == (old(self).count_of(item) > 0),
            r ==> final(self).counts() == old(self).removed_one(item),
            !r ==> final(self).counts() == old(self).counts(),
            final(self).capacity() == old(self).capacity(),
    {
        self.take_one(item)
    }

    /// How many of an item the bag holds.
    pub fn count(&self, item: ItemKey) -> (r: u32)
        ensures
            r == self.count_of(item),
            self.counts().len() == ITEM_KEY_COUNT,
    {
        proof { use_type_invariant(self); }
        self.counts[item.index()]
    }

    /// Takes one of an item out, for selling; false when there is none.
    pub fn remove_item(&mut self, item: ItemKey) -> (r: bool)
        ensures
            r == (old(self).count_of(item) > 0),
            r ==> final(self).counts() == old(self).removed_one(item),
            !r ==> final(self).counts() == old(self).counts(),
            final(self).capacity() == old(self).capacity(),
    {
        self.take_one(item)
    }

    /// The items held at least once, in key order.
    pub fn owned_items(&self) -> (r: Vec<ItemKey>)
        ensures
            r@ == all_item_keys_spec().filter(|k: ItemKey| self.count_of(k) > 0),
            r@.no_duplicates(),
            forall|k: ItemKey| r@.contains(k) <==> self.count_of(k) > 0,
    {
        proof {
            use_type_invariant(self);
            lemma_key_index_matches_list();
        }
        let ghost keys = all_item_keys_spec();
        let ghost pred = |k: ItemKey| self.count_of(k) > 0;
        let mut out: Vec<ItemKey> = Vec::new();
        let mut i: usize = 0;
        while i < ITEM_KEY_COUNT
            invariant
                i <= ITEM_KEY_COUNT,
                self.counts@.len() == ITEM_KEY_COUNT,
                keys == all_item_keys_spec(),
                keys.len() == ITEM_KEY_COUNT,
                forall|j: int| 0 <= j < 13 ==> key_index(#[trigger] keys[j]) == j,
                pred == (|k: ItemKey| self.count_of(k) > 0),
                out@ == keys.take(i as int).filter(pred),
                forall|a: int, b: int| 0 <= a < b < out@.len() ==> key_index(#[trigger] out@[a]) < key_index(#[trigger] out@[b]),
                forall|a: int| 0 <= a < out@.len() ==> key_index(#[trigger] out@[a]) < i,
                forall|k: ItemKey| out@.contains(k) <==> key_index(k) < i && self.count_of(k) > 0,
            decreases ITEM_KEY_COUNT - i,
        {
            let k = ItemKey::from_index(i);
            proof {
                reveal_with_fuel(Seq::<_>::filter, 1);
                assert(keys.take(i + 1).drop_last() =~= keys.take(i as int));
                assert(keys.take(i + 1).last() == k);
            }
            let ghost before = out@;
            if self.counts[i] > 0 {
                out.push(k);
                proof {
                    assert forall|q: ItemKey| out@.contains(q) <==> key_index(q) < i + 1 && self.count_of(q) > 0 by {
                        if key_index(q) == i {
                            lemma_key_index_matches_list();
                            assert(q == k);
                            assert(out@[out@.len() - 1] == k);
                        }
                        if out@.contains(q) && q != k {
                            let j = choose|j: int| 0 <= j < out@.len() && out@[j] == q;
                            assert(before[j] == q);
                        }
                        if before.contains(q) {
                            let j = choose|j: int| 0 <= j < before.len() && before[j] == q;
                            assert(out@[j] == q);
                        }
                    }
                }
            } else {
                proof {
                    assert forall|q: ItemKey| out@.contains(q) <==> key_index(q) < i + 1 && self.count_of(q) > 0 by {
                        if key_index(q) == i {
                            assert(self.count_of(q) == self.counts@[i as int]);
                        }
                    }
                }
            }
            i = i + 1;
        }
        proof {
            assert(keys.take(13) =~= keys);
            assert forall|a: int, b: int| 0 <= a < out@.len() && 0 <= b < out@.len() && a != b implies out@[a] != out@[b] by {
                if a < b {
                    assert(key_index(out@[a]) < key_index(out@[b]));
                } else {
                    assert(key_index(out@[b]) < key_index(out@[a]));
                }
            }
            assert forall|q: ItemKey| out@.contains(q) <==> self.count_of(q) > 0 by {
                assert(0 <= key_index(q) < 13);
            }
        }
        out
    }

    /// Whether the bag holds nothing at all.
    pub fn is_empty(&self) -> (r: bool)
        ensures
            r == self.holds_nothing(),
            r == (self.total() == 0),
    {
        proof {
            use_type_invariant(self);
            lemma_key_index_matches_list();
            lemma_seq_sum_zero(self.counts@);
        }
        let mut i: usize = 0;
        while i < ITEM_KEY_COUNT
            invariant
                i <= ITEM_KEY_COUNT,
                self.counts@.len() == ITEM_KEY_COUNT,
                forall|j: int| 0 <= j < i ==> self.counts@[j] == 0,
            decreases ITEM_KEY_COUNT - i,
        {
            if self.counts[i] != 0 {
                proof {
                    let k = all_item_keys_spec()[i as int];
                    assert(self.count_of(k) != 0);
                    assert(self.counts@[i as int] != 0);
                    lemma_seq_sum_zero(self.counts@);
                }
                return false;
            }
            i = i + 1;
        }
        proof {
            lemma_seq_sum_zero(self.counts@);
            assert forall|k: ItemKey| #[trigger] self.count_of(k) == 0 by {
                assert(0 <= key_index(k) < 13);
            }
        }
        true
    }
}

impl Clone for Inventory {
    fn clone(&self) -> (r: Self)
        ensures
            r.counts() == self.counts(),
            r.capacity() == self.capacity(),
    {
        proof { use_type_invariant(self); }
        let counts = self.counts.clone();
        proof { assert(counts@ =~= self.counts@); }
        Inventory { counts, capacity: self.capacity }
    }
}

impl Default for Inventory {
    fn default() -> (r: Self)
        ensures
            r.counts() == Self::new_counts(),
            r.capacity() == INVENTORY_CAPACITY,
    {
        Self::new()
    }
}


/// Adding one of an item and using one up gives back the bag's contents.
pub proof fn lemma_add_then_use(before: Inventory, after: Inventory, k: ItemKey)
    requires
        before.counts().len() == ITEM_KEY_COUNT,
        before.count_of(k) < u32::MAX,
        after.counts() == before.added(k, 1),
    ensures
        after.count_of(k) > 0,
        after.removed_one(k) == before.counts(),
{
    assert(0 <= key_index(k) < ITEM_KEY_COUNT);
    assert(after.removed_one(k) =~= before.counts());
}

/// A bag filled through `try_add` never holds more than its capacity:
/// an accepted addition leaves the total within it.
pub proof fn lemma_try_add_within_capacity(before: Inventory, after: Inventory, k: ItemKey, n: u32)
    requires
        before.counts().len() == ITEM_KEY_COUNT,
        before.total() + n <= before.capacity(),
        after.counts() == before.added(k, n),
    ensures
        after.total() == before.total() + n,
        after.total() <= before.capacity(),
{
    let c = before.counts();
    let i = key_index(k);
    assert(0 <= i < ITEM_KEY_COUNT);
    lemma_seq_sum_update(c, i, 0u32);
    lemma_seq_sum_update(c, i, (c[i] + n) as u32);
}
} // verus!
