use vstd::prelude::*;

verus! {

use crate::error::Error;
use crate::slot_table::SlotTable;

/// Gap-free storage of values under stable keys.
///
/// `values` is the dense block; `keys_by_index` maps each dense position back
/// to the key that names it; `slot_table` maps each live key to its current
/// dense index. Removal keeps the block dense by moving the last element into
/// the vacated position (swap-remove) and re-pointing the moved element's key.
pub struct DenseStore<T> {
    values: Vec<T>,
    keys_by_index: Vec<usize>,
    slot_table: SlotTable,
}

impl<T> DenseStore<T> {
    /// The dense sequence of stored values.
    pub closed spec fn vals(self) -> Seq<T> {
        self.values@
    }

    /// The key bound to each dense position.
    pub closed spec fn keys(self) -> Seq<usize> {
        self.keys_by_index@
    }

    /// The key-to-index mapping of the slot table.
    pub closed spec fn table(self) -> Map<usize, usize> {
        self.slot_table.contents()
    }

    /// A bound below which every key this store has ever issued lies.
    pub closed spec fn slots(self) -> nat {
        self.slot_table.slots()
    }

    /// Whether the slot table itself is well formed.
    pub closed spec fn table_wf(self) -> bool {
        self.slot_table.wf()
    }

    /// Whether `key` currently names a live value.
    pub open spec fn live(self, key: usize) -> bool {
        self.table().dom().contains(key)
    }

    /// The value a live key resolves to.
    pub open spec fn value_of(self, key: usize) -> T
        recommends
            self.wf(),
            self.live(key),
    {
        self.vals()[self.table()[key] as int]
    }

    /// The density invariant: both parallel sequences have one entry per
    /// occupied key, every dense position's key points back at that position,
    /// and every live key points at a dense position that carries it.
    pub open spec fn wf(self) -> bool {
        &&& self.table_wf()
        &&& self.keys().len() == self.vals().len()
        &&& self.table().dom().len() == self.vals().len()
        &&& forall|i: int|
            #![trigger self.keys()[i]]
            0 <= i < self.keys().len() ==> self.live(self.keys()[i]) && self.table()[self.keys()[i]]
                == i
        &&& forall|k: usize|
            #![trigger self.table().dom().contains(k)]
            self.live(k) ==> self.table()[k] < self.vals().len() && self.keys()[self.table()[k] as int]
                == k
    }

    /// An empty store.
    pub fn new() -> (s: DenseStore<T>)
        ensures
            s.wf(),
            s.vals() == Seq::<T>::empty(),
            s.keys() == Seq::<usize>::empty(),
            s.table() == crate::slot_table::empty_contents(),
            s.slots() == 0,
    {
        let s = DenseStore { values: Vec::new(), keys_by_index: Vec::new(), slot_table: SlotTable::new() };
        proof {
            assert(s.table().dom() =~= Set::<usize>::empty());
        }
        s
    }

    /// How many values are stored.
    pub fn len(&self) -> (n: usize)
        ensures
            n == self.vals().len(),
    {
        self.values.len()
    }

    /// The current dense block of values, for bulk consumption. The view is
    /// valid only until the next mutating call.
    pub fn values(&self) -> (r: &[T])
        ensures
            r@ == self.vals(),
    {
        self.values.as_slice()
    }

    /// The key bound to each dense position, parallel to `values`.
    pub fn keys_by_index(&self) -> (r: &[usize])
        ensures
            r@ == self.keys(),
    {
        self.keys_by_index.as_slice()
    }

    /// The slot table that owns this store's key lifecycle.
    pub fn slot_table(&self) -> (t: &SlotTable)
        ensures
            t.contents() == self.table(),
            t.slots() == self.slots(),
    {
        &self.slot_table
    }

    /// Borrows the value a live key resolves to: `InvalidKey` exactly when
    /// the key is not occupied.
    pub fn get(&self, key: usize) -> (r: Result<&T, Error>)
        requires
            self.wf(),
        ensures
            self.live(key) ==> r is Ok && *r->Ok_0 == self.value_of(key),
            !self.live(key) ==> r is Err && r->Err_0 == Error::InvalidKey,
    {
        match self.slot_table.get(key) {
            Ok(index) => Ok(&self.values[index]),
            Err(e) => Err(e),
        }
    }

    /// Appends `value` at the end of the dense block and allocates a key
    /// bound to the new tail index.
    ///
    /// Every key that was live before stays live and keeps both its index and
    /// its value: an insertion never disturbs existing handles.
    pub fn insert(&mut self, value: T) -> (key: usize)
        requires
            old(self).wf(),
            old(self).vals().len() < usize::MAX,
        ensures
            final(self).wf(),
            final(self).vals() == old(self).vals().push(value),
            final(self).keys() == old(self).keys().push(key),
            !old(self).live(key),
            final(self).table() == old(self).table().insert(key, old(self).vals().len() as usize),
            final(self).live(key),
            final(self).table()[key] == old(self).vals().len(),
            forall|k: usize|
                #![trigger old(self).table().dom().contains(k)]
                old(self).live(k) ==> final(self).live(k)
                    && final(self).table()[k] == old(self).table()[k]
                    && final(self).value_of(k) == old(self).value_of(k),
            key <= old(self).slots(),
            old(self).vals().len() < old(self).slots() ==> key < old(self).slots(),
            key == old(self).slots() ==> final(self).slots() == key + 1,
            key < old(self).slots() ==> final(self).slots() == old(self).slots(),
    {
        let index = self.values.len();
        let key = self.slot_table.insert(index);
        self.values.push(value);
        self.keys_by_index.push(key);
        key
    }

    /// Removes the value bound to `key` by swap-remove: the former last
    /// element moves into the vacated position and its key is re-pointed
    /// there, so the block stays dense. Fails with `InvalidKey`, changing
    /// nothing, exactly when `key` is not occupied — however often it is
    /// retried.
    ///
    /// Every live key other than `key` stays live and resolves to the same
    /// value as before.
    pub fn remove(&mut self, key: usize) -> (r: Result<(), Error>)
        requires
            old(self).wf(),
        ensures
            final(self).wf(),
            !old(self).live(key) ==> {
                &&& r is Err
                &&& r->Err_0 == Error::InvalidKey
                &&& *final(self) == *old(self)
            },
            old(self).live(key) ==> {
                &&& r is Ok
                &&& final(self).vals() == old(self).vals().update(
                    old(self).table()[key] as int,
                    old(self).vals().last(),
                ).drop_last()
                &&& final(self).keys() == old(self).keys().update(
                    old(self).table()[key] as int,
                    old(self).keys().last(),
                ).drop_last()
                &&& final(self).table() == old(self).table().insert(
                    old(self).keys().last(),
                    old(self).table()[key],
                ).remove(key)
                &&& !final(self).live(key)
                &&& final(self).vals().len() == old(self).vals().len() - 1
            },
            old(self).live(key) && old(self).table()[key] + 1 < old(self).vals().len() ==> {
                &&& final(self).live(old(self).keys().last())
                &&& final(self).table()[old(self).keys().last()] == old(self).table()[key]
            },
            forall|k: usize|
                #![trigger old(self).table().dom().contains(k)]
                k != key && old(self).live(k) ==> final(self).live(k) && final(self).value_of(k)
                    == old(self).value_of(k),
            final(self).slots() == old(self).slots(),
    {
        let index = match self.slot_table.get(key) {
            Ok(index) => index,
            Err(e) => {
                return Err(e);
            },
        };
        let last = self.values.len() - 1;
        let moved_key = self.keys_by_index[last];
        self.slot_table.set(moved_key, index);
        self.values.swap_remove(index);
        self.keys_by_index.swap_remove(index);
        let released = self.slot_table.remove(key);
        proof {
            lemma_swap_remove_wf(*old(self), *self, key, index, last as int, moved_key);
        }
        match released {
            Ok(_) => Ok(()),
            Err(e) => Err(e),
        }
    }
}

/// No gaps: between calls, `values` holds exactly the currently-live
/// elements. Every dense position carries the value of the live key bound to
/// it, and every live key's value sits at some dense position — there is no
/// vacant position to skip when the block is consumed in bulk.
pub proof fn lemma_no_gaps<T>(s: DenseStore<T>)
    requires
        s.wf(),
    ensures
        forall|i: int|
            #![trigger s.keys()[i]]
            0 <= i < s.vals().len() ==> s.live(s.keys()[i]) && s.value_of(s.keys()[i])
                == s.vals()[i],
        forall|k: usize|
            #![trigger s.table().dom().contains(k)]
            s.live(k) ==> exists|i: int|
                0 <= i < s.vals().len() && #[trigger] s.keys()[i] == k && s.vals()[i]
                    == s.value_of(k),
{
    assert forall|k: usize| #![trigger s.table().dom().contains(k)] s.live(k) implies exists|
        i: int,
    |
        0 <= i < s.vals().len() && #[trigger] s.keys()[i] == k && s.vals()[i] == s.value_of(
            k,
        ) by {
        let i = s.table()[k] as int;
        assert(0 <= i < s.vals().len() && s.keys()[i] == k && s.vals()[i] == s.value_of(k));
    }
}

/// The whole correctness argument for swap-remove, shared by `remove`'s
/// postconditions: rebinding the moved key and dropping the tail restores the
/// density invariant and leaves every other live key's value in place.
proof fn lemma_swap_remove_wf<T>(
    pre: DenseStore<T>,
    post: DenseStore<T>,
    key: usize,
    index: usize,
    last: int,
    moved_key: usize,
)
    requires
        pre.wf(),
        pre.live(key),
        index == pre.table()[key],
        last == pre.vals().len() - 1,
        moved_key == pre.keys()[last],
        post.vals() == pre.vals().update(index as int, pre.vals()[last]).drop_last(),
        post.keys() == pre.keys().update(index as int, pre.keys()[last]).drop_last(),
        post.table() == pre.table().insert(moved_key, index).remove(key),
        post.table_wf(),
        post.table().dom().len() == pre.table().dom().len() - 1,
    ensures
        post.wf(),
        !post.live(key),
        forall|k: usize|
            #![trigger pre.table().dom().contains(k)]
            k != key && pre.live(k) ==> post.live(k) && post.value_of(k) == pre.value_of(k),
        index < last ==> post.live(moved_key) && post.table()[moved_key] == index,
{
    assert(pre.table().dom().contains(key));
    assert(pre.keys()[index as int] == key);
    assert(pre.table().dom().contains(moved_key) && pre.table()[moved_key] == last);
    // the removed index and the last index name the same position exactly
    // when the removed key is itself the key of the last position
    assert(moved_key == key ==> index == last);
    assert(index == last ==> moved_key == key);
    assert(post.table().dom() =~= pre.table().dom().remove(key));
    assert forall|i: int|
        #![trigger post.keys()[i]]
        0 <= i < post.keys().len() implies post.live(post.keys()[i]) && post.table()[post.keys()[i]]
        == i by {
        if i == index && index < last {
            assert(post.keys()[i] == moved_key);
        } else {
            let k = pre.keys()[i];
            assert(post.keys()[i] == k);
            assert(pre.table().dom().contains(k) && pre.table()[k] == i);
            assert(k != key);
            assert(k != moved_key);
        }
    }
    assert forall|k: usize|
        #![trigger post.table().dom().contains(k)]
        post.live(k) implies post.table()[k] < post.vals().len()
        && post.keys()[post.table()[k] as int] == k by {
        assert(pre.table().dom().contains(k));
        assert(k != key);
        if k == moved_key {
            assert(post.table()[k] == index);
            assert(index < last);
            assert(post.keys()[index as int] == moved_key);
        } else {
            let i = pre.table()[k] as int;
            assert(pre.keys()[i] == k);
            assert(i != index);
            assert(i != last);
            assert(post.table()[k] == pre.table()[k]);
            assert(post.keys()[i] == pre.keys()[i]);
        }
    }
    assert forall|k: usize|
        #![trigger pre.table().dom().contains(k)]
        k != key && pre.live(k) implies post.live(k) && post.value_of(k) == pre.value_of(k) by {
        assert(post.table().dom().contains(k));
        if k == moved_key {
            assert(post.table()[k] == index);
            assert(index < last);
            assert(post.vals()[index as int] == pre.vals()[last]);
        } else {
            let i = pre.table()[k] as int;
            assert(pre.keys()[i] == k);
            assert(i != index);
            assert(i != last);
            assert(post.table()[k] == pre.table()[k]);
            assert(post.vals()[i] == pre.vals()[i]);
        }
    }
}

} // verus!
