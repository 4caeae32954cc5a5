use vstd::prelude::*;

verus! {

use crate::error::Error;

// Trusted declarations for the outside crate `slab`, which supplies the
// free-list key allocator behind `SlotTable`.

#[verifier::external_type_specification]
#[verifier::external_body]
#[verifier::reject_recursive_types(T)]
pub struct ExSlab<T>(slab::Slab<T>);

/// The key-to-value association a `slab::Slab<usize>` currently holds.
pub uninterp spec fn slab_entries(s: slab::Slab<usize>) -> Map<usize, usize>;

/// The mapping of a table with no occupied key.
pub open spec fn empty_contents() -> Map<usize, usize> {
    Map::empty()
}

/// How many storage slots the slab has grown to (the length of its internal
/// entry vector). Every key the slab ever hands out lies below this bound,
/// and the bound only grows when a key equal to it is handed out.
pub uninterp spec fn slab_slots(s: slab::Slab<usize>) -> nat;

/// Relies on slab::Slab::new: an empty slab with no storage slots.
#[verifier::external_body]
fn slab_new() -> (r: slab::Slab<usize>)
    ensures
        slab_entries(r) == empty_contents(),
        slab_slots(r) == 0,
{
    slab::Slab::new()
}

/// Relies on slab::Slab::insert: stores the value in the vacant slot at the
/// head of the free list, or in a fresh slot at the end when none is vacant,
/// and returns that slot's key.
#[verifier::external_body]
fn slab_insert(s: &mut slab::Slab<usize>, val: usize) -> (key: usize)
    requires
        slab_entries(*old(s)).dom().finite(),
        slab_entries(*old(s)).dom().len() < usize::MAX,
    ensures
        !slab_entries(*old(s)).dom().contains(key),
        slab_entries(*final(s)) == slab_entries(*old(s)).insert(key, val),
        key <= slab_slots(*old(s)),
        key < slab_slots(*old(s)) <==> slab_entries(*old(s)).dom().len() < slab_slots(
            *old(s),
        ),
        key == slab_slots(*old(s)) ==> slab_slots(*final(s)) == key + 1,
        key < slab_slots(*old(s)) ==> slab_slots(*final(s)) == slab_slots(*old(s)),
{
    s.insert(val)
}

/// Relies on slab::Slab::get: Some with the stored value for an occupied key,
/// None for a vacant or never-issued one.
#[verifier::external_body]
fn slab_get(s: &slab::Slab<usize>, key: usize) -> (r: Option<usize>)
    ensures
        r == (if slab_entries(*s).dom().contains(key) {
            Some(slab_entries(*s)[key])
        } else {
            None::<usize>
        }),
{
    s.get(key).copied()
}

/// Relies on slab::Slab::try_remove: takes the value out of an occupied slot
/// and frees its key; None, and no change, for a vacant one. The storage
/// slots are kept either way.
#[verifier::external_body]
fn slab_try_remove(s: &mut slab::Slab<usize>, key: usize) -> (r: Option<usize>)
    ensures
        slab_entries(*old(s)).dom().contains(key) ==> {
            &&& r == Some(slab_entries(*old(s))[key])
            &&& slab_entries(*final(s)) == slab_entries(*old(s)).remove(key)
        },
        !slab_entries(*old(s)).dom().contains(key) ==> {
            &&& r == None::<usize>
            &&& slab_entries(*final(s)) == slab_entries(*old(s))
        },
        slab_slots(*final(s)) == slab_slots(*old(s)),
{
    s.try_remove(key)
}

/// Relies on slab::Slab's IndexMut impl: overwrites the value of an occupied
/// slot in place. It panics on a vacant key, which the precondition rules out.
#[verifier::external_body]
fn slab_set(s: &mut slab::Slab<usize>, key: usize, val: usize)
    requires
        slab_entries(*old(s)).dom().contains(key),
    ensures
        slab_entries(*final(s)) == slab_entries(*old(s)).insert(key, val),
        slab_slots(*final(s)) == slab_slots(*old(s)),
{
    s[key] = val;
}

/// A free-list-backed table from stable integer keys to dense-array indices.
/// It owns the key lifecycle: a key is allocated by `insert`, may be rebound
/// by `set`, and is released, for later reuse, by `remove`.
pub struct SlotTable {
    slab: slab::Slab<usize>,
}

impl SlotTable {
    /// The key-to-index mapping the table currently holds.
    pub closed spec fn contents(self) -> Map<usize, usize> {
        slab_entries(self.slab)
    }

    /// A bound below which every key this table has ever issued lies.
    pub closed spec fn slots(self) -> nat {
        slab_slots(self.slab)
    }

    pub open spec fn wf(self) -> bool {
        &&& self.contents().dom().finite()
        &&& self.contents().dom().len() <= self.slots()
    }

    /// An empty table: no key is occupied.
    pub fn new() -> (t: SlotTable)
        ensures
            t.wf(),
            t.contents() == empty_contents(),
            t.slots() == 0,
    {
        let t = SlotTable { slab: slab_new() };
        proof {
            assert(t.contents().dom() =~= Set::<usize>::empty());
        }
        t
    }

    /// Allocates a fresh key bound to `index`, reusing a released slot when
    /// one is free.
    pub fn insert(&mut self, index: usize) -> (key: usize)
        requires
            old(self).wf(),
            old(self).contents().dom().len() < usize::MAX,
        ensures
            final(self).wf(),
            !old(self).contents().dom().contains(key),
            final(self).contents() == old(self).contents().insert(key, index),
            final(self).contents().dom().len() == old(self).contents().dom().len() + 1,
            key <= old(self).slots(),
            old(self).contents().dom().len() < old(self).slots() ==> key < old(self).slots(),
            key == old(self).slots() ==> final(self).slots() == key + 1,
            key < old(self).slots() ==> final(self).slots() == old(self).slots(),
    {
        let key = slab_insert(&mut self.slab, index);
        proof {
            assert(final(self).contents().dom() =~= old(self).contents().dom().insert(key));
        }
        key
    }

    /// Looks up the dense index bound to `key`: `InvalidKey` exactly when the
    /// key is not currently occupied.
    pub fn get(&self, key: usize) -> (r: Result<usize, Error>)
        ensures
            self.contents().dom().contains(key) ==> r is Ok && r->Ok_0 == self.contents()[key],
            !self.contents().dom().contains(key) ==> r is Err && r->Err_0 == Error::InvalidKey,
    {
        match slab_get(&self.slab, key) {
            Some(index) => Ok(index),
            None => Err(Error::InvalidKey),
        }
    }

    /// Rebinds the occupied key `key` to a new dense index.
    pub fn set(&mut self, key: usize, index: usize)
        requires
            old(self).wf(),
            old(self).contents().dom().contains(key),
        ensures
            final(self).wf(),
            final(self).contents() == old(self).contents().insert(key, index),
            final(self).contents().dom() == old(self).contents().dom(),
            final(self).slots() == old(self).slots(),
    {
        slab_set(&mut self.slab, key, index);
        proof {
            assert(final(self).contents().dom() =~= old(self).contents().dom());
        }
    }

    /// Releases `key` back to the free list and returns the index it was
    /// bound to: `InvalidKey`, and no change, exactly when the key is not
    /// currently occupied.
    pub fn remove(&mut self, key: usize) -> (r: Result<usize, Error>)
        requires
            old(self).wf(),
        ensures
            final(self).wf(),
            old(self).contents().dom().contains(key) ==> {
                &&& r is Ok
                &&& r->Ok_0 == old(self).contents()[key]
                &&& final(self).contents() == old(self).contents().remove(key)
                &&& old(self).contents().dom().len() == final(self).contents().dom().len() + 1
            },
            !old(self).contents().dom().contains(key) ==> {
                &&& r is Err
                &&& r->Err_0 == Error::InvalidKey
                &&& final(self).contents() == old(self).contents()
            },
            final(self).slots() == old(self).slots(),
    {
        let removed = slab_try_remove(&mut self.slab, key);
        proof {
            if old(self).contents().dom().contains(key) {
                assert(final(self).contents().dom() =~= old(self).contents().dom().remove(key));
            }
        }
        match removed {
            Some(index) => Ok(index),
            None => Err(Error::InvalidKey),
        }
    }
}

} // verus!
