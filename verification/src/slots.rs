//! The list of live tasks, kept in a slot map.
//!
//! A task is found by its key and carries the handle by which it can be
//! aborted, once that handle is known. Keys and handles are plain integers: a
//! key is the 64-bit form of a slot-map key, a handle is whatever number the
//! caller gave the task.

use slotmap::{DefaultKey, Key, KeyData, SlotMap};
use vstd::prelude::*;

verus! {

/// The most entries that a slot map can hold: one slot index is taken by a
/// sentinel, and indices are below `u32::MAX`.
pub const MAX_SLOTS: usize = 0xffff_fffe;

/// The tasks that are alive, each with its abort handle once that is known.
///
/// The slot map itself is hidden from the proofs; `slots` and `versions` are what
/// they know of it.
#[verifier::external_body]
pub struct CancelList {
    map: SlotMap<DefaultKey, Option<u64>>,
}

/// The entries that a cancel list holds, by key.
pub uninterp spec fn slots(list: CancelList) -> Map<u64, Option<u64>>;

/// The version of each slot of a cancel list that has ever held an entry, by the
/// index of the slot. It is odd while the slot holds an entry.
pub uninterp spec fn versions(list: CancelList) -> Map<u32, u32>;

/// The index of the slot that `key` stands for: its lower half.
pub open spec fn slot_index(key: u64) -> u32 {
    #[verifier::truncate]
    (key as u32)
}

/// The version that the slot has while it holds the entry under `key`: its upper
/// half.
pub open spec fn slot_version(key: u64) -> u32 {
    (key >> 32) as u32
}

/// Whether `key` has the form of a slot-map key: its version is odd.
pub open spec fn is_slot_key(key: u64) -> bool {
    slot_version(key) % 2 == 1
}

/// The version of a slot that follows on `version`; the last one is followed by
/// zero.
pub open spec fn next_version(version: u32) -> u32 {
    if version == u32::MAX {
        0
    } else {
        (version + 1) as u32
    }
}

/// A key is known by its index and its version.
pub(crate) proof fn lemma_key_parts(one: u64, other: u64)
    ensures
        slot_index(one) == slot_index(other) && slot_version(one) == slot_version(other) ==> one
            == other,
{
    assert(one as u32 == other as u32 && (one >> 32) as u32 == (other >> 32) as u32 ==> one
        == other) by (bit_vector);
}

impl CancelList {
    /// Calls `SlotMap::new`, which makes a map without entries, none of whose slots
    /// has held one.
    #[verifier::external_body]
    pub(crate) fn new() -> (list: CancelList)
        ensures
            slots(list) == (Map::<u64, Option<u64>>::empty()),
            versions(list) == (Map::<u32, u32>::empty()),
    {
        CancelList { map: SlotMap::new() }
    }

    /// Calls `SlotMap::len`, which counts the entries.
    #[verifier::external_body]
    pub(crate) fn len(&self) -> (n: usize)
        ensures
            n == slots(*self).len(),
    {
        self.map.len()
    }

    /// Calls `SlotMap::insert`, which stores a value under a key that is not in
    /// use, and panics when every slot is taken. A slot that has held an entry before
    /// moves on to its next version, a new slot begins with the first, and the key
    /// tells the slot and its version.
    #[verifier::external_body]
    pub(crate) fn insert(&mut self, value: Option<u64>) -> (key: u64)
        requires
            slots(*old(self)).len() < MAX_SLOTS,
        ensures
            is_slot_key(key),
            !slots(*old(self)).contains_key(key),
            slots(*final(self)) == slots(*old(self)).insert(key, value),
            slot_version(key) == (if versions(*old(self)).contains_key(slot_index(key)) {
                versions(*old(self))[slot_index(key)] + 1
            } else {
                1
            }),
            versions(*final(self)) == versions(*old(self)).insert(
                slot_index(key),
                slot_version(key),
            ),
    {
        self.map.insert(value).data().as_ffi()
    }

    /// Calls `SlotMap::get_mut`, which lends the value stored under `key`, if
    /// there is one. What the caller leaves there is the entry afterwards. No slot
    /// changes its version.
    #[verifier::external_body]
    pub(crate) fn get_mut(&mut self, key: u64) -> (slot: Option<&mut Option<u64>>)
        requires
            is_slot_key(key),
        ensures
            match slot {
                Some(s) => slots(*old(self)).contains_key(key) && *s == slots(*old(self))[key]
                    && slots(*final(self)) == slots(*old(self)).insert(key, *final(s)),
                None => !slots(*old(self)).contains_key(key) && slots(*final(self)) == slots(
                    *old(self),
                ),
            },
            versions(*final(self)) == versions(*old(self)),
    {
        self.map.get_mut(DefaultKey::from(KeyData::from_ffi(key)))
    }

    /// Calls `SlotMap::remove`, which takes out the entry under `key` and hands
    /// its value back, and does nothing when there is none. The slot of the entry
    /// moves on to its next version.
    #[verifier::external_body]
    pub(crate) fn remove(&mut self, key: u64) -> (value: Option<Option<u64>>)
        requires
            is_slot_key(key),
        ensures
            value == (if slots(*old(self)).contains_key(key) {
                Some(slots(*old(self))[key])
            } else {
                None
            }),
            slots(*final(self)) == slots(*old(self)).remove(key),
            versions(*final(self)) == (if slots(*old(self)).contains_key(key) {
                versions(*old(self)).insert(slot_index(key), next_version(slot_version(key)))
            } else {
                versions(*old(self))
            }),
    {
        self.map.remove(DefaultKey::from(KeyData::from_ffi(key)))
    }

    /// Calls `SlotMap::contains_key`, which says whether there is an entry under
    /// `key`.
    #[verifier::external_body]
    pub(crate) fn contains_key(&self, key: u64) -> (found: bool)
        requires
            is_slot_key(key),
        ensures
            found == slots(*self).contains_key(key),
    {
        self.map.contains_key(DefaultKey::from(KeyData::from_ffi(key)))
    }

    /// Calls `SlotMap::keys`, which visits every key once, in an order that is
    /// left open.
    #[verifier::external_body]
    pub(crate) fn keys(&self) -> (keys: Vec<u64>)
        ensures
            keys@.no_duplicates(),
            keys@.to_set() == slots(*self).dom(),
    {
        self.map.keys().map(|key| key.data().as_ffi()).collect()
    }
}

} // verus!
