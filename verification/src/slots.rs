use vstd::prelude::*;
use slotmap::{DefaultKey, Key, KeyData, SlotMap};

verus! {

/// The slot map that hands out asset keys; each stored value is the handle of
/// an asset. The map sits in a private field and is known only through
/// `slot_contents` and the methods below.
#[verifier::external_body]
pub struct KeySlots {
    map: SlotMap<DefaultKey, u64>,
}

/// What the slot map holds: each live key, written as the 64-bit value that
/// `KeyData::as_ffi` gives for it, mapped to the value stored under it.
pub uninterp spec fn slot_contents(slots: KeySlots) -> Map<u64, u64>;

/// The 64-bit form of slotmap's null key: index `u32::MAX`, version 1.
pub open spec fn null_key_bits() -> u64 {
    0x1_ffff_ffff
}

/// A key's 64-bit form is its version in the high half over its slot index in
/// the low half; slotmap only ever hands out odd versions.
pub open spec fn canonical_key_bits(bits: u64) -> bool {
    (bits / 0x1_0000_0000) % 2 == 1
}

impl KeySlots {
    /// `SlotMap::new`: an empty slot map.
    #[verifier::external_body]
    pub(crate) fn new() -> (fresh: KeySlots)
        ensures
            slot_contents(fresh) =~= Map::empty(),
    {
        KeySlots { map: SlotMap::new() }
    }

    /// `SlotMap::len`: the number of values stored.
    #[verifier::external_body]
    pub(crate) fn len(&self) -> (n: usize)
        ensures
            n == slot_contents(*self).len(),
    {
        self.map.len()
    }

    /// `SlotMap::insert`, with the new key returned in its `as_ffi` form: a key
    /// that is not live before, with an odd version and an index below
    /// `u32::MAX` (so not the null key), under which the value is stored; the
    /// other entries stay as they were. Insertion panics only when the map
    /// already holds `u32::MAX - 1` values, which `requires` rules out. Which
    /// key comes out depends on the map's list of free slots, which its
    /// contents do not show; that is left unsaid.
    #[verifier::external_body]
    pub(crate) fn insert(&mut self, value: u64) -> (key: u64)
        requires
            slot_contents(*old(self)).dom().finite(),
            slot_contents(*old(self)).len() + 1 < u32::MAX,
        ensures
            !slot_contents(*old(self)).dom().contains(key),
            canonical_key_bits(key),
            key != null_key_bits(),
            slot_contents(*final(self)) == slot_contents(*old(self)).insert(key, value),
            slot_contents(*final(self)).dom().finite(),
    {
        self.map.insert(value).data().as_ffi()
    }

    /// `SlotMap::get` on the key that `KeyData::from_ffi` rebuilds from `key`.
    /// `from_ffi` gives back the very key whose `as_ffi` form is `key`; from a
    /// value with an even version it builds some other key, so the contract
    /// speaks only of values with an odd version, the only ones that `as_ffi`
    /// produces.
    #[verifier::external_body]
    pub(crate) fn get(&self, key: u64) -> (value: Option<u64>)
        ensures
            canonical_key_bits(key) ==> value == slot_contents(*self).get(key),
    {
        self.map.get(DefaultKey::from(KeyData::from_ffi(key))).copied()
    }
}

/// `Key::null` for slotmap's default key type, in its `as_ffi` form.
#[verifier::external_body]
pub(crate) fn null_key() -> (key: u64)
    ensures
        key == null_key_bits(),
{
    DefaultKey::null().data().as_ffi()
}

} // verus!
