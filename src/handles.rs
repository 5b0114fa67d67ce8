//! Generational handles for meshes and shaders, allocated from `slotmap`.
use slotmap::{DefaultKey, Key, KeyData, SlotMap};
use vstd::prelude::*;

verus! {

/// A slot map of unit values: only its keys matter here.
#[verifier::external_body]
pub struct KeySlots {
    map: SlotMap<DefaultKey, ()>,
}

/// The keys that a slot map holds, each written as its 64-bit
/// (version, index) form.
pub uninterp spec fn live_keys(m: KeySlots) -> Set<u64>;

/// Bit 32 of a key's 64-bit form: the low bit of its version, which is set
/// on every occupied slot.
pub const OCCUPIED_BIT: u64 = 0x1_0000_0000;

/// Relies on `SlotMap::new`: a new map holds no key.
#[verifier::external_body]
fn slot_map_new() -> (r: KeySlots)
    ensures
        live_keys(r) == Set::<u64>::empty(),
{
    KeySlots { map: SlotMap::new() }
}

/// Relies on `SlotMap::insert` and `KeyData::as_ffi`: the key returned was
/// not in the map before, it is afterwards, no other key changes, and its
/// version is odd. `insert` panics only once the slot vector has reached
/// `u32::MAX` entries, which the bound on the number of keys excludes; it
/// does not unwind otherwise.
#[verifier::external_body]
fn slot_map_insert(m: &mut KeySlots) -> (r: u64)
    requires
        live_keys(*old(m)).len() + 2 < u32::MAX,
    ensures
        !live_keys(*old(m)).contains(r),
        live_keys(*final(m)) == live_keys(*old(m)).insert(r),
        r | OCCUPIED_BIT == r,
    no_unwind
{
    m.map.insert(()).data().as_ffi()
}

/// Relies on `SlotMap::len`: the number of keys the map holds.
#[verifier::external_body]
fn slot_map_len(m: &KeySlots) -> (r: usize)
    ensures
        r as nat == live_keys(*m).len(),
{
    m.map.len()
}

/// Relies on `SlotMap::contains_key` and `KeyData::from_ffi`, which sets the
/// low bit of the version before the lookup.
#[verifier::external_body]
fn slot_map_contains(m: &KeySlots, key: u64) -> (r: bool)
    ensures
        r == live_keys(*m).contains(key | OCCUPIED_BIT),
{
    m.map.contains_key(DefaultKey::from(KeyData::from_ffi(key)))
}

/// Handle of a mesh: a generation-tagged slot key.
#[derive(Clone, Copy, Debug, PartialEq, Eq, Hash, Structural)]
pub struct Mesh {
    pub key: u64,
}

/// Handle of a shader pipeline: a generation-tagged slot key.
#[derive(Clone, Copy, Debug, PartialEq, Eq, Hash, Structural)]
pub struct Shader {
    pub key: u64,
}

/// Allocator of generational keys for one kind of resource.
pub struct HandleAllocator {
    slots: KeySlots,
}

impl HandleAllocator {
    /// The keys handed out so far and still live.
    pub closed spec fn live(&self) -> Set<u64> {
        live_keys(self.slots)
    }

    #[verifier::type_invariant]
    spec fn inv(&self) -> bool {
        live_keys(self.slots).finite()
    }

    pub fn new() -> (r: Self)
        ensures
            r.live() == Set::<u64>::empty(),
    {
        HandleAllocator { slots: slot_map_new() }
    }

    /// Whether another key can still be handed out.
    pub fn has_room(&self) -> (r: bool)
        ensures
            r == (self.live().len() + 2 < u32::MAX),
    {
        slot_map_len(&self.slots) < 0xffff_fffd
    }

    /// Hands out a key that no live handle holds.
    pub fn allocate(&mut self) -> (r: u64)
        requires
            old(self).live().len() + 2 < u32::MAX,
        ensures
            !old(self).live().contains(r),
            final(self).live() == old(self).live().insert(r),
            r | OCCUPIED_BIT == r,
    {
        proof {
            use_type_invariant(&*self);
        }
        slot_map_insert(&mut self.slots)
    }

    /// Whether `key` names a live slot of this allocator.
    pub fn is_valid(&self, key: u64) -> (r: bool)
        ensures
            r == self.live().contains(key | OCCUPIED_BIT),
    {
        slot_map_contains(&self.slots, key)
    }
}

/// A key that was just handed out is valid.
pub proof fn lemma_allocated_is_valid(before: HandleAllocator, after: HandleAllocator, key: u64)
    requires
        after.live() == before.live().insert(key),
        key | OCCUPIED_BIT == key,
    ensures
        after.live().contains(key | OCCUPIED_BIT),
{
}

} // verus!
