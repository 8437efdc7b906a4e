//! Memory types of a graphics adapter and the choice of a memory type that
//! satisfies a resource's requirements.

use vstd::prelude::*;

verus! {

/// Memory property flags, held as the bit set that the graphics API reports.
#[derive(Clone, Copy, Debug, PartialEq, Eq)]
pub struct Properties {
    pub bits: u16,
}

impl Properties {
    /// Device local memory on the GPU.
    pub fn device_local() -> (p: Properties)
        ensures
            p.bits == 0x1,
    {
        Properties { bits: 0x1 }
    }

    /// Host-visible memory that needs no explicit flush.
    pub fn coherent() -> (p: Properties)
        ensures
            p.bits == 0x2,
    {
        Properties { bits: 0x2 }
    }

    /// Memory that the CPU can map.
    pub fn cpu_visible() -> (p: Properties)
        ensures
            p.bits == 0x4,
    {
        Properties { bits: 0x4 }
    }

    /// Every flag of `other` is set in `self`.
    pub open spec fn spec_contains(self, other: Properties) -> bool {
        self.bits & other.bits == other.bits
    }

    pub fn contains(&self, other: Properties) -> (res: bool)
        ensures
            res == self.spec_contains(other),
    {
        self.bits & other.bits == other.bits
    }
}

/// One memory type of an adapter.
#[derive(Clone, Copy, Debug, PartialEq, Eq)]
pub struct MemoryType {
    pub properties: Properties,
    pub heap_index: usize,
}

/// What a buffer or an image needs from the memory that backs it.
#[derive(Clone, Copy, Debug, PartialEq, Eq)]
pub struct Requirements {
    pub size: u64,
    pub alignment: u64,
    /// Bit `i` is set when memory type `i` may back the resource.
    pub type_mask: u64,
}

/// Index of a memory type of an adapter.
#[derive(Clone, Copy, Debug, PartialEq, Eq)]
pub struct MemoryTypeId(pub usize);

/// The adapter limits that the staging-buffer layout depends on.
#[derive(Clone, Copy, Debug, PartialEq, Eq)]
pub struct Limits {
    /// Alignment, in bytes, of the row pitch of texture data in a buffer
    /// that is the source of a copy to an image.
    pub min_buffer_copy_pitch_alignment: u64,
}

/// An adapter together with the memory types and limits read from it.
pub struct AdapterState<A> {
    pub adapter: A,
    pub memory_types: Vec<MemoryType>,
    pub limits: Limits,
}

/// Memory type `id` is allowed by `type_mask`.
pub open spec fn type_allowed(type_mask: u64, id: int) -> bool {
    type_mask & (1u64 << (id as u64)) != 0
}

/// Memory type `id` of `types` is allowed by `type_mask` and has every
/// flag of `properties`.
pub open spec fn type_suits(types: Seq<MemoryType>, type_mask: u64, properties: Properties, id: int) -> bool {
    &&& 0 <= id < types.len()
    &&& type_allowed(type_mask, id)
    &&& types[id].properties.spec_contains(properties)
}

/// Some memory type below 64 suits the requirements; the search stops at
/// the first one, so it never tests a bit beyond the mask's width.
pub open spec fn has_suitable_type(types: Seq<MemoryType>, type_mask: u64, properties: Properties) -> bool {
    exists|id: int| 0 <= id < 64 && #[trigger] type_suits(types, type_mask, properties, id)
}

/// The first memory type that suits the requirements.
pub open spec fn is_first_suitable(types: Seq<MemoryType>, type_mask: u64, properties: Properties, id: int) -> bool {
    &&& type_suits(types, type_mask, properties, id)
    &&& forall|j: int| 0 <= j < id ==> !#[trigger] type_suits(types, type_mask, properties, j)
}

/// Takes the adapter to use out of the list: the first one.
pub fn select_adapter<A>(adapters: &mut Vec<A>) -> (adapter: A)
    requires
        old(adapters).len() > 0,
    ensures
        adapter == old(adapters)@[0],
        final(adapters)@ == old(adapters)@.subrange(1, old(adapters)@.len() as int),
{
    adapters.remove(0)
}

impl<A> AdapterState<A> {
    /// Builds the state of `adapter` from the memory types and limits that
    /// its physical device reports.
    pub fn new_from_adapter(adapter: A, memory_types: Vec<MemoryType>, limits: Limits) -> (state: Self)
        ensures
            state.adapter == adapter,
            state.memory_types@ == memory_types@,
            state.limits == limits,
    {
        AdapterState { adapter, memory_types, limits }
    }

    /// The first memory type that `memory_requirements` allows and that has
    /// every flag of `properties`.
    pub fn choose_memory_type_from_memory_requirement(
        &self,
        memory_requirements: Requirements,
        properties: Properties,
    ) -> (id: MemoryTypeId)
        requires
            has_suitable_type(self.memory_types@, memory_requirements.type_mask, properties),
        ensures
            is_first_suitable(self.memory_types@, memory_requirements.type_mask, properties, id.0 as int),
            id.0 < 64,
            (memory_requirements.type_mask >> (id.0 as u64)) & 1 == 1,
            self.memory_types@[id.0 as int].properties.bits & properties.bits == properties.bits,
    {
        match find_memory_type(&self.memory_types, memory_requirements.type_mask, properties) {
            Some(id) => id,
            None => {
                // A suitable type below 64 exists by the precondition.
                proof {
                    assert(false);
                }
                MemoryTypeId(0)
            },
        }
    }
}

/// The first memory type that suits the requirements, searched among the
/// first 64 types (the width of the type mask); `None` when none of them
/// suits.
pub fn find_memory_type(memory_types: &Vec<MemoryType>, type_mask: u64, properties: Properties) -> (found: Option<MemoryTypeId>)
    ensures
        found matches Some(id) ==> id.0 < 64 && is_first_suitable(memory_types@, type_mask, properties, id.0 as int),
        found is None ==> !has_suitable_type(memory_types@, type_mask, properties),
        found matches Some(id) ==> id.0 < memory_types@.len() && (type_mask >> (id.0 as u64)) & 1 == 1
            && memory_types@[id.0 as int].properties.bits & properties.bits == properties.bits,
        found is None ==> forall|j: int|
            0 <= j < memory_types@.len() && j < 64 && (type_mask >> (j as u64)) & 1 == 1 ==> #[trigger] memory_types@[j].properties.bits
                & properties.bits != properties.bits,
{
    let mut id: usize = 0;
    while id < memory_types.len() && id < 64
        invariant
            id <= 64,
            forall|j: int| 0 <= j < id ==> !#[trigger] type_suits(memory_types@, type_mask, properties, j),
        decreases 64 - id,
    {
        let allowed = type_mask & (1u64 << (id as u64)) != 0;
        if allowed && memory_types[id].properties.contains(properties) {
            proof {
                lemma_mask_bit(type_mask, id as u64);
            }
            return Some(MemoryTypeId(id));
        }
        id = id + 1;
    }
    assert forall|w: int| 0 <= w < 64 implies !#[trigger] type_suits(memory_types@, type_mask, properties, w) by {
        if w >= id {
            assert(w >= memory_types@.len());
        }
    }
    proof {
        law_no_type_found_means_none_fits(memory_types@, type_mask, properties);
    }
    None
}

/// There is only one first suitable memory type, so `find_memory_type` and
/// `choose_memory_type_from_memory_requirement` pick the same one.
pub proof fn law_first_suitable_is_unique(types: Seq<MemoryType>, type_mask: u64, properties: Properties, a: int, b: int)
    requires
        is_first_suitable(types, type_mask, properties, a),
        is_first_suitable(types, type_mask, properties, b),
    ensures
        a == b,
{
    if a < b {
        assert(!type_suits(types, type_mask, properties, a));
    } else if b < a {
        assert(!type_suits(types, type_mask, properties, b));
    }
}


/// Memory type `id` (below 64) is allowed by `type_mask` exactly when bit
/// `id` of the mask is set.
pub proof fn lemma_mask_bit(type_mask: u64, id: u64)
    requires
        id < 64,
    ensures
        type_allowed(type_mask, id as int) <==> (type_mask >> id) & 1 == 1,
{
    assert(type_mask & (1u64 << id) != 0 <==> (type_mask >> id) & 1 == 1) by (bit_vector)
        requires
            id < 64,
    ;
}

/// The chosen memory type is one that the resource's mask lets back it (its
/// bit is set in the raw mask) and that has every requested flag; every
/// type before it lacks its mask bit or a requested flag.
pub proof fn law_chosen_type_is_in_mask(types: Seq<MemoryType>, type_mask: u64, properties: Properties, id: int)
    requires
        0 <= id < 64,
        is_first_suitable(types, type_mask, properties, id),
    ensures
        0 <= id < types.len(),
        (type_mask >> (id as u64)) & 1 == 1,
        types[id].properties.bits & properties.bits == properties.bits,
        forall|j: int|
            0 <= j < id && (type_mask >> (j as u64)) & 1 == 1 ==> #[trigger] types[j].properties.bits & properties.bits
                != properties.bits,
{
    lemma_mask_bit(type_mask, id as u64);
    assert forall|j: int|
        0 <= j < id && (type_mask >> (j as u64)) & 1 == 1 implies #[trigger] types[j].properties.bits & properties.bits
        != properties.bits by {
        lemma_mask_bit(type_mask, j as u64);
        assert(!type_suits(types, type_mask, properties, j));
    }
}

/// When no memory type below 64 suits, each of them lacks its bit in the
/// raw mask or a requested flag.
pub proof fn law_no_type_found_means_none_fits(types: Seq<MemoryType>, type_mask: u64, properties: Properties)
    requires
        !has_suitable_type(types, type_mask, properties),
    ensures
        forall|j: int|
            0 <= j < types.len() && j < 64 && (type_mask >> (j as u64)) & 1 == 1 ==> #[trigger] types[j].properties.bits
                & properties.bits != properties.bits,
{
    assert forall|j: int|
        0 <= j < types.len() && j < 64 && (type_mask >> (j as u64)) & 1 == 1 implies #[trigger] types[j].properties.bits
        & properties.bits != properties.bits by {
        lemma_mask_bit(type_mask, j as u64);
        assert(!type_suits(types, type_mask, properties, j));
    }
}

} // verus!
