use vstd::prelude::*;
use crate::types::vkbytes;
use crate::types::vkuint;
use crate::device::GsDevice;
use crate::device::spec_overwrite;
use crate::error::AllocatorError;
use crate::policy::{contains_flags, spec_contains_flags};

verus! {

/// A byte range inside one memory block.
#[derive(Debug, Clone, Copy, PartialEq, Eq, Structural)]
pub struct MemoryRange {
    pub offset: vkbytes,
    pub size: vkbytes,
}

/// Whether a memory block is mapped, and where its mapped region begins.
#[derive(Debug, Clone, Copy, PartialEq, Eq, Structural)]
pub struct MemoryMapStatus {
    /// The beginning of the whole mapped memory, when it is mapped.
    pub data_ptr: Option<vkbytes>,
}

impl MemoryMapStatus {
    /// The status of memory that has never been mapped.
    pub fn from_unmap() -> (r: MemoryMapStatus)
        ensures
            r.data_ptr is None,
            !r.spec_is_mapping(),
    {
        MemoryMapStatus { data_ptr: None }
    }

    /// Record where the mapped region begins.
    pub fn set_map(&mut self, ptr: vkbytes)
        ensures
            final(self).data_ptr == Some(ptr),
            final(self).spec_is_mapping(),
    {
        self.data_ptr = Some(ptr);
    }

    /// Forget the mapping.
    pub fn invaild_map(&mut self)
        ensures
            final(self).data_ptr is None,
            !final(self).spec_is_mapping(),
    {
        self.data_ptr = None;
    }

    pub open spec fn spec_is_mapping(self) -> bool {
        self.data_ptr is Some
    }

    /// Whether the memory is mapped now.
    pub fn is_mapping(&self) -> (r: bool)
        ensures
            r == self.spec_is_mapping(),
    {
        self.data_ptr.is_some()
    }
}

/// A write destination inside a mapped memory block: the block, the byte
/// offset the writable region begins at, and how many bytes it spans.
#[derive(Debug, Clone, Copy, PartialEq, Eq, Structural)]
pub struct MemoryWritePtr {
    pub mem: usize,
    pub offset: vkbytes,
    pub size: vkbytes,
}

impl MemoryWritePtr {
    pub fn new(mem: usize, offset: vkbytes, size: vkbytes) -> (r: MemoryWritePtr)
        ensures
            r == (MemoryWritePtr { mem, offset, size }),
    {
        MemoryWritePtr { mem, offset, size }
    }

    /// Write `data` at the beginning of this region through the mapping.
    pub fn write_data(&self, device: &mut GsDevice, data: &Vec<u8>)
        requires
            old(device).wf(),
            self.mem < old(device).memories@.len(),
            old(device).memories@[self.mem as int].live,
            old(device).memories@[self.mem as int].mapped,
            data@.len() <= self.size,
            self.offset + self.size <= old(device).memories@[self.mem as int].size,
        ensures
            final(device).wf(),
            final(device).same_config(*old(device)),
            final(device).buffers@ == old(device).buffers@,
            final(device).images@ == old(device).images@,
            final(device).pools@ == old(device).pools@,
            final(device).sets@ == old(device).sets@,
            final(device).recording == old(device).recording,
            final(device).calls@ == old(device).calls@,
            final(device).memories@.len() == old(device).memories@.len(),
            forall|j: int| 0 <= j < old(device).memories@.len() && j != self.mem ==> final(device).memories@[j] == old(device).memories@[j],
            final(device).memories@[self.mem as int] == (crate::device::MemoryObj {
                data: final(device).memories@[self.mem as int].data,
                ..old(device).memories@[self.mem as int]
            }),
            final(device).memories@[self.mem as int].data@ == spec_overwrite(
                old(device).memories@[self.mem as int].data@,
                self.offset as int,
                data@,
            ),
    {
        device.write_mapped(self.mem, self.offset, data);
    }
}

/// The sum of the first `n` entries of `spaces`.
pub open spec fn spec_spaces_sum(spaces: Seq<vkbytes>, n: int) -> int
    decreases n,
{
    if n <= 0 {
        0
    } else {
        spec_spaces_sum(spaces, n - 1) + spaces[n - 1]
    }
}

pub proof fn lemma_spaces_sum_monotone(spaces: Seq<vkbytes>, i: int, j: int)
    requires
        0 <= i <= j <= spaces.len(),
    ensures
        spec_spaces_sum(spaces, i) <= spec_spaces_sum(spaces, j),
    decreases j - i,
{
    if i < j {
        lemma_spaces_sum_monotone(spaces, i, j - 1);
    }
}

pub proof fn lemma_spaces_sum_nonnegative(spaces: Seq<vkbytes>, n: int)
    requires
        0 <= n <= spaces.len(),
    ensures
        0 <= spec_spaces_sum(spaces, n),
    decreases n,
{
    if n > 0 {
        lemma_spaces_sum_nonnegative(spaces, n - 1);
    }
}

pub proof fn lemma_spaces_sum_push(spaces: Seq<vkbytes>, x: vkbytes, n: int)
    requires
        0 <= n <= spaces.len(),
    ensures
        spec_spaces_sum(spaces.push(x), n) == spec_spaces_sum(spaces, n),
    decreases n,
{
    if n > 0 {
        lemma_spaces_sum_push(spaces, x, n - 1);
    }
}

/// The offset of each resource in the shared memory block: a prefix sum
/// over the ordered list of aligned sizes.
pub fn spaces_to_offsets(spaces: &Vec<vkbytes>) -> (offsets: Vec<vkbytes>)
    requires
        spec_spaces_sum(spaces@, spaces@.len() as int) <= vkbytes::MAX,
    ensures
        offsets@.len() == spaces@.len(),
        forall|i: int| 0 <= i < spaces@.len() ==> offsets@[i] == spec_spaces_sum(spaces@, i),
{
    let n = spaces.len();
    let mut offsets: Vec<vkbytes> = Vec::new();
    let mut current: vkbytes = 0;
    let mut k: usize = 0;
    while k < n
        invariant
            k <= n,
            n == spaces@.len(),
            spec_spaces_sum(spaces@, n as int) <= vkbytes::MAX,
            offsets@.len() == k,
            current == spec_spaces_sum(spaces@, k as int),
            forall|i: int| 0 <= i < k ==> offsets@[i] == spec_spaces_sum(spaces@, i),
        decreases n - k,
    {
        offsets.push(current);
        proof {
            lemma_spaces_sum_monotone(spaces@, k + 1, n as int);
            lemma_spaces_sum_nonnegative(spaces@, k as int);
        }
        current = current + spaces[k];
        k = k + 1;
    }
    offsets
}

/// Whether memory type `i` is admitted by the candidate bitmask and offers
/// every property in `require`.
pub open spec fn spec_type_suitable(
    types: Seq<vkuint>,
    candidates: vkuint,
    require: vkuint,
    i: int,
) -> bool {
    &&& 0 <= i < types.len()
    &&& (candidates >> (i as vkuint)) & 1 == 1
    &&& spec_contains_flags(types[i], require)
}

/// Narrows the set of usable physical memory types as resources join an
/// allocation: each resource's compatible-type bitmask is intersected with
/// the running candidates, and the storage class's property flags must be
/// offered by a surviving type.
pub struct MemorySelector {
    /// The property flags of each memory type, as the device reports them.
    pub memory_types: Vec<vkuint>,
    /// One bit per memory type index still compatible with every resource.
    pub candidate_bits: vkuint,
    /// The property flags the storage class demands.
    pub require_flags: vkuint,
}

impl MemorySelector {
    pub open spec fn wf(self) -> bool {
        self.memory_types@.len() <= 32
    }

    /// Whether the selector, narrowed by one more resource's bitmask,
    /// would still have a suitable memory type.
    pub open spec fn spec_would_accept(self, type_bits: vkuint) -> bool {
        exists|i: int|
            spec_type_suitable(
                self.memory_types@,
                self.candidate_bits & type_bits,
                self.require_flags,
                i,
            )
    }

    /// Whether some memory type still satisfies this selector.
    pub open spec fn spec_has_suitable(self) -> bool {
        exists|i: int|
            spec_type_suitable(self.memory_types@, self.candidate_bits, self.require_flags, i)
    }

    /// A fresh selector over the device's memory types that no resource has
    /// constrained yet.
    pub fn init(device: &GsDevice, require_flags: vkuint) -> (r: MemorySelector)
        requires
            device.wf(),
        ensures
            r.wf(),
            r.memory_types@ == device.memory_types@,
            r.candidate_bits == 0xffff_ffffu32,
            r.require_flags == require_flags,
    {
        let n = device.memory_types.len();
        let mut types: Vec<vkuint> = Vec::new();
        let mut k: usize = 0;
        while k < n
            invariant
                k <= n,
                n == device.memory_types@.len(),
                types@.len() == k,
                forall|i: int| 0 <= i < k ==> types@[i] == device.memory_types@[i],
            decreases n - k,
        {
            let f = device.memory_types[k];
            types.push(f);
            k = k + 1;
        }
        proof {
            assert(types@ =~= device.memory_types@);
        }
        MemorySelector { memory_types: types, candidate_bits: 0xffff_ffffu32, require_flags }
    }

    /// Intersect the candidates with one resource's compatible-type bitmask.
    /// Fails, leaving the selector unchanged, exactly when no memory type
    /// would satisfy the narrowed selector.
    pub fn try_types(&mut self, type_bits: vkuint) -> (r: Result<(), AllocatorError>)
        requires
            old(self).wf(),
        ensures
            final(self).wf(),
            final(self).memory_types@ == old(self).memory_types@,
            final(self).require_flags == old(self).require_flags,
            r is Ok <==> (exists|i: int|
                spec_type_suitable(
                    old(self).memory_types@,
                    old(self).candidate_bits & type_bits,
                    old(self).require_flags,
                    i,
                )),
            r is Ok ==> final(self).candidate_bits == old(self).candidate_bits & type_bits,
            r is Err ==> final(self).candidate_bits == old(self).candidate_bits && r == Result::<
                (),
                AllocatorError,
            >::Err(AllocatorError::NoSuitableMemoryType),
    {
        let narrowed = self.candidate_bits & type_bits;
        match find_suitable(&self.memory_types, narrowed, self.require_flags) {
            Some(_) => {
                self.candidate_bits = narrowed;
                Ok(())
            },
            None => Err(AllocatorError::NoSuitableMemoryType),
        }
    }

    /// The memory type the allocation will come from: the lowest index
    /// still admitted by every resource that offers the class's properties.
    /// Fails exactly when no such index exists.
    pub fn optimal_memory(&self) -> (r: Result<usize, AllocatorError>)
        requires
            self.wf(),
        ensures
            r matches Ok(i) ==> spec_type_suitable(
                self.memory_types@,
                self.candidate_bits,
                self.require_flags,
                i as int,
            ) && (forall|j: int|
                0 <= j < i ==> !spec_type_suitable(
                    self.memory_types@,
                    self.candidate_bits,
                    self.require_flags,
                    j,
                )),
            r is Err <==> !self.spec_has_suitable(),
            r is Err ==> r == Result::<usize, AllocatorError>::Err(
                AllocatorError::NoSuitableMemoryType,
            ),
    {
        match find_suitable(&self.memory_types, self.candidate_bits, self.require_flags) {
            Some(i) => Ok(i),
            None => Err(AllocatorError::NoSuitableMemoryType),
        }
    }

    /// Drop every constraint that resources have put on the selector.
    pub fn reset(&mut self)
        ensures
            final(self).memory_types@ == old(self).memory_types@,
            final(self).require_flags == old(self).require_flags,
            final(self).candidate_bits == 0xffff_ffffu32,
    {
        self.candidate_bits = 0xffff_ffffu32;
    }
}

/// The lowest memory type index admitted by `candidates` whose properties
/// contain `require`, if any.
fn find_suitable(types: &Vec<vkuint>, candidates: vkuint, require: vkuint) -> (r: Option<usize>)
    requires
        types@.len() <= 32,
    ensures
        r matches Some(i) ==> spec_type_suitable(types@, candidates, require, i as int) && (
        forall|j: int| 0 <= j < i ==> !spec_type_suitable(types@, candidates, require, j)),
        r is None ==> forall|j: int| !spec_type_suitable(types@, candidates, require, j),
{
    let n = types.len();
    let mut k: usize = 0;
    while k < n
        invariant
            k <= n,
            n == types@.len(),
            n <= 32,
            forall|j: int| 0 <= j < k ==> !spec_type_suitable(types@, candidates, require, j),
        decreases n - k,
    {
        let bit_set = (candidates >> (k as vkuint)) & 1 == 1;
        if bit_set && contains_flags(types[k], require) {
            return Some(k);
        }
        k = k + 1;
    }
    None
}

} // verus!
