use vstd::prelude::*;
use crate::types::{vkbytes, lemma_align_up_multiple, spec_align_up};
use crate::device::{
    lemma_overwrite_elsewhere, lemma_overwrite_reads_back, spec_overwrite, GsDevice, MemoryObj,
    NativeCall,
};
use crate::error::AllocatorError;
use crate::memory::{
    lemma_spaces_sum_monotone, lemma_spaces_sum_nonnegative, spec_spaces_sum, spec_type_suitable,
    MemoryWritePtr,
};
use crate::policy::{
    lemma_and_idempotent, lemma_contains_flags_split, lemma_or_contains, spec_contains_flags,
    BufferStorageType, GsMemoryType, BUFFER_USAGE_TRANSFER_DST, BUFFER_USAGE_TRANSFER_SRC,
    MEMORY_PROPERTY_HOST_COHERENT, MEMORY_PROPERTY_HOST_VISIBLE,
};
use crate::buffer::{GsBufImgsrcInfo, BufferKind};
use crate::allocator::{spec_in_prefix, GsBufferAllocator, GsBufferRepository};

verus! {

/// Whether the device offers any memory type a staging buffer can live in:
/// one admitted for buffers whose properties include the staging class's.
pub open spec fn spec_staging_possible(d: GsDevice) -> bool {
    exists|i: int|
        spec_type_suitable(
            d.memory_types@,
            0xffff_ffffu32 & d.buffer_type_bits,
            GsMemoryType::StagingMemory.spec_property_flags(),
            i,
        )
}

/// An upload session for one repository. Writes go straight into the
/// mapped block for host-accessible classes; for the device-local class
/// they land in a transient staging repository, and `finish` drives the
/// one-shot transfer that moves them across and then destroys the staging
/// repository.
///
/// `finish` takes the session by value: it commits exactly once.
pub struct GsBufferDataUploader {
    pub staging: Option<GsBufferRepository>,
}

impl GsBufferDataUploader {
    /// Where an upload for resource `i` is written: the staging block when
    /// the class needs staging, the repository's own block otherwise.
    pub open spec fn spec_target_mem(self, repo: GsBufferRepository) -> int {
        match self.staging {
            Some(st) => st.group.memory_id as int,
            None => repo.group.memory_id as int,
        }
    }

    pub open spec fn spec_target_offset(self, repo: GsBufferRepository, i: int) -> int {
        match self.staging {
            Some(st) => st.group.offsets@[i] as int,
            None => repo.group.offsets@[i] as int,
        }
    }

    pub open spec fn wf(self, repo: GsBufferRepository, d: GsDevice) -> bool {
        &&& repo.group.wf(d)
        &&& if repo.group.storage_type.memory_type().spec_requires_staging() {
            match self.staging {
                Some(st) => {
                    &&& st.group.wf(d)
                    &&& st.group.storage_type == BufferStorageType::Staging
                    &&& st.group.n() == repo.group.n()
                    &&& st.group.memory_id != repo.group.memory_id
                    &&& d.memories@[st.group.memory_id as int].mapped
                    &&& forall|i: int|
                        0 <= i < st.group.n() ==> (#[trigger] st.group.descriptors@[i]).size
                            == repo.group.spaces@[i] && st.group.descriptors@[i].usage
                            == BUFFER_USAGE_TRANSFER_SRC
                },
                None => false,
            }
        } else {
            &&& self.staging is None
            &&& d.memories@[repo.group.memory_id as int].mapped
        }
    }

    /// Write `data` into the session's target block for the resource at
    /// `repository_index`: the mapped repository block itself, or its
    /// staging slot when the class cannot be written by the host.
    pub fn upload(
        &mut self,
        repo: &GsBufferRepository,
        device: &mut GsDevice,
        repository_index: usize,
        data: &Vec<u8>,
    )
        requires
            old(device).wf(),
            old(self).wf(*repo, *old(device)),
            repository_index < repo.group.n(),
            data@.len() <= repo.group.spaces@[repository_index as int],
        ensures
            final(device).wf(),
            final(self).wf(*repo, *final(device)),
            final(self).staging == old(self).staging,
            final(device).same_config(*old(device)),
            final(device).buffers@ == old(device).buffers@,
            final(device).images@ == old(device).images@,
            final(device).pools@ == old(device).pools@,
            final(device).sets@ == old(device).sets@,
            final(device).recording == old(device).recording,
            final(device).calls@ == old(device).calls@,
            final(device).memories@.len() == old(device).memories@.len(),
            final(device).spec_live_memory_ids() == old(device).spec_live_memory_ids(),
            forall|j: int|
                0 <= j < old(device).memories@.len() && j != old(self).spec_target_mem(*repo)
                    ==> (#[trigger] final(device).memories@[j]) == old(device).memories@[j],
            final(device).memories@[old(self).spec_target_mem(*repo)] == (MemoryObj {
                data: final(device).memories@[old(self).spec_target_mem(*repo)].data,
                ..old(device).memories@[old(self).spec_target_mem(*repo)]
            }),
            final(device).memories@[old(self).spec_target_mem(*repo)].data@ == spec_overwrite(
                old(device).memories@[old(self).spec_target_mem(*repo)].data@,
                old(self).spec_target_offset(*repo, repository_index as int),
                data@,
            ),
    {
        match &self.staging {
            Some(st) => {
                proof {
                    lemma_spaces_sum_monotone(
                        st.group.spaces@,
                        repository_index + 1,
                        st.group.n(),
                    );
                    lemma_spaces_sum_nonnegative(st.group.spaces@, repository_index as int);
                    let i = repository_index as int;
                    let b = device.buffers@[st.group.buffer_ids@[i] as int];
                    assert(st.group.descriptors@[i].size == repo.group.spaces@[i]);
                    assert(b.size == st.group.descriptors@[i].size && b.size
                        <= st.group.spaces@[i]);
                }
                let ptr = MemoryWritePtr::new(
                    st.group.memory_id,
                    st.group.offsets[repository_index],
                    st.group.spaces[repository_index],
                );
                ptr.write_data(device, data);
            },
            None => {
                proof {
                    lemma_spaces_sum_monotone(
                        repo.group.spaces@,
                        repository_index + 1,
                        repo.group.n(),
                    );
                    lemma_spaces_sum_nonnegative(repo.group.spaces@, repository_index as int);
                }
                let ptr = MemoryWritePtr::new(
                    repo.group.memory_id,
                    repo.group.offsets[repository_index],
                    repo.group.spaces[repository_index],
                );
                ptr.write_data(device, data);
            },
        }
    }
}


impl GsBufferRepository {
    /// Open an upload session. Host-accessible classes are mapped (if not
    /// already) and written directly; the device-local class gets a
    /// transient staging repository sized block for block like this one,
    /// which `finish` will drain and destroy.
    ///
    /// Fails with `Transfer` exactly when the class needs staging and no
    /// memory type on this device can hold a staging buffer.
    pub fn data_uploader(&self, device: &mut GsDevice) -> (r: Result<
        GsBufferDataUploader,
        AllocatorError,
    >)
        requires
            old(device).wf(),
            self.group.wf(*old(device)),
            !old(device).recording,
        ensures
            final(device).wf(),
            self.group.wf(*final(device)),
            final(device).same_config(*old(device)),
            final(device).images@ == old(device).images@,
            final(device).pools@ == old(device).pools@,
            final(device).sets@ == old(device).sets@,
            final(device).recording == false,
            !self.group.storage_type.memory_type().spec_requires_staging() ==> r is Ok && final(device).spec_live_memory_ids() == old(device).spec_live_memory_ids() && final(device).buffers@ == old(device).buffers@ && forall|j: int|
                0 <= j < old(device).memories@.len() ==> (#[trigger] final(device).memories@[j]).data@
                    == old(device).memories@[j].data@,
            self.group.storage_type.memory_type().spec_requires_staging() ==> (r is Ok
                <==> spec_staging_possible(*old(device))),
            r is Err ==> r == Result::<GsBufferDataUploader, AllocatorError>::Err(
                AllocatorError::Transfer,
            ) && final(device).spec_live_memory_ids() == old(device).spec_live_memory_ids(),
            r matches Ok(up) ==> {
                &&& up.wf(*self, *final(device))
                &&& (self.group.storage_type.memory_type().spec_requires_staging() ==> {
                    &&& up.staging matches Some(st)
                    &&& final(device).spec_live_memory_ids() == old(device).spec_live_memory_ids().insert(st.group.memory_id as int)
                    &&& !old(device).spec_live_memory_ids().contains(st.group.memory_id as int)
                    &&& forall|j: int|
                        0 <= j < old(device).memories@.len() ==> (
                        #[trigger] final(device).memories@[j]).data@ == old(device).memories@[j].data@
                })
                &&& (!self.group.storage_type.memory_type().spec_requires_staging()
                    ==> up.staging is None)
            },
    {
        let class = self.group.storage_type.memory_type();
        if !class.requires_staging() {
            proof {
                let f = device.memories@[self.group.memory_id as int].property_flags;
                match class {
                    GsMemoryType::HostMemory => lemma_contains_flags_split(
                        f,
                        MEMORY_PROPERTY_HOST_VISIBLE,
                        MEMORY_PROPERTY_HOST_COHERENT,
                    ),
                    GsMemoryType::CachedMemory => lemma_contains_flags_split(
                        f,
                        MEMORY_PROPERTY_HOST_VISIBLE,
                        crate::policy::MEMORY_PROPERTY_HOST_CACHED,
                    ),
                    GsMemoryType::StagingMemory => lemma_contains_flags_split(
                        f,
                        MEMORY_PROPERTY_HOST_VISIBLE,
                        MEMORY_PROPERTY_HOST_COHERENT,
                    ),
                    GsMemoryType::DeviceMemory => (),
                }
            }
            device.map_memory(self.group.memory_id);
            return Ok(GsBufferDataUploader { staging: None });
        }
        let ghost base = *device;
        let mut stalloc = GsBufferAllocator::new(device, BufferStorageType::Staging);
        let n = self.group.buffer_ids.len();
        let mut k: usize = 0;
        while k < n
            invariant
                k <= n,
                n == self.group.n(),
                base == *old(device),
                device.wf(),
                device.same_config(base),
                device.images@ == base.images@,
                device.memories@ == base.memories@,
                device.pools@ == base.pools@,
                device.sets@ == base.sets@,
                device.recording == base.recording,
                !device.recording,
                self.group.wf(*device),
                self.group.wf(base),
                self.group.storage_type.memory_type().spec_requires_staging(),
                stalloc.wf(*device),
                stalloc.storage_type == BufferStorageType::Staging,
                stalloc.n() == k,
                stalloc.spaces@ == self.group.spaces@.subrange(0, k as int),
                forall|i: int|
                    0 <= i < k ==> (#[trigger] stalloc.descriptors@[i]).size
                        == self.group.spaces@[i],
                forall|i: int|
                    0 <= i < k ==> (#[trigger] stalloc.descriptors@[i]).kind == BufferKind::ImgSrc
                        && stalloc.descriptors@[i].usage == BUFFER_USAGE_TRANSFER_SRC,
                k == 0 ==> stalloc.selector.candidate_bits == 0xffff_ffffu32,
                k >= 1 ==> stalloc.selector.candidate_bits == (0xffff_ffffu32
                    & device.buffer_type_bits) && stalloc.selector.spec_has_suitable()
                    && spec_staging_possible(base),
                forall|b: int|
                    0 <= b < base.buffers@.len() ==> (#[trigger] device.buffers@[b])
                        == base.buffers@[b],
                forall|i: int|
                    0 <= i < k ==> (#[trigger] stalloc.buffer_ids@[i]) == base.buffers@.len() + i,
                device.buffers@.len() == base.buffers@.len() + k,
                device.spec_live_memory_ids() == base.spec_live_memory_ids(),
            decreases n - k,
        {
            let size = self.group.spaces[k];
            proof {
                lemma_spaces_sum_monotone(self.group.spaces@, k + 1, self.group.n());
                lemma_spaces_sum_nonnegative(self.group.spaces@, k as int);
                let b = device.buffers@[self.group.buffer_ids@[k as int] as int];
                assert(self.group.spaces@[k as int] == spec_align_up(
                    b.size as int,
                    device.limits.buffer_alignment as int,
                ));
                crate::types::lemma_align_up(b.size as int, device.limits.buffer_alignment as int);
                lemma_align_up_multiple(size as int, device.limits.buffer_alignment as int);
                crate::memory::lemma_spaces_sum_push(stalloc.spaces@, size, k as int);
                assert(spec_spaces_sum(stalloc.spaces@, k as int) == spec_spaces_sum(
                    self.group.spaces@.subrange(0, k as int),
                    k as int,
                ));
                lemma_spaces_sum_subrange_prefix(self.group.spaces@, k as int);
                assert(spec_spaces_sum(self.group.spaces@, self.group.n()) <= device.memories@[
                    self.group.memory_id as int].size);
            }
            let ghost pre_assign = stalloc;
            let ghost pre_dev = *device;
            let ix = match stalloc.assign_imgsrc(device, GsBufImgsrcInfo::new(size)) {
                Ok(ix) => ix,
                Err(e) => {
                    proof {
                        if k >= 1 {
                            lemma_and_idempotent(0xffff_ffffu32, pre_dev.buffer_type_bits);
                            assert(false);
                        }
                        assert(!pre_assign.selector.spec_would_accept(
                            pre_dev.buffer_type_bits,
                        ));
                        assert(!spec_staging_possible(base));
                        assert forall|i: int| 0 <= i < self.group.n() implies device.buffers@[(
                            #[trigger] self.group.buffer_ids@[i]) as int] == pre_dev.buffers@[
                            self.group.buffer_ids@[i] as int] by {
                            assert(self.group.buffer_ids@[i] < base.buffers@.len());
                        };
                        crate::allocator::lemma_group_wf_preserved(self.group, pre_dev, *device);
                    }
                    return Err(AllocatorError::Transfer);
                },
            };
            proof {
                assert(stalloc.spaces@ =~= self.group.spaces@.subrange(0, k + 1));
                if k >= 1 {
                    lemma_and_idempotent(0xffff_ffffu32, pre_dev.buffer_type_bits);
                }
                assert forall|i: int| 0 <= i < self.group.n() implies device.buffers@[(
                    #[trigger] self.group.buffer_ids@[i]) as int] == pre_dev.buffers@[
                    self.group.buffer_ids@[i] as int] by {
                    assert(self.group.buffer_ids@[i] < base.buffers@.len());
                };
                crate::allocator::lemma_group_wf_preserved(self.group, pre_dev, *device);
            }
            k = k + 1;
        }
        let ghost pre_alloc_dev = *device;
        let ghost st_ids = stalloc.buffer_ids@;
        let ghost stalloc_snap = stalloc;
        proof {
            lemma_spaces_sum_subrange_prefix_full(self.group.spaces@, stalloc.spaces@);
            assert(spec_spaces_sum(stalloc.spaces@, stalloc.n()) == spec_spaces_sum(
                self.group.spaces@,
                self.group.n(),
            ));
        }
        let dist = match stalloc.allocate(device) {
            Ok(d) => d,
            Err(e) => {
                proof {
                    assert(false);
                }
                return Err(AllocatorError::Transfer);
            },
        };
        let st = dist.into_repository();
        proof {
            let f = device.memories@[st.group.memory_id as int].property_flags;
            lemma_contains_flags_split(
                f,
                MEMORY_PROPERTY_HOST_VISIBLE,
                MEMORY_PROPERTY_HOST_COHERENT,
            );
        }
        let ghost pre_map_dev = *device;
        device.map_memory(st.group.memory_id);
        proof {
            assert(st.group.wf(*device)) by {
                crate::allocator::lemma_group_wf_preserved(st.group, pre_map_dev, *device);
            };
            assert(self.group.wf(*device)) by {
                assert forall|i: int| 0 <= i < self.group.n() implies device.buffers@[(
                    #[trigger] self.group.buffer_ids@[i]) as int] == pre_alloc_dev.buffers@[
                    self.group.buffer_ids@[i] as int] by {
                    assert(self.group.buffer_ids@[i] < base.buffers@.len());
                    assert(!spec_in_prefix(st_ids, st_ids.len() as int, self.group.buffer_ids@[
                        i] as int)) by {
                        if spec_in_prefix(st_ids, st_ids.len() as int, self.group.buffer_ids@[
                            i] as int) {
                            let j = choose|j: int|
                                0 <= j < st_ids.len() && st_ids[j] == self.group.buffer_ids@[i];
                            assert(st_ids[j] == base.buffers@.len() + j);
                        }
                    };
                };
                assert forall|b: int|
                    0 <= b < device.buffers@.len() implies ((b < pre_alloc_dev.buffers@.len()
                    && #[trigger] device.buffers@[b] == pre_alloc_dev.buffers@[b]) || !(
                    device.buffers@[b].live && (device.buffers@[b].bound matches Some((m, _)) && m
                        == self.group.memory_id))) by {
                    if spec_in_prefix(st_ids, st_ids.len() as int, b) {
                        let j = choose|j: int| 0 <= j < st_ids.len() && st_ids[j] == b;
                        assert(device.buffers@[(#[trigger] st.group.buffer_ids@[j]) as int].bound
                            == Some((st.group.memory_id, st.group.offsets@[j])));
                        assert(st.group.memory_id != self.group.memory_id);
                    }
                };
                crate::allocator::lemma_group_wf_preserved(self.group, pre_alloc_dev, *device);
            };
        }
        Ok(GsBufferDataUploader { staging: Some(st) })
    }
}

/// The sum over a prefix subrange equals the sum over the prefix.
pub proof fn lemma_spaces_sum_subrange_prefix(spaces: Seq<vkbytes>, k: int)
    requires
        0 <= k <= spaces.len(),
    ensures
        spec_spaces_sum(spaces.subrange(0, k), k) == spec_spaces_sum(spaces, k),
    decreases k,
{
    if k > 0 {
        lemma_spaces_sum_subrange_prefix(spaces, k - 1);
        assert(spaces.subrange(0, k - 1) =~= spaces.subrange(0, k).subrange(0, k - 1));
        lemma_spaces_sum_subrange_eq(spaces.subrange(0, k), spaces.subrange(0, k - 1), k - 1);
    }
}

/// Two sequences equal on a prefix have the same prefix sums there.
pub proof fn lemma_spaces_sum_subrange_eq(a: Seq<vkbytes>, b: Seq<vkbytes>, k: int)
    requires
        0 <= k <= a.len(),
        k <= b.len(),
        forall|i: int| 0 <= i < k ==> a[i] == b[i],
    ensures
        spec_spaces_sum(a, k) == spec_spaces_sum(b, k),
    decreases k,
{
    if k > 0 {
        lemma_spaces_sum_subrange_eq(a, b, k - 1);
    }
}

/// A full-length copy of the spaces list has the same total.
pub proof fn lemma_spaces_sum_subrange_prefix_full(spaces: Seq<vkbytes>, copied: Seq<vkbytes>)
    requires
        copied == spaces.subrange(0, spaces.len() as int),
    ensures
        spec_spaces_sum(copied, copied.len() as int) == spec_spaces_sum(
            spaces,
            spaces.len() as int,
        ),
{
    assert(copied =~= spaces.subrange(0, spaces.len() as int));
    lemma_spaces_sum_subrange_prefix(spaces, spaces.len() as int);
}


impl GsBufferDataUploader {
    /// Commit the session. Host-accessible classes flush by unmapping
    /// (the persistently mapped class stays mapped). For the device-local
    /// class this records, in one one-shot command stream, a copy per
    /// resource from its staging slot into its device block, submits,
    /// blocks until the device is done, and destroys the staging
    /// repository — leaving no staging allocation reachable.
    pub fn finish(self, repo: &GsBufferRepository, device: &mut GsDevice)
        requires
            old(device).wf(),
            self.wf(*repo, *old(device)),
            !old(device).recording,
        ensures
            final(device).wf(),
            repo.group.wf(*final(device)),
            final(device).same_config(*old(device)),
            final(device).images@ == old(device).images@,
            final(device).pools@ == old(device).pools@,
            final(device).sets@ == old(device).sets@,
            final(device).recording == false,
            final(device).buffers@.len() == old(device).buffers@.len(),
            final(device).memories@.len() == old(device).memories@.len(),
            self.staging is None ==> {
                &&& final(device).spec_live_memory_ids() == old(device).spec_live_memory_ids()
                &&& final(device).buffers@ == old(device).buffers@
                &&& forall|j: int|
                    0 <= j < old(device).memories@.len() ==> (
                    #[trigger] final(device).memories@[j]).data@ == old(device).memories@[j].data@
                &&& final(device).memories@[repo.group.memory_id as int].mapped
                    == repo.group.storage_type.memory_type().spec_is_persistently_mapped()
            },
            self.staging matches Some(st) ==> {
                &&& final(device).spec_live_memory_ids() == old(
                    device,
                ).spec_live_memory_ids().remove(st.group.memory_id as int)
                &&& !final(device).memories@[st.group.memory_id as int].live
                &&& forall|j: int|
                    0 <= j < old(device).memories@.len() && j != st.group.memory_id && j
                        != repo.group.memory_id ==> (#[trigger] final(device).memories@[j]).data@
                        == old(device).memories@[j].data@
                &&& forall|i: int|
                    0 <= i < repo.group.n() ==> final(device).memories@[repo.group.memory_id
                        as int].data@.subrange(
                        #[trigger] repo.group.offsets@[i] as int,
                        repo.group.offsets@[i] + repo.group.descriptors@[i].size,
                    ) == old(device).memories@[st.group.memory_id as int].data@.subrange(
                        st.group.offsets@[i] as int,
                        st.group.offsets@[i] + repo.group.descriptors@[i].size,
                    )
            },
    {
        match self.staging {
            None => {
                if !repo.group.storage_type.memory_type().is_persistently_mapped() {
                    device.unmap_memory(repo.group.memory_id);
                }
            },
            Some(st) => {
                device.begin_transfer();
                let ghost entry = *device;
                let n = repo.group.buffer_ids.len();
                let mut k: usize = 0;
                while k < n
                    invariant
                        k <= n,
                        n == repo.group.n(),
                        entry.wf(),
                        device.wf(),
                        device.same_config(entry),
                        device.buffers@ == entry.buffers@,
                        device.images@ == entry.images@,
                        device.pools@ == entry.pools@,
                        device.sets@ == entry.sets@,
                        device.recording,
                        device.calls@ == entry.calls@,
                        device.memories@.len() == entry.memories@.len(),
                        repo.group.wf(entry),
                        repo.group.wf(*device),
                        st.group.wf(entry),
                        st.group.wf(*device),
                        st.group.n() == repo.group.n(),
                        st.group.memory_id != repo.group.memory_id,
                        st.group.storage_type == BufferStorageType::Staging,
                        repo.group.storage_type.memory_type() == GsMemoryType::DeviceMemory,
                        forall|i: int|
                            0 <= i < st.group.n() ==> (#[trigger] st.group.descriptors@[i]).size
                                == repo.group.spaces@[i] && st.group.descriptors@[i].usage
                                == BUFFER_USAGE_TRANSFER_SRC,
                        forall|j: int|
                            0 <= j < entry.memories@.len() && j != repo.group.memory_id ==> (
                            #[trigger] device.memories@[j]) == entry.memories@[j],
                        device.memories@[repo.group.memory_id as int] == (MemoryObj {
                            data: device.memories@[repo.group.memory_id as int].data,
                            ..entry.memories@[repo.group.memory_id as int]
                        }),
                        forall|i: int|
                            0 <= i < k ==> device.memories@[repo.group.memory_id
                                as int].data@.subrange(
                                #[trigger] repo.group.offsets@[i] as int,
                                repo.group.offsets@[i] + repo.group.descriptors@[i].size,
                            ) == entry.memories@[st.group.memory_id as int].data@.subrange(
                                st.group.offsets@[i] as int,
                                st.group.offsets@[i] + repo.group.descriptors@[i].size,
                            ),
                    decreases n - k,
                {
                    let src = st.group.buffer_ids[k];
                    let dst = repo.group.buffer_ids[k];
                    let size = device.buffers[dst].size;
                    proof {
                        let i = k as int;
                        let sb = device.buffers@[st.group.buffer_ids@[i] as int];
                        let db = device.buffers@[repo.group.buffer_ids@[i] as int];
                        assert(sb.usage == GsMemoryType::StagingMemory.spec_complement_usage(
                            st.group.descriptors@[i].usage,
                        ));
                        lemma_or_contains(
                            st.group.descriptors@[i].usage,
                            BUFFER_USAGE_TRANSFER_SRC,
                        );
                        assert(db.usage
                            == repo.group.storage_type.memory_type().spec_complement_usage(
                            repo.group.descriptors@[i].usage,
                        ));
                        lemma_or_contains(
                            repo.group.descriptors@[i].usage,
                            BUFFER_USAGE_TRANSFER_DST,
                        );
                        assert(db.size == repo.group.descriptors@[i].size);
                        assert(sb.size == st.group.descriptors@[i].size);
                        assert(db.size <= repo.group.spaces@[i]);
                    }
                    let ghost pre = *device;
                    device.cmd_copy_buffer_to_buffer(src, 0, dst, 0, size);
                    proof {
                        let i = k as int;
                        let dm = repo.group.memory_id as int;
                        let sm = st.group.memory_id as int;
                        let doff = repo.group.offsets@[i] as int;
                        let soff = st.group.offsets@[i] as int;
                        let dsize = repo.group.descriptors@[i].size as int;
                        let moved = pre.memories@[sm].data@.subrange(soff, soff + dsize);
                        lemma_overwrite_reads_back(pre.memories@[dm].data@, doff, moved);
                        assert(device.memories@[dm].data@.subrange(doff, doff + dsize) == moved);
                        assert forall|i2: int| 0 <= i2 < k implies device.memories@[dm
                            ].data@.subrange(
                            #[trigger] repo.group.offsets@[i2] as int,
                            repo.group.offsets@[i2] + repo.group.descriptors@[i2].size,
                        ) == entry.memories@[sm].data@.subrange(
                            st.group.offsets@[i2] as int,
                            st.group.offsets@[i2] + repo.group.descriptors@[i2].size,
                        ) by {
                            lemma_spaces_sum_monotone(repo.group.spaces@, i2 + 1, i);
                            lemma_spaces_sum_nonnegative(repo.group.spaces@, i2);
                            let b2 = device.buffers@[(
                            #[trigger] repo.group.buffer_ids@[i2]) as int];
                            assert(b2.size == repo.group.descriptors@[i2].size && b2.size
                                <= repo.group.spaces@[i2]);
                            assert(repo.group.offsets@[i2] + repo.group.descriptors@[i2].size
                                <= repo.group.offsets@[i2] + repo.group.spaces@[i2]);
                            lemma_overwrite_elsewhere(
                                pre.memories@[dm].data@,
                                doff,
                                moved,
                                repo.group.offsets@[i2] as int,
                                repo.group.offsets@[i2] + repo.group.descriptors@[i2].size,
                            );
                        };
                    }
                    k = k + 1;
                }
                device.submit_transfer();
                let ghost pre_release = *device;
                proof {
                    assert forall|i: int, j: int|
                        0 <= i < repo.group.n() && 0 <= j < st.group.n() implies (
                    #[trigger] repo.group.buffer_ids@[i]) != (
                    #[trigger] st.group.buffer_ids@[j]) by {
                        if repo.group.buffer_ids@[i] == st.group.buffer_ids@[j] {
                            let b = device.buffers@[repo.group.buffer_ids@[i] as int];
                            assert(b.bound == Some(
                                (repo.group.memory_id, repo.group.offsets@[i]),
                            ));
                            assert(b.bound == Some((st.group.memory_id, st.group.offsets@[j])));
                        }
                    };
                }
                st.release(device);
                proof {
                    assert forall|i: int|
                        0 <= i < repo.group.n() implies device.buffers@[(
                        #[trigger] repo.group.buffer_ids@[i]) as int] == pre_release.buffers@[
                        repo.group.buffer_ids@[i] as int] by {
                        assert(!spec_in_prefix(
                            st.group.buffer_ids@,
                            st.group.n(),
                            repo.group.buffer_ids@[i] as int,
                        )) by {
                            if spec_in_prefix(
                                st.group.buffer_ids@,
                                st.group.n(),
                                repo.group.buffer_ids@[i] as int,
                            ) {
                                let j = choose|j: int|
                                    0 <= j < st.group.n() && st.group.buffer_ids@[j]
                                        == repo.group.buffer_ids@[i];
                            }
                        };
                    };
                    assert forall|b: int|
                        0 <= b < device.buffers@.len() implies ((b
                        < pre_release.buffers@.len() && #[trigger] device.buffers@[b]
                        == pre_release.buffers@[b]) || !(device.buffers@[b].live && (
                        device.buffers@[b].bound matches Some((m, _)) && m
                            == repo.group.memory_id))) by {
                        if spec_in_prefix(st.group.buffer_ids@, st.group.n(), b) {
                            let j = choose|j: int|
                                0 <= j < st.group.n() && st.group.buffer_ids@[j] == b;
                            assert(!device.buffers@[(
                            #[trigger] st.group.buffer_ids@[j]) as int].live);
                        }
                    };
                    crate::allocator::lemma_group_wf_preserved(
                        repo.group,
                        pre_release,
                        *device,
                    );
                }
            },
        }
    }
}

/// An update session for a repository of a class that stays
/// host-accessible after allocation: plain overwrites through the mapped
/// block, no staging and no image machinery.
///
/// `finish` takes the session by value: it commits exactly once.
pub struct GsBufferDataUpdater {
}

impl GsBufferDataUpdater {
    pub open spec fn wf(self, repo: GsBufferRepository, d: GsDevice) -> bool {
        &&& repo.group.wf(d)
        &&& repo.group.storage_type.memory_type().spec_supports_update()
        &&& d.memories@[repo.group.memory_id as int].mapped
    }

    /// Overwrite one resource's bytes through the mapped block.
    pub fn update(
        &mut self,
        repo: &GsBufferRepository,
        device: &mut GsDevice,
        repository_index: usize,
        data: &Vec<u8>,
    )
        requires
            old(device).wf(),
            old(self).wf(*repo, *old(device)),
            repository_index < repo.group.n(),
            data@.len() <= repo.group.spaces@[repository_index as int],
        ensures
            final(device).wf(),
            final(self).wf(*repo, *final(device)),
            final(device).same_config(*old(device)),
            final(device).buffers@ == old(device).buffers@,
            final(device).images@ == old(device).images@,
            final(device).pools@ == old(device).pools@,
            final(device).sets@ == old(device).sets@,
            final(device).recording == old(device).recording,
            final(device).calls@ == old(device).calls@,
            final(device).memories@.len() == old(device).memories@.len(),
            final(device).spec_live_memory_ids() == old(device).spec_live_memory_ids(),
            forall|j: int|
                0 <= j < old(device).memories@.len() && j != repo.group.memory_id ==> (
                #[trigger] final(device).memories@[j]) == old(device).memories@[j],
            final(device).memories@[repo.group.memory_id as int] == (MemoryObj {
                data: final(device).memories@[repo.group.memory_id as int].data,
                ..old(device).memories@[repo.group.memory_id as int]
            }),
            final(device).memories@[repo.group.memory_id as int].data@ == spec_overwrite(
                old(device).memories@[repo.group.memory_id as int].data@,
                repo.group.offsets@[repository_index as int] as int,
                data@,
            ),
    {
        proof {
            lemma_spaces_sum_monotone(repo.group.spaces@, repository_index + 1, repo.group.n());
            lemma_spaces_sum_nonnegative(repo.group.spaces@, repository_index as int);
        }
        let ptr = MemoryWritePtr::new(
            repo.group.memory_id,
            repo.group.offsets[repository_index],
            repo.group.spaces[repository_index],
        );
        ptr.write_data(device, data);
    }

    /// Commit the session; memory of a class that is not persistently
    /// mapped is unmapped again.
    pub fn finish(self, repo: &GsBufferRepository, device: &mut GsDevice)
        requires
            old(device).wf(),
            self.wf(*repo, *old(device)),
        ensures
            final(device).wf(),
            repo.group.wf(*final(device)),
            final(device).same_config(*old(device)),
            final(device).buffers@ == old(device).buffers@,
            final(device).images@ == old(device).images@,
            final(device).pools@ == old(device).pools@,
            final(device).sets@ == old(device).sets@,
            final(device).recording == old(device).recording,
            final(device).spec_live_memory_ids() == old(device).spec_live_memory_ids(),
            final(device).memories@.len() == old(device).memories@.len(),
            forall|j: int|
                0 <= j < old(device).memories@.len() ==> (
                #[trigger] final(device).memories@[j]).data@ == old(device).memories@[j].data@,
            final(device).memories@[repo.group.memory_id as int].mapped
                == repo.group.storage_type.memory_type().spec_is_persistently_mapped(),
    {
        if !repo.group.storage_type.memory_type().is_persistently_mapped() {
            device.unmap_memory(repo.group.memory_id);
        }
    }
}

impl GsBufferRepository {
    /// Open an update session. Only the classes that remain
    /// host-accessible after allocation accept one; asking on any other
    /// class fails with `MemoryUnableToUpdate` and changes nothing.
    pub fn data_updater(&self, device: &mut GsDevice) -> (r: Result<
        GsBufferDataUpdater,
        AllocatorError,
    >)
        requires
            old(device).wf(),
            self.group.wf(*old(device)),
        ensures
            final(device).wf(),
            self.group.wf(*final(device)),
            final(device).same_config(*old(device)),
            final(device).buffers@ == old(device).buffers@,
            final(device).images@ == old(device).images@,
            final(device).pools@ == old(device).pools@,
            final(device).sets@ == old(device).sets@,
            final(device).recording == old(device).recording,
            final(device).spec_live_memory_ids() == old(device).spec_live_memory_ids(),
            final(device).memories@.len() == old(device).memories@.len(),
            forall|j: int|
                0 <= j < old(device).memories@.len() ==> (
                #[trigger] final(device).memories@[j]).data@ == old(device).memories@[j].data@,
            r is Ok <==> self.group.storage_type.memory_type().spec_supports_update(),
            r is Err ==> r == Result::<GsBufferDataUpdater, AllocatorError>::Err(
                AllocatorError::MemoryUnableToUpdate,
            ) && *final(device) == *old(device),
            r matches Ok(up) ==> up.wf(*self, *final(device)),
    {
        let class = self.group.storage_type.memory_type();
        if !class.supports_update() {
            return Err(AllocatorError::MemoryUnableToUpdate);
        }
        proof {
            let f = device.memories@[self.group.memory_id as int].property_flags;
            match class {
                GsMemoryType::HostMemory => lemma_contains_flags_split(
                    f,
                    MEMORY_PROPERTY_HOST_VISIBLE,
                    MEMORY_PROPERTY_HOST_COHERENT,
                ),
                GsMemoryType::StagingMemory => lemma_contains_flags_split(
                    f,
                    MEMORY_PROPERTY_HOST_VISIBLE,
                    MEMORY_PROPERTY_HOST_COHERENT,
                ),
                GsMemoryType::CachedMemory => (),
                GsMemoryType::DeviceMemory => (),
            }
        }
        device.map_memory(self.group.memory_id);
        Ok(GsBufferDataUpdater {  })
    }
}

} // verus!
