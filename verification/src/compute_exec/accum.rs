//! The binds that a dispatch runs with.

use vstd::prelude::*;
use crate::compute_exec::command::{BufferBinding, RefBinding, SamplerBinding};

verus! {

/// Exclusive cap on buffer slots.
pub const MAX_COMPUTE_BUFFER_SLOTS: u32 = 31;
/// Exclusive cap on texture stream indices; the binding is 32 + index.
pub const MAX_COMPUTE_TEXTURE_SLOTS: u32 = 31;
/// Exclusive cap on sampler stream indices; the binding is 64 + index.
pub const MAX_COMPUTE_SAMPLER_SLOTS: u32 = 16;
/// Exclusive cap on threadgroup-memory indices.
pub const MAX_THREADGROUP_MEMORY_SLOTS: u32 = 16;

#[derive(Clone, Copy, Debug, PartialEq, Eq, Structural)]
pub struct ComputeBufferBind {
    pub index: u32,
    pub buffer_ref: u32,
    pub offset: u64,
    pub attribute_stride: u64,
    pub has_attribute_stride: bool,
}

#[derive(Clone, Copy, Debug, PartialEq, Eq, Structural)]
pub struct ComputeTextureBind {
    pub index: u32,
    pub texture_ref: u32,
}

#[derive(Clone, Copy, Debug, PartialEq, Eq, Structural)]
pub struct ComputeSamplerBind {
    pub index: u32,
    pub sampler_ref: u32,
    pub lod_min_bits: u32,
    pub lod_max_bits: u32,
    pub has_lod_clamp: bool,
}

#[derive(Clone, Copy, Debug, PartialEq, Eq, Structural)]
pub struct ThreadgroupMemoryBind {
    pub index: u32,
    pub length: u64,
}

#[derive(Clone, Copy, Debug, PartialEq, Eq, Structural)]
pub struct StageInRegion {
    pub origin_x: u64,
    pub origin_y: u64,
    pub origin_z: u64,
    pub size_x: u64,
    pub size_y: u64,
    pub size_z: u64,
}

#[derive(Clone, Copy, Debug, PartialEq, Eq, Structural)]
pub struct StageInRegionIndirect {
    pub buffer_ref: u32,
    pub buffer_offset: u64,
}

#[derive(Clone, Copy, Debug, PartialEq, Eq, Structural)]
pub struct ImageblockDimensions {
    pub width: u32,
    pub height: u32,
}

/// The binds in force.
#[derive(Clone, Debug, PartialEq, Eq)]
pub struct ComputeAccum {
    pub pipeline_ref: u32,
    pub buffers: Vec<ComputeBufferBind>,
    pub textures: Vec<ComputeTextureBind>,
    pub samplers: Vec<ComputeSamplerBind>,
    pub threadgroup_memory: Vec<ThreadgroupMemoryBind>,
    /// The last direct stage-in region; an indirect one clears it.
    pub stage_in_region: Option<StageInRegion>,
    /// The last indirect stage-in region; a direct one clears it.
    pub stage_in_region_indirect: Option<StageInRegionIndirect>,
    pub imageblock: Option<ImageblockDimensions>,
    /// Serial (0) or concurrent.
    pub dispatch_type: u32,
}

/// A bind that belongs to a slot.
pub trait Slotted: Sized {
    spec fn slot_index(&self) -> u32;

    fn slot(&self) -> (index: u32)
        ensures
            index == self.slot_index(),
    ;
}

impl Slotted for ComputeBufferBind {
    open spec fn slot_index(&self) -> u32 {
        self.index
    }

    fn slot(&self) -> (index: u32) {
        self.index
    }
}

impl Slotted for ComputeTextureBind {
    open spec fn slot_index(&self) -> u32 {
        self.index
    }

    fn slot(&self) -> (index: u32) {
        self.index
    }
}

impl Slotted for ComputeSamplerBind {
    open spec fn slot_index(&self) -> u32 {
        self.index
    }

    fn slot(&self) -> (index: u32) {
        self.index
    }
}

impl Slotted for ThreadgroupMemoryBind {
    open spec fn slot_index(&self) -> u32 {
        self.index
    }

    fn slot(&self) -> (index: u32) {
        self.index
    }
}

/// The position of the first bind of a slot.
pub open spec fn position<T: Slotted>(binds: Seq<T>, index: u32) -> Option<int>
    decreases binds.len(),
{
    if binds.len() == 0 {
        None
    } else {
        match position(binds.drop_last(), index) {
            Some(i) => Some(i),
            None => if binds.last().slot_index() == index {
                Some(binds.len() - 1)
            } else {
                None
            },
        }
    }
}

/// The binds with one more: it takes the place of the bind of its slot, or goes last.
pub open spec fn placed<T: Slotted>(binds: Seq<T>, bind: T) -> Seq<T> {
    match position(binds, bind.slot_index()) {
        Some(i) => binds.update(i, bind),
        None => binds.push(bind),
    }
}

/// The slots of a bind list are distinct and below a cap.
pub open spec fn slots_ok<T: Slotted>(binds: Seq<T>, cap: u32) -> bool {
    &&& forall|i: int| 0 <= i < binds.len() ==> (#[trigger] binds[i]).slot_index() < cap
    &&& forall|i: int, j: int|
        0 <= i < j < binds.len() ==> (#[trigger] binds[i]).slot_index() != (
        #[trigger] binds[j]).slot_index()
}

pub proof fn lemma_position<T: Slotted>(binds: Seq<T>, index: u32)
    ensures
        match position(binds, index) {
            Some(i) => 0 <= i < binds.len() && binds[i].slot_index() == index && forall|k: int|
                0 <= k < i ==> (#[trigger] binds[k]).slot_index() != index,
            None => forall|k: int|
                0 <= k < binds.len() ==> (#[trigger] binds[k]).slot_index() != index,
        },
    decreases binds.len(),
{
    if binds.len() > 0 {
        lemma_position(binds.drop_last(), index);
        assert forall|k: int| 0 <= k < binds.len() - 1 implies binds[k]
            == binds.drop_last()[k] by {}
    }
}

/// Placing a bind within the cap keeps one bind per slot, within the cap.
pub proof fn law_placing_keeps_slots<T: Slotted>(binds: Seq<T>, bind: T, cap: u32)
    requires
        slots_ok(binds, cap),
        bind.slot_index() < cap,
    ensures
        slots_ok(placed(binds, bind), cap),
{
    lemma_position(binds, bind.slot_index());
}

/// The bind of a slot.
pub open spec fn bind_at<T: Slotted>(binds: Seq<T>, index: u32) -> Option<T> {
    match position(binds, index) {
        Some(i) => Some(binds[i]),
        None => None,
    }
}

/// The last bind of a slot is the one in force, and it leaves the other slots alone.
pub proof fn law_last_bind_wins<T: Slotted>(binds: Seq<T>, bind: T, other: u32)
    ensures
        bind_at(placed(binds, bind), bind.slot_index()) == Some(bind),
        other != bind.slot_index() ==> bind_at(placed(binds, bind), other) == bind_at(
            binds,
            other,
        ),
{
    let after = placed(binds, bind);
    lemma_position(binds, bind.slot_index());
    lemma_position(after, bind.slot_index());
    lemma_position(binds, other);
    lemma_position(after, other);
    match position(binds, bind.slot_index()) {
        Some(i) => {
            assert(after[i] == bind);
            assert forall|k: int| 0 <= k < binds.len() && k != i implies after[k] == binds[k] by {
            }
            let p = position(after, bind.slot_index())->0;
            if p != i {
                assert(after[p] == binds[p]);
                assert(p < i ==> binds[p].slot_index() != bind.slot_index());
                assert(i < p ==> after[i].slot_index() != bind.slot_index());
            }
        },
        None => {
            assert(after[binds.len() as int] == bind);
            assert forall|k: int| 0 <= k < binds.len() implies after[k] == binds[k] by {
            }
            let p = position(after, bind.slot_index())->0;
            if p < binds.len() {
                assert(after[p] == binds[p]);
            }
        },
    }
    if other != bind.slot_index() {
        match (position(binds, other), position(after, other)) {
            (Some(a), Some(b)) => {
                assert(after[a].slot_index() == other);
                if b < binds.len() {
                    assert(binds[b].slot_index() == after[b].slot_index() || after[b] == bind);
                }
                if a < b {
                    assert(after[a].slot_index() != other);
                }
                if b < a {
                    assert(binds[b].slot_index() != other);
                }
            },
            (Some(a), None) => {
                assert(after[a].slot_index() == other);
            },
            (None, Some(b)) => {
                assert(after[b].slot_index() == other);
                if b < binds.len() {
                    assert(binds[b].slot_index() != other);
                }
            },
            (None, None) => {},
        }
    }
}

fn find_slot<T: Slotted>(binds: &Vec<T>, index: u32) -> (found: Option<usize>)
    ensures
        match found {
            Some(i) => position(binds@, index) == Some(i as int) && i < binds.len(),
            None => position(binds@, index) is None,
        },
{
    let mut i: usize = 0;
    while i < binds.len()
        invariant
            i <= binds.len(),
            forall|k: int| 0 <= k < i ==> (#[trigger] binds[k]).slot_index() != index,
        decreases binds.len() - i,
    {
        if binds[i].slot() == index {
            proof {
                lemma_position(binds@, index);
            }
            return Some(i);
        }
        i = i + 1;
    }
    proof {
        lemma_position(binds@, index);
    }
    None
}

fn place<T: Slotted>(binds: &mut Vec<T>, bind: T)
    ensures
        final(binds)@ == placed(old(binds)@, bind),
{
    match find_slot(binds, bind.slot()) {
        Some(i) => {
            binds.set(i, bind);
        },
        None => {
            binds.push(bind);
        },
    }
}

/// The slot of entry `i` of a bind list that starts at `first`.
pub open spec fn entry_slot(first: u32, i: int) -> u32 {
    if first + (i as u32) > u32::MAX {
        u32::MAX
    } else {
        (first + (i as u32)) as u32
    }
}

/// The buffers after the first `n` entries: an empty reference leaves its slot
/// alone, a slot at or past the cap is dropped.
pub open spec fn buffers_bound(
    buffers: Seq<ComputeBufferBind>,
    first: u32,
    entries: Seq<BufferBinding>,
    n: int,
) -> Seq<ComputeBufferBind>
    decreases n,
{
    if n <= 0 {
        buffers
    } else {
        let before = buffers_bound(buffers, first, entries, n - 1);
        let e = entries[n - 1];
        let index = entry_slot(first, n - 1);
        if e.ref_ == 0 || index >= MAX_COMPUTE_BUFFER_SLOTS {
            before
        } else {
            placed(
                before,
                ComputeBufferBind {
                    index,
                    buffer_ref: e.ref_,
                    offset: e.offset,
                    attribute_stride: e.attribute_stride,
                    has_attribute_stride: e.has_attribute_stride,
                },
            )
        }
    }
}

/// The textures after the first `n` entries.
pub open spec fn textures_bound(
    textures: Seq<ComputeTextureBind>,
    first: u32,
    entries: Seq<RefBinding>,
    n: int,
) -> Seq<ComputeTextureBind>
    decreases n,
{
    if n <= 0 {
        textures
    } else {
        let before = textures_bound(textures, first, entries, n - 1);
        let e = entries[n - 1];
        let index = entry_slot(first, n - 1);
        if e.ref_ == 0 || index >= MAX_COMPUTE_TEXTURE_SLOTS {
            before
        } else {
            placed(before, ComputeTextureBind { index, texture_ref: e.ref_ })
        }
    }
}

/// The samplers after the first `n` entries.
pub open spec fn samplers_bound(
    samplers: Seq<ComputeSamplerBind>,
    first: u32,
    entries: Seq<SamplerBinding>,
    n: int,
) -> Seq<ComputeSamplerBind>
    decreases n,
{
    if n <= 0 {
        samplers
    } else {
        let before = samplers_bound(samplers, first, entries, n - 1);
        let e = entries[n - 1];
        let index = entry_slot(first, n - 1);
        if e.ref_ == 0 || index >= MAX_COMPUTE_SAMPLER_SLOTS {
            before
        } else {
            placed(
                before,
                ComputeSamplerBind {
                    index,
                    sampler_ref: e.ref_,
                    lod_min_bits: e.lod_min_bits,
                    lod_max_bits: e.lod_max_bits,
                    has_lod_clamp: e.has_lod_clamp,
                },
            )
        }
    }
}

/// The real binds among the first `n` that no slot can hold, as index and reference.
pub open spec fn overflowing(first: u32, refs: Seq<u32>, cap: u32, n: int) -> Seq<(u32, u32)>
    decreases n,
{
    if n <= 0 {
        Seq::empty()
    } else {
        let before = overflowing(first, refs, cap, n - 1);
        if refs[n - 1] != 0 && entry_slot(first, n - 1) >= cap {
            before.push((entry_slot(first, n - 1), refs[n - 1]))
        } else {
            before
        }
    }
}

/// Tell which real binds of a list are dropped because their slots are past the cap:
/// a dispatch runs without them.
pub fn overflowing_binds(first: u32, refs: &[u32], cap: u32) -> (dropped: Vec<(u32, u32)>)
    ensures
        dropped@ == overflowing(first, refs@, cap, refs.len() as int),
{
    let mut dropped: Vec<(u32, u32)> = Vec::new();
    assert(dropped@ =~= Seq::<(u32, u32)>::empty());
    let mut i: usize = 0;
    while i < refs.len()
        invariant
            i <= refs.len(),
            dropped@ == overflowing(first, refs@, cap, i as int),
        decreases refs.len() - i,
    {
        let index: u32 = first.saturating_add(#[verifier::truncate] (i as u32));
        if refs[i] != 0 && index >= cap {
            dropped.push((index, refs[i]));
        }
        i = i + 1;
    }
    dropped
}

/// The binds as values.
pub struct AccumView {
    pub pipeline_ref: u32,
    pub buffers: Seq<ComputeBufferBind>,
    pub textures: Seq<ComputeTextureBind>,
    pub samplers: Seq<ComputeSamplerBind>,
    pub threadgroup_memory: Seq<ThreadgroupMemoryBind>,
    pub stage_in_region: Option<StageInRegion>,
    pub stage_in_region_indirect: Option<StageInRegionIndirect>,
    pub imageblock: Option<ImageblockDimensions>,
    pub dispatch_type: u32,
}

impl View for ComputeAccum {
    type V = AccumView;

    open spec fn view(&self) -> AccumView {
        AccumView {
            pipeline_ref: self.pipeline_ref,
            buffers: self.buffers@,
            textures: self.textures@,
            samplers: self.samplers@,
            threadgroup_memory: self.threadgroup_memory@,
            stage_in_region: self.stage_in_region,
            stage_in_region_indirect: self.stage_in_region_indirect,
            imageblock: self.imageblock,
            dispatch_type: self.dispatch_type,
        }
    }
}

/// No binds at all.
pub open spec fn empty_accum() -> AccumView {
    AccumView {
        pipeline_ref: 0,
        buffers: Seq::empty(),
        textures: Seq::empty(),
        samplers: Seq::empty(),
        threadgroup_memory: Seq::empty(),
        stage_in_region: None,
        stage_in_region_indirect: None,
        imageblock: None,
        dispatch_type: 0,
    }
}

impl Default for ComputeAccum {
    fn default() -> (acc: ComputeAccum)
        ensures
            acc@ == empty_accum(),
    {
        let acc = ComputeAccum {
            pipeline_ref: 0,
            buffers: Vec::new(),
            textures: Vec::new(),
            samplers: Vec::new(),
            threadgroup_memory: Vec::new(),
            stage_in_region: None,
            stage_in_region_indirect: None,
            imageblock: None,
            dispatch_type: 0,
        };
        assert(acc@.buffers =~= Seq::<ComputeBufferBind>::empty());
        assert(acc@.textures =~= Seq::<ComputeTextureBind>::empty());
        assert(acc@.samplers =~= Seq::<ComputeSamplerBind>::empty());
        assert(acc@.threadgroup_memory =~= Seq::<ThreadgroupMemoryBind>::empty());
        acc
    }
}

impl ComputeAccum {
    /// One bind per slot, within the caps.
    pub open spec fn slots_in_order(&self) -> bool {
        &&& slots_ok(self.buffers@, MAX_COMPUTE_BUFFER_SLOTS)
        &&& slots_ok(self.textures@, MAX_COMPUTE_TEXTURE_SLOTS)
        &&& slots_ok(self.samplers@, MAX_COMPUTE_SAMPLER_SLOTS)
        &&& slots_ok(self.threadgroup_memory@, MAX_THREADGROUP_MEMORY_SLOTS)
    }

    /// Set the pipeline; an empty reference changes nothing.
    pub fn set_pipeline(&mut self, pipeline_ref: u32)
        ensures
            final(self)@ == (AccumView {
                pipeline_ref: if pipeline_ref != 0 {
                    pipeline_ref
                } else {
                    old(self).pipeline_ref
                },
                ..old(self)@
            }),
    {
        if pipeline_ref != 0 {
            self.pipeline_ref = pipeline_ref;
        }
    }

    /// Bind buffers from slot `first` on. A bind that no slot can hold is dropped.
    pub fn bind_buffers(&mut self, first: u32, entries: &[BufferBinding])
        ensures
            final(self)@ == (AccumView {
                buffers: buffers_bound(
                    old(self).buffers@,
                    first,
                    entries@,
                    entries.len() as int,
                ),
                ..old(self)@
            }),
            old(self).slots_in_order() ==> final(self).slots_in_order(),
    {
        let mut i: usize = 0;
        while i < entries.len()
            invariant
                i <= entries.len(),
                self@ == (AccumView {
                    buffers: buffers_bound(old(self).buffers@, first, entries@, i as int),
                    ..old(self)@
                }),
                old(self).slots_in_order() ==> self.slots_in_order(),
            decreases entries.len() - i,
        {
            let e = entries[i];
            let index: u32 = first.saturating_add(#[verifier::truncate] (i as u32));
            if e.ref_ != 0 && index < MAX_COMPUTE_BUFFER_SLOTS {
                let bind = ComputeBufferBind {
                    index,
                    buffer_ref: e.ref_,
                    offset: e.offset,
                    attribute_stride: e.attribute_stride,
                    has_attribute_stride: e.has_attribute_stride,
                };
                proof {
                    if old(self).slots_in_order() {
                        law_placing_keeps_slots(self.buffers@, bind, MAX_COMPUTE_BUFFER_SLOTS);
                    }
                }
                place(&mut self.buffers, bind);
            }
            i = i + 1;
        }
    }

    /// Move a bound buffer's offset, and its attribute stride where one is given.
    /// A slot without a buffer is left alone.
    pub fn set_buffer_offset(&mut self, index: u32, offset: u64, attribute_stride: Option<u64>)
        ensures
            final(self)@ == (AccumView {
                buffers: match position(old(self).buffers@, index) {
                    Some(i) => old(self).buffers@.update(
                        i,
                        ComputeBufferBind {
                            offset,
                            attribute_stride: match attribute_stride {
                                Some(stride) => stride,
                                None => old(self).buffers@[i].attribute_stride,
                            },
                            has_attribute_stride: attribute_stride is Some || old(
                                self,
                            ).buffers@[i].has_attribute_stride,
                            ..old(self).buffers@[i]
                        },
                    ),
                    None => old(self).buffers@,
                },
                ..old(self)@
            }),
            old(self).slots_in_order() ==> final(self).slots_in_order(),
    {
        proof {
            lemma_position(self.buffers@, index);
        }
        match find_slot(&self.buffers, index) {
            Some(i) => {
                let mut bind = self.buffers[i];
                bind.offset = offset;
                match attribute_stride {
                    Some(stride) => {
                        bind.attribute_stride = stride;
                        bind.has_attribute_stride = true;
                    },
                    None => {},
                }
                self.buffers.set(i, bind);
            },
            None => {},
        }
    }

    /// Bind textures from stream index `first` on.
    pub fn bind_textures(&mut self, first: u32, entries: &[RefBinding])
        ensures
            final(self)@ == (AccumView {
                textures: textures_bound(
                    old(self).textures@,
                    first,
                    entries@,
                    entries.len() as int,
                ),
                ..old(self)@
            }),
            old(self).slots_in_order() ==> final(self).slots_in_order(),
    {
        let mut i: usize = 0;
        while i < entries.len()
            invariant
                i <= entries.len(),
                self@ == (AccumView {
                    textures: textures_bound(old(self).textures@, first, entries@, i as int),
                    ..old(self)@
                }),
                old(self).slots_in_order() ==> self.slots_in_order(),
            decreases entries.len() - i,
        {
            let e = entries[i];
            let index: u32 = first.saturating_add(#[verifier::truncate] (i as u32));
            if e.ref_ != 0 && index < MAX_COMPUTE_TEXTURE_SLOTS {
                let bind = ComputeTextureBind { index, texture_ref: e.ref_ };
                proof {
                    if old(self).slots_in_order() {
                        law_placing_keeps_slots(self.textures@, bind, MAX_COMPUTE_TEXTURE_SLOTS);
                    }
                }
                place(&mut self.textures, bind);
            }
            i = i + 1;
        }
    }

    /// Bind samplers from stream index `first` on.
    pub fn bind_samplers(&mut self, first: u32, entries: &[SamplerBinding])
        ensures
            final(self)@ == (AccumView {
                samplers: samplers_bound(
                    old(self).samplers@,
                    first,
                    entries@,
                    entries.len() as int,
                ),
                ..old(self)@
            }),
            old(self).slots_in_order() ==> final(self).slots_in_order(),
    {
        let mut i: usize = 0;
        while i < entries.len()
            invariant
                i <= entries.len(),
                self@ == (AccumView {
                    samplers: samplers_bound(old(self).samplers@, first, entries@, i as int),
                    ..old(self)@
                }),
                old(self).slots_in_order() ==> self.slots_in_order(),
            decreases entries.len() - i,
        {
            let e = entries[i];
            let index: u32 = first.saturating_add(#[verifier::truncate] (i as u32));
            if e.ref_ != 0 && index < MAX_COMPUTE_SAMPLER_SLOTS {
                let bind = ComputeSamplerBind {
                    index,
                    sampler_ref: e.ref_,
                    lod_min_bits: e.lod_min_bits,
                    lod_max_bits: e.lod_max_bits,
                    has_lod_clamp: e.has_lod_clamp,
                };
                proof {
                    if old(self).slots_in_order() {
                        law_placing_keeps_slots(self.samplers@, bind, MAX_COMPUTE_SAMPLER_SLOTS);
                    }
                }
                place(&mut self.samplers, bind);
            }
            i = i + 1;
        }
    }

    /// Set the length of a threadgroup-memory slot; one past the cap is dropped.
    pub fn set_threadgroup_memory(&mut self, index: u32, length: u64)
        ensures
            final(self)@ == (AccumView {
                threadgroup_memory: if index >= MAX_THREADGROUP_MEMORY_SLOTS {
                    old(self).threadgroup_memory@
                } else {
                    placed(
                        old(self).threadgroup_memory@,
                        ThreadgroupMemoryBind { index, length },
                    )
                },
                ..old(self)@
            }),
            old(self).slots_in_order() ==> final(self).slots_in_order(),
    {
        if index >= MAX_THREADGROUP_MEMORY_SLOTS {
            return ;
        }
        let bind = ThreadgroupMemoryBind { index, length };
        proof {
            if old(self).slots_in_order() {
                law_placing_keeps_slots(
                    self.threadgroup_memory@,
                    bind,
                    MAX_THREADGROUP_MEMORY_SLOTS,
                );
            }
        }
        place(&mut self.threadgroup_memory, bind);
    }

    /// Set a direct stage-in region.
    pub fn set_stage_in_region(&mut self, region: StageInRegion)
        ensures
            final(self)@ == (AccumView {
                stage_in_region: Some(region),
                stage_in_region_indirect: None,
                ..old(self)@
            }),
            old(self).slots_in_order() ==> final(self).slots_in_order(),
    {
        self.stage_in_region_indirect = None;
        self.stage_in_region = Some(region);
    }

    /// Set an indirect stage-in region; an empty reference changes nothing.
    pub fn set_stage_in_region_indirect(&mut self, buffer_ref: u32, buffer_offset: u64)
        ensures
            final(self)@ == if buffer_ref == 0 {
                old(self)@
            } else {
                AccumView {
                    stage_in_region: None,
                    stage_in_region_indirect: Some(
                        StageInRegionIndirect { buffer_ref, buffer_offset },
                    ),
                    ..old(self)@
                }
            },
    {
        if buffer_ref == 0 {
            return ;
        }
        self.stage_in_region = None;
        self.stage_in_region_indirect = Some(StageInRegionIndirect { buffer_ref, buffer_offset });
    }

    /// Set imageblock dimensions; an empty one changes nothing.
    pub fn set_imageblock(&mut self, width: u32, height: u32)
        ensures
            final(self)@ == if width == 0 || height == 0 {
                old(self)@
            } else {
                AccumView {
                    imageblock: Some(ImageblockDimensions { width, height }),
                    ..old(self)@
                }
            },
    {
        if width == 0 || height == 0 {
            return ;
        }
        self.imageblock = Some(ImageblockDimensions { width, height });
    }
}

} // verus!
