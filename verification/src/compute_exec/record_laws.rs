//! What each command does to the binds, slot by slot.

use vstd::prelude::*;
use crate::compute_exec::accum::{
    AccumView, ComputeBufferBind, ComputeSamplerBind, ComputeTextureBind, Slotted,
    ThreadgroupMemoryBind, bind_at, buffers_bound, entry_slot, lemma_position, placed, position,
    samplers_bound, slots_ok, textures_bound,
};
use crate::compute_exec::command::{BufferBinding, ComputeCommand, Kind, RefBinding, SamplerBinding};
use crate::compute_exec::record::{applied, record_of};
use crate::compute_exec::status::ComputeStatus;

verus! {

/// No two buffer binds are of one slot.
pub open spec fn one_per_slot(binds: Seq<ComputeBufferBind>) -> bool {
    forall|i: int, j: int|
        0 <= i < j < binds.len() ==> (#[trigger] binds[i]).index != (#[trigger] binds[j]).index
}

/// A pipeline command sets the pipeline and nothing else; an empty reference sets
/// nothing.
pub proof fn law_pipeline_is_set(accum: AccumView, command: ComputeCommand)
    requires
        command.kind == Kind::Pipeline,
    ensures
        ({
            let after = applied(accum, command);
            &&& command.pipeline_ref > 0 ==> after.pipeline_ref == command.pipeline_ref
            &&& command.pipeline_ref == 0 ==> after.pipeline_ref == accum.pipeline_ref
            &&& after.buffers == accum.buffers
            &&& after.textures == accum.textures
            &&& after.samplers == accum.samplers
            &&& after.threadgroup_memory == accum.threadgroup_memory
            &&& after.stage_in_region == accum.stage_in_region
            &&& after.stage_in_region_indirect == accum.stage_in_region_indirect
            &&& after.imageblock == accum.imageblock
            &&& after.dispatch_type == accum.dispatch_type
        }),
{
}

/// A command that moves a buffer's offset gives the bind of that slot the new offset,
/// and the new attribute stride where the command has one. The bind keeps its slot,
/// its reference and otherwise its stride; the binds of the other slots, and all that
/// is no buffer, stay as they were.
pub proof fn law_buffer_offset_moves_one_bind(accum: AccumView, command: ComputeCommand, k: int)
    requires
        command.kind == Kind::BufferOffset || command.kind == Kind::BufferOffsetAttributeStride,
        one_per_slot(accum.buffers),
        0 <= k < accum.buffers.len(),
    ensures
        ({
            let after = applied(accum, command);
            let old_bind = accum.buffers[k];
            let bind = after.buffers[k];
            let strided = command.kind == Kind::BufferOffsetAttributeStride;
            &&& after.buffers.len() == accum.buffers.len()
            &&& old_bind.index != command.first ==> bind == old_bind
            &&& old_bind.index == command.first ==> {
                &&& bind.index == old_bind.index
                &&& bind.buffer_ref == old_bind.buffer_ref
                &&& bind.offset == command.buffer_offset
                &&& strided ==> bind.attribute_stride == command.attribute_stride
                    && bind.has_attribute_stride
                &&& !strided ==> bind.attribute_stride == old_bind.attribute_stride
                    && bind.has_attribute_stride == old_bind.has_attribute_stride
            }
            &&& after.pipeline_ref == accum.pipeline_ref
            &&& after.textures == accum.textures
            &&& after.samplers == accum.samplers
            &&& after.threadgroup_memory == accum.threadgroup_memory
            &&& after.stage_in_region == accum.stage_in_region
            &&& after.stage_in_region_indirect == accum.stage_in_region_indirect
            &&& after.imageblock == accum.imageblock
            &&& after.dispatch_type == accum.dispatch_type
        }),
{
    lemma_position(accum.buffers, command.first);
    match position(accum.buffers, command.first) {
        Some(i) => {
            assert(accum.buffers[i].slot_index() == accum.buffers[i].index);
            if i < k {
                assert(accum.buffers[i].index != accum.buffers[k].index);
            } else if k < i {
                assert(accum.buffers[k].index != accum.buffers[i].index);
            }
        },
        None => {
            assert(accum.buffers[k].slot_index() == accum.buffers[k].index);
        },
    }
}

/// By slots: behind a command that moves a buffer's offset, the slot's bind has the new
/// offset, keeps its reference and, without a new one, its stride; every other slot has the
/// bind that it had.
pub proof fn law_moved_offset_by_slots(accum: AccumView, command: ComputeCommand, slot: u32)
    requires
        command.kind == Kind::BufferOffset,
        one_per_slot(accum.buffers),
    ensures
        ({
            let old_bind = bind_at(accum.buffers, slot);
            let bind = bind_at(applied(accum, command).buffers, slot);
            &&& slot != command.first ==> bind == old_bind
            &&& slot == command.first && old_bind is None ==> bind is None
            &&& slot == command.first && old_bind is Some ==> {
                &&& bind is Some
                &&& bind->0.offset == command.buffer_offset
                &&& bind->0.index == slot
                &&& bind->0.buffer_ref == old_bind->0.buffer_ref
                &&& bind->0.attribute_stride == old_bind->0.attribute_stride
                &&& bind->0.has_attribute_stride == old_bind->0.has_attribute_stride
            }
        }),
{
    let before = accum.buffers;
    let after = applied(accum, command).buffers;
    lemma_position(before, slot);
    lemma_position(before, command.first);
    lemma_position(after, slot);
    assert(after.len() == before.len());
    assert forall|k: int| 0 <= k < before.len() implies (#[trigger] after[k]).slot_index()
        == before[k].slot_index() by {
        law_buffer_offset_moves_one_bind(accum, command, k);
        assert(after[k].slot_index() == after[k].index);
        assert(before[k].slot_index() == before[k].index);
    }
    if let Some(i) = position(before, slot) {
        law_buffer_offset_moves_one_bind(accum, command, i);
        assert(after[i].slot_index() == before[i].slot_index());
        assert(before[i].slot_index() == before[i].index);
        if let Some(j) = position(after, slot) {
            assert(after[j].slot_index() == before[j].slot_index());
            assert(before[j].slot_index() == before[j].index);
            if i < j {
                assert(before[i].index != before[j].index);
            } else if j < i {
                assert(before[j].index != before[i].index);
            }
        }
    } else if let Some(j) = position(after, slot) {
        assert(after[j].slot_index() == before[j].slot_index());
    }
}

/// Moving the offset of a slot that holds nothing changes nothing.
pub proof fn law_offset_of_an_empty_slot(accum: AccumView, command: ComputeCommand)
    requires
        command.kind == Kind::BufferOffset || command.kind == Kind::BufferOffsetAttributeStride,
        forall|i: int|
            0 <= i < accum.buffers.len() ==> (#[trigger] accum.buffers[i]).index != command.first,
    ensures
        applied(accum, command) == accum,
{
    lemma_position(accum.buffers, command.first);
    match position(accum.buffers, command.first) {
        Some(i) => {
            assert(accum.buffers[i].slot_index() == accum.buffers[i].index);
        },
        None => {},
    }
}

/// Placing a bind leaves it and the binds of the other slots.
proof fn lemma_placed_members<T: Slotted>(binds: Seq<T>, bind: T, b: T)
    requires
        forall|i: int, j: int|
            0 <= i < j < binds.len() ==> (#[trigger] binds[i]).slot_index() != (
            #[trigger] binds[j]).slot_index(),
    ensures
        placed(binds, bind).contains(b) <==> b == bind || (binds.contains(b) && b.slot_index()
            != bind.slot_index()),
{
    let after = placed(binds, bind);
    lemma_position(binds, bind.slot_index());
    match position(binds, bind.slot_index()) {
        Some(i) => {
            assert(after[i] == bind);
            if binds.contains(b) && b.slot_index() != bind.slot_index() {
                let k = choose|k: int| 0 <= k < binds.len() && binds[k] == b;
                assert(after[k] == b);
            }
            if after.contains(b) && b != bind {
                let k = choose|k: int| 0 <= k < after.len() && after[k] == b;
                assert(binds[k] == b);
            }
        },
        None => {
            assert(after[binds.len() as int] == bind);
            if binds.contains(b) {
                let k = choose|k: int| 0 <= k < binds.len() && binds[k] == b;
                assert(after[k] == b);
            }
            if after.contains(b) && b != bind {
                let k = choose|k: int| 0 <= k < after.len() && after[k] == b;
                assert(binds[k] == b);
            }
        },
    }
}

/// Entry `i` of a list of buffer binds is one that a slot can hold, and is this bind.
pub open spec fn buffer_entry(
    first: u32,
    entries: Seq<BufferBinding>,
    i: int,
    b: ComputeBufferBind,
) -> bool {
    &&& entries[i].ref_ != 0
    &&& b.index == first + i
    &&& b.buffer_ref == entries[i].ref_
    &&& b.offset == entries[i].offset
    &&& b.attribute_stride == entries[i].attribute_stride
    &&& b.has_attribute_stride == entries[i].has_attribute_stride
}

/// After a command that binds buffers, the entries with a reference are bound at the
/// slots from its first on, up to the last slot 30, and the binds of all other slots
/// are still there. There are no others.
pub proof fn law_buffers_are_bound(
    accum: AccumView,
    command: ComputeCommand,
    b: ComputeBufferBind,
)
    requires
        command.kind == Kind::BufferBind || command.kind == Kind::BufferBindAttributeStride,
        slots_ok(accum.buffers, 31),
        command.buffers.len() <= 0x1_0000_0000,
    ensures
        ({
            let after = applied(accum, command);
            let entries = command.buffers@;
            &&& after.buffers.contains(b) <==> {
                ||| b.index < 31 && exists|i: int|
                    0 <= i < entries.len() && #[trigger] buffer_entry(command.first, entries, i, b)
                ||| accum.buffers.contains(b) && forall|i: int|
                    0 <= i < entries.len() && (#[trigger] entries[i]).ref_ != 0 ==> command.first
                        + i != b.index
            }
            &&& one_per_slot(after.buffers)
            &&& after.pipeline_ref == accum.pipeline_ref
            &&& after.textures == accum.textures
            &&& after.samplers == accum.samplers
            &&& after.threadgroup_memory == accum.threadgroup_memory
            &&& after.stage_in_region == accum.stage_in_region
            &&& after.stage_in_region_indirect == accum.stage_in_region_indirect
            &&& after.imageblock == accum.imageblock
            &&& after.dispatch_type == accum.dispatch_type
        }),
{
    let n = command.buffers.len() as int;
    lemma_buffers_bound(accum.buffers, command.first, command.buffers@, n, b);
    let after = applied(accum, command).buffers;
    assert forall|i: int, j: int| 0 <= i < j < after.len() implies (#[trigger] after[i]).index != (
    #[trigger] after[j]).index by {
        assert(after[i].slot_index() != after[j].slot_index());
    }
}

proof fn lemma_buffers_bound(
    binds: Seq<ComputeBufferBind>,
    first: u32,
    entries: Seq<BufferBinding>,
    n: int,
    b: ComputeBufferBind,
)
    requires
        slots_ok(binds, 31),
        0 <= n <= entries.len() <= 0x1_0000_0000,
    ensures
        slots_ok(buffers_bound(binds, first, entries, n), 31),
        buffers_bound(binds, first, entries, n).contains(b) <==> {
            ||| b.index < 31 && exists|i: int|
                0 <= i < n && #[trigger] buffer_entry(first, entries, i, b)
            ||| binds.contains(b) && forall|i: int|
                0 <= i < n && (#[trigger] entries[i]).ref_ != 0 ==> first + i != b.index
        },
    decreases n,
{
    if n > 0 {
        lemma_buffers_bound(binds, first, entries, n - 1, b);
        let before = buffers_bound(binds, first, entries, n - 1);
        let e = entries[n - 1];
        let index = entry_slot(first, n - 1);
        assert((n - 1) as u32 == n - 1);
        if binds.contains(b) {
            let k = choose|k: int| 0 <= k < binds.len() && binds[k] == b;
            assert(binds[k].slot_index() < 31);
        }
        if e.ref_ == 0 || index >= 31 {
            assert forall|i: int| 0 <= i < n && #[trigger] buffer_entry(
                first,
                entries,
                i,
                b,
            ) && b.index < 31 implies i < n - 1 by {}
        } else {
            let bind = ComputeBufferBind {
                index,
                buffer_ref: e.ref_,
                offset: e.offset,
                attribute_stride: e.attribute_stride,
                has_attribute_stride: e.has_attribute_stride,
            };
            crate::compute_exec::accum::law_placing_keeps_slots(before, bind, 31);
            lemma_placed_members(before, bind, b);
            assert(buffer_entry(first, entries, n - 1, bind));
            assert(buffer_entry(first, entries, n - 1, b) <==> b == bind);
        }
    }
}

/// Entry `i` of a list of texture binds is this bind.
pub open spec fn texture_entry(
    first: u32,
    entries: Seq<RefBinding>,
    i: int,
    b: ComputeTextureBind,
) -> bool {
    entries[i].ref_ != 0 && b.index == first + i && b.texture_ref == entries[i].ref_
}

/// After a command that binds textures, the entries with a reference are bound at the
/// slots from its first on, up to the last slot 30, and the binds of all other slots
/// are still there. There are no others.
pub proof fn law_textures_are_bound(
    accum: AccumView,
    command: ComputeCommand,
    b: ComputeTextureBind,
)
    requires
        command.kind == Kind::TextureBind,
        slots_ok(accum.textures, 31),
        command.textures.len() <= 0x1_0000_0000,
    ensures
        ({
            let after = applied(accum, command);
            let entries = command.textures@;
            &&& after.textures.contains(b) <==> {
                ||| b.index < 31 && exists|i: int|
                    0 <= i < entries.len() && #[trigger] texture_entry(
                        command.first,
                        entries,
                        i,
                        b,
                    )
                ||| accum.textures.contains(b) && forall|i: int|
                    0 <= i < entries.len() && (#[trigger] entries[i]).ref_ != 0 ==> command.first
                        + i != b.index
            }
            &&& slots_ok(after.textures, 31)
            &&& after.pipeline_ref == accum.pipeline_ref
            &&& after.buffers == accum.buffers
            &&& after.samplers == accum.samplers
            &&& after.threadgroup_memory == accum.threadgroup_memory
            &&& after.stage_in_region == accum.stage_in_region
            &&& after.stage_in_region_indirect == accum.stage_in_region_indirect
            &&& after.imageblock == accum.imageblock
            &&& after.dispatch_type == accum.dispatch_type
        }),
{
    let n = command.textures.len() as int;
    lemma_textures_bound(accum.textures, command.first, command.textures@, n, b);
}

proof fn lemma_textures_bound(
    binds: Seq<ComputeTextureBind>,
    first: u32,
    entries: Seq<RefBinding>,
    n: int,
    b: ComputeTextureBind,
)
    requires
        slots_ok(binds, 31),
        0 <= n <= entries.len() <= 0x1_0000_0000,
    ensures
        slots_ok(textures_bound(binds, first, entries, n), 31),
        textures_bound(binds, first, entries, n).contains(b) <==> {
            ||| b.index < 31 && exists|i: int|
                0 <= i < n && #[trigger] texture_entry(first, entries, i, b)
            ||| binds.contains(b) && forall|i: int|
                0 <= i < n && (#[trigger] entries[i]).ref_ != 0 ==> first + i != b.index
        },
    decreases n,
{
    if n > 0 {
        lemma_textures_bound(binds, first, entries, n - 1, b);
        let before = textures_bound(binds, first, entries, n - 1);
        let e = entries[n - 1];
        let index = entry_slot(first, n - 1);
        assert((n - 1) as u32 == n - 1);
        if binds.contains(b) {
            let k = choose|k: int| 0 <= k < binds.len() && binds[k] == b;
            assert(binds[k].slot_index() < 31);
        }
        if e.ref_ == 0 || index >= 31 {
            assert forall|i: int| 0 <= i < n && #[trigger] texture_entry(
                first,
                entries,
                i,
                b,
            ) && b.index < 31 implies i < n - 1 by {}
        } else {
            let bind = ComputeTextureBind { index, texture_ref: e.ref_ };
            crate::compute_exec::accum::law_placing_keeps_slots(before, bind, 31);
            lemma_placed_members(before, bind, b);
            assert(texture_entry(first, entries, n - 1, bind));
            assert(texture_entry(first, entries, n - 1, b) <==> b == bind);
        }
    }
}

/// Entry `i` of a list of sampler binds is this bind.
pub open spec fn sampler_entry(
    first: u32,
    entries: Seq<SamplerBinding>,
    i: int,
    b: ComputeSamplerBind,
) -> bool {
    &&& entries[i].ref_ != 0
    &&& b.index == first + i
    &&& b.sampler_ref == entries[i].ref_
    &&& b.lod_min_bits == entries[i].lod_min_bits
    &&& b.lod_max_bits == entries[i].lod_max_bits
    &&& b.has_lod_clamp == entries[i].has_lod_clamp
}

/// After a command that binds samplers, the entries with a reference are bound at the
/// slots from its first on, up to the last slot 15, and the binds of all other slots
/// are still there. There are no others.
pub proof fn law_samplers_are_bound(
    accum: AccumView,
    command: ComputeCommand,
    b: ComputeSamplerBind,
)
    requires
        command.kind == Kind::SamplerBind || command.kind == Kind::SamplerLod,
        slots_ok(accum.samplers, 16),
        command.samplers.len() <= 0x1_0000_0000,
    ensures
        ({
            let after = applied(accum, command);
            let entries = command.samplers@;
            &&& after.samplers.contains(b) <==> {
                ||| b.index < 16 && exists|i: int|
                    0 <= i < entries.len() && #[trigger] sampler_entry(
                        command.first,
                        entries,
                        i,
                        b,
                    )
                ||| accum.samplers.contains(b) && forall|i: int|
                    0 <= i < entries.len() && (#[trigger] entries[i]).ref_ != 0 ==> command.first
                        + i != b.index
            }
            &&& slots_ok(after.samplers, 16)
            &&& after.pipeline_ref == accum.pipeline_ref
            &&& after.buffers == accum.buffers
            &&& after.textures == accum.textures
            &&& after.threadgroup_memory == accum.threadgroup_memory
            &&& after.stage_in_region == accum.stage_in_region
            &&& after.stage_in_region_indirect == accum.stage_in_region_indirect
            &&& after.imageblock == accum.imageblock
            &&& after.dispatch_type == accum.dispatch_type
        }),
{
    let n = command.samplers.len() as int;
    lemma_samplers_bound(accum.samplers, command.first, command.samplers@, n, b);
}

proof fn lemma_samplers_bound(
    binds: Seq<ComputeSamplerBind>,
    first: u32,
    entries: Seq<SamplerBinding>,
    n: int,
    b: ComputeSamplerBind,
)
    requires
        slots_ok(binds, 16),
        0 <= n <= entries.len() <= 0x1_0000_0000,
    ensures
        slots_ok(samplers_bound(binds, first, entries, n), 16),
        samplers_bound(binds, first, entries, n).contains(b) <==> {
            ||| b.index < 16 && exists|i: int|
                0 <= i < n && #[trigger] sampler_entry(first, entries, i, b)
            ||| binds.contains(b) && forall|i: int|
                0 <= i < n && (#[trigger] entries[i]).ref_ != 0 ==> first + i != b.index
        },
    decreases n,
{
    if n > 0 {
        lemma_samplers_bound(binds, first, entries, n - 1, b);
        let before = samplers_bound(binds, first, entries, n - 1);
        let e = entries[n - 1];
        let index = entry_slot(first, n - 1);
        assert((n - 1) as u32 == n - 1);
        if binds.contains(b) {
            let k = choose|k: int| 0 <= k < binds.len() && binds[k] == b;
            assert(binds[k].slot_index() < 16);
        }
        if e.ref_ == 0 || index >= 16 {
            assert forall|i: int| 0 <= i < n && #[trigger] sampler_entry(
                first,
                entries,
                i,
                b,
            ) && b.index < 16 implies i < n - 1 by {}
        } else {
            let bind = ComputeSamplerBind {
                index,
                sampler_ref: e.ref_,
                lod_min_bits: e.lod_min_bits,
                lod_max_bits: e.lod_max_bits,
                has_lod_clamp: e.has_lod_clamp,
            };
            crate::compute_exec::accum::law_placing_keeps_slots(before, bind, 16);
            lemma_placed_members(before, bind, b);
            assert(sampler_entry(first, entries, n - 1, bind));
            assert(sampler_entry(first, entries, n - 1, b) <==> b == bind);
        }
    }
}

/// After a threadgroup-memory command, its slot has the length it gives, where the
/// slot is below 16; the other slots have what they had, and there are no others.
pub proof fn law_threadgroup_memory_is_set(
    accum: AccumView,
    command: ComputeCommand,
    b: ThreadgroupMemoryBind,
)
    requires
        command.kind == Kind::ThreadgroupMemory,
        slots_ok(accum.threadgroup_memory, 16),
    ensures
        ({
            let after = applied(accum, command);
            let index = command.threadgroup_memory_index;
            let length = command.threadgroup_memory_length;
            &&& index < 16 ==> (after.threadgroup_memory.contains(b) <==> {
                ||| b.index == index && b.length == length
                ||| b.index != index && accum.threadgroup_memory.contains(b)
            })
            &&& index >= 16 ==> after.threadgroup_memory == accum.threadgroup_memory
            &&& after.pipeline_ref == accum.pipeline_ref
            &&& after.buffers == accum.buffers
            &&& after.textures == accum.textures
            &&& after.samplers == accum.samplers
            &&& after.stage_in_region == accum.stage_in_region
            &&& after.stage_in_region_indirect == accum.stage_in_region_indirect
            &&& after.imageblock == accum.imageblock
            &&& after.dispatch_type == accum.dispatch_type
        }),
{
    let bind = ThreadgroupMemoryBind {
        index: command.threadgroup_memory_index,
        length: command.threadgroup_memory_length,
    };
    lemma_placed_members(accum.threadgroup_memory, bind, b);
}

/// A stage-in region has the command's numbers, each at its place, and takes the place
/// of an indirect one; an indirect one with a buffer takes the place of a direct one.
pub proof fn law_stage_in_region_is_set(accum: AccumView, command: ComputeCommand)
    requires
        command.kind == Kind::StageInRegion || command.kind == Kind::StageInRegionIndirect,
    ensures
        ({
            let after = applied(accum, command);
            let given = command.stage_in_region;
            let buffer = command.stage_in_indirect_buffer_ref;
            &&& command.kind == Kind::StageInRegion ==> {
                let region = after.stage_in_region->0;
                &&& after.stage_in_region is Some
                &&& after.stage_in_region_indirect is None
                &&& region.origin_x == given.origin.x && region.size_x == given.size.x
                &&& region.origin_y == given.origin.y && region.size_y == given.size.y
                &&& region.origin_z == given.origin.z && region.size_z == given.size.z
            }
            &&& command.kind == Kind::StageInRegionIndirect && buffer > 0 ==> {
                let region = after.stage_in_region_indirect->0;
                &&& after.stage_in_region_indirect is Some
                &&& after.stage_in_region is None
                &&& region.buffer_ref == buffer
                &&& region.buffer_offset == command.stage_in_indirect_buffer_offset
            }
            &&& command.kind == Kind::StageInRegionIndirect && buffer == 0 ==> after
                == accum
            &&& after.pipeline_ref == accum.pipeline_ref
            &&& after.buffers == accum.buffers
            &&& after.textures == accum.textures
            &&& after.samplers == accum.samplers
            &&& after.threadgroup_memory == accum.threadgroup_memory
            &&& after.imageblock == accum.imageblock
            &&& after.dispatch_type == accum.dispatch_type
        }),
{
}

/// Imageblock dimensions are taken where both are there, the dispatch type always.
pub proof fn law_modes_are_set(accum: AccumView, command: ComputeCommand)
    requires
        command.kind == Kind::ImageblockDimensions || command.kind == Kind::DispatchType,
    ensures
        ({
            let after = applied(accum, command);
            let (w, h) = (command.imageblock_width, command.imageblock_height);
            &&& command.kind == Kind::ImageblockDimensions && w > 0 && h > 0 ==> {
                &&& after.imageblock is Some
                &&& (after.imageblock->0).width == w
                &&& (after.imageblock->0).height == h
                &&& after.dispatch_type == accum.dispatch_type
            }
            &&& command.kind == Kind::ImageblockDimensions && (w == 0 || h == 0) ==> after
                == accum
            &&& command.kind == Kind::DispatchType ==> after.dispatch_type
                == command.dispatch_type && after.imageblock == accum.imageblock
            &&& after.pipeline_ref == accum.pipeline_ref
            &&& after.buffers == accum.buffers
            &&& after.textures == accum.textures
            &&& after.samplers == accum.samplers
            &&& after.threadgroup_memory == accum.threadgroup_memory
            &&& after.stage_in_region == accum.stage_in_region
            &&& after.stage_in_region_indirect == accum.stage_in_region_indirect
        }),
{
}

/// Fences, barriers, residency, control flow and whatever is unknown set no bind.
pub proof fn law_other_commands_set_nothing(accum: AccumView, command: ComputeCommand)
    requires
        command.kind is Unknown || command.kind is UpdateFence || command.kind is WaitFence
            || command.kind is BarrierResources || command.kind is BarrierScope
            || command.kind is UseHeaps || command.kind is UseResources
            || command.kind is CompressedTextureFlush || command.kind is DispatchThreadgroups
            || command.kind is DispatchThreads || command.kind is DispatchThreadgroupsIndirect
            || command.kind is DispatchThreadsIndirect || command.kind is ControlStartDoWhile
            || command.kind is ControlEndDoWhile || command.kind is ControlStartWhile
            || command.kind is ControlEndWhile || command.kind is ControlStartIf
            || command.kind is ControlStartElse || command.kind is ControlEndIf
            || command.kind is ExecuteCommandsInBuffer
            || command.kind is ExecuteCommandsInBufferIndirect,
    ensures
        applied(accum, command) == accum,
{
}

/// What a command leaves to do: the four dispatches run, on the session's encoder
/// where one is open, unless the sequencing failed; control flow and command buffers
/// are sequenced; all else is done by then.
pub proof fn law_what_a_command_leaves_to_do(kind: Kind, session_open: bool, blocked: bool)
    ensures
        ({
            let left = record_of(kind, session_open, blocked);
            let dispatch = kind is DispatchThreadgroups || kind is DispatchThreads
                || kind is DispatchThreadgroupsIndirect || kind is DispatchThreadsIndirect;
            let control = kind is ControlStartDoWhile || kind is ControlEndDoWhile
                || kind is ControlStartWhile || kind is ControlEndWhile || kind is ControlStartIf
                || kind is ControlStartElse || kind is ControlEndIf
                || kind is ExecuteCommandsInBuffer || kind is ExecuteCommandsInBufferIndirect;
            &&& left is Dispatch <==> dispatch && !session_open && !blocked
            &&& left is NestedDispatch <==> dispatch && session_open && !blocked
            &&& left is Refused <==> dispatch && blocked
            &&& left is Refused ==> left->Refused_0 == ComputeStatus::Unsupported(
                "dispatch_in_sequencing_block",
            )
            &&& left is Sequence <==> control
            &&& left is Applied <==> !dispatch && !control
        }),
{
}

} // verus!
