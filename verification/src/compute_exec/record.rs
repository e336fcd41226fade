//! What one command of a compute segment does.

use vstd::prelude::*;
use crate::compute_exec::accum::{
    AccumView, ComputeAccum, ComputeBufferBind, ImageblockDimensions, MAX_THREADGROUP_MEMORY_SLOTS,
    StageInRegion, StageInRegionIndirect, ThreadgroupMemoryBind, buffers_bound, placed, position,
    samplers_bound, textures_bound,
};
use crate::compute_exec::command::{ComputeCommand, Kind, Region3};
use crate::compute_exec::status::ComputeStatus;

verus! {

/// What is left to do for a command.
#[derive(Clone, Copy, Debug, PartialEq, Eq)]
pub enum Record {
    /// Nothing: it changed the binds, or orders what runs in order anyway.
    Applied,
    /// Run a dispatch of its own.
    Dispatch,
    /// Run a dispatch on the open session's encoder.
    NestedDispatch,
    /// Control flow, or a command buffer of commands.
    Sequence,
    /// Nothing: it was refused.
    Refused(ComputeStatus),
}

/// The binds after a buffer's offset moved.
pub open spec fn offset_moved(
    buffers: Seq<ComputeBufferBind>,
    index: u32,
    offset: u64,
    attribute_stride: Option<u64>,
) -> Seq<ComputeBufferBind> {
    match position(buffers, index) {
        Some(i) => buffers.update(
            i,
            ComputeBufferBind {
                offset,
                attribute_stride: match attribute_stride {
                    Some(stride) => stride,
                    None => buffers[i].attribute_stride,
                },
                has_attribute_stride: attribute_stride is Some || buffers[i].has_attribute_stride,
                ..buffers[i]
            },
        ),
        None => buffers,
    }
}

/// A region with its numbers side by side.
pub open spec fn flat(region: Region3) -> StageInRegion {
    StageInRegion {
        origin_x: region.origin.x,
        origin_y: region.origin.y,
        origin_z: region.origin.z,
        size_x: region.size.x,
        size_y: region.size.y,
        size_z: region.size.z,
    }
}

/// The binds after a command.
pub open spec fn applied(accum: AccumView, command: ComputeCommand) -> AccumView {
    match command.kind {
        Kind::Pipeline => AccumView {
            pipeline_ref: if command.pipeline_ref != 0 {
                command.pipeline_ref
            } else {
                accum.pipeline_ref
            },
            ..accum
        },
        Kind::BufferBind | Kind::BufferBindAttributeStride => AccumView {
            buffers: buffers_bound(
                accum.buffers,
                command.first,
                command.buffers@,
                command.buffers.len() as int,
            ),
            ..accum
        },
        Kind::BufferOffset => AccumView {
            buffers: offset_moved(accum.buffers, command.first, command.buffer_offset, None),
            ..accum
        },
        Kind::BufferOffsetAttributeStride => AccumView {
            buffers: offset_moved(
                accum.buffers,
                command.first,
                command.buffer_offset,
                Some(command.attribute_stride),
            ),
            ..accum
        },
        Kind::TextureBind => AccumView {
            textures: textures_bound(
                accum.textures,
                command.first,
                command.textures@,
                command.textures.len() as int,
            ),
            ..accum
        },
        Kind::SamplerBind | Kind::SamplerLod => AccumView {
            samplers: samplers_bound(
                accum.samplers,
                command.first,
                command.samplers@,
                command.samplers.len() as int,
            ),
            ..accum
        },
        Kind::DispatchType => AccumView { dispatch_type: command.dispatch_type, ..accum },
        Kind::StageInRegion => AccumView {
            stage_in_region: Some(flat(command.stage_in_region)),
            stage_in_region_indirect: None,
            ..accum
        },
        Kind::StageInRegionIndirect => if command.stage_in_indirect_buffer_ref == 0 {
            accum
        } else {
            AccumView {
                stage_in_region: None,
                stage_in_region_indirect: Some(
                    StageInRegionIndirect {
                        buffer_ref: command.stage_in_indirect_buffer_ref,
                        buffer_offset: command.stage_in_indirect_buffer_offset,
                    },
                ),
                ..accum
            }
        },
        Kind::ThreadgroupMemory => AccumView {
            threadgroup_memory: if command.threadgroup_memory_index
                >= MAX_THREADGROUP_MEMORY_SLOTS {
                accum.threadgroup_memory
            } else {
                placed(
                    accum.threadgroup_memory,
                    ThreadgroupMemoryBind {
                        index: command.threadgroup_memory_index,
                        length: command.threadgroup_memory_length,
                    },
                )
            },
            ..accum
        },
        Kind::ImageblockDimensions => if command.imageblock_width == 0
            || command.imageblock_height == 0 {
            accum
        } else {
            AccumView {
                imageblock: Some(
                    ImageblockDimensions {
                        width: command.imageblock_width,
                        height: command.imageblock_height,
                    },
                ),
                ..accum
            }
        },
        _ => accum,
    }
}

/// The command dispatches.
pub open spec fn dispatches(kind: Kind) -> bool {
    match kind {
        Kind::DispatchThreadgroups
        | Kind::DispatchThreads
        | Kind::DispatchThreadgroupsIndirect
        | Kind::DispatchThreadsIndirect => true,
        _ => false,
    }
}

/// The command steers which commands run.
pub open spec fn sequences(kind: Kind) -> bool {
    match kind {
        Kind::ControlStartDoWhile
        | Kind::ControlEndDoWhile
        | Kind::ControlStartWhile
        | Kind::ControlEndWhile
        | Kind::ControlStartIf
        | Kind::ControlStartElse
        | Kind::ControlEndIf
        | Kind::ExecuteCommandsInBuffer
        | Kind::ExecuteCommandsInBufferIndirect => true,
        _ => false,
    }
}

/// What is left to do for a command. After sequencing failed, no dispatch of the
/// segment runs: it would run where the guest did not ask for it.
pub open spec fn record_of(kind: Kind, session_open: bool, blocked: bool) -> Record {
    if dispatches(kind) {
        if blocked {
            Record::Refused(ComputeStatus::Unsupported("dispatch_in_sequencing_block"))
        } else if session_open {
            Record::NestedDispatch
        } else {
            Record::Dispatch
        }
    } else if sequences(kind) {
        Record::Sequence
    } else {
        Record::Applied
    }
}

/// Apply one command to the binds, and say what is left to do for it.
///
/// `session_open` tells that the segment has an encoder of its own, `blocked` that
/// its sequencing failed.
pub fn apply_record(
    command: &ComputeCommand,
    accum: &mut ComputeAccum,
    session_open: bool,
    blocked: bool,
) -> (record: Record)
    ensures
        final(accum)@ == applied(old(accum)@, *command),
        record == record_of(command.kind, session_open, blocked),
        old(accum).slots_in_order() ==> final(accum).slots_in_order(),
{
    match command.kind {
        Kind::Pipeline => accum.set_pipeline(command.pipeline_ref),
        Kind::BufferBind | Kind::BufferBindAttributeStride => accum.bind_buffers(
            command.first,
            command.buffers.as_slice(),
        ),
        Kind::BufferOffset => accum.set_buffer_offset(command.first, command.buffer_offset, None),
        Kind::BufferOffsetAttributeStride => accum.set_buffer_offset(
            command.first,
            command.buffer_offset,
            Some(command.attribute_stride),
        ),
        Kind::TextureBind => accum.bind_textures(command.first, command.textures.as_slice()),
        Kind::SamplerBind | Kind::SamplerLod => accum.bind_samplers(
            command.first,
            command.samplers.as_slice(),
        ),
        Kind::DispatchType => {
            accum.dispatch_type = command.dispatch_type;
        },
        Kind::StageInRegion => {
            let region = command.stage_in_region;
            accum.set_stage_in_region(
                StageInRegion {
                    origin_x: region.origin.x,
                    origin_y: region.origin.y,
                    origin_z: region.origin.z,
                    size_x: region.size.x,
                    size_y: region.size.y,
                    size_z: region.size.z,
                },
            )
        },
        Kind::StageInRegionIndirect => accum.set_stage_in_region_indirect(
            command.stage_in_indirect_buffer_ref,
            command.stage_in_indirect_buffer_offset,
        ),
        Kind::ThreadgroupMemory => accum.set_threadgroup_memory(
            command.threadgroup_memory_index,
            command.threadgroup_memory_length,
        ),
        Kind::ImageblockDimensions => accum.set_imageblock(
            command.imageblock_width,
            command.imageblock_height,
        ),
        Kind::DispatchThreadgroups
        | Kind::DispatchThreads
        | Kind::DispatchThreadgroupsIndirect
        | Kind::DispatchThreadsIndirect => {
            if blocked {
                return Record::Refused(
                    ComputeStatus::Unsupported("dispatch_in_sequencing_block"),
                );
            }
            if session_open {
                return Record::NestedDispatch;
            }
            return Record::Dispatch;
        },
        Kind::ControlStartDoWhile
        | Kind::ControlEndDoWhile
        | Kind::ControlStartWhile
        | Kind::ControlEndWhile
        | Kind::ControlStartIf
        | Kind::ControlStartElse
        | Kind::ControlEndIf
        | Kind::ExecuteCommandsInBuffer
        | Kind::ExecuteCommandsInBufferIndirect => {
            return Record::Sequence;
        },
        _ => {},
    }
    Record::Applied
}

/// A command that has something left to do leaves the binds as they are.
pub proof fn law_dispatching_keeps_the_binds(accum: AccumView, command: ComputeCommand)
    requires
        dispatches(command.kind) || sequences(command.kind),
    ensures
        applied(accum, command) == accum,
{
}

} // verus!
