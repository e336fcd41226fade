//! A decoded compute command.

use vstd::prelude::*;

verus! {

#[derive(Clone, Copy, Debug, PartialEq, Eq, Structural)]
pub enum Kind {
    Unknown,
    Pipeline,
    BufferBind,
    BufferBindAttributeStride,
    BufferOffset,
    BufferOffsetAttributeStride,
    TextureBind,
    SamplerBind,
    SamplerLod,
    DispatchType,
    StageInRegion,
    StageInRegionIndirect,
    ThreadgroupMemory,
    ImageblockDimensions,
    DispatchThreadgroups,
    DispatchThreads,
    DispatchThreadgroupsIndirect,
    DispatchThreadsIndirect,
    UpdateFence,
    WaitFence,
    BarrierResources,
    BarrierScope,
    UseHeaps,
    UseResources,
    CompressedTextureFlush,
    ControlStartDoWhile,
    ControlEndDoWhile,
    ControlStartWhile,
    ControlEndWhile,
    ControlStartIf,
    ControlStartElse,
    ControlEndIf,
    ExecuteCommandsInBuffer,
    ExecuteCommandsInBufferIndirect,
}

#[derive(Clone, Copy, Debug, PartialEq, Eq, Structural)]
pub struct Size3 {
    pub x: u64,
    pub y: u64,
    pub z: u64,
}

#[derive(Clone, Copy, Debug, PartialEq, Eq, Structural)]
pub struct Region3 {
    pub origin: Size3,
    pub size: Size3,
}

#[derive(Clone, Copy, Debug, PartialEq, Eq, Structural)]
pub struct BufferBinding {
    pub ref_: u32,
    pub offset: u64,
    pub attribute_stride: u64,
    pub has_attribute_stride: bool,
}

impl Default for BufferBinding {
    fn default() -> (binding: BufferBinding)
        ensures
            binding == (BufferBinding {
                ref_: 0,
                offset: 0,
                attribute_stride: 0,
                has_attribute_stride: false,
            }),
    {
        BufferBinding { ref_: 0, offset: 0, attribute_stride: 0, has_attribute_stride: false }
    }
}

#[derive(Clone, Copy, Debug, PartialEq, Eq, Structural)]
pub struct RefBinding {
    pub ref_: u32,
}

#[derive(Clone, Copy, Debug, PartialEq, Eq, Structural)]
pub struct SamplerBinding {
    pub ref_: u32,
    pub lod_min_bits: u32,
    pub lod_max_bits: u32,
    pub has_lod_clamp: bool,
}

/// One command of a compute segment. Which fields count depends on the kind.
#[derive(Clone, Debug, PartialEq, Eq)]
pub struct ComputeCommand {
    pub kind: Kind,
    pub pipeline_ref: u32,
    pub first: u32,
    pub buffers: Vec<BufferBinding>,
    pub textures: Vec<RefBinding>,
    pub samplers: Vec<SamplerBinding>,
    pub buffer_offset: u64,
    pub attribute_stride: u64,
    pub dispatch_type: u32,
    pub stage_in_region: Region3,
    pub stage_in_indirect_buffer_ref: u32,
    pub stage_in_indirect_buffer_offset: u64,
    pub threadgroup_memory_index: u32,
    pub threadgroup_memory_length: u64,
    pub imageblock_width: u32,
    pub imageblock_height: u32,
    pub grid: Size3,
    pub threads_per_threadgroup: Size3,
    pub indirect_buffer_ref: u32,
    pub indirect_buffer_offset: u64,
    pub indirect_command_buffer_ref: u32,
}

impl Default for ComputeCommand {
    fn default() -> (command: ComputeCommand)
        ensures
            command.kind == Kind::Unknown,
            command.buffers@.len() == 0,
            command.textures@.len() == 0,
            command.samplers@.len() == 0,
            command.pipeline_ref == 0,
            command.first == 0,
            command.buffer_offset == 0,
            command.attribute_stride == 0,
            command.dispatch_type == 0,
            command.stage_in_region == (Region3 {
                origin: Size3 { x: 0, y: 0, z: 0 },
                size: Size3 { x: 0, y: 0, z: 0 },
            }),
            command.stage_in_indirect_buffer_ref == 0,
            command.stage_in_indirect_buffer_offset == 0,
            command.threadgroup_memory_index == 0,
            command.threadgroup_memory_length == 0,
            command.imageblock_width == 0,
            command.imageblock_height == 0,
            command.grid == (Size3 { x: 0, y: 0, z: 0 }),
            command.threads_per_threadgroup == (Size3 { x: 0, y: 0, z: 0 }),
            command.indirect_buffer_ref == 0,
            command.indirect_buffer_offset == 0,
            command.indirect_command_buffer_ref == 0,
    {
        let zero = Size3 { x: 0, y: 0, z: 0 };
        ComputeCommand {
            kind: Kind::Unknown,
            pipeline_ref: 0,
            first: 0,
            buffers: Vec::new(),
            textures: Vec::new(),
            samplers: Vec::new(),
            buffer_offset: 0,
            attribute_stride: 0,
            dispatch_type: 0,
            stage_in_region: Region3 { origin: zero, size: zero },
            stage_in_indirect_buffer_ref: 0,
            stage_in_indirect_buffer_offset: 0,
            threadgroup_memory_index: 0,
            threadgroup_memory_length: 0,
            imageblock_width: 0,
            imageblock_height: 0,
            grid: zero,
            threads_per_threadgroup: zero,
            indirect_buffer_ref: 0,
            indirect_buffer_offset: 0,
            indirect_command_buffer_ref: 0,
        }
    }
}

} // verus!
