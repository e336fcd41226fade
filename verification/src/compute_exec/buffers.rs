//! Kernel, pipeline and buffer objects of a dispatch.
//!
//! The caller looks an object up and decodes its descriptor; what came of that is
//! a [`Lookup`]. Here it is decided what to read of the guest, and what a read
//! stages as.

use vstd::prelude::*;
use crate::compute_exec::accum::ComputeBufferBind;
use crate::compute_exec::format::host_alloc_len;
use crate::compute_exec::status::ComputeStatus;

verus! {

/// What looking up an object of a wanted type came to.
#[derive(Clone, Copy, Debug, PartialEq, Eq, Structural)]
pub enum Lookup<T> {
    /// The object list has no such entry.
    NoEntry,
    /// The entry is of another type.
    WrongType(u8),
    /// The descriptor could not be read.
    NoDescriptor,
    /// The descriptor does not decode.
    Undecoded,
    Decoded(T),
}

/// A buffer object.
#[derive(Clone, Copy, Debug, PartialEq, Eq, Structural)]
pub struct BufferDescriptor {
    pub allocation_size: u64,
    pub handle64: u64,
    pub handle: u32,
}

impl BufferDescriptor {
    pub open spec fn backing(self, page_shift: u32) -> Option<(u64, u64)> {
        if self.handle == 0 || self.allocation_size == 0 {
            None
        } else {
            Some(((self.handle as u64) << page_shift, self.allocation_size))
        }
    }

    /// The task address and size of the buffer's memory. The handle is a page
    /// number in the device's own page size.
    pub fn backing_gva_size(&self, page_shift: u32) -> (backing: Option<(u64, u64)>)
        requires
            page_shift < 64,
        ensures
            backing == self.backing(page_shift),
    {
        if self.handle == 0 || self.allocation_size == 0 {
            None
        } else {
            Some(((self.handle as u64) << page_shift, self.allocation_size))
        }
    }
}

/// A function object: where its library blob is.
#[derive(Clone, Copy, Debug, PartialEq, Eq, Structural)]
pub struct FunctionDescriptor {
    pub blob_gva: u64,
    pub blob_size: u32,
}

/// Why a bound function or pipeline did not materialize; an empty reference is
/// not one of them.
#[derive(Clone, Copy, Debug, PartialEq, Eq, Structural)]
pub enum LoadMiss {
    Unbound,
    NoEntry,
    WrongType(u8),
    NoDescriptor,
    Undecoded,
    BadBlob,
    HostLen,
    GuestRead,
    KernelFunctionZero,
    NotComputePipeline,
}

/// What a failed lookup misses.
pub open spec fn lookup_miss<T>(lookup: Lookup<T>) -> LoadMiss {
    match lookup {
        Lookup::NoEntry => LoadMiss::NoEntry,
        Lookup::WrongType(ot) => LoadMiss::WrongType(ot),
        Lookup::NoDescriptor => LoadMiss::NoDescriptor,
        _ => LoadMiss::Undecoded,
    }
}

/// The guest memory to read for a function's library, or why there is none.
pub open spec fn mtlb_plan(
    func_ref: u32,
    lookup: Lookup<FunctionDescriptor>,
) -> Result<(u64, usize), LoadMiss> {
    if func_ref == 0 {
        Err(LoadMiss::Unbound)
    } else {
        match lookup {
            Lookup::Decoded(f) => if f.blob_gva == 0 || f.blob_size < 4 {
                Err(LoadMiss::BadBlob)
            } else {
                Ok((f.blob_gva, f.blob_size as usize))
            },
            other => Err(lookup_miss(other)),
        }
    }
}

/// Decide what to read for a function's library. The guest's size is
/// authoritative; only what the host cannot address is refused.
pub fn plan_mtlb(func_ref: u32, lookup: &Lookup<FunctionDescriptor>) -> (plan: Result<
    (u64, usize),
    LoadMiss,
>)
    ensures
        plan == mtlb_plan(func_ref, *lookup),
{
    if func_ref == 0 {
        return Err(LoadMiss::Unbound);
    }
    match lookup {
        Lookup::NoEntry => Err(LoadMiss::NoEntry),
        Lookup::WrongType(ot) => Err(LoadMiss::WrongType(*ot)),
        Lookup::NoDescriptor => Err(LoadMiss::NoDescriptor),
        Lookup::Undecoded => Err(LoadMiss::Undecoded),
        Lookup::Decoded(f) => {
            if f.blob_gva == 0 || f.blob_size < 4 {
                return Err(LoadMiss::BadBlob);
            }
            match host_alloc_len(f.blob_size as u64) {
                Some(len) => Ok((f.blob_gva, len)),
                None => Err(LoadMiss::HostLen),
            }
        },
    }
}

/// The library as read: the bytes, or the miss.
pub fn load_mtlb(read: Option<Vec<u8>>) -> (mtlb: Result<Vec<u8>, LoadMiss>)
    ensures
        match read {
            Some(bytes) => mtlb == Ok::<Vec<u8>, LoadMiss>(bytes),
            None => mtlb == Err::<Vec<u8>, LoadMiss>(LoadMiss::GuestRead),
        },
{
    match read {
        Some(bytes) => Ok(bytes),
        None => Err(LoadMiss::GuestRead),
    }
}

/// How a stage-input attribute is fetched.
#[derive(Clone, Copy, Debug, PartialEq, Eq, Structural)]
pub struct StageInputAttribute {
    pub raw_bits: u64,
    pub location: u32,
    pub format: u32,
    pub offset: u32,
    pub buffer_index: u32,
}

/// How a stage-input buffer is stepped through.
#[derive(Clone, Copy, Debug, PartialEq, Eq, Structural)]
pub struct StageInputLayout {
    pub raw_bits: u64,
    pub buffer_index: u32,
    pub step_function: u32,
    pub step_rate: u32,
    pub stride: u64,
}

/// A pipeline's stage-input descriptor.
#[derive(Clone, Debug, PartialEq, Eq)]
pub struct ComputeStageInputDescriptor {
    pub word0: u32,
    pub header0: u32,
    pub header1: u32,
    pub index_type: u32,
    pub index_buffer_index: u32,
    pub attributes: Vec<StageInputAttribute>,
    pub layouts: Vec<StageInputLayout>,
    /// Entries that the wire had past the caps.
    pub dropped_attributes: u32,
    pub dropped_layouts: u32,
}

/// What a pipeline object is.
#[derive(Clone, Debug, PartialEq, Eq)]
pub enum PipelineDescriptor {
    Compute { kernel_func_ref: u32, stage_input: Option<ComputeStageInputDescriptor> },
    Other,
}

/// A compute pipeline that can be run.
#[derive(Clone, Debug, PartialEq, Eq)]
pub struct LoadedComputePipeline {
    pub kernel_func_ref: u32,
    /// The stage input, where it came whole and is not empty.
    pub stage_input: Option<ComputeStageInputDescriptor>,
}

/// A stage input that lost entries to the caps, or has none, is left out rather
/// than truncated.
pub open spec fn usable_stage_input(si: ComputeStageInputDescriptor) -> bool {
    &&& si.dropped_attributes == 0
    &&& si.dropped_layouts == 0
    &&& si.attributes.len() > 0 || si.layouts.len() > 0
}

/// What a pipeline object loads as.
pub open spec fn pipeline_loaded(
    pipeline_ref: u32,
    lookup: Lookup<PipelineDescriptor>,
) -> Result<LoadedComputePipeline, LoadMiss> {
    if pipeline_ref == 0 {
        Err(LoadMiss::Unbound)
    } else {
        match lookup {
            Lookup::Decoded(PipelineDescriptor::Compute { kernel_func_ref, stage_input })
                => if kernel_func_ref != 0 {
                Ok(
                    LoadedComputePipeline {
                        kernel_func_ref,
                        stage_input: match stage_input {
                            Some(si) => if usable_stage_input(si) {
                                Some(si)
                            } else {
                                None
                            },
                            None => None,
                        },
                    },
                )
            } else {
                Err(LoadMiss::KernelFunctionZero)
            },
            Lookup::Decoded(PipelineDescriptor::Other) => Err(LoadMiss::NotComputePipeline),
            other => Err(lookup_miss(other)),
        }
    }
}

/// Load a compute pipeline from its object.
pub fn load_compute_pipeline(pipeline_ref: u32, lookup: Lookup<PipelineDescriptor>) -> (loaded:
    Result<LoadedComputePipeline, LoadMiss>)
    ensures
        loaded == pipeline_loaded(pipeline_ref, lookup),
{
    if pipeline_ref == 0 {
        return Err(LoadMiss::Unbound);
    }
    match lookup {
        Lookup::NoEntry => Err(LoadMiss::NoEntry),
        Lookup::WrongType(ot) => Err(LoadMiss::WrongType(ot)),
        Lookup::NoDescriptor => Err(LoadMiss::NoDescriptor),
        Lookup::Undecoded => Err(LoadMiss::Undecoded),
        Lookup::Decoded(PipelineDescriptor::Other) => Err(LoadMiss::NotComputePipeline),
        Lookup::Decoded(PipelineDescriptor::Compute { kernel_func_ref, stage_input }) => {
            if kernel_func_ref == 0 {
                return Err(LoadMiss::KernelFunctionZero);
            }
            let stage_input = match stage_input {
                Some(si) => if si.dropped_attributes == 0 && si.dropped_layouts == 0 && (
                si.attributes.len() > 0 || si.layouts.len() > 0) {
                    Some(si)
                } else {
                    None
                },
                None => None,
            };
            Ok(LoadedComputePipeline { kernel_func_ref, stage_input })
        },
    }
}

/// The task address and size of a buffer object, where it has memory.
pub open spec fn buffer_backing(
    buffer_ref: u32,
    lookup: Lookup<BufferDescriptor>,
    page_shift: u32,
) -> Option<(u64, u64)> {
    match lookup {
        Lookup::Decoded(desc) => if buffer_ref == 0 {
            None
        } else {
            desc.backing(page_shift)
        },
        _ => None,
    }
}

pub fn buffer_gva_size(
    buffer_ref: u32,
    lookup: &Lookup<BufferDescriptor>,
    page_shift: u32,
) -> (backing: Option<(u64, u64)>)
    requires
        page_shift < 64,
    ensures
        backing == buffer_backing(buffer_ref, *lookup, page_shift),
{
    if buffer_ref == 0 {
        return None;
    }
    match lookup {
        Lookup::Decoded(desc) => desc.backing_gva_size(page_shift),
        _ => None,
    }
}

/// Where a window of a buffer is, or why it cannot be read.
pub open spec fn window_plan(
    buffer_ref: u32,
    lookup: Lookup<BufferDescriptor>,
    page_shift: u32,
    offset: u64,
    len: usize,
) -> Result<u64, ComputeStatus> {
    match buffer_backing(buffer_ref, lookup, page_shift) {
        None => Err(ComputeStatus::MissingBuffer("compute_buf_win_no_backing")),
        Some((base, size)) => if offset + len > size {
            Err(ComputeStatus::MissingBuffer("compute_buf_win_oob"))
        } else if base + offset > u64::MAX {
            Err(ComputeStatus::MissingBuffer("compute_buf_win_gva_overflow"))
        } else {
            Ok((base + offset) as u64)
        },
    }
}

/// Decide where to read `len` bytes of a buffer from.
pub fn plan_buffer_window(
    buffer_ref: u32,
    lookup: &Lookup<BufferDescriptor>,
    page_shift: u32,
    offset: u64,
    len: usize,
) -> (gva: Result<u64, ComputeStatus>)
    requires
        page_shift < 64,
    ensures
        gva == window_plan(buffer_ref, *lookup, page_shift, offset, len),
{
    let (base, size) = match buffer_gva_size(buffer_ref, lookup, page_shift) {
        Some(backing) => backing,
        None => {
            return Err(ComputeStatus::MissingBuffer("compute_buf_win_no_backing"));
        },
    };
    let within = match offset.checked_add(len as u64) {
        Some(end) => end <= size,
        None => false,
    };
    if !within {
        return Err(ComputeStatus::MissingBuffer("compute_buf_win_oob"));
    }
    match base.checked_add(offset) {
        Some(gva) => Ok(gva),
        None => Err(ComputeStatus::MissingBuffer("compute_buf_win_gva_overflow")),
    }
}

/// The window as read, or the refusal of a read that failed.
pub fn read_buffer_window(read: Option<Vec<u8>>) -> (bytes: Result<Vec<u8>, ComputeStatus>)
    ensures
        match read {
            Some(b) => bytes == Ok::<Vec<u8>, ComputeStatus>(b),
            None => bytes == Err::<Vec<u8>, ComputeStatus>(
                ComputeStatus::GuestIo("compute_buf_win_read"),
            ),
        },
{
    match read {
        Some(bytes) => Ok(bytes),
        None => Err(ComputeStatus::GuestIo("compute_buf_win_read")),
    }
}

/// A bound buffer with the bytes that the kernel sees of it.
#[derive(Clone, Debug, PartialEq, Eq)]
pub struct StagedBuffer {
    pub bind: ComputeBufferBind,
    pub gva: u64,
    pub bytes: Vec<u8>,
}

/// Where a bound buffer's bytes are: from its offset to its end.
pub open spec fn buffer_plan(
    bind: ComputeBufferBind,
    lookup: Lookup<BufferDescriptor>,
    page_shift: u32,
) -> Result<(u64, usize), ComputeStatus> {
    match lookup {
        Lookup::NoEntry => Err(ComputeStatus::MissingBuffer("compute_stage_buf_no_entry")),
        Lookup::WrongType(_) => Err(ComputeStatus::MissingBuffer("compute_stage_buf_wrong_type")),
        Lookup::NoDescriptor => Err(ComputeStatus::MissingBuffer("compute_stage_buf_no_desc")),
        Lookup::Undecoded => Err(ComputeStatus::MissingBuffer("compute_stage_buf_decode")),
        Lookup::Decoded(desc) => match desc.backing(page_shift) {
            None => Err(ComputeStatus::MissingBuffer("compute_stage_buf_no_backing")),
            Some((base, size)) => if bind.offset >= size {
                Err(ComputeStatus::MissingBuffer("compute_stage_buf_off_oob"))
            } else if size - bind.offset > usize::MAX {
                Err(ComputeStatus::MissingBuffer("compute_stage_buf_want_bad"))
            } else if base + bind.offset > u64::MAX {
                Err(ComputeStatus::MissingBuffer("compute_stage_buf_gva_overflow"))
            } else {
                Ok(((base + bind.offset) as u64, (size - bind.offset) as usize))
            },
        },
    }
}

/// Decide what to read for a bound buffer.
pub fn plan_buffer(
    bind: &ComputeBufferBind,
    lookup: &Lookup<BufferDescriptor>,
    page_shift: u32,
) -> (plan: Result<(u64, usize), ComputeStatus>)
    requires
        page_shift < 64,
    ensures
        plan == buffer_plan(*bind, *lookup, page_shift),
{
    let desc = match lookup {
        Lookup::NoEntry => {
            return Err(ComputeStatus::MissingBuffer("compute_stage_buf_no_entry"));
        },
        Lookup::WrongType(_) => {
            return Err(ComputeStatus::MissingBuffer("compute_stage_buf_wrong_type"));
        },
        Lookup::NoDescriptor => {
            return Err(ComputeStatus::MissingBuffer("compute_stage_buf_no_desc"));
        },
        Lookup::Undecoded => {
            return Err(ComputeStatus::MissingBuffer("compute_stage_buf_decode"));
        },
        Lookup::Decoded(desc) => desc,
    };
    let (base, size) = match desc.backing_gva_size(page_shift) {
        Some(backing) => backing,
        None => {
            return Err(ComputeStatus::MissingBuffer("compute_stage_buf_no_backing"));
        },
    };
    if bind.offset >= size {
        return Err(ComputeStatus::MissingBuffer("compute_stage_buf_off_oob"));
    }
    let want: usize = match host_alloc_len(size - bind.offset) {
        Some(want) => want,
        None => {
            return Err(ComputeStatus::MissingBuffer("compute_stage_buf_want_bad"));
        },
    };
    match base.checked_add(bind.offset) {
        Some(gva) => Ok((gva, want)),
        None => Err(ComputeStatus::MissingBuffer("compute_stage_buf_gva_overflow")),
    }
}

/// What a bound buffer stages as, once the `len` bytes that were planned for it
/// were read or could not be.
pub fn stage_buffer(
    bind: &ComputeBufferBind,
    gva: u64,
    len: usize,
    read: Option<Vec<u8>>,
) -> (staged: Result<StagedBuffer, ComputeStatus>)
    requires
        read is Some ==> read->0.len() == len,
    ensures
        staged is Ok ==> staged->Ok_0.bytes.len() == len,
        match read {
            Some(bytes) => staged == Ok::<StagedBuffer, ComputeStatus>(
                StagedBuffer { bind: *bind, gva, bytes },
            ),
            None => staged == Err::<StagedBuffer, ComputeStatus>(
                ComputeStatus::GuestIo("compute_stage_buf_gva_read"),
            ),
        },
        staged is Ok <==> read is Some,
        staged is Ok ==> staged->Ok_0.gva == gva && staged->Ok_0.bind.index == bind.index
            && staged->Ok_0.bind.offset == bind.offset,
{
    match read {
        Some(bytes) => Ok(StagedBuffer { bind: *bind, gva, bytes }),
        None => Err(ComputeStatus::GuestIo("compute_stage_buf_gva_read")),
    }
}

/// The outcome of writing a staged buffer back.
pub fn writeback_buffer(wrote: bool) -> (outcome: Result<(), ComputeStatus>)
    ensures
        outcome == if wrote {
            Ok::<(), ComputeStatus>(())
        } else {
            Err::<(), ComputeStatus>(ComputeStatus::GuestIo("compute_wb_buf_task_gva_write"))
        },
{
    if wrote {
        Ok(())
    } else {
        Err(ComputeStatus::GuestIo("compute_wb_buf_task_gva_write"))
    }
}

/// What is staged of a bound buffer lies within its backing.
pub proof fn law_staged_bytes_lie_in_the_buffer(
    bind: ComputeBufferBind,
    desc: BufferDescriptor,
    page_shift: u32,
)
    requires
        buffer_plan(bind, Lookup::Decoded(desc), page_shift) is Ok,
    ensures
        ({
            let (gva, len) = buffer_plan(bind, Lookup::Decoded(desc), page_shift)->Ok_0;
            let (base, size) = desc.backing(page_shift)->0;
            &&& base <= gva
            &&& gva + len == base + size
            &&& len > 0
        }),
{
}

} // verus!
