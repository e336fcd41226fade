//! Compute binds and dispatches of a guest command segment.
//!
//! Binds accumulate in [`accum::ComputeAccum`]. A dispatch takes the bound
//! resources through staging, kernel specialization and the engine, and writes
//! the results back; the steps that only compute are here, and the reads, the
//! translation and the engine run are the caller's.

pub mod accum;
pub mod buffers;
pub mod command;
pub mod dims;
pub mod dims_laws;
pub mod dispatch;
pub mod dispatch_laws;
pub mod flush_laws;
pub mod format;
pub mod format_laws;
pub mod handoff;
pub mod kernel;
pub mod kernel_laws;
pub mod linear_cache;
pub mod linear_laws;
pub mod linear_texture;
pub mod metal;
pub mod metal_dispatch;
pub mod metal_laws;
pub mod nested_flush;
pub mod output_laws;
pub mod outputs;
pub mod phases;
pub mod record;
pub mod record_laws;
pub mod request;
pub mod request_laws;
pub mod restage;
pub mod restage_laws;
pub mod stage;
pub mod status;
pub mod status_laws;
pub mod stride;
pub mod stride_laws;
pub mod surface_laws;
pub mod surface_texture;
pub mod texture;
pub mod texture_laws;
pub mod writeback;

pub use accum::{
    ComputeAccum, ComputeBufferBind, ComputeSamplerBind, ComputeTextureBind, ImageblockDimensions,
    StageInRegion, StageInRegionIndirect, ThreadgroupMemoryBind,
};
pub use dispatch::execute_dispatch;
pub use metal_dispatch::execute_dispatch_metal;
pub use record::apply_record;
pub use status::{ComputeSpirvDecline, ComputeStatus, MetalFault, MetalStatus};
