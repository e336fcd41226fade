//! What a dispatch on a Metal device is made of.
//!
//! The Metal backend takes the kernel's container as it is and reflects it by
//! itself, so that stage-in input, imageblocks and shared encoders can be had there.

use vstd::prelude::*;
use crate::compute_exec::accum::ComputeSamplerBind;
use crate::compute_exec::buffers::{
    ComputeStageInputDescriptor, StageInputAttribute, StageInputLayout, StagedBuffer,
};
use crate::compute_exec::dims::{STAGE_IN_INDIRECT_ARGS_LEN, argument};
use crate::compute_exec::format::StorageImageFormat;
use crate::compute_exec::status::ComputeStatus;
use crate::compute_exec::texture::StagedTexture;
use crate::contract::ld32;
use crate::spirv_bind::SAMPLER_BINDING_BASE;

verus! {

/// The dispatch type of an encoder that runs its dispatches at once.
pub const DISPATCH_TYPE_CONCURRENT: u32 = 1;
/// The dispatch type of an encoder that runs its dispatches in turn.
pub const DISPATCH_TYPE_SERIAL: u32 = 0;

/// The dispatch type that the encoder is made with: whatever is not concurrent is
/// serial.
pub fn encoder_dispatch_type(dispatch_type: u32) -> (out: u32)
    ensures
        out == if dispatch_type == DISPATCH_TYPE_CONCURRENT {
            DISPATCH_TYPE_CONCURRENT
        } else {
            DISPATCH_TYPE_SERIAL
        },
        dispatch_type == 1 ==> out == 1,
        dispatch_type != 1 ==> out == 0,
{
    if dispatch_type == DISPATCH_TYPE_CONCURRENT {
        DISPATCH_TYPE_CONCURRENT
    } else {
        DISPATCH_TYPE_SERIAL
    }
}

/// The arguments of an indirect stage-in region.
#[derive(Clone, Copy, Debug, PartialEq, Eq, Structural)]
pub struct StageInArguments {
    pub origin_x: u32,
    pub origin_y: u32,
    pub origin_z: u32,
    pub size_x: u32,
    pub size_y: u32,
    pub size_z: u32,
}

/// Read the arguments of an indirect stage-in region.
pub fn stage_in_arguments(raw: &[u8]) -> (arguments: StageInArguments)
    requires
        raw.len() == STAGE_IN_INDIRECT_ARGS_LEN,
    ensures
        arguments.origin_x == argument(raw@, 0),
        arguments.origin_y == argument(raw@, 1),
        arguments.origin_z == argument(raw@, 2),
        arguments.size_x == argument(raw@, 3),
        arguments.size_y == argument(raw@, 4),
        arguments.size_z == argument(raw@, 5),
{
    StageInArguments {
        origin_x: ld32(raw, 0),
        origin_y: ld32(raw, 4),
        origin_z: ld32(raw, 8),
        size_x: ld32(raw, 12),
        size_y: ld32(raw, 16),
        size_z: ld32(raw, 20),
    }
}

/// Rows of the backend's stage-input attribute table.
pub const STAGE_INPUT_MAX_ATTRIBUTES: usize = 31;
/// Rows of the backend's stage-input layout table.
pub const STAGE_INPUT_MAX_LAYOUTS: usize = 31;

/// A stage input as the backend takes it: tables of fixed size, and how many of
/// their rows count.
#[derive(Clone, Debug, PartialEq, Eq)]
pub struct StageInputTables {
    pub word0: u32,
    pub header0: u32,
    pub header1: u32,
    pub attribute_count: u32,
    pub layout_count: u32,
    pub index_type: u32,
    pub index_buffer_index: u32,
    pub attributes: Vec<StageInputAttribute>,
    pub layouts: Vec<StageInputLayout>,
}

/// The row of a table: the entry, or zeros behind the last one.
pub open spec fn attribute_row(attributes: Seq<StageInputAttribute>, i: int) -> StageInputAttribute {
    if i < attributes.len() {
        attributes[i]
    } else {
        StageInputAttribute { raw_bits: 0, location: 0, format: 0, offset: 0, buffer_index: 0 }
    }
}

pub open spec fn layout_row(layouts: Seq<StageInputLayout>, i: int) -> StageInputLayout {
    if i < layouts.len() {
        layouts[i]
    } else {
        StageInputLayout { raw_bits: 0, buffer_index: 0, step_function: 0, step_rate: 0, stride: 0 }
    }
}

/// Lay a stage input out as the backend takes it. Entries past the tables are cut.
pub fn stage_input_to_apv(si: &ComputeStageInputDescriptor) -> (out: StageInputTables)
    ensures
        out.word0 == si.word0,
        out.header0 == si.header0,
        out.header1 == si.header1,
        out.attribute_count == si.attributes.len() as u32,
        out.layout_count == si.layouts.len() as u32,
        out.index_type == si.index_type,
        out.index_buffer_index == si.index_buffer_index,
        out.attributes@ == Seq::new(
            STAGE_INPUT_MAX_ATTRIBUTES as nat,
            |i: int| attribute_row(si.attributes@, i),
        ),
        out.layouts@ == Seq::new(
            STAGE_INPUT_MAX_LAYOUTS as nat,
            |i: int| layout_row(si.layouts@, i),
        ),
{
    let mut attributes: Vec<StageInputAttribute> = Vec::new();
    while attributes.len() < STAGE_INPUT_MAX_ATTRIBUTES
        invariant
            attributes.len() <= STAGE_INPUT_MAX_ATTRIBUTES,
            forall|i: int|
                0 <= i < attributes.len() ==> #[trigger] attributes[i] == attribute_row(
                    si.attributes@,
                    i,
                ),
        decreases STAGE_INPUT_MAX_ATTRIBUTES - attributes.len(),
    {
        let i: usize = attributes.len();
        let row = if i < si.attributes.len() {
            si.attributes[i]
        } else {
            StageInputAttribute { raw_bits: 0, location: 0, format: 0, offset: 0, buffer_index: 0 }
        };
        attributes.push(row);
    }
    let mut layouts: Vec<StageInputLayout> = Vec::new();
    while layouts.len() < STAGE_INPUT_MAX_LAYOUTS
        invariant
            layouts.len() <= STAGE_INPUT_MAX_LAYOUTS,
            forall|i: int|
                0 <= i < layouts.len() ==> #[trigger] layouts[i] == layout_row(si.layouts@, i),
        decreases STAGE_INPUT_MAX_LAYOUTS - layouts.len(),
    {
        let i: usize = layouts.len();
        let row = if i < si.layouts.len() {
            si.layouts[i]
        } else {
            StageInputLayout {
                raw_bits: 0,
                buffer_index: 0,
                step_function: 0,
                step_rate: 0,
                stride: 0,
            }
        };
        layouts.push(row);
    }
    assert(attributes@ =~= Seq::new(
        STAGE_INPUT_MAX_ATTRIBUTES as nat,
        |i: int| attribute_row(si.attributes@, i),
    ));
    assert(layouts@ =~= Seq::new(
        STAGE_INPUT_MAX_LAYOUTS as nat,
        |i: int| layout_row(si.layouts@, i),
    ));
    StageInputTables {
        word0: si.word0,
        header0: si.header0,
        header1: si.header1,
        attribute_count: #[verifier::truncate] (si.attributes.len() as u32),
        layout_count: #[verifier::truncate] (si.layouts.len() as u32),
        index_type: si.index_type,
        index_buffer_index: si.index_buffer_index,
        attributes,
        layouts,
    }
}

/// What the backend reflected of a texture argument.
#[derive(Clone, Copy, Debug, PartialEq, Eq, Structural)]
pub enum TextureAccess {
    Read,
    Write,
    ReadWrite,
}

/// The access reflected for `binding`: the first one from `i` on, and both ways
/// where there is none.
pub open spec fn reflected_access(
    usages: Seq<(u32, TextureAccess)>,
    i: int,
    binding: u32,
) -> TextureAccess
    decreases usages.len() - i,
{
    if i < 0 || i >= usages.len() {
        TextureAccess::ReadWrite
    } else if usages[i].0 == binding {
        usages[i].1
    } else {
        reflected_access(usages, i + 1, binding)
    }
}

/// Whether a bound texture is a storage image: unless it is known to be only read.
pub fn binds_storage(usages: &[(u32, TextureAccess)], binding: u32) -> (storage: bool)
    ensures
        storage == (reflected_access(usages@, 0, binding) != TextureAccess::Read),
{
    let mut i: usize = 0;
    while i < usages.len()
        invariant
            i <= usages.len(),
            reflected_access(usages@, 0, binding) == reflected_access(usages@, i as int, binding),
        decreases usages.len() - i,
    {
        if usages[i].0 == binding {
            return match usages[i].1 {
                TextureAccess::Read => false,
                _ => true,
            };
        }
        i = i + 1;
    }
    true
}

/// A sampler object's descriptor.
#[derive(Clone, Copy, Debug, PartialEq, Eq, Structural)]
pub struct SamplerDescriptor {
    pub normalized_coordinates: bool,
    pub min_filter: u32,
    pub mag_filter: u32,
    pub mip_filter: u32,
    pub s_address: u32,
    pub t_address: u32,
    pub r_address: u32,
    pub border_color: u32,
    pub compare_function: u32,
    pub lod_min_bits: u32,
    pub lod_max_bits: u32,
    pub max_anisotropy: u32,
    pub lod_average: bool,
    pub support_argument_buffers: bool,
}

/// What looking a sampler up came to.
#[derive(Clone, Copy, Debug, PartialEq, Eq, Structural)]
pub enum SamplerLookup {
    NoEntry,
    WrongType,
    NoDescriptor,
    /// The descriptor's tag is not a sampler's, or is cut off.
    BadTag,
    Undecoded,
    Decoded(SamplerDescriptor),
}

/// A sampler as the backend takes it.
#[derive(Clone, Copy, Debug, PartialEq, Eq, Structural)]
pub struct MetalSampler {
    pub binding: u32,
    pub unnormalized: bool,
    pub min_filter: u32,
    pub mag_filter: u32,
    pub mip_filter: u32,
    pub s_address_mode: u32,
    pub t_address_mode: u32,
    pub r_address_mode: u32,
    pub border_color: u32,
    pub compare_function: u32,
    pub lod_min_bits: u32,
    pub lod_max_bits: u32,
    pub max_anisotropy: u32,
    pub lod_average: bool,
    pub support_argument_buffers: bool,
}

/// The sampler of a bind. The bind's clamp, where it has one, comes before the
/// descriptor's.
pub open spec fn sampler_of(bind: ComputeSamplerBind, lookup: SamplerLookup) -> Result<
    MetalSampler,
    ComputeStatus,
> {
    match lookup {
        SamplerLookup::NoEntry => Err(
            ComputeStatus::MissingSampler("compute_mtl_sampler_no_entry"),
        ),
        SamplerLookup::WrongType => Err(
            ComputeStatus::MissingSampler("compute_mtl_sampler_wrong_type"),
        ),
        SamplerLookup::NoDescriptor => Err(
            ComputeStatus::MissingSampler("compute_mtl_sampler_no_desc"),
        ),
        SamplerLookup::BadTag => Err(ComputeStatus::MissingSampler("compute_mtl_sampler_bad_tag")),
        SamplerLookup::Undecoded => Err(
            ComputeStatus::MissingSampler("compute_mtl_sampler_decode"),
        ),
        SamplerLookup::Decoded(d) => Ok(
            MetalSampler {
                binding: (SAMPLER_BINDING_BASE + bind.index) as u32,
                unnormalized: !d.normalized_coordinates,
                min_filter: d.min_filter,
                mag_filter: d.mag_filter,
                mip_filter: d.mip_filter,
                s_address_mode: d.s_address,
                t_address_mode: d.t_address,
                r_address_mode: d.r_address,
                border_color: d.border_color,
                compare_function: d.compare_function,
                lod_min_bits: if bind.has_lod_clamp {
                    bind.lod_min_bits
                } else {
                    d.lod_min_bits
                },
                lod_max_bits: if bind.has_lod_clamp {
                    bind.lod_max_bits
                } else {
                    d.lod_max_bits
                },
                max_anisotropy: if d.max_anisotropy == 0 {
                    1
                } else {
                    d.max_anisotropy
                },
                lod_average: d.lod_average,
                support_argument_buffers: d.support_argument_buffers,
            },
        ),
    }
}

/// Load the sampler of a bind.
pub fn metal_sampler(bind: &ComputeSamplerBind, lookup: &SamplerLookup) -> (sampler: Result<
    MetalSampler,
    ComputeStatus,
>)
    requires
        SAMPLER_BINDING_BASE + bind.index <= u32::MAX,
    ensures
        sampler == sampler_of(*bind, *lookup),
{
    let d = match lookup {
        SamplerLookup::NoEntry => {
            return Err(ComputeStatus::MissingSampler("compute_mtl_sampler_no_entry"));
        },
        SamplerLookup::WrongType => {
            return Err(ComputeStatus::MissingSampler("compute_mtl_sampler_wrong_type"));
        },
        SamplerLookup::NoDescriptor => {
            return Err(ComputeStatus::MissingSampler("compute_mtl_sampler_no_desc"));
        },
        SamplerLookup::BadTag => {
            return Err(ComputeStatus::MissingSampler("compute_mtl_sampler_bad_tag"));
        },
        SamplerLookup::Undecoded => {
            return Err(ComputeStatus::MissingSampler("compute_mtl_sampler_decode"));
        },
        SamplerLookup::Decoded(d) => *d,
    };
    let lod_min_bits: u32 = if bind.has_lod_clamp {
        bind.lod_min_bits
    } else {
        d.lod_min_bits
    };
    let lod_max_bits: u32 = if bind.has_lod_clamp {
        bind.lod_max_bits
    } else {
        d.lod_max_bits
    };
    Ok(
        MetalSampler {
            binding: SAMPLER_BINDING_BASE + bind.index,
            unnormalized: !d.normalized_coordinates,
            min_filter: d.min_filter,
            mag_filter: d.mag_filter,
            mip_filter: d.mip_filter,
            s_address_mode: d.s_address,
            t_address_mode: d.t_address,
            r_address_mode: d.r_address,
            border_color: d.border_color,
            compare_function: d.compare_function,
            lod_min_bits,
            lod_max_bits,
            max_anisotropy: if d.max_anisotropy == 0 {
                1
            } else {
                d.max_anisotropy
            },
            lod_average: d.lod_average,
            support_argument_buffers: d.support_argument_buffers,
        },
    )
}

/// The format that the backend takes a staged texture in, sampled or not.
pub fn metal_format(texture: &StagedTexture) -> (format: Result<StorageImageFormat, ComputeStatus>)
    ensures
        format == match texture.storage_selector {
            Some(format) => Ok::<StorageImageFormat, ComputeStatus>(format),
            None => Err(ComputeStatus::Unsupported("metal_no_backend_selector")),
        },
{
    match texture.storage_selector {
        Some(format) => Ok(format),
        None => Err(ComputeStatus::Unsupported("metal_no_backend_selector")),
    }
}

/// What a dispatch on a shared encoder has to write back once the encoder's work
/// is done.
pub struct NestedDispatchJob {
    pub staged_bufs: Vec<StagedBuffer>,
    /// Storage textures alone; sampled ones are not written back.
    pub storage_tex: Vec<StagedTexture>,
}

/// The storage images among the textures.
pub open spec fn storage_only(textures: Seq<StagedTexture>) -> Seq<StagedTexture> {
    textures.filter(|t: StagedTexture| t.is_storage)
}

/// Split off what a nested dispatch has to write back. The backend retained one
/// image for each storage texture, or something is amiss.
pub fn nested_job(
    staged_bufs: Vec<StagedBuffer>,
    textures: Vec<StagedTexture>,
    retained_images: usize,
) -> (job: Result<NestedDispatchJob, ComputeStatus>)
    ensures
        match job {
            Ok(job) => job.staged_bufs == staged_bufs && job.storage_tex@ == storage_only(
                textures@,
            ) && storage_only(textures@).len() == retained_images,
            Err(status) => status == ComputeStatus::MetalFailed("compute_mtl_retain_image_count")
                && storage_only(textures@).len() != retained_images,
        },
{
    let ghost all = textures@;
    let mut left = textures;
    let mut storage_tex: Vec<StagedTexture> = Vec::new();
    let n: usize = left.len();
    let mut i: usize = 0;
    proof {
        reveal(Seq::filter);
        assert(all.take(0) =~= Seq::<StagedTexture>::empty());
        assert(storage_tex@ =~= storage_only(all.take(0)));
    }
    while i < n
        invariant
            i <= n,
            n == all.len(),
            all == textures@,
            left@ =~= all.subrange(i as int, n as int),
            storage_tex@ == storage_only(all.take(i as int)),
        decreases n - i,
    {
        let t = left.remove(0);
        proof {
            reveal(Seq::filter);
            assert(t == all[i as int]);
            let next = all.take(i + 1);
            assert(next.drop_last() =~= all.take(i as int));
            assert(next.last() == t);
        }
        if t.is_storage {
            storage_tex.push(t);
        }
        i = i + 1;
    }
    assert(all.take(n as int) =~= all);
    if storage_tex.len() != retained_images {
        return Err(ComputeStatus::MetalFailed("compute_mtl_retain_image_count"));
    }
    Ok(NestedDispatchJob { staged_bufs, storage_tex })
}

/// A job of buffers and storage textures that a command buffer of commands filled.
pub fn nested_job_from_icb_resources(
    staged_bufs: Vec<StagedBuffer>,
    storage_tex: Vec<StagedTexture>,
) -> (job: NestedDispatchJob)
    ensures
        job.staged_bufs == staged_bufs,
        job.storage_tex == storage_tex,
{
    NestedDispatchJob { staged_bufs, storage_tex }
}

/// A job of buffers alone.
pub fn nested_job_from_icb_buffers(staged_bufs: Vec<StagedBuffer>) -> (job: NestedDispatchJob)
    ensures
        job.staged_bufs == staged_bufs,
        job.storage_tex@.len() == 0,
{
    nested_job_from_icb_resources(staged_bufs, Vec::new())
}

} // verus!
