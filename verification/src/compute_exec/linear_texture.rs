//! Staging a linear texture: one that lies in task memory in strided rows.

use vstd::prelude::*;
use crate::compute_exec::buffers::Lookup;
use crate::compute_exec::format::{
    StorageImageFormat, effective_view_sample_format, storage_format, storage_selector, view_format,
};
use crate::compute_exec::linear_cache::{LinearWindow, linear_mirrorable, mirrorable};
use crate::compute_exec::status::ComputeStatus;
use crate::compute_exec::texture::{
    BaseTexture, ComputeStorageResidencyCandidate, EngineResidents, ResidentSample, StagedTexture,
    StagedView, TextureWriteback, can_sample_resident, samples_resident, stages_as, zeroed, zeros,
};
use crate::contract::{bytes_per_pixel, saturated, saturating_product, texel_bytes};
use crate::residency::ComputeStorageResidencyKey;

verus! {

/// Where one level of a linear texture is.
#[derive(Clone, Copy, Debug, PartialEq, Eq, Structural)]
pub struct LevelLayout {
    pub gva: u64,
    pub width: u32,
    pub height: u32,
    pub row_stride: u64,
}

/// A linear texture object, as far as a dispatch goes by it.
#[derive(Clone, Copy, Debug, PartialEq, Eq, Structural)]
pub struct LinearDescriptor {
    pub has_pixel_format: bool,
    pub pixel_format: u16,
    /// The layout of the wanted level, where the texture has it.
    pub level: Option<LevelLayout>,
}

/// What a linear texture is staged from.
#[derive(Clone, Copy, Debug, PartialEq, Eq, Structural)]
pub struct LinearPlan {
    pub texture_ref: u32,
    pub format: u16,
    pub bpp: u32,
    pub selector: Option<StorageImageFormat>,
    pub layout: LevelLayout,
    /// Bytes of one tight row.
    pub tight: usize,
    /// Bytes of all tight rows.
    pub need: usize,
    /// The window's identity, where its stride fits one.
    pub key: Option<ComputeStorageResidencyKey>,
}

impl LinearPlan {
    pub open spec fn window_spec(self) -> LinearWindow {
        LinearWindow {
            gva: self.layout.gva,
            pixel_format: self.format,
            width: self.layout.width,
            height: self.layout.height,
            row_stride: self.layout.row_stride,
        }
    }

    /// The window that the texture occupies.
    pub fn window(&self) -> (window: LinearWindow)
        ensures
            window == self.window_spec(),
    {
        LinearWindow {
            gva: self.layout.gva,
            pixel_format: self.format,
            width: self.layout.width,
            height: self.layout.height,
            row_stride: self.layout.row_stride,
        }
    }
}

/// The plan of a linear texture, from its layout on.
pub open spec fn layout_plan(
    task_id: u32,
    texture_ref: u32,
    format: u16,
    bpp: u32,
    layout: LevelLayout,
) -> Result<LinearPlan, ComputeStatus> {
    let w = layout.width;
    let h = layout.height;
    if w == 0 || h == 0 || layout.row_stride == 0 {
        Err(ComputeStatus::MissingTexture("compute_linear_tex_zero_geom"))
    } else if w * bpp > usize::MAX {
        Err(ComputeStatus::Unsupported("linear_tex_tight_overflow"))
    } else if layout.row_stride < w * bpp {
        Err(ComputeStatus::MissingTexture("compute_linear_tex_stride_lt_tight"))
    } else if w * bpp * h > usize::MAX {
        Err(ComputeStatus::Unsupported("linear_tex_need_overflow"))
    } else {
        Ok(
            LinearPlan {
                texture_ref,
                format,
                bpp,
                selector: storage_format(format),
                layout,
                tight: (w * bpp) as usize,
                need: (w * bpp * h) as usize,
                key: if layout.row_stride <= u32::MAX {
                    Some(
                        ComputeStorageResidencyKey::spec_linear(
                            task_id,
                            texture_ref,
                            layout.gva,
                            layout.row_stride as u32,
                            saturated(layout.row_stride * h),
                            w,
                            h,
                            format,
                        ),
                    )
                } else {
                    None
                },
            },
        )
    }
}

/// The plan of a linear texture.
pub open spec fn linear_plan(
    task_id: u32,
    base: BaseTexture,
    lookup: Lookup<LinearDescriptor>,
    is_storage: bool,
) -> Result<LinearPlan, ComputeStatus> {
    match lookup {
        Lookup::NoEntry => Err(ComputeStatus::MissingTexture("compute_linear_tex_no_entry")),
        Lookup::WrongType(_) => Err(
            ComputeStatus::MissingTexture("compute_linear_tex_not_texture"),
        ),
        Lookup::NoDescriptor => Err(ComputeStatus::MissingTexture("compute_linear_tex_no_desc")),
        Lookup::Undecoded => Err(ComputeStatus::MissingTexture("compute_linear_tex_desc_decode")),
        Lookup::Decoded(d) => if !d.has_pixel_format {
            Err(ComputeStatus::Unsupported("linear_tex_no_fmt"))
        } else {
            match view_format(d.pixel_format, base.pixel_format) {
                None => Err(ComputeStatus::Unsupported("linear_tex_view_format")),
                Some(format) => match texel_bytes(format) {
                    None => Err(ComputeStatus::Unsupported("linear_tex_fmt_bytes")),
                    Some(bpp) => if is_storage && storage_format(format) is None {
                        Err(ComputeStatus::Unsupported("linear_tex_fmt_storage"))
                    } else {
                        match d.level {
                            None => Err(
                                ComputeStatus::MissingTexture("compute_linear_tex_no_level"),
                            ),
                            Some(layout) => layout_plan(
                                task_id,
                                base.stage_ref,
                                format,
                                bpp,
                                layout,
                            ),
                        }
                    },
                },
            }
        },
    }
}

/// Plan the staging of a linear texture.
pub fn plan_linear_texture(
    task_id: u32,
    base: &BaseTexture,
    lookup: &Lookup<LinearDescriptor>,
    is_storage: bool,
) -> (plan: Result<LinearPlan, ComputeStatus>)
    ensures
        plan == linear_plan(task_id, *base, *lookup, is_storage),
{
    let d = match lookup {
        Lookup::NoEntry => {
            return Err(ComputeStatus::MissingTexture("compute_linear_tex_no_entry"));
        },
        Lookup::WrongType(_) => {
            return Err(ComputeStatus::MissingTexture("compute_linear_tex_not_texture"));
        },
        Lookup::NoDescriptor => {
            return Err(ComputeStatus::MissingTexture("compute_linear_tex_no_desc"));
        },
        Lookup::Undecoded => {
            return Err(ComputeStatus::MissingTexture("compute_linear_tex_desc_decode"));
        },
        Lookup::Decoded(d) => d,
    };
    if !d.has_pixel_format {
        return Err(ComputeStatus::Unsupported("linear_tex_no_fmt"));
    }
    let format: u16 = match effective_view_sample_format(d.pixel_format, base.pixel_format) {
        Some(format) => format,
        None => {
            return Err(ComputeStatus::Unsupported("linear_tex_view_format"));
        },
    };
    let bpp: u32 = match bytes_per_pixel(format) {
        Some(bpp) => bpp,
        None => {
            return Err(ComputeStatus::Unsupported("linear_tex_fmt_bytes"));
        },
    };
    let selector = storage_selector(format);
    if is_storage && selector.is_none() {
        return Err(ComputeStatus::Unsupported("linear_tex_fmt_storage"));
    }
    let layout = match d.level {
        Some(layout) => layout,
        None => {
            return Err(ComputeStatus::MissingTexture("compute_linear_tex_no_level"));
        },
    };
    let w: u32 = layout.width;
    let h: u32 = layout.height;
    if w == 0 || h == 0 || layout.row_stride == 0 {
        return Err(ComputeStatus::MissingTexture("compute_linear_tex_zero_geom"));
    }
    assert(w * bpp <= 0xffff_ffff * 16) by (nonlinear_arith)
        requires
            w <= 0xffff_ffff,
            bpp <= 16,
    ;
    let row: u64 = w as u64 * bpp as u64;
    if row > usize::MAX as u64 {
        return Err(ComputeStatus::Unsupported("linear_tex_tight_overflow"));
    }
    if layout.row_stride < row {
        return Err(ComputeStatus::MissingTexture("compute_linear_tex_stride_lt_tight"));
    }
    assert(row * h <= 0xffff_ffff * 16 * 0xffff_ffff) by (nonlinear_arith)
        requires
            row <= 0xffff_ffff * 16,
            h <= 0xffff_ffff,
    ;
    let need: u128 = row as u128 * h as u128;
    if need > usize::MAX as u128 {
        return Err(ComputeStatus::Unsupported("linear_tex_need_overflow"));
    }
    let span: u64 = saturating_product(layout.row_stride, h as u64);
    let key = if layout.row_stride <= 0xffff_ffff {
        Some(
            ComputeStorageResidencyKey::linear(
                task_id,
                base.stage_ref,
                layout.gva,
                layout.row_stride as u32,
                span,
                w,
                h,
                format,
            ),
        )
    } else {
        None
    };
    Ok(
        LinearPlan {
            texture_ref: base.stage_ref,
            format,
            bpp,
            selector,
            layout,
            tight: row as usize,
            need: need as usize,
            key,
        },
    )
}

/// What a linear texture's texels are taken from.
#[derive(Clone, Copy, Debug, PartialEq, Eq, Structural)]
pub enum LinearSource {
    /// The engine's resident seeds the storage image.
    Seed(u32),
    /// The engine's resident is copied to the sampled image.
    Sample(ResidentSample),
    /// The engine's resident is authoritative but cannot serve this bind: it has
    /// to be flushed into the host's copy first.
    Flush(ComputeStorageResidencyKey, u32),
    /// The host's copy, or else the guest.
    Bytes,
}

/// The source of a linear texture's texels. `resident` is the generation at which
/// the engine's resident is authoritative for the window, where it is.
pub open spec fn source_of(
    plan: LinearPlan,
    is_storage: bool,
    resident: Option<u32>,
    residents: EngineResidents,
) -> LinearSource {
    match (plan.key, resident) {
        (Some(key), Some(generation)) => if is_storage {
            if residents.storage_generation_spec(key) == Some(generation) {
                LinearSource::Seed(generation)
            } else {
                LinearSource::Flush(key, generation)
            }
        } else if samples_resident(residents, key, generation, plan.format) {
            LinearSource::Sample(ResidentSample { key, generation })
        } else {
            LinearSource::Flush(key, generation)
        },
        _ => LinearSource::Bytes,
    }
}

/// Decide where a linear texture's texels are taken from.
pub fn linear_source(
    plan: &LinearPlan,
    is_storage: bool,
    resident: Option<u32>,
    residents: &EngineResidents,
) -> (source: LinearSource)
    ensures
        source == source_of(*plan, is_storage, resident, *residents),
{
    match (plan.key, resident) {
        (Some(key), Some(generation)) => {
            if is_storage {
                match residents.storage_generation(&key) {
                    Some(g) => {
                        if g == generation {
                            return LinearSource::Seed(generation);
                        }
                    },
                    None => {},
                }
            } else if can_sample_resident(residents, &key, generation, plan.format) {
                return LinearSource::Sample(ResidentSample { key, generation });
            }
            LinearSource::Flush(key, generation)
        },
        _ => LinearSource::Bytes,
    }
}

/// The task address of row `y`.
pub open spec fn row_gva(plan: LinearPlan, y: u32) -> Result<u64, ComputeStatus> {
    if y * plan.layout.row_stride > u64::MAX {
        Err(ComputeStatus::GuestIo("compute_stage_tex_linear_row_offset"))
    } else if plan.layout.gva + y * plan.layout.row_stride > u64::MAX {
        Err(ComputeStatus::GuestIo("compute_stage_tex_linear_row_gva"))
    } else {
        Ok((plan.layout.gva + y * plan.layout.row_stride) as u64)
    }
}

pub fn linear_row_gva(plan: &LinearPlan, y: u32) -> (gva: Result<u64, ComputeStatus>)
    ensures
        gva == row_gva(*plan, y),
{
    match (y as u64).checked_mul(plan.layout.row_stride) {
        Some(offset) => match plan.layout.gva.checked_add(offset) {
            Some(gva) => Ok(gva),
            None => Err(ComputeStatus::GuestIo("compute_stage_tex_linear_row_gva")),
        },
        None => Err(ComputeStatus::GuestIo("compute_stage_tex_linear_row_offset")),
    }
}

/// What a linear texture stages as. A storage output that the color mirror
/// ignores may stay in the engine; it is seeded at the resident's generation or
/// at that of the host's copy.
pub open spec fn linear_staged(
    plan: LinearPlan,
    binding: u32,
    is_storage: bool,
    source: LinearSource,
    read: Result<Seq<u8>, ComputeStatus>,
    host_generation: u32,
) -> Result<StagedView, ComputeStatus> {
    let held = source is Seed || source is Sample;
    match (held, read) {
        (false, Err(status)) => Err(status),
        _ => Ok(
            StagedView {
                binding,
                pixel_format: plan.format,
                storage_selector: plan.selector,
                width: plan.layout.width,
                height: plan.layout.height,
                bytes: if held {
                    zeros(plan.need as int)
                } else {
                    read->Ok_0
                },
                is_storage,
                residency: if is_storage && plan.key is Some && !mirrorable(plan.format) {
                    Some(
                        ComputeStorageResidencyCandidate {
                            key: plan.key->0,
                            seed_generation: match source {
                                LinearSource::Seed(generation) => generation,
                                _ => host_generation,
                            },
                        },
                    )
                } else {
                    None
                },
                seed_skipped: source is Seed,
                sample_resident: match source {
                    LinearSource::Sample(sample) => Some(sample),
                    _ => None,
                },
                writeback: if is_storage {
                    TextureWriteback::Linear {
                        texture_ref: plan.texture_ref,
                        gva: plan.layout.gva,
                        pixel_format: plan.format,
                        row_stride: plan.layout.row_stride,
                        width: plan.layout.width,
                        height: plan.layout.height,
                        bpp: plan.bpp,
                    }
                } else {
                    TextureWriteback::Nowhere
                },
            },
        ),
    }
}

/// A read by its view.
pub open spec fn read_view(read: Result<Vec<u8>, ComputeStatus>) -> Result<
    Seq<u8>,
    ComputeStatus,
> {
    match read {
        Ok(bytes) => Ok(bytes@),
        Err(status) => Err(status),
    }
}

/// Stage a linear texture. `read` is its tight rows, from the host's copy or from
/// the guest, or why they could not be had; it does not count where the engine
/// holds the texels.
pub fn stage_linear_texture(
    plan: &LinearPlan,
    binding: u32,
    is_storage: bool,
    source: &LinearSource,
    read: Result<Vec<u8>, ComputeStatus>,
    host_generation: u32,
) -> (staged: Result<StagedTexture, ComputeStatus>)
    ensures
        stages_as(
            staged,
            linear_staged(*plan, binding, is_storage, *source, read_view(read), host_generation),
        ),
{
    let mut seed_generation: u32 = host_generation;
    let mut seed_skipped = false;
    let mut sample_resident: Option<ResidentSample> = None;
    let mut held = false;
    match source {
        LinearSource::Seed(generation) => {
            seed_generation = *generation;
            seed_skipped = true;
            held = true;
        },
        LinearSource::Sample(sample) => {
            sample_resident = Some(*sample);
            held = true;
        },
        _ => {},
    }
    let bytes = if held {
        zeroed(plan.need)
    } else {
        match read {
            Ok(bytes) => bytes,
            Err(status) => {
                return Err(status);
            },
        }
    };
    let residency = match plan.key {
        Some(key) => if is_storage && !linear_mirrorable(plan.format) {
            Some(ComputeStorageResidencyCandidate { key, seed_generation })
        } else {
            None
        },
        None => None,
    };
    Ok(
        StagedTexture {
            binding,
            pixel_format: plan.format,
            storage_selector: plan.selector,
            width: plan.layout.width,
            height: plan.layout.height,
            bytes,
            is_storage,
            residency,
            seed_skipped,
            sample_resident,
            writeback: if is_storage {
                TextureWriteback::Linear {
                    texture_ref: plan.texture_ref,
                    gva: plan.layout.gva,
                    pixel_format: plan.format,
                    row_stride: plan.layout.row_stride,
                    width: plan.layout.width,
                    height: plan.layout.height,
                    bpp: plan.bpp,
                }
            } else {
                TextureWriteback::Nowhere
            },
        },
    )
}

} // verus!
