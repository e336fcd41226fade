//! Staging a texture from a mapped surface.

use vstd::prelude::*;
use crate::compute_exec::format::{
    StorageImageFormat, effective_view_sample_format, host_alloc_len, mtl_to_engine_sampled,
    sampled_format, storage_format, storage_selector, view_format,
};
use crate::compute_exec::status::ComputeStatus;
use crate::compute_exec::texture::{
    BaseTexture, ComputeStorageResidencyCandidate, EngineResidents, ResidentSample, StagedTexture,
    StagedView, TextureWriteback, samples_resident, stages_as, zeroed, zeros,
};
use crate::contract::{
    MTL_FORMAT_BGRA8_UNORM, MTL_FORMAT_BGRA8_UNORM_SRGB, MTL_FORMAT_RGBA8_UNORM,
    MTL_FORMAT_RGBA8_UNORM_SRGB, SurfaceWindow, bytes_per_pixel, page_bytes, page_size_of,
    texel_bytes, view_sample_window, view_window,
};
use crate::mapping::{MappingEntry, MappingView};
use crate::residency::{ComputeStorageResidencyKey, ResidencyMap, lookup};

verus! {

/// A surface handle's record of the exact texture view over the surface's bytes.
#[derive(Clone, Copy, Debug, PartialEq, Eq, Structural)]
pub struct SurfaceViewRecord {
    pub width: u32,
    pub height: u32,
    pub pixel_format: u16,
}

/// The object that a base texture reference names.
#[derive(Clone, Copy, Debug, PartialEq, Eq, Structural)]
pub enum StageObject {
    Absent,
    /// A surface handle: the surface it names, where it holds a number (zero is none),
    /// and its record.
    Handle { surface_id: Option<u32>, record: Option<SurfaceViewRecord> },
    /// A surface itself.
    Surface,
    /// A linear texture.
    Linear,
    Other,
}

/// What backs a base texture.
#[derive(Clone, Copy, Debug, PartialEq, Eq, Structural)]
pub enum Backing {
    /// A mapped surface, reached through a handle, directly, or by the task's list.
    Surface { mapping_id: u32, reached: Reached },
    /// Its own linear memory.
    Linear,
}

/// How a surface was reached: who gives its geometry.
#[derive(Clone, Copy, Debug, PartialEq, Eq, Structural)]
pub enum Reached {
    Handle(Option<SurfaceViewRecord>),
    Direct,
    List,
}

/// The surface that a handle names, and its record. Zero names none.
pub open spec fn handled_surface(object: StageObject) -> Option<
    (u32, Option<SurfaceViewRecord>),
> {
    match object {
        StageObject::Handle { surface_id: Some(id), record } => if id != 0 {
            Some((id, record))
        } else {
            None
        },
        _ => None,
    }
}

fn find_handled(object: &StageObject) -> (found: Option<(u32, Option<SurfaceViewRecord>)>)
    ensures
        found == handled_surface(*object),
{
    match object {
        StageObject::Handle { surface_id: Some(id), record } => if *id != 0 {
            Some((*id, *record))
        } else {
            None
        },
        _ => None,
    }
}

/// The surface that has to be ensured before the backing is chosen.
pub open spec fn ensures_surface(stage_ref: u32, object: StageObject) -> Option<u32> {
    match (handled_surface(object), object) {
        (Some((id, _)), _) => Some(id),
        (None, StageObject::Surface) => Some(stage_ref),
        _ => None,
    }
}

pub fn surface_to_ensure(stage_ref: u32, object: &StageObject) -> (surface: Option<u32>)
    ensures
        surface == ensures_surface(stage_ref, *object),
{
    match (find_handled(object), object) {
        (Some((id, _)), _) => Some(id),
        (None, StageObject::Surface) => Some(stage_ref),
        _ => None,
    }
}

/// What backs a base texture. A handle and a surface are their own mapping id and
/// are never looked up in the task's list, whose references are another name
/// space; for the same reason a linear texture is never taken for the surface of
/// the same number.
pub open spec fn backing_of(
    stage_ref: u32,
    object: StageObject,
    listed: Option<u32>,
    mappings: Map<u32, MappingView>,
) -> Result<Backing, ComputeStatus> {
    let known = |id: u32| id != 0 && mappings.dom().contains(id);
    match (handled_surface(object), object) {
        (Some((id, record)), _) => if known(id) {
            Ok(Backing::Surface { mapping_id: id, reached: Reached::Handle(record) })
        } else {
            Err(ComputeStatus::MissingTexture("compute_stage_tex_type5_no_map"))
        },
        (None, StageObject::Surface) => if known(stage_ref) {
            Ok(Backing::Surface { mapping_id: stage_ref, reached: Reached::Direct })
        } else {
            Ok(Backing::Linear)
        },
        (None, StageObject::Linear) => Ok(Backing::Linear),
        _ => match listed {
            Some(id) => Ok(Backing::Surface { mapping_id: id, reached: Reached::List }),
            None => if known(stage_ref) {
                Ok(Backing::Surface { mapping_id: stage_ref, reached: Reached::List })
            } else {
                Ok(Backing::Linear)
            },
        },
    }
}

/// Choose what backs a base texture. `listed` is the surface that the task's list
/// resolves the reference to.
pub fn choose_backing(
    stage_ref: u32,
    object: &StageObject,
    listed: Option<u32>,
    mappings: &crate::mapping::MappingTable,
) -> (backing: Result<Backing, ComputeStatus>)
    requires
        mappings.wf(),
    ensures
        backing == backing_of(stage_ref, *object, listed, mappings@),
{
    match (find_handled(object), object) {
        (Some((id, record)), _) => {
            if mappings.contains_key(&id) {
                Ok(Backing::Surface { mapping_id: id, reached: Reached::Handle(record) })
            } else {
                Err(ComputeStatus::MissingTexture("compute_stage_tex_type5_no_map"))
            }
        },
        (None, StageObject::Surface) => {
            if stage_ref != 0 && mappings.contains_key(&stage_ref) {
                Ok(Backing::Surface { mapping_id: stage_ref, reached: Reached::Direct })
            } else {
                Ok(Backing::Linear)
            }
        },
        (None, StageObject::Linear) => Ok(Backing::Linear),
        _ => match listed {
            Some(id) => Ok(Backing::Surface { mapping_id: id, reached: Reached::List }),
            None => {
                if stage_ref != 0 && mappings.contains_key(&stage_ref) {
                    Ok(Backing::Surface { mapping_id: stage_ref, reached: Reached::List })
                } else {
                    Ok(Backing::Linear)
                }
            },
        },
    }
}

/// A linear texture stays linear whatever surfaces are mapped.
pub proof fn law_linear_texture_is_no_surface(
    stage_ref: u32,
    listed: Option<u32>,
    mappings: Map<u32, MappingView>,
)
    ensures
        backing_of(stage_ref, StageObject::Linear, listed, mappings) == Ok::<
            Backing,
            ComputeStatus,
        >(Backing::Linear),
{
}

/// A surface handle is backed by the surface that it names, whatever the task's
/// list says of that number.
pub proof fn law_handle_ignores_the_task_list(
    stage_ref: u32,
    id: u32,
    record: Option<SurfaceViewRecord>,
    listed: Option<u32>,
    mappings: Map<u32, MappingView>,
)
    requires
        id != 0,
    ensures
        backing_of(
            stage_ref,
            StageObject::Handle { surface_id: Some(id), record },
            listed,
            mappings,
        ) == backing_of(
            stage_ref,
            StageObject::Handle { surface_id: Some(id), record },
            None,
            mappings,
        ),
{
}

/// A mapping that can be staged by its own geometry.
pub open spec fn stageable(m: MappingView) -> bool {
    m.has_geom && m.width != 0 && m.height != 0 && m.format != 0 && !multiplanar(m)
}

/// The surface has more than one plane.
pub open spec fn multiplanar(m: MappingView) -> bool {
    match m.device {
        Some(device) => device.planes.len() > 1,
        None => false,
    }
}

/// The geometry that a surface is staged in: the handle's exact record, else the
/// task list's descriptor, else the mapping's own.
pub open spec fn staged_geometry(
    m: Option<MappingView>,
    reached: Reached,
    described: Option<SurfaceViewRecord>,
) -> Result<SurfaceViewRecord, ComputeStatus> {
    match reached {
        Reached::List => match described {
            Some(d) => Ok(
                SurfaceViewRecord {
                    pixel_format: if d.pixel_format != 0 {
                        d.pixel_format
                    } else {
                        MTL_FORMAT_BGRA8_UNORM
                    },
                    ..d
                },
            ),
            None => match m {
                None => Err(ComputeStatus::MissingTexture("compute_stage_tex_mapping_gone")),
                Some(m) => if !m.has_geom || m.width == 0 || m.height == 0 {
                    Err(ComputeStatus::MissingTexture("compute_stage_tex_mapping_no_geom"))
                } else {
                    Ok(
                        SurfaceViewRecord {
                            width: m.width,
                            height: m.height,
                            pixel_format: if m.format != 0 {
                                m.format
                            } else {
                                MTL_FORMAT_BGRA8_UNORM
                            },
                        },
                    )
                },
            },
        },
        _ => match m {
            None => Err(ComputeStatus::MissingTexture("compute_stage_tex_mapping_gone")),
            Some(m) => match reached {
                Reached::Handle(Some(record)) => Ok(record),
                _ => if stageable(m) {
                    Ok(
                        SurfaceViewRecord {
                            width: m.width,
                            height: m.height,
                            pixel_format: m.format,
                        },
                    )
                } else if !m.has_geom || m.width == 0 || m.height == 0 {
                    Err(ComputeStatus::MissingTexture("compute_stage_tex_type11_no_geom"))
                } else if multiplanar(m) {
                    Err(ComputeStatus::Unsupported("stage_tex_multiplane_no_plane"))
                } else {
                    Err(ComputeStatus::Unsupported("stage_tex_fmt_unknown"))
                },
            },
        },
    }
}

fn find_geometry(
    m: Option<&MappingEntry>,
    reached: &Reached,
    described: Option<SurfaceViewRecord>,
) -> (geometry: Result<SurfaceViewRecord, ComputeStatus>)
    ensures
        geometry == staged_geometry(
            match m {
                Some(e) => Some(e@),
                None => None,
            },
            *reached,
            described,
        ),
{
    let list = match reached {
        Reached::List => true,
        _ => false,
    };
    if list {
        match described {
            Some(d) => {
                let pixel_format: u16 = if d.pixel_format != 0 {
                    d.pixel_format
                } else {
                    MTL_FORMAT_BGRA8_UNORM
                };
                return Ok(SurfaceViewRecord { width: d.width, height: d.height, pixel_format });
            },
            None => {},
        }
    }
    let m = match m {
        Some(m) => m,
        None => {
            return Err(ComputeStatus::MissingTexture("compute_stage_tex_mapping_gone"));
        },
    };
    let measured = m.has_geom && m.width != 0 && m.height != 0;
    if list {
        if !measured {
            return Err(ComputeStatus::MissingTexture("compute_stage_tex_mapping_no_geom"));
        }
        let pixel_format: u16 = if m.format != 0 {
            m.format
        } else {
            MTL_FORMAT_BGRA8_UNORM
        };
        return Ok(SurfaceViewRecord { width: m.width, height: m.height, pixel_format });
    }
    match reached {
        Reached::Handle(Some(record)) => {
            return Ok(*record);
        },
        _ => {},
    }
    let planes = match &m.device {
        Some(device) => device.planes.len() > 1,
        None => false,
    };
    if measured && m.format != 0 && !planes {
        Ok(SurfaceViewRecord { width: m.width, height: m.height, pixel_format: m.format })
    } else if !measured {
        Err(ComputeStatus::MissingTexture("compute_stage_tex_type11_no_geom"))
    } else if planes {
        Err(ComputeStatus::Unsupported("stage_tex_multiplane_no_plane"))
    } else {
        Err(ComputeStatus::Unsupported("stage_tex_fmt_unknown"))
    }
}

/// Color-renderable sRGB surfaces stage as their linear twins.
pub open spec fn linear_twin(format: u16) -> u16 {
    if format == MTL_FORMAT_BGRA8_UNORM_SRGB {
        MTL_FORMAT_BGRA8_UNORM
    } else if format == MTL_FORMAT_RGBA8_UNORM_SRGB {
        MTL_FORMAT_RGBA8_UNORM
    } else {
        format
    }
}

/// What a surface texture is staged from, and how.
#[derive(Clone, Copy, Debug, PartialEq, Eq, Structural)]
pub struct SurfacePlan {
    pub mapping_id: u32,
    pub width: u32,
    pub height: u32,
    pub format: u16,
    pub bpp: u32,
    /// Bytes of one tight row.
    pub tight: u32,
    /// Bytes of all tight rows.
    pub need: usize,
    pub window: SurfaceWindow,
    pub selector: Option<StorageImageFormat>,
    pub key: ComputeStorageResidencyKey,
    pub seed_generation: u32,
    pub seed_skipped: bool,
    pub sample_resident: Option<ResidentSample>,
}

/// The window that a staged geometry occupies, with the mapping it is cut from.
pub open spec fn surface_key(
    m: MappingView,
    mapping_id: u32,
    window: SurfaceWindow,
    width: u32,
    height: u32,
    format: u16,
) -> ComputeStorageResidencyKey {
    ComputeStorageResidencyKey {
        mapping_id,
        map_generation: m.map_generation,
        surface_offset: window.offset,
        surface_bpr: window.bytes_per_row,
        span_end: window.end,
        width,
        height,
        pixel_format: format,
        texture_ref: 0,
    }
}

/// Two keys are views of one byte window.
pub open spec fn same_window(
    a: ComputeStorageResidencyKey,
    b: ComputeStorageResidencyKey,
) -> bool {
    &&& a.mapping_id == b.mapping_id
    &&& a.map_generation == b.map_generation
    &&& a.surface_offset == b.surface_offset
    &&& a.surface_bpr == b.surface_bpr
    &&& a.span_end == b.span_end
}

/// The engine holds this recorded sibling view at its recorded generation, and
/// its rows are byte for byte those of the wanted view.
pub open spec fn reinterprets(
    entry: (ComputeStorageResidencyKey, u32),
    key: ComputeStorageResidencyKey,
    row_bytes: int,
    residents: EngineResidents,
) -> bool {
    &&& same_window(entry.0, key)
    &&& entry.0 != key
    &&& entry.0.height == key.height
    &&& match residents.sample_source_spec(entry.0) {
        Some((generation, format)) => generation == entry.1 && entry.0.width * format.texel_size()
            == row_bytes,
        None => false,
    }
}

/// The first such sibling among the recorded windows from `i` on.
pub open spec fn sibling_from(
    mirror: Seq<(ComputeStorageResidencyKey, u32)>,
    i: int,
    key: ComputeStorageResidencyKey,
    row_bytes: int,
    residents: EngineResidents,
) -> Option<ResidentSample>
    decreases mirror.len() - i,
{
    if i < 0 || i >= mirror.len() {
        None
    } else if reinterprets(mirror[i], key, row_bytes, residents) {
        Some(ResidentSample { key: mirror[i].0, generation: mirror[i].1 })
    } else {
        sibling_from(mirror, i + 1, key, row_bytes, residents)
    }
}

/// The resident that a sampled image is copied from: the very window at its
/// recorded generation, else a sibling view of the same bytes.
pub open spec fn sampled_from(
    mirror: Seq<(ComputeStorageResidencyKey, u32)>,
    key: ComputeStorageResidencyKey,
    residents: EngineResidents,
) -> Option<ResidentSample> {
    let recorded = lookup(mirror, key);
    if recorded is Some && samples_resident(residents, key, recorded->0, key.pixel_format) {
        Some(ResidentSample { key, generation: recorded->0 })
    } else {
        match sampled_format(key.pixel_format) {
            Some(format) => sibling_from(
                mirror,
                0,
                key,
                key.width * format.texel_size(),
                residents,
            ),
            None => None,
        }
    }
}

/// The plan of a surface texture, from its geometry on.
pub open spec fn geometry_plan(
    m: Option<MappingView>,
    mapping_id: u32,
    geometry: SurfaceViewRecord,
    view: Option<u16>,
    is_storage: bool,
    page_shift: u32,
    mirror: Seq<(ComputeStorageResidencyKey, u32)>,
    residents: EngineResidents,
) -> Result<SurfacePlan, ComputeStatus> {
    let width = geometry.width;
    let height = geometry.height;
    if width == 0 || height == 0 {
        Err(ComputeStatus::MissingTexture("compute_stage_tex_zero_geom"))
    } else {
        match view_format(geometry.pixel_format, view) {
            None => Err(ComputeStatus::Unsupported("compute_view_format")),
            Some(seen) => {
                let format = linear_twin(seen);
                match texel_bytes(format) {
                    None => Err(ComputeStatus::Unsupported("stage_tex_fmt_bytes")),
                    Some(bpp) => if is_storage && storage_format(format) is None {
                        Err(ComputeStatus::Unsupported("stage_tex_fmt_storage"))
                    } else {
                        match m {
                            None => Err(
                                ComputeStatus::MissingTexture("compute_stage_tex_mapping_gone"),
                            ),
                            Some(m) => match view_window(m.device, format, width, height) {
                                None => Err(
                                    ComputeStatus::MissingTexture(
                                        "compute_stage_tex_type11_window",
                                    ),
                                ),
                                Some(window) => window_plan(
                                    m,
                                    mapping_id,
                                    width,
                                    height,
                                    format,
                                    bpp,
                                    window,
                                    is_storage,
                                    page_shift,
                                    mirror,
                                    residents,
                                ),
                            },
                        }
                    },
                }
            },
        }
    }
}

/// The plan of a surface texture, from its window on.
pub open spec fn window_plan(
    m: MappingView,
    mapping_id: u32,
    width: u32,
    height: u32,
    format: u16,
    bpp: u32,
    window: SurfaceWindow,
    is_storage: bool,
    page_shift: u32,
    mirror: Seq<(ComputeStorageResidencyKey, u32)>,
    residents: EngineResidents,
) -> Result<SurfacePlan, ComputeStatus> {
    let key = surface_key(m, mapping_id, window, width, height, format);
    let recorded = lookup(mirror, key);
    let seeds = is_storage && recorded is Some && residents.storage_generation_spec(key)
        == recorded;
    if width * bpp > u32::MAX {
        Err(ComputeStatus::Unsupported("stage_tex_tight_bpr_overflow"))
    } else if width * bpp * height > usize::MAX {
        Err(ComputeStatus::Unsupported("stage_tex_host_len"))
    } else if m.page_entries.len() * page_bytes(page_shift) < window.end {
        Err(ComputeStatus::GuestIo("compute_stage_tex_type11_span"))
    } else {
        Ok(
            SurfacePlan {
                mapping_id,
                width,
                height,
                format,
                bpp,
                tight: (width * bpp) as u32,
                need: (width * bpp * height) as usize,
                window,
                selector: storage_format(format),
                key,
                seed_generation: if seeds {
                    recorded->0
                } else {
                    m.content_generation
                },
                seed_skipped: seeds,
                sample_resident: if is_storage {
                    None
                } else {
                    sampled_from(mirror, key, residents)
                },
            },
        )
    }
}

/// The plan of a surface texture.
pub open spec fn surface_plan(
    m: Option<MappingView>,
    mapping_id: u32,
    reached: Reached,
    described: Option<SurfaceViewRecord>,
    base: BaseTexture,
    is_storage: bool,
    page_shift: u32,
    mirror: Seq<(ComputeStorageResidencyKey, u32)>,
    residents: EngineResidents,
) -> Result<SurfacePlan, ComputeStatus> {
    if base.level != 0 {
        Err(ComputeStatus::Unsupported("compute_view_type11_mip"))
    } else {
        match staged_geometry(m, reached, described) {
            Err(status) => Err(status),
            Ok(geometry) => geometry_plan(
                m,
                mapping_id,
                geometry,
                base.pixel_format,
                is_storage,
                page_shift,
                mirror,
                residents,
            ),
        }
    }
}

fn find_sibling(
    mirror: &ResidencyMap,
    key: &ComputeStorageResidencyKey,
    row_bytes: u64,
    residents: &EngineResidents,
) -> (found: Option<ResidentSample>)
    ensures
        found == sibling_from(mirror@, 0, *key, row_bytes as int, *residents),
{
    let mut i: usize = 0;
    while i < mirror.entries.len()
        invariant
            i <= mirror.entries.len(),
            sibling_from(mirror@, 0, *key, row_bytes as int, *residents) == sibling_from(
                mirror@,
                i as int,
                *key,
                row_bytes as int,
                *residents,
            ),
        decreases mirror.entries.len() - i,
    {
        let (k, generation) = mirror.entries[i];
        let window = k.mapping_id == key.mapping_id && k.map_generation == key.map_generation
            && k.surface_offset == key.surface_offset && k.surface_bpr == key.surface_bpr
            && k.span_end == key.span_end;
        if window && k != *key && k.height == key.height {
            match residents.sample_source(&k) {
                Some((g, format)) => {
                    let texel: u32 = format.bytes_per_texel();
                    assert(k.width * texel <= 0xffff_ffff * 16) by (nonlinear_arith)
                        requires
                            k.width <= 0xffff_ffff,
                            texel <= 16,
                    ;
                    if g == generation && k.width as u64 * texel as u64 == row_bytes {
                        return Some(ResidentSample { key: k, generation });
                    }
                },
                None => {},
            }
        }
        i = i + 1;
    }
    None
}

fn find_sampled(
    mirror: &ResidencyMap,
    key: &ComputeStorageResidencyKey,
    residents: &EngineResidents,
) -> (found: Option<ResidentSample>)
    requires
        mirror.wf(),
    ensures
        found == sampled_from(mirror@, *key, *residents),
{
    match (mirror.get(key), residents.sample_source(key)) {
        (Some(generation), Some((g, resident_format))) => {
            let fits = match mtl_to_engine_sampled(key.pixel_format) {
                Some(f) => f == resident_format,
                None => false,
            };
            if g == generation && fits {
                return Some(ResidentSample { key: *key, generation });
            }
        },
        _ => {},
    }
    match mtl_to_engine_sampled(key.pixel_format) {
        Some(format) => {
            let texel: u32 = format.bytes_per_texel();
            let width: u32 = key.width;
            assert(width * texel <= 0xffff_ffff * 16) by (nonlinear_arith)
                requires
                    width <= 0xffff_ffff,
                    texel <= 16,
            ;
            find_sibling(mirror, key, width as u64 * texel as u64, residents)
        },
        None => None,
    }
}

/// Plan the staging of a texture that a mapped surface backs.
///
/// `described` is the geometry of the task list's own descriptor, where the
/// surface was reached through the list and it decodes. The mapping has been made
/// ready for scanout.
pub fn plan_surface_texture(
    m: Option<&MappingEntry>,
    mapping_id: u32,
    reached: &Reached,
    described: Option<SurfaceViewRecord>,
    base: &BaseTexture,
    is_storage: bool,
    page_shift: u32,
    mirror: &ResidencyMap,
    residents: &EngineResidents,
) -> (plan: Result<SurfacePlan, ComputeStatus>)
    requires
        page_shift < 64,
        mirror.wf(),
    ensures
        plan == surface_plan(
            match m {
                Some(e) => Some(e@),
                None => None,
            },
            mapping_id,
            *reached,
            described,
            *base,
            is_storage,
            page_shift,
            mirror@,
            *residents,
        ),
{
    if base.level != 0 {
        return Err(ComputeStatus::Unsupported("compute_view_type11_mip"));
    }
    let geometry = match find_geometry(m, reached, described) {
        Ok(geometry) => geometry,
        Err(status) => {
            return Err(status);
        },
    };
    let width: u32 = geometry.width;
    let height: u32 = geometry.height;
    if width == 0 || height == 0 {
        return Err(ComputeStatus::MissingTexture("compute_stage_tex_zero_geom"));
    }
    let seen: u16 = match effective_view_sample_format(geometry.pixel_format, base.pixel_format) {
        Some(seen) => seen,
        None => {
            return Err(ComputeStatus::Unsupported("compute_view_format"));
        },
    };
    let format: u16 = if seen == MTL_FORMAT_BGRA8_UNORM_SRGB {
        MTL_FORMAT_BGRA8_UNORM
    } else if seen == MTL_FORMAT_RGBA8_UNORM_SRGB {
        MTL_FORMAT_RGBA8_UNORM
    } else {
        seen
    };
    let bpp: u32 = match bytes_per_pixel(format) {
        Some(bpp) => bpp,
        None => {
            return Err(ComputeStatus::Unsupported("stage_tex_fmt_bytes"));
        },
    };
    let selector = storage_selector(format);
    if is_storage && selector.is_none() {
        return Err(ComputeStatus::Unsupported("stage_tex_fmt_storage"));
    }
    let m = match m {
        Some(m) => m,
        None => {
            return Err(ComputeStatus::MissingTexture("compute_stage_tex_mapping_gone"));
        },
    };
    let window = match view_sample_window(&m.device, format, width, height) {
        Some(window) => window,
        None => {
            return Err(ComputeStatus::MissingTexture("compute_stage_tex_type11_window"));
        },
    };
    assert(width * bpp <= 0xffff_ffff * 16) by (nonlinear_arith)
        requires
            width <= 0xffff_ffff,
            bpp <= 16,
    ;
    let tight: u64 = width as u64 * bpp as u64;
    if tight > 0xffff_ffff {
        return Err(ComputeStatus::Unsupported("stage_tex_tight_bpr_overflow"));
    }
    assert(tight * height <= 0xffff_ffff * 0xffff_ffff) by (nonlinear_arith)
        requires
            tight <= 0xffff_ffff,
            height <= 0xffff_ffff,
    ;
    let need: usize = match host_alloc_len(tight * height as u64) {
        Some(need) => need,
        None => {
            return Err(ComputeStatus::Unsupported("stage_tex_host_len"));
        },
    };
    let page: u128 = page_size_of(page_shift) as u128;
    let count: u128 = m.page_entries.len() as u128;
    assert(count * page <= 0xffff_ffff_ffff_ffff * 0xffff_ffff_ffff_ffff) by (nonlinear_arith)
        requires
            count <= 0xffff_ffff_ffff_ffff,
            page <= 0xffff_ffff_ffff_ffff,
    ;
    if count * page < window.end as u128 {
        return Err(ComputeStatus::GuestIo("compute_stage_tex_type11_span"));
    }
    let key = ComputeStorageResidencyKey {
        mapping_id,
        map_generation: m.map_generation,
        surface_offset: window.offset,
        surface_bpr: window.bytes_per_row,
        span_end: window.end,
        width,
        height,
        pixel_format: format,
        texture_ref: 0,
    };
    let mut seed_generation: u32 = m.content_generation;
    let mut seed_skipped = false;
    let mut sample_resident: Option<ResidentSample> = None;
    if is_storage {
        match (mirror.get(&key), residents.storage_generation(&key)) {
            (Some(recorded), Some(held)) => {
                if recorded == held {
                    seed_skipped = true;
                    seed_generation = recorded;
                }
            },
            _ => {},
        }
    } else {
        sample_resident = find_sampled(mirror, &key, residents);
    }
    Ok(
        SurfacePlan {
            mapping_id,
            width,
            height,
            format,
            bpp,
            tight: tight as u32,
            need,
            window,
            selector,
            key,
            seed_generation,
            seed_skipped,
            sample_resident,
        },
    )
}

/// The guest has to be read for this plan: the engine holds nothing for it.
pub open spec fn reads_guest(plan: SurfacePlan) -> bool {
    !plan.seed_skipped && plan.sample_resident is None
}

pub fn surface_needs_read(plan: &SurfacePlan) -> (needs: bool)
    ensures
        needs == reads_guest(*plan),
{
    !plan.seed_skipped && plan.sample_resident.is_none()
}

/// What a surface texture stages as: the texels read, or zero placeholders where
/// the engine already holds them.
pub open spec fn surface_staged(
    plan: SurfacePlan,
    binding: u32,
    is_storage: bool,
    read: Option<Seq<u8>>,
) -> Result<StagedView, ComputeStatus> {
    if reads_guest(plan) && read is None {
        Err(ComputeStatus::GuestIo("compute_stage_tex_type11_read"))
    } else {
        Ok(
            StagedView {
                binding,
                pixel_format: plan.format,
                storage_selector: plan.selector,
                width: plan.width,
                height: plan.height,
                bytes: if reads_guest(plan) {
                    read->0
                } else {
                    zeros(plan.need as int)
                },
                is_storage,
                residency: if is_storage {
                    Some(
                        ComputeStorageResidencyCandidate {
                            key: plan.key,
                            seed_generation: plan.seed_generation,
                        },
                    )
                } else {
                    None
                },
                seed_skipped: plan.seed_skipped,
                sample_resident: plan.sample_resident,
                writeback: if is_storage {
                    TextureWriteback::Type11 {
                        mapping_id: plan.mapping_id,
                        surface_offset: plan.window.offset,
                        surface_bpr: plan.window.bytes_per_row,
                        span_end: plan.window.end,
                        width: plan.width,
                        height: plan.height,
                        bpp: plan.bpp,
                    }
                } else {
                    TextureWriteback::Nowhere
                },
            },
        )
    }
}

/// Stage a surface texture. `read` is the tight rows of its window, where they
/// had to be read and could be.
pub fn stage_surface_texture(
    plan: &SurfacePlan,
    binding: u32,
    is_storage: bool,
    read: Option<Vec<u8>>,
) -> (staged: Result<StagedTexture, ComputeStatus>)
    ensures
        stages_as(
            staged,
            surface_staged(
                *plan,
                binding,
                is_storage,
                match read {
                    Some(bytes) => Some(bytes@),
                    None => None,
                },
            ),
        ),
{
    let bytes = if surface_needs_read(plan) {
        match read {
            Some(bytes) => bytes,
            None => {
                return Err(ComputeStatus::GuestIo("compute_stage_tex_type11_read"));
            },
        }
    } else {
        zeroed(plan.need)
    };
    Ok(
        StagedTexture {
            binding,
            pixel_format: plan.format,
            storage_selector: plan.selector,
            width: plan.width,
            height: plan.height,
            bytes,
            is_storage,
            residency: if is_storage {
                Some(
                    ComputeStorageResidencyCandidate {
                        key: plan.key,
                        seed_generation: plan.seed_generation,
                    },
                )
            } else {
                None
            },
            seed_skipped: plan.seed_skipped,
            sample_resident: plan.sample_resident,
            writeback: if is_storage {
                TextureWriteback::Type11 {
                    mapping_id: plan.mapping_id,
                    surface_offset: plan.window.offset,
                    surface_bpr: plan.window.bytes_per_row,
                    span_end: plan.window.end,
                    width: plan.width,
                    height: plan.height,
                    bpp: plan.bpp,
                }
            } else {
                TextureWriteback::Nowhere
            },
        },
    )
}

/// A skipped guest read is always backed by the engine: a seed at the generation
/// that the mirror records for this very window, or a sample of the window's
/// bytes at a recorded generation.
pub proof fn law_skipped_read_is_backed_by_the_engine(
    m: MappingView,
    mapping_id: u32,
    width: u32,
    height: u32,
    format: u16,
    bpp: u32,
    window: SurfaceWindow,
    is_storage: bool,
    page_shift: u32,
    mirror: Seq<(ComputeStorageResidencyKey, u32)>,
    residents: EngineResidents,
)
    requires
        window_plan(
            m,
            mapping_id,
            width,
            height,
            format,
            bpp,
            window,
            is_storage,
            page_shift,
            mirror,
            residents,
        ) is Ok,
    ensures
        ({
            let plan = window_plan(
                m,
                mapping_id,
                width,
                height,
                format,
                bpp,
                window,
                is_storage,
                page_shift,
                mirror,
                residents,
            )->Ok_0;
            &&& plan.seed_skipped ==> is_storage && residents.storage_generation_spec(plan.key)
                == Some(plan.seed_generation) && lookup(mirror, plan.key) == Some(
                plan.seed_generation,
            )
            &&& plan.sample_resident is Some ==> !is_storage && same_window(
                plan.sample_resident->0.key,
                plan.key,
            ) && residents.sample_source_spec(plan.sample_resident->0.key) is Some && (
            residents.sample_source_spec(plan.sample_resident->0.key)->0).0
                == plan.sample_resident->0.generation
        }),
{
    let key = surface_key(m, mapping_id, window, width, height, format);
    match sampled_format(format) {
        Some(f) => lemma_sibling(mirror, 0, key, key.width * f.texel_size(), residents),
        None => {},
    }
}

proof fn lemma_sibling(
    mirror: Seq<(ComputeStorageResidencyKey, u32)>,
    i: int,
    key: ComputeStorageResidencyKey,
    row_bytes: int,
    residents: EngineResidents,
)
    ensures
        match sibling_from(mirror, i, key, row_bytes, residents) {
            Some(sample) => same_window(sample.key, key) && residents.sample_source_spec(
                sample.key,
            ) is Some && (residents.sample_source_spec(sample.key)->0).0 == sample.generation,
            None => true,
        },
    decreases mirror.len() - i,
{
    if 0 <= i < mirror.len() && !reinterprets(mirror[i], key, row_bytes, residents) {
        lemma_sibling(mirror, i + 1, key, row_bytes, residents);
    }
}

} // verus!
