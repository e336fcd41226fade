//! What a texture over a mapped surface is staged from.

use vstd::prelude::*;
use crate::compute_exec::format::{sampled_format, storage_format, view_format};
use crate::compute_exec::status::ComputeStatus;
use crate::compute_exec::surface_texture::{
    Backing, Reached, StageObject, SurfacePlan, SurfaceViewRecord, backing_of, ensures_surface,
    geometry_plan, linear_twin, reads_guest, reinterprets, sampled_from, sibling_from,
    staged_geometry, surface_plan, surface_staged, window_plan,
};
use crate::compute_exec::texture::{BaseTexture, EngineResidents, StagedView, samples_resident};
use crate::contract::{SurfaceWindow, texel_bytes, view_window};
use crate::mapping::MappingView;
use crate::residency::{ComputeStorageResidencyKey, lookup};

verus! {

/// A handle stands for the surface whose number it holds; a handle of nothing does not.
pub proof fn law_handles_stand_for_their_surface(
    stage_ref: u32,
    id: u32,
    record: Option<SurfaceViewRecord>,
    listed: Option<u32>,
    mappings: Map<u32, MappingView>,
)
    requires
        id > 0,
    ensures
        ({
            let handle = StageObject::Handle { surface_id: Some(id), record };
            let backing = backing_of(stage_ref, handle, listed, mappings);
            &&& ensures_surface(stage_ref, handle) == Some(id)
            &&& mappings.dom().contains(id) ==> backing == Ok::<Backing, ComputeStatus>(
                Backing::Surface { mapping_id: id, reached: Reached::Handle(record) },
            )
            &&& !mappings.dom().contains(id) ==> backing == Err::<Backing, ComputeStatus>(
                ComputeStatus::MissingTexture("compute_stage_tex_type5_no_map"),
            )
        }),
{
}

/// A surface stands for itself, where it is mapped; else its bytes are its own memory.
pub proof fn law_surfaces_stand_for_themselves(
    stage_ref: u32,
    listed: Option<u32>,
    mappings: Map<u32, MappingView>,
)
    ensures
        ensures_surface(stage_ref, StageObject::Surface) == Some(stage_ref),
        stage_ref > 0 && mappings.dom().contains(stage_ref) ==> backing_of(
            stage_ref,
            StageObject::Surface,
            listed,
            mappings,
        ) == Ok::<Backing, ComputeStatus>(
            Backing::Surface { mapping_id: stage_ref, reached: Reached::Direct },
        ),
        stage_ref == 0 || !mappings.dom().contains(stage_ref) ==> backing_of(
            stage_ref,
            StageObject::Surface,
            listed,
            mappings,
        ) == Ok::<Backing, ComputeStatus>(Backing::Linear),
{
}

/// What else a reference names is what the task lists for it, else the surface of that
/// number, else its own memory.
pub proof fn law_other_objects_go_by_the_list(
    stage_ref: u32,
    object: StageObject,
    id: u32,
    mappings: Map<u32, MappingView>,
)
    requires
        object is Absent || object is Other || (object is Handle && (object->surface_id is None
            || object->surface_id == Some(0u32))),
    ensures
        ensures_surface(stage_ref, object) is None,
        backing_of(stage_ref, object, Some(id), mappings) == Ok::<Backing, ComputeStatus>(
            Backing::Surface { mapping_id: id, reached: Reached::List },
        ),
        stage_ref > 0 && mappings.dom().contains(stage_ref) ==> backing_of(
            stage_ref,
            object,
            None,
            mappings,
        ) == Ok::<Backing, ComputeStatus>(
            Backing::Surface { mapping_id: stage_ref, reached: Reached::List },
        ),
        stage_ref == 0 || !mappings.dom().contains(stage_ref) ==> backing_of(
            stage_ref,
            object,
            None,
            mappings,
        ) == Ok::<Backing, ComputeStatus>(Backing::Linear),
{
}

/// Reached by the list, a surface has the described geometry; a format that is left open is
/// BGRA.
pub proof fn law_described_geometry(m: Option<MappingView>, d: SurfaceViewRecord)
    ensures
        match staged_geometry(m, Reached::List, Some(d)) {
            Ok(g) => g.width == d.width && g.height == d.height && (d.pixel_format > 0
                ==> g.pixel_format == d.pixel_format) && (d.pixel_format == 0 ==> g.pixel_format
                == 80),
            Err(_) => false,
        },
{
}

/// Else it has the mapping's own.
pub proof fn law_listed_geometry(m: MappingView)
    ensures
        match staged_geometry(Some(m), Reached::List, None) {
            Ok(g) => m.has_geom && m.width > 0 && m.height > 0 && g.width == m.width && g.height
                == m.height && (m.format > 0 ==> g.pixel_format == m.format) && (m.format == 0
                ==> g.pixel_format == 80),
            Err(status) => (!m.has_geom || m.width == 0 || m.height == 0) && status
                == ComputeStatus::MissingTexture("compute_stage_tex_mapping_no_geom"),
        },
{
}

/// The planes that the device lists for a mapping.
pub open spec fn planes(m: MappingView) -> nat {
    if m.device is Some {
        m.device->0.planes.len()
    } else {
        0
    }
}

/// Reached otherwise, it has the geometry that the handle records, else the mapping's own;
/// more than one plane or a format left open is refused.
pub proof fn law_handled_geometry(
    m: MappingView,
    record: SurfaceViewRecord,
    described: Option<SurfaceViewRecord>,
    reached: Reached,
)
    requires
        reached == Reached::Direct || reached == Reached::Handle(None),
    ensures
        staged_geometry(Some(m), Reached::Handle(Some(record)), described) == Ok::<
            SurfaceViewRecord,
            ComputeStatus,
        >(record),
        match staged_geometry(Some(m), reached, described) {
            Ok(g) => m.has_geom && g.width == m.width && g.height == m.height && g.pixel_format
                == m.format && m.width > 0 && m.height > 0 && m.format > 0 && planes(m) <= 1,
            Err(status) => {
                ||| (!m.has_geom || m.width == 0 || m.height == 0) && status
                    == ComputeStatus::MissingTexture("compute_stage_tex_type11_no_geom")
                ||| m.has_geom && m.width > 0 && m.height > 0 && planes(m) >= 2 && status
                    == ComputeStatus::Unsupported("stage_tex_multiplane_no_plane")
                ||| m.has_geom && m.width > 0 && m.height > 0 && planes(m) <= 1 && m.format == 0
                    && status == ComputeStatus::Unsupported("stage_tex_fmt_unknown")
            },
        },
{
}

/// An unmapped surface has no geometry but the described one.
pub proof fn law_unmapped_geometry(reached: Reached, described: Option<SurfaceViewRecord>)
    ensures
        staged_geometry(None, reached, described) is Ok <==> reached is List && described is Some,
        !(reached is List && described is Some) ==> staged_geometry(None, reached, described)
            == Err::<SurfaceViewRecord, ComputeStatus>(
            ComputeStatus::MissingTexture("compute_stage_tex_mapping_gone"),
        ),
{
}

/// Texels are staged without the gamma of their format.
pub proof fn law_linear_twins(format: u16)
    ensures
        format == 81 ==> linear_twin(format) == 80,
        format == 71 ==> linear_twin(format) == 70,
        format != 81 && format != 71 ==> linear_twin(format) == format,
{
}

/// Another recorded window serves in place of one: it covers the same bytes of the same
/// incarnation at the same stride and as many rows of as many bytes, and the engine holds it
/// in the recorded generation.
pub proof fn law_reinterpreted_windows(
    entry: (ComputeStorageResidencyKey, u32),
    key: ComputeStorageResidencyKey,
    row_bytes: int,
    residents: EngineResidents,
)
    ensures
        reinterprets(entry, key, row_bytes, residents) <==> {
            let source = residents.sample_source_spec(entry.0);
            &&& entry.0 != key
            &&& (entry.0.mapping_id, entry.0.map_generation) == (key.mapping_id, key.map_generation)
            &&& (entry.0.surface_offset, entry.0.span_end) == (key.surface_offset, key.span_end)
            &&& entry.0.surface_bpr == key.surface_bpr
            &&& entry.0.height == key.height
            &&& source is Some
            &&& (source->0).0 == entry.1
            &&& entry.0.width * (source->0).1.texel_size() == row_bytes
        },
{
}

/// The first such window serves.
pub proof fn law_first_sibling_serves(
    mirror: Seq<(ComputeStorageResidencyKey, u32)>,
    i: int,
    key: ComputeStorageResidencyKey,
    row_bytes: int,
    residents: EngineResidents,
)
    requires
        0 <= i <= mirror.len(),
    ensures
        match sibling_from(mirror, i, key, row_bytes, residents) {
            Some(sample) => exists|k: int|
                i <= k < mirror.len() && #[trigger] mirror[k] == (sample.key, sample.generation)
                    && reinterprets(mirror[k], key, row_bytes, residents) && forall|j: int|
                    i <= j < k ==> !reinterprets(#[trigger] mirror[j], key, row_bytes, residents),
            None => forall|j: int|
                i <= j < mirror.len() ==> !reinterprets(
                    #[trigger] mirror[j],
                    key,
                    row_bytes,
                    residents,
                ),
        },
    decreases mirror.len() - i,
{
    if i < mirror.len() {
        if reinterprets(mirror[i], key, row_bytes, residents) {
            let sample = sibling_from(mirror, i, key, row_bytes, residents)->0;
            assert(mirror[i] == (sample.key, sample.generation));
        } else {
            law_first_sibling_serves(mirror, i + 1, key, row_bytes, residents);
            if let Some(sample) = sibling_from(mirror, i + 1, key, row_bytes, residents) {
                let k = choose|k: int|
                    i + 1 <= k < mirror.len() && #[trigger] mirror[k] == (
                        sample.key,
                        sample.generation,
                    ) && reinterprets(mirror[k], key, row_bytes, residents) && forall|j: int|
                        i + 1 <= j < k ==> !reinterprets(
                            #[trigger] mirror[j],
                            key,
                            row_bytes,
                            residents,
                        );
                assert(mirror[k] == (sample.key, sample.generation));
            }
        }
    }
}

/// A window is sampled from its own resident where the record and the engine agree on it,
/// else from another of as many bytes to the row.
pub proof fn law_own_resident_comes_first(
    mirror: Seq<(ComputeStorageResidencyKey, u32)>,
    key: ComputeStorageResidencyKey,
    residents: EngineResidents,
)
    ensures
        ({
            let recorded = lookup(mirror, key);
            let own = recorded is Some && samples_resident(
                residents,
                key,
                recorded->0,
                key.pixel_format,
            );
            let sampled = sampled_from(mirror, key, residents);
            &&& own ==> sampled is Some && sampled->0.key == key && sampled->0.generation
                == recorded->0
            &&& !own && sampled_format(key.pixel_format) is None ==> sampled is None
            &&& !own && sampled_format(key.pixel_format) is Some ==> sampled == sibling_from(
                mirror,
                0,
                key,
                key.width * sampled_format(key.pixel_format)->0.texel_size(),
                residents,
            )
        }),
{
}

/// What a plan of a window says: the geometry and window it was made of, tight rows of whole
/// texels, and the window's identity in the mapping's incarnation. It fits the mapped pages.
pub proof fn law_planned_windows(
    m: MappingView,
    mapping_id: u32,
    width: u32,
    height: u32,
    format: u16,
    bpp: u32,
    window: SurfaceWindow,
    is_storage: bool,
    page_shift: u32,
    mirror: Seq<(ComputeStorageResidencyKey, u32)>,
    residents: EngineResidents,
    plan: SurfacePlan,
)
    requires
        window_plan(
            m,
            mapping_id,
            width,
            height,
            format,
            bpp,
            window,
            is_storage,
            page_shift,
            mirror,
            residents,
        ) == Ok::<SurfacePlan, ComputeStatus>(plan),
    ensures
        plan.mapping_id == mapping_id,
        (plan.width, plan.height) == (width, height),
        (plan.format, plan.bpp) == (format, bpp),
        plan.tight == width * bpp,
        plan.need == width * bpp * height,
        plan.window == window,
        plan.selector == storage_format(format),
        plan.key.mapping_id == mapping_id,
        plan.key.map_generation == m.map_generation,
        plan.key.surface_offset == window.offset,
        plan.key.surface_bpr == window.bytes_per_row,
        plan.key.span_end == window.end,
        (plan.key.width, plan.key.height) == (width, height),
        plan.key.pixel_format == format,
        plan.key.texture_ref == 0,
        window.end <= m.page_entries.len() * crate::contract::page_bytes(page_shift),
        plan.seed_skipped ==> is_storage && lookup(mirror, plan.key) == Some(plan.seed_generation)
            && residents.storage_generation_spec(plan.key) == Some(plan.seed_generation),
        !plan.seed_skipped ==> plan.seed_generation == m.content_generation,
        is_storage && lookup(mirror, plan.key) is Some && residents.storage_generation_spec(
            plan.key,
        ) == lookup(mirror, plan.key) ==> plan.seed_skipped,
        is_storage ==> plan.sample_resident is None,
        !is_storage ==> plan.sample_resident == sampled_from(mirror, plan.key, residents),
{
    assert(0 <= width * bpp * height) by (nonlinear_arith)
        requires
            0 <= width,
            0 <= bpp,
            0 <= height,
    ;
    assert(0 <= width * bpp) by (nonlinear_arith);
}

/// When there is no plan of a window.
pub proof fn law_unplanned_windows(
    m: MappingView,
    mapping_id: u32,
    width: u32,
    height: u32,
    format: u16,
    bpp: u32,
    window: SurfaceWindow,
    is_storage: bool,
    page_shift: u32,
    mirror: Seq<(ComputeStorageResidencyKey, u32)>,
    residents: EngineResidents,
)
    ensures
        ({
            let plan = window_plan(
                m,
                mapping_id,
                width,
                height,
                format,
                bpp,
                window,
                is_storage,
                page_shift,
                mirror,
                residents,
            );
            let pages = m.page_entries.len() * crate::contract::page_bytes(page_shift);
            let wide = width * bpp > 0xffff_ffff;
            let large = width * bpp * height > usize::MAX;
            &&& wide ==> plan == Err::<SurfacePlan, ComputeStatus>(
                ComputeStatus::Unsupported("stage_tex_tight_bpr_overflow"),
            )
            &&& !wide && large ==> plan == Err::<SurfacePlan, ComputeStatus>(
                ComputeStatus::Unsupported("stage_tex_host_len"),
            )
            &&& !wide && !large && pages < window.end ==> plan == Err::<SurfacePlan, ComputeStatus>(
                ComputeStatus::GuestIo("compute_stage_tex_type11_span"),
            )
            &&& !wide && !large && pages >= window.end ==> plan is Ok
        }),
{
}

/// A geometry is planned in the format that the bind sees it in, without gamma, over the
/// window that the device gives for it.
pub proof fn law_planned_geometry(
    m: Option<MappingView>,
    mapping_id: u32,
    g: SurfaceViewRecord,
    view: Option<u16>,
    is_storage: bool,
    page_shift: u32,
    mirror: Seq<(ComputeStorageResidencyKey, u32)>,
    residents: EngineResidents,
)
    ensures
        ({
            let plan = geometry_plan(
                m,
                mapping_id,
                g,
                view,
                is_storage,
                page_shift,
                mirror,
                residents,
            );
            let seen = view_format(g.pixel_format, view);
            let format = linear_twin(seen->0);
            let bpp = texel_bytes(format);
            let window = view_window(m->0.device, format, g.width, g.height);
            let sized = g.width > 0 && g.height > 0;
            let storable = is_storage ==> storage_format(format) is Some;
            &&& !sized ==> plan == Err::<SurfacePlan, ComputeStatus>(
                ComputeStatus::MissingTexture("compute_stage_tex_zero_geom"),
            )
            &&& sized && seen is None ==> plan == Err::<SurfacePlan, ComputeStatus>(
                ComputeStatus::Unsupported("compute_view_format"),
            )
            &&& sized && seen is Some && bpp is None ==> plan == Err::<SurfacePlan, ComputeStatus>(
                ComputeStatus::Unsupported("stage_tex_fmt_bytes"),
            )
            &&& sized && seen is Some && bpp is Some && !storable ==> plan == Err::<
                SurfacePlan,
                ComputeStatus,
            >(ComputeStatus::Unsupported("stage_tex_fmt_storage"))
            &&& sized && seen is Some && bpp is Some && storable && m is None ==> plan == Err::<
                SurfacePlan,
                ComputeStatus,
            >(ComputeStatus::MissingTexture("compute_stage_tex_mapping_gone"))
            &&& sized && seen is Some && bpp is Some && storable && m is Some && window is None
                ==> plan == Err::<SurfacePlan, ComputeStatus>(
                ComputeStatus::MissingTexture("compute_stage_tex_type11_window"),
            )
            &&& plan is Ok ==> {
                &&& sized
                &&& seen is Some
                &&& m is Some
                &&& window == Some(plan->Ok_0.window)
                &&& bpp == Some(plan->Ok_0.bpp)
                &&& plan->Ok_0.format == format
                &&& plan->Ok_0.format != 81 && plan->Ok_0.format != 71
                &&& (plan->Ok_0.width, plan->Ok_0.height) == (g.width, g.height)
                &&& plan->Ok_0.mapping_id == mapping_id
                &&& plan->Ok_0.tight == g.width * bpp->0
                &&& plan->Ok_0.key.map_generation == m->0.map_generation
            }
        }),
{
    let plan = geometry_plan(m, mapping_id, g, view, is_storage, page_shift, mirror, residents);
    if plan is Ok {
        let format = linear_twin(view_format(g.pixel_format, view)->0);
        law_planned_windows(
            m->0,
            mapping_id,
            g.width,
            g.height,
            format,
            texel_bytes(format)->0,
            view_window(m->0.device, format, g.width, g.height)->0,
            is_storage,
            page_shift,
            mirror,
            residents,
            plan->Ok_0,
        );
    }
}

/// Only the first level of a surface can be staged, in the geometry that it has.
pub proof fn law_planned_surfaces(
    m: Option<MappingView>,
    mapping_id: u32,
    reached: Reached,
    described: Option<SurfaceViewRecord>,
    base: BaseTexture,
    is_storage: bool,
    page_shift: u32,
    mirror: Seq<(ComputeStorageResidencyKey, u32)>,
    residents: EngineResidents,
)
    ensures
        ({
            let plan = surface_plan(
                m,
                mapping_id,
                reached,
                described,
                base,
                is_storage,
                page_shift,
                mirror,
                residents,
            );
            let geometry = staged_geometry(m, reached, described);
            &&& base.level > 0 ==> plan == Err::<SurfacePlan, ComputeStatus>(
                ComputeStatus::Unsupported("compute_view_type11_mip"),
            )
            &&& base.level == 0 && geometry is Err ==> plan is Err && plan->Err_0
                == geometry->Err_0
            &&& base.level == 0 && geometry is Ok ==> plan == geometry_plan(
                m,
                mapping_id,
                geometry->Ok_0,
                base.pixel_format,
                is_storage,
                page_shift,
                mirror,
                residents,
            )
        }),
{
}

/// The guest is read only where the engine has nothing, and then has to be; what is staged
/// is the plan's texture, to be written back to its own window where it is stored to.
pub proof fn law_staged_surfaces(
    plan: SurfacePlan,
    binding: u32,
    is_storage: bool,
    read: Option<Seq<u8>>,
)
    ensures
        reads_guest(plan) <==> !plan.seed_skipped && plan.sample_resident is None,
        reads_guest(plan) && read is None ==> surface_staged(plan, binding, is_storage, read)
            == Err::<StagedView, ComputeStatus>(
            ComputeStatus::GuestIo("compute_stage_tex_type11_read"),
        ),
        !(reads_guest(plan) && read is None) ==> match surface_staged(
            plan,
            binding,
            is_storage,
            read,
        ) {
            Err(_) => false,
            Ok(staged) => {
                &&& staged.binding == binding
                &&& staged.is_storage == is_storage
                &&& (staged.width, staged.height) == (plan.width, plan.height)
                &&& staged.pixel_format == plan.format
                &&& staged.storage_selector == plan.selector
                &&& reads_guest(plan) ==> staged.bytes == read->0
                &&& !reads_guest(plan) ==> staged.bytes.len() == plan.need && forall|i: int|
                    0 <= i < plan.need ==> #[trigger] staged.bytes[i] == 0
                &&& staged.seed_skipped == plan.seed_skipped
                &&& staged.sample_resident == plan.sample_resident
                &&& !is_storage ==> staged.residency is None && staged.writeback is Nowhere
                &&& is_storage ==> {
                    let to = staged.writeback;
                    &&& staged.residency is Some
                    &&& staged.residency->0.key == plan.key
                    &&& staged.residency->0.seed_generation == plan.seed_generation
                    &&& to is Type11
                    &&& to->mapping_id == plan.mapping_id
                    &&& to->surface_offset == plan.window.offset
                    &&& to->surface_bpr == plan.window.bytes_per_row
                    &&& to->span_end == plan.window.end
                    &&& (to->Type11_width, to->Type11_height) == (plan.width, plan.height)
                    &&& to->Type11_bpp == plan.bpp
                }
            },
        },
{
}

} // verus!
