//! What a linear texture is staged from, and what the host keeps of it.

use vstd::prelude::*;
use crate::compute_exec::buffers::Lookup;
use crate::compute_exec::format::{storage_format, view_format};
use crate::compute_exec::linear_cache::{
    ColorTexture, LinearCache, LinearTexture, LinearWindow, bgra, color_from, entry_from,
    is_forgotten, mirrorable, storable,
};
use crate::compute_exec::linear_texture::{
    LevelLayout, LinearDescriptor, LinearPlan, LinearSource, layout_plan, linear_plan,
    linear_staged, row_gva, source_of,
};
use crate::compute_exec::stage::{StagePhase, TextureStage, cached_rows, writes_plan};
use crate::compute_exec::status::ComputeStatus;
use crate::compute_exec::texture::{BaseTexture, EngineResidents, samples_resident};
use crate::contract::texel_bytes;

verus! {

/// What a plan of a level says: the level as it lies in task memory, tight rows of whole
/// texels, and the identity of its window where the stride fits one.
pub proof fn law_planned_levels(
    task_id: u32,
    texture_ref: u32,
    format: u16,
    bpp: u32,
    layout: LevelLayout,
    plan: LinearPlan,
)
    requires
        layout_plan(task_id, texture_ref, format, bpp, layout) == Ok::<LinearPlan, ComputeStatus>(
            plan,
        ),
    ensures
        plan.texture_ref == texture_ref,
        (plan.format, plan.bpp) == (format, bpp),
        plan.selector == storage_format(format),
        plan.layout == layout,
        layout.width > 0 && layout.height > 0 && layout.row_stride > 0,
        plan.tight == layout.width * bpp,
        plan.tight <= layout.row_stride,
        plan.need == plan.tight * layout.height,
        plan.key is Some <==> layout.row_stride < 0x1_0000_0000,
        plan.key is Some ==> {
            let key = plan.key->0;
            &&& key.mapping_id == 0xffff_ffff
            &&& key.map_generation == task_id
            &&& key.texture_ref == texture_ref
            &&& key.surface_offset == layout.gva
            &&& key.surface_bpr == layout.row_stride
            &&& key.span_end == layout.row_stride * layout.height
            &&& (key.width, key.height) == (layout.width, layout.height)
            &&& key.pixel_format == format
        },
        plan.window_spec().gva == layout.gva,
        plan.window_spec().pixel_format == format,
        (plan.window_spec().width, plan.window_spec().height) == (layout.width, layout.height),
        plan.window_spec().row_stride == layout.row_stride,
{
    let w = layout.width;
    let h = layout.height;
    assert(0 <= w * bpp && 0 <= w * bpp * h) by (nonlinear_arith)
        requires
            0 <= w,
            0 <= bpp,
            0 <= h,
    ;
    if layout.row_stride < 0x1_0000_0000 {
        let s = layout.row_stride;
        assert(0 <= s * h <= 0xffff_ffff * 0xffff_ffff) by (nonlinear_arith)
            requires
                0 <= s <= 0xffff_ffff,
                0 <= h <= 0xffff_ffff,
        ;
    }
}

/// When there is no plan of a level.
pub proof fn law_unplanned_levels(
    task_id: u32,
    texture_ref: u32,
    format: u16,
    bpp: u32,
    layout: LevelLayout,
)
    ensures
        ({
            let plan = layout_plan(task_id, texture_ref, format, bpp, layout);
            let sized = layout.width > 0 && layout.height > 0 && layout.row_stride > 0;
            let row = layout.width * bpp;
            &&& !sized ==> plan == Err::<LinearPlan, ComputeStatus>(
                ComputeStatus::MissingTexture("compute_linear_tex_zero_geom"),
            )
            &&& sized && row > usize::MAX ==> plan == Err::<LinearPlan, ComputeStatus>(
                ComputeStatus::Unsupported("linear_tex_tight_overflow"),
            )
            &&& sized && row <= usize::MAX && row > layout.row_stride ==> plan == Err::<
                LinearPlan,
                ComputeStatus,
            >(ComputeStatus::MissingTexture("compute_linear_tex_stride_lt_tight"))
            &&& sized && row <= usize::MAX && row <= layout.row_stride && row * layout.height
                > usize::MAX ==> plan == Err::<LinearPlan, ComputeStatus>(
                ComputeStatus::Unsupported("linear_tex_need_overflow"),
            )
            &&& sized && row <= usize::MAX && row <= layout.row_stride && row * layout.height
                <= usize::MAX ==> plan is Ok
        }),
{
}

/// A linear texture is planned by its descriptor: in the format that the bind sees it in,
/// at the wanted level.
pub proof fn law_planned_linear_textures(
    task_id: u32,
    base: BaseTexture,
    d: LinearDescriptor,
    is_storage: bool,
)
    ensures
        ({
            let plan = linear_plan(task_id, base, Lookup::Decoded(d), is_storage);
            let seen = view_format(d.pixel_format, base.pixel_format);
            let bpp = texel_bytes(seen->0);
            let storable = is_storage ==> storage_format(seen->0) is Some;
            &&& !d.has_pixel_format ==> plan == Err::<LinearPlan, ComputeStatus>(
                ComputeStatus::Unsupported("linear_tex_no_fmt"),
            )
            &&& d.has_pixel_format && seen is None ==> plan == Err::<LinearPlan, ComputeStatus>(
                ComputeStatus::Unsupported("linear_tex_view_format"),
            )
            &&& d.has_pixel_format && seen is Some && bpp is None ==> plan == Err::<
                LinearPlan,
                ComputeStatus,
            >(ComputeStatus::Unsupported("linear_tex_fmt_bytes"))
            &&& d.has_pixel_format && seen is Some && bpp is Some && !storable ==> plan == Err::<
                LinearPlan,
                ComputeStatus,
            >(ComputeStatus::Unsupported("linear_tex_fmt_storage"))
            &&& d.has_pixel_format && seen is Some && bpp is Some && storable && d.level is None
                ==> plan == Err::<LinearPlan, ComputeStatus>(
                ComputeStatus::MissingTexture("compute_linear_tex_no_level"),
            )
            &&& d.has_pixel_format && seen is Some && bpp is Some && storable && d.level is Some
                ==> plan == layout_plan(task_id, base.stage_ref, seen->0, bpp->0, d.level->0)
        }),
{
}

/// What has no descriptor has no plan.
pub proof fn law_unknown_linear_textures(
    task_id: u32,
    base: BaseTexture,
    is_storage: bool,
    lookup: Lookup<LinearDescriptor>,
)
    ensures
        lookup is NoEntry ==> linear_plan(task_id, base, lookup, is_storage) == Err::<
            LinearPlan,
            ComputeStatus,
        >(ComputeStatus::MissingTexture("compute_linear_tex_no_entry")),
        lookup is WrongType ==> linear_plan(task_id, base, lookup, is_storage) == Err::<
            LinearPlan,
            ComputeStatus,
        >(ComputeStatus::MissingTexture("compute_linear_tex_not_texture")),
        lookup is NoDescriptor ==> linear_plan(task_id, base, lookup, is_storage) == Err::<
            LinearPlan,
            ComputeStatus,
        >(ComputeStatus::MissingTexture("compute_linear_tex_no_desc")),
        lookup is Undecoded ==> linear_plan(task_id, base, lookup, is_storage) == Err::<
            LinearPlan,
            ComputeStatus,
        >(ComputeStatus::MissingTexture("compute_linear_tex_desc_decode")),
{
}

/// Where the engine holds the window, its resident serves the bind or is flushed first: it
/// seeds a storage image in its very generation, and is sampled in its generation and
/// format. Where it does not, the bytes come from the host or the guest.
pub proof fn law_sources_of_linear_textures(
    plan: LinearPlan,
    is_storage: bool,
    resident: Option<u32>,
    residents: EngineResidents,
)
    ensures
        match source_of(plan, is_storage, resident, residents) {
            LinearSource::Bytes => plan.key is None || resident is None,
            LinearSource::Seed(generation) => is_storage && plan.key is Some && resident == Some(
                generation,
            ) && residents.storage_generation_spec(plan.key->0) == Some(generation),
            LinearSource::Sample(sample) => !is_storage && plan.key == Some(sample.key) && resident
                == Some(sample.generation) && samples_resident(
                residents,
                sample.key,
                sample.generation,
                plan.format,
            ),
            LinearSource::Flush(key, generation) => plan.key == Some(key) && resident == Some(
                generation,
            ) && (is_storage ==> residents.storage_generation_spec(key) != Some(generation)) && (
            !is_storage ==> !samples_resident(residents, key, generation, plan.format)),
        },
{
}

/// Row `y` starts `y` strides behind the first.
pub proof fn law_rows_are_a_stride_apart(plan: LinearPlan, y: u32)
    ensures
        match row_gva(plan, y) {
            Ok(gva) => gva == plan.layout.gva + y * plan.layout.row_stride,
            Err(status) => plan.layout.gva + y * plan.layout.row_stride > 0xffff_ffff_ffff_ffff && (
            if y * plan.layout.row_stride > 0xffff_ffff_ffff_ffff {
                status == ComputeStatus::GuestIo("compute_stage_tex_linear_row_offset")
            } else {
                status == ComputeStatus::GuestIo("compute_stage_tex_linear_row_gva")
            }),
        },
{
    let s = plan.layout.row_stride;
    assert(0 <= y * s) by (nonlinear_arith);
}

/// What is staged of a linear texture: the plan's own extent and format, zeroes where the
/// engine holds the texels and the bytes that were read where it does not, and the plan's
/// rows to write back to where it is stored to. Colours that the host mirrors have no window
/// in the engine.
pub proof fn law_staged_linear_textures(
    plan: LinearPlan,
    binding: u32,
    is_storage: bool,
    source: LinearSource,
    read: Result<Seq<u8>, ComputeStatus>,
    host_generation: u32,
)
    ensures
        ({
            let held = source is Seed || source is Sample;
            match linear_staged(plan, binding, is_storage, source, read, host_generation) {
                Err(status) => !held && read == Err::<Seq<u8>, ComputeStatus>(status),
                Ok(staged) => {
                    let to = staged.writeback;
                    &&& held || read is Ok
                    &&& staged.binding == binding
                    &&& staged.is_storage == is_storage
                    &&& (staged.width, staged.height) == (plan.layout.width, plan.layout.height)
                    &&& staged.pixel_format == plan.format
                    &&& staged.storage_selector == plan.selector
                    &&& held ==> staged.bytes.len() == plan.need && forall|i: int|
                        0 <= i < plan.need ==> #[trigger] staged.bytes[i] == 0
                    &&& !held ==> staged.bytes == read->Ok_0
                    &&& staged.seed_skipped <==> source is Seed
                    &&& source is Sample ==> staged.sample_resident == Some(source->Sample_0)
                    &&& !(source is Sample) ==> staged.sample_resident is None
                    &&& staged.residency is Some <==> is_storage && plan.key is Some && ![
                        70u16,
                        71u16,
                        80u16,
                        81u16,
                    ]@.contains(plan.format)
                    &&& staged.residency is Some ==> staged.residency->0.key == plan.key->0 && (
                    source is Seed ==> staged.residency->0.seed_generation == source->Seed_0) && (
                    !(source is Seed) ==> staged.residency->0.seed_generation == host_generation)
                    &&& !is_storage ==> to is Nowhere
                    &&& is_storage ==> writes_plan(staged, plan) && to is Linear
                        && to->texture_ref == plan.texture_ref && to->gva == plan.layout.gva
                        && to->pixel_format == plan.format && to->row_stride
                        == plan.layout.row_stride && to->Linear_width == plan.layout.width
                        && to->Linear_height == plan.layout.height && to->Linear_bpp == plan.bpp
                },
            }
        }),
{
    law_mirrored_formats(plan.format);
    let four = [70u16, 71u16, 80u16, 81u16]@;
    assert(four[0] == 70 && four[1] == 71 && four[2] == 80 && four[3] == 81);
}

/// The host mirrors the four formats of 8-bit colour.
pub proof fn law_mirrored_formats(format: u16)
    ensures
        mirrorable(format) <==> format == 70 || format == 71 || format == 80 || format == 81,
{
}

/// A texture is kept under its task and its own number, the first such entry counting.
pub proof fn law_first_entry_counts(
    entries: Seq<LinearTexture>,
    i: int,
    task_id: u32,
    texture_ref: u32,
)
    requires
        0 <= i <= entries.len(),
    ensures
        match entry_from(entries, i, task_id, texture_ref) {
            Some(k) => i <= k < entries.len() && entries[k].task_id == task_id
                && entries[k].texture_ref == texture_ref && forall|j: int|
                i <= j < k ==> (#[trigger] entries[j]).task_id != task_id || entries[j].texture_ref
                    != texture_ref,
            None => forall|j: int|
                i <= j < entries.len() ==> (#[trigger] entries[j]).task_id != task_id
                    || entries[j].texture_ref != texture_ref,
        },
    decreases entries.len() - i,
{
    if i < entries.len() && !(entries[i].task_id == task_id && entries[i].texture_ref
        == texture_ref) {
        law_first_entry_counts(entries, i + 1, task_id, texture_ref);
    }
}

/// A colour is kept under its texture's number, the first such entry counting.
pub proof fn law_first_colour_counts(colors: Seq<ColorTexture>, i: int, texture_ref: u32)
    requires
        0 <= i <= colors.len(),
    ensures
        match color_from(colors, i, texture_ref) {
            Some(k) => i <= k < colors.len() && colors[k].texture_ref == texture_ref
                && forall|j: int| i <= j < k ==> (#[trigger] colors[j]).texture_ref != texture_ref,
            None => forall|j: int|
                i <= j < colors.len() ==> (#[trigger] colors[j]).texture_ref != texture_ref,
        },
    decreases colors.len() - i,
{
    if i < colors.len() && colors[i].texture_ref != texture_ref {
        law_first_colour_counts(colors, i + 1, texture_ref);
    }
}

/// The host's copy serves the very window it was made of, and only while the engine does not
/// hold a newer one; then the engine's generation is what there is. The two exclude each
/// other.
pub proof fn law_host_or_engine_serves(
    cache: LinearCache,
    task_id: u32,
    texture_ref: u32,
    window: LinearWindow,
    k: int,
)
    requires
        0 <= k < cache.entries.len(),
        cache.entries[k].task_id == task_id,
        cache.entries[k].texture_ref == texture_ref,
        forall|j: int|
            0 <= j < k ==> (#[trigger] cache.entries@[j]).task_id != task_id
                || cache.entries@[j].texture_ref != texture_ref,
    ensures
        ({
            let e = cache.entries[k];
            &&& cache.entry(task_id, texture_ref) == Some(e)
            &&& cache.generation(task_id, texture_ref) == e.host_gen
            &&& cache.served(task_id, texture_ref, window) is Some ==> cache.served(
                task_id,
                texture_ref,
                window,
            ) == Some(e.bytes@) && e.window == window && e.resident_gen == 0
            &&& cache.resident(task_id, texture_ref, window) is Some <==> e.window == window
                && e.resident_gen > 0
            &&& cache.resident(task_id, texture_ref, window) is Some ==> cache.resident(
                task_id,
                texture_ref,
                window,
            ) == Some(e.resident_gen)
            &&& e.window == window && e.resident_gen == 0 && storable(window, e.bytes@)
                ==> cache.served(task_id, texture_ref, window) is Some
            &&& cache.served(task_id, texture_ref, window) is None || cache.resident(
                task_id,
                texture_ref,
                window,
            ) is None
        }),
{
    law_first_entry_counts(cache.entries@, 0, task_id, texture_ref);
}

/// What is not kept is not served, and starts at generation 0.
pub proof fn law_what_is_not_kept(
    cache: LinearCache,
    task_id: u32,
    texture_ref: u32,
    window: LinearWindow,
)
    requires
        forall|j: int|
            0 <= j < cache.entries.len() ==> (#[trigger] cache.entries@[j]).task_id != task_id
                || cache.entries@[j].texture_ref != texture_ref,
    ensures
        cache.entry(task_id, texture_ref) is None,
        cache.served(task_id, texture_ref, window) is None,
        cache.resident(task_id, texture_ref, window) is None,
        cache.generation(task_id, texture_ref) == 0,
{
    law_first_entry_counts(cache.entries@, 0, task_id, texture_ref);
}

/// A colour is given back in the extent it was kept in.
pub proof fn law_colours_are_given_back(
    cache: LinearCache,
    texture_ref: u32,
    width: u32,
    height: u32,
    k: int,
)
    requires
        0 <= k < cache.colors.len(),
        cache.colors[k].texture_ref == texture_ref,
        forall|j: int| 0 <= j < k ==> (#[trigger] cache.colors@[j]).texture_ref != texture_ref,
    ensures
        cache.color(texture_ref, width, height) is Some <==> cache.colors[k].width == width
            && cache.colors[k].height == height,
        cache.color(texture_ref, width, height) is Some ==> cache.color(texture_ref, width, height)
            == Some(cache.colors[k].bytes@),
{
    law_first_colour_counts(cache.colors@, 0, texture_ref);
}

/// Bytes can be kept of a window where they are enough for its texels.
pub proof fn law_what_can_be_kept(window: LinearWindow, bytes: Seq<u8>)
    ensures
        storable(window, bytes) <==> texel_bytes(window.pixel_format) is Some && bytes.len()
            >= window.width * window.height * texel_bytes(window.pixel_format)->0,
{
}

/// The host keeps colours with blue first: of RGBA texels, red and blue change places.
pub proof fn law_colours_have_blue_first(format: u16, bytes: Seq<u8>, i: int)
    requires
        0 <= i,
        4 * i + 3 < bytes.len(),
    ensures
        ({
            let kept = bgra(format, bytes);
            &&& kept.len() == bytes.len()
            &&& kept[4 * i + 1] == bytes[4 * i + 1]
            &&& kept[4 * i + 3] == bytes[4 * i + 3]
            &&& format == 70 || format == 71 ==> kept[4 * i] == bytes[4 * i + 2] && kept[4 * i + 2]
                == bytes[4 * i]
            &&& format != 70 && format != 71 ==> kept[4 * i] == bytes[4 * i] && kept[4 * i + 2]
                == bytes[4 * i + 2]
        }),
{
}

/// Forgetting the engine's resident keeps the host's bytes, window and generation.
pub proof fn law_forgetting_keeps_the_bytes(
    before: LinearCache,
    task_id: u32,
    texture_ref: u32,
    after: LinearCache,
    window: LinearWindow,
)
    requires
        is_forgotten(before, task_id, texture_ref, after),
    ensures
        after.resident(task_id, texture_ref, window) is None,
        before.entry(task_id, texture_ref) is None ==> after == before,
        after.generation(task_id, texture_ref) == before.generation(task_id, texture_ref),
        before.served(task_id, texture_ref, window) is Some ==> after.served(
            task_id,
            texture_ref,
            window,
        ) == before.served(task_id, texture_ref, window),
        before.entry(task_id, texture_ref) is Some ==> after.entry(task_id, texture_ref) is Some
            && after.entry(task_id, texture_ref)->0.bytes@ == before.entry(
            task_id,
            texture_ref,
        )->0.bytes@,
{
}

/// The host's rows for a plan are the first of the bytes it keeps for the plan's window.
pub proof fn law_cached_rows(cache: LinearCache, task_id: u32, plan: LinearPlan, i: int)
    requires
        cached_rows(cache, task_id, plan) is Some,
        cache.served(task_id, plan.texture_ref, plan.window_spec())->0.len() >= plan.need,
        0 <= i < plan.need,
    ensures
        cached_rows(cache, task_id, plan)->0.len() == plan.need,
        cached_rows(cache, task_id, plan)->0[i] == cache.served(
            task_id,
            plan.texture_ref,
            plan.window_spec(),
        )->0[i],
{
}

/// Without the host's rows the texels are read from the guest; with them the texture is
/// staged of those rows.
pub proof fn law_cached_rows_spare_the_read(
    stage: TextureStage,
    cache: LinearCache,
    plan: LinearPlan,
    source: LinearSource,
    after: StagePhase,
)
    requires
        stage.cached_or_read(cache, plan, source, after),
    ensures
        cached_rows(cache, stage.task_id, plan) is None ==> after == StagePhase::LinearRead(plan),
        cached_rows(cache, stage.task_id, plan) is Some ==> after is Done && after->Done_0 is Ok,
        cached_rows(cache, stage.task_id, plan) is Some ==> after->Done_0->Ok_0.binding
            == stage.binding && after->Done_0->Ok_0.is_storage == stage.is_storage,
        cached_rows(cache, stage.task_id, plan) is Some && !(source is Seed) && !(source is Sample)
            ==> after->Done_0->Ok_0.bytes@ == cached_rows(cache, stage.task_id, plan)->0,
{
}

} // verus!
