//! What becomes of the outputs of a dispatch.

use vstd::prelude::*;
use crate::compute_exec::linear_cache::{LinearCache, LinearWindow, bgra, storable};
use crate::compute_exec::linear_laws::law_mirrored_formats;
use crate::compute_exec::outputs::{
    OwedView, deferred_outcome, disarmed, is_noted, opportunity, others, owed_span, roomy, span_of,
    surface_deferred,
};
use crate::compute_exec::status::ComputeStatus;
use crate::compute_exec::texture::{
    ComputeStorageResidencyCandidate, StagedTexture, StagedView, TextureWriteback,
};
use crate::compute_exec::writeback::{
    WritebackStep, is_stored, row_written, stores_copy, writeback_step,
};
use crate::contract::texel_bytes;
use crate::model::{DeviceView, TaskSpan, write_allowed};
use crate::residency::{
    ComputeStorageResidencyKey, Victims, lemma_thinned_count, lookup, siblings, survivors, taken,
    thinned,
};
use crate::residency_laws::{law_removal_splits_the_windows, law_thinning_takes_the_first};

verus! {

/// A linear texture is written back row by row to the memory it came from, as long as its
/// rows fit their stride, its bytes are all there and the host could keep them; outside the
/// task's spans nothing is written.
pub proof fn law_linear_outputs_go_back(
    task_id: u32,
    texture: StagedView,
    spans: Seq<TaskSpan>,
    texture_ref: u32,
    gva: u64,
    pixel_format: u16,
    row_stride: u64,
    width: u32,
    height: u32,
    bpp: u32,
)
    requires
        texture.writeback == (TextureWriteback::Linear {
            texture_ref,
            gva,
            pixel_format,
            row_stride,
            width,
            height,
            bpp,
        }),
    ensures
        ({
            let step = writeback_step(task_id, texture, spans);
            let laid = width * bpp <= row_stride && width * bpp * height <= texture.bytes.len();
            let kept = storable(
                LinearWindow { gva, pixel_format, width, height, row_stride },
                texture.bytes,
            );
            let long = row_stride * height > 0xffff_ffff_ffff_ffff;
            let open = write_allowed(spans, task_id, gva, (row_stride * height) as u64);
            &&& !laid ==> step == Err::<WritebackStep, ComputeStatus>(
                ComputeStatus::GuestIo("compute_wb_tex_linear_layout"),
            )
            &&& laid && !kept ==> step == Err::<WritebackStep, ComputeStatus>(
                ComputeStatus::GuestIo("compute_wb_tex_linear_cache_store"),
            )
            &&& laid && kept && long ==> step == Err::<WritebackStep, ComputeStatus>(
                ComputeStatus::GuestIo("compute_wb_tex_linear_span_overflow"),
            )
            &&& laid && kept && !long && !open ==> step == Ok::<WritebackStep, ComputeStatus>(
                WritebackStep::Done,
            )
            &&& laid && kept && !long && open ==> step is Ok && step->Ok_0 is WriteLinear
                && step->Ok_0->gva == gva && step->Ok_0->row_stride == row_stride
                && step->Ok_0->WriteLinear_height == height && (width * bpp <= usize::MAX
                ==> step->Ok_0->WriteLinear_tight == width * bpp)
            &&& stores_copy(texture) <==> laid && kept
        }),
{
    assert(0 <= width * bpp) by (nonlinear_arith);
}

/// A surface is written back whole, to the window it came from.
pub proof fn law_surface_outputs_go_back(task_id: u32, texture: StagedView, spans: Seq<TaskSpan>)
    requires
        texture.writeback is Type11,
    ensures
        ({
            let step = writeback_step(task_id, texture, spans);
            let from = texture.writeback;
            &&& step is Ok
            &&& step->Ok_0 is WriteSurface
            &&& step->Ok_0->mapping_id == from->mapping_id
            &&& step->Ok_0->surface_offset == from->surface_offset
            &&& step->Ok_0->surface_bpr == from->surface_bpr
            &&& step->Ok_0->span_end == from->span_end
            &&& step->Ok_0->width == from->Type11_width
            &&& step->Ok_0->WriteSurface_height == from->Type11_height
            &&& step->Ok_0->bpp == from->Type11_bpp
            &&& from->Type11_width * from->Type11_bpp <= 0xffff_ffff
                ==> step->Ok_0->WriteSurface_tight == from->Type11_width * from->Type11_bpp
            &&& from->Type11_width * from->Type11_bpp > 0xffff_ffff
                ==> step->Ok_0->WriteSurface_tight == 0xffff_ffff
            &&& !stores_copy(texture)
        }),
{
    let w = texture.writeback->Type11_width;
    let b = texture.writeback->Type11_bpp;
    assert(0 <= w * b) by (nonlinear_arith);
}

/// What has nowhere to go is done with.
pub proof fn law_nothing_to_write_back(task_id: u32, texture: StagedView, spans: Seq<TaskSpan>)
    requires
        texture.writeback is Nowhere,
    ensures
        writeback_step(task_id, texture, spans) == Ok::<WritebackStep, ComputeStatus>(
            WritebackStep::Done,
        ),
        !stores_copy(texture),
{
}

/// A row is written with its own bytes first and zeroes up to the stride.
pub proof fn law_written_rows(bytes: Seq<u8>, y: int, tight: int, row_stride: int, x: int)
    requires
        0 <= y,
        0 <= tight <= row_stride,
        y * tight + tight <= bytes.len(),
        0 <= x < row_stride,
    ensures
        row_written(bytes, y, tight, row_stride).len() == row_stride,
        x < tight ==> row_written(bytes, y, tight, row_stride)[x] == bytes[y * tight + x],
        x >= tight ==> row_written(bytes, y, tight, row_stride)[x] == 0,
{
    assert(0 <= y * tight) by (nonlinear_arith)
        requires
            0 <= y,
            0 <= tight,
    ;
}

/// What is stored of an output moves the host's copy on by one generation.
pub proof fn law_stored_outputs_move_on(
    before: LinearCache,
    task_id: u32,
    texture: StagedView,
    after: LinearCache,
)
    requires
        is_stored(before, task_id, texture, after),
    ensures
        !stores_copy(texture) ==> after == before,
        stores_copy(texture) ==> {
            let w = texture.writeback;
            let was = before.generation(task_id, w->texture_ref);
            let now = after.generation(task_id, w->texture_ref);
            &&& was < 0xffff_ffff ==> now == was + 1
            &&& was == 0xffff_ffff ==> now == 1
            &&& after.served(
                task_id,
                w->texture_ref,
                LinearWindow {
                    gva: w->gva,
                    pixel_format: w->pixel_format,
                    width: w->Linear_width,
                    height: w->Linear_height,
                    row_stride: w->row_stride,
                },
            ) == Some(texture.bytes)
            &&& [70u16, 71u16, 80u16, 81u16]@.contains(w->pixel_format) ==> after.color(
                w->texture_ref,
                w->Linear_width,
                w->Linear_height,
            ) == Some(bgra(w->pixel_format, texture.bytes))
            &&& ![70u16, 71u16, 80u16, 81u16]@.contains(w->pixel_format) ==> after.colors
                == before.colors
        },
{
    if stores_copy(texture) {
        law_mirrored_formats(texture.writeback->pixel_format);
        let four = [70u16, 71u16, 80u16, 81u16]@;
        assert(four[0] == 70 && four[1] == 71 && four[2] == 80 && four[3] == 81);
    }
}

/// The texture could have been served by the engine.
pub open spec fn could_be_served(t: StagedTexture) -> bool {
    t.is_storage && t.residency is Some && t.residency->0.key.mapping_id != 0xffff_ffff
}

/// Counted are the storage textures with a window that is not linear, and among them those
/// that are recorded in the very generation; and their bytes.
pub proof fn law_opportunities_are_counted(
    textures: Seq<StagedTexture>,
    mirror: Seq<(ComputeStorageResidencyKey, u32)>,
    n: int,
)
    requires
        0 <= n < textures.len(),
    ensures
        ({
            let t = textures[n];
            let was = opportunity(textures, mirror, n);
            let now = opportunity(textures, mirror, n + 1);
            let recorded = could_be_served(t) && lookup(mirror, t.residency->0.key) == Some(
                t.residency->0.seed_generation,
            );
            &&& opportunity(textures, mirror, 0) == (0int, 0int, 0int, 0int)
            &&& now.0 == was.0 + if could_be_served(t) {
                1int
            } else {
                0
            }
            &&& now.1 == was.1 + if recorded {
                1int
            } else {
                0
            }
            &&& now.2 == was.2 + if could_be_served(t) {
                t.bytes.len() as int
            } else {
                0
            }
            &&& now.3 == was.3 + if recorded {
                t.bytes.len() as int
            } else {
                0
            }
        }),
{
}

/// Room is made for a window: those it meets go, and as many of the mapping's others as
/// leave seven.
pub proof fn law_room_for_a_window(
    mirror: Seq<(ComputeStorageResidencyKey, u32)>,
    key: ComputeStorageResidencyKey,
    e: (ComputeStorageResidencyKey, u32),
)
    ensures
        siblings(roomy(mirror, key), key) <= 7,
        roomy(mirror, key).contains(e) ==> mirror.contains(e) && !(e.0.mapping_id == key.mapping_id
            && e.0.surface_offset < key.span_end && key.surface_offset < e.0.span_end),
        mirror.contains(e) && e.0.mapping_id != key.mapping_id ==> roomy(mirror, key).contains(e),
{
    let victims = Victims::Meeting {
        mapping_id: key.mapping_id,
        lo: key.surface_offset,
        hi: key.span_end,
    };
    let apart = survivors(mirror, victims);
    let extra = siblings(apart, key) - 7;
    let n = if extra > 0 {
        extra
    } else {
        0
    };
    assert(roomy(mirror, key) == thinned(apart, key, n));
    lemma_thinned_count(apart, key, n);
    law_removal_splits_the_windows(mirror, victims, e);
    law_thinning_takes_the_first(apart, key, n, e);
}

/// An output is recorded one generation on; a linear one is not recorded at all.
pub proof fn law_outputs_are_recorded(
    before: Seq<(ComputeStorageResidencyKey, u32)>,
    candidate: ComputeStorageResidencyCandidate,
    after: Seq<(ComputeStorageResidencyKey, u32)>,
)
    requires
        is_noted(before, Some(candidate), after),
    ensures
        candidate.key.mapping_id == 0xffff_ffff ==> after == before,
        candidate.key.mapping_id != 0xffff_ffff ==> {
            let g = candidate.seed_generation;
            &&& lookup(after, candidate.key) is Some
            &&& g < 0xffff_ffff ==> lookup(after, candidate.key)->0 == g + 1
            &&& g == 0xffff_ffff ==> lookup(after, candidate.key) == Some(1u32)
        },
{
}

/// A texture without a window leaves the record alone.
pub proof fn law_windowless_outputs_are_not_recorded(
    before: Seq<(ComputeStorageResidencyKey, u32)>,
    after: Seq<(ComputeStorageResidencyKey, u32)>,
)
    requires
        is_noted(before, None, after),
    ensures
        after == before,
{
}

/// Disarming takes the windows of one key.
pub proof fn law_disarming_takes_one_key(
    windows: Seq<OwedView>,
    key: ComputeStorageResidencyKey,
    w: OwedView,
)
    ensures
        disarmed(windows, key).contains(w) <==> windows.contains(w) && w.key != key,
    decreases windows.len(),
{
    reveal(Seq::filter);
    if windows.len() > 0 {
        let rest = windows.drop_last();
        let last = windows.last();
        law_disarming_takes_one_key(rest, key, w);
        assert(windows == rest.push(last));
        lemma_pushed(rest, last, w);
        lemma_pushed(disarmed(rest, key), last, w);
    }
}

proof fn lemma_pushed<T>(s: Seq<T>, last: T, e: T)
    ensures
        s.push(last).contains(e) <==> s.contains(e) || e == last,
{
    let more = s.push(last);
    assert(more[s.len() as int] == last);
    if s.contains(e) {
        let i = choose|i: int| 0 <= i < s.len() && s[i] == e;
        assert(more[i] == e);
    }
    if more.contains(e) && e != last {
        let i = choose|i: int| 0 <= i < more.len() && more[i] == e;
        assert(s[i] == e);
    }
}

/// A deferred linear output is owed to its own memory, over the length of its window, where
/// the task may be written there.
pub proof fn law_what_is_owed(task_id: u32, texture: StagedTexture, view: DeviceView)
    ensures
        match owed_span(task_id, texture, view) {
            Some((gva, len)) => texture.writeback is Linear && texture.writeback->gva == gva
                && texture.residency is Some && texture.residency->0.key.span_end == len
                && write_allowed(view.task_spans, task_id, gva, len),
            None => !(texture.writeback is Linear) || texture.residency is None || !write_allowed(
                view.task_spans,
                task_id,
                texture.writeback->gva,
                texture.residency->0.key.span_end,
            ),
        },
{
}

/// The windows but one, by their keys.
pub proof fn law_others_are_the_others(
    windows: Seq<(ComputeStorageResidencyKey, u32)>,
    key: ComputeStorageResidencyKey,
    other: ComputeStorageResidencyKey,
)
    ensures
        others(windows, key).contains(other) <==> other != key && exists|i: int|
            0 <= i < windows.len() && (#[trigger] windows[i]).0 == other,
    decreases windows.len(),
{
    if windows.len() > 0 {
        let rest = windows.drop_last();
        let last = windows.last();
        law_others_are_the_others(rest, key, other);
        lemma_pushed(others(rest, key), last.0, other);
        if exists|i: int| 0 <= i < rest.len() && (#[trigger] rest[i]).0 == other {
            let i = choose|i: int| 0 <= i < rest.len() && (#[trigger] rest[i]).0 == other;
            assert(windows[i].0 == other);
        }
        if exists|i: int| 0 <= i < windows.len() && (#[trigger] windows[i]).0 == other {
            let i = choose|i: int| 0 <= i < windows.len() && (#[trigger] windows[i]).0 == other;
            if i < rest.len() {
                assert(rest[i].0 == other);
            } else {
                assert(windows[i] == last);
            }
        }
        if last.0 == other {
            assert(windows[windows.len() - 1].0 == other);
        }
    }
}

/// A deferred surface output supersedes what is owed of the windows that it meets, its own
/// aside. A linear one supersedes nothing. What has no window, or nowhere to go, cannot be
/// deferred, nor can texels without a size.
pub proof fn law_what_a_deferred_output_supersedes(
    texture: StagedTexture,
    owed: Seq<(ComputeStorageResidencyKey, u32)>,
    other: ComputeStorageResidencyKey,
)
    ensures
        ({
            let out = deferred_outcome(texture, owed);
            let key = texture.residency->0.key;
            &&& texture.residency is None || texture.writeback is Nowhere ==> out == Err::<
                Seq<ComputeStorageResidencyKey>,
                ComputeStatus,
            >(ComputeStatus::MetalFailed("compute_vk_deferred_identity"))
            &&& texture.residency is Some && texture.writeback is Linear && texel_bytes(
                texture.writeback->pixel_format,
            ) is None ==> out == Err::<Seq<ComputeStorageResidencyKey>, ComputeStatus>(
                ComputeStatus::MetalFailed("compute_vk_deferred_linear_note"),
            )
            &&& texture.residency is Some && texture.writeback is Linear && texel_bytes(
                texture.writeback->pixel_format,
            ) is Some ==> out is Ok && out->Ok_0.len() == 0
            &&& texture.residency is Some && texture.writeback is Type11 ==> out is Ok && (
            out->Ok_0.contains(other) <==> other != key && other.mapping_id
                == texture.writeback->mapping_id && other.surface_offset < key.span_end
                && key.surface_offset < other.span_end && exists|i: int|
                0 <= i < owed.len() && (#[trigger] owed[i]).0 == other)
        }),
{
    if texture.residency is Some && texture.writeback is Type11 {
        let key = texture.residency->0.key;
        let victims = span_of(key, texture.writeback->mapping_id);
        let gone = taken(owed, victims);
        law_others_are_the_others(gone, key, other);
        if exists|i: int| 0 <= i < gone.len() && (#[trigger] gone[i]).0 == other {
            let i = choose|i: int| 0 <= i < gone.len() && (#[trigger] gone[i]).0 == other;
            law_removal_splits_the_windows(owed, victims, gone[i]);
            assert(gone.contains(gone[i]));
            let k = choose|k: int| 0 <= k < owed.len() && owed[k] == gone[i];
            assert(owed[k].0 == other);
        }
        if exists|i: int| 0 <= i < owed.len() && (#[trigger] owed[i]).0 == other {
            let i = choose|i: int| 0 <= i < owed.len() && (#[trigger] owed[i]).0 == other;
            law_removal_splits_the_windows(owed, victims, owed[i]);
            assert(owed.contains(owed[i]));
            if gone.contains(owed[i]) {
                let k = choose|k: int| 0 <= k < gone.len() && gone[k] == owed[i];
                assert(gone[k].0 == other);
            }
        }
    }
}

/// A deferred surface output is owed and recorded one generation on, and what it meets is
/// owed no longer.
pub proof fn law_deferred_surfaces(
    before: DeviceView,
    candidate: ComputeStorageResidencyCandidate,
    mapping_id: u32,
    after: DeviceView,
)
    requires
        surface_deferred(before, candidate, mapping_id, after),
        candidate.key.mapping_id != 0xffff_ffff,
        candidate.seed_generation < 0xffff_ffff,
    ensures
        lookup(after.compute_deferred_flush, candidate.key) is Some,
        lookup(after.compute_deferred_flush, candidate.key)->0 == candidate.seed_generation + 1,
        lookup(after.compute_storage_residency, candidate.key) is Some,
        lookup(after.compute_storage_residency, candidate.key)->0 == candidate.seed_generation + 1,
        after.mappings == before.written(mapping_id).mappings,
        after.task_spans == before.task_spans,
        !before.mappings.dom().contains(mapping_id) ==> after.deferred_alias_pages
            == before.deferred_alias_pages,
        before.mappings.dom().contains(mapping_id) ==> {
            let pages = before.pages_of(mapping_id);
            let n = before.deferred_alias_pages.len();
            &&& after.deferred_alias_pages.len() == n + pages.len()
            &&& forall|i: int|
                0 <= i < pages.len() ==> after.deferred_alias_pages[n + i] == (
                    #[trigger] pages[i],
                    mapping_id,
                )
        },
{
}

} // verus!
