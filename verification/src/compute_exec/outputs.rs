//! Who holds a storage image's texels once a dispatch is done.
//!
//! An output that stays in the engine is noted under its window's key, at the
//! generation that the engine registered: the one after its seed.

use vstd::prelude::*;
use crate::compute_exec::linear_cache::{LinearCache, LinearWindow};
use crate::compute_exec::status::ComputeStatus;
use crate::compute_exec::texture::{
    ComputeStorageResidencyCandidate, StagedTexture, TextureWriteback,
};
use crate::contract::{bytes_per_pixel, saturated, saturating_sum, texel_bytes};
use crate::mapping::{bump_generation, next_generation};
use crate::model::{DeviceState, DeviceView, write_allowed};
use crate::residency::{
    ComputeStorageResidencyKey, Victims, in_key_order, is_inserted, lemma_thinned_count, lookup,
    siblings, survivors, taken, thinned,
};

verus! {

/// Bound on the windows of one mapping. Two canvases that take turns need two, and
/// planar layouts a few more; anything beyond is worth dropping.
pub const STORAGE_RESIDENCY_WINDOWS_PER_MAPPING: usize = 8;

/// A storage output may stay in the engine only where the device may keep content
/// that the guest's pages lack, the window can be found again, and there is a place
/// to flush it to.
pub fn compute_defer_readback_allowed(
    deferred_gpu_only_content: bool,
    has_residency: bool,
    writeback_deferrable: bool,
) -> (allowed: bool)
    ensures
        allowed == (deferred_gpu_only_content && has_residency && writeback_deferrable),
        allowed ==> deferred_gpu_only_content,
        allowed ==> has_residency,
        allowed ==> writeback_deferrable,
{
    deferred_gpu_only_content && has_residency && writeback_deferrable
}

/// What could be saved by keeping storage images resident.
#[derive(Clone, Copy, Debug, PartialEq, Eq, Structural)]
pub struct ResidencyOpportunity {
    pub eligible: usize,
    pub hits: usize,
    pub eligible_bytes: u64,
    pub hit_bytes: u64,
}

/// A storage image whose window the mirror can know.
pub open spec fn eligible(texture: StagedTexture) -> bool {
    texture.is_storage && texture.residency is Some && !texture.residency->0.key.linear_key()
}

/// An eligible image whose window is recorded at the very generation it seeds from.
pub open spec fn hit(texture: StagedTexture, mirror: Seq<(ComputeStorageResidencyKey, u32)>) -> bool {
    eligible(texture) && lookup(mirror, texture.residency->0.key) == Some(
        texture.residency->0.seed_generation,
    )
}

/// The opportunity in the first `n` textures.
pub open spec fn opportunity(
    textures: Seq<StagedTexture>,
    mirror: Seq<(ComputeStorageResidencyKey, u32)>,
    n: int,
) -> (int, int, int, int)
    decreases n,
{
    if n <= 0 {
        (0, 0, 0, 0)
    } else {
        let (e, h, eb, hb) = opportunity(textures, mirror, n - 1);
        let t = textures[n - 1];
        if hit(t, mirror) {
            (e + 1, h + 1, eb + t.bytes.len(), hb + t.bytes.len())
        } else if eligible(t) {
            (e + 1, h, eb + t.bytes.len(), hb)
        } else {
            (e, h, eb, hb)
        }
    }
}

/// Count the storage images that are, or could be, resident.
pub fn storage_residency_opportunity(state: &DeviceState, textures: &Vec<StagedTexture>) -> (out:
    ResidencyOpportunity)
    requires
        state.wf(),
    ensures
        ({
            let (e, h, eb, hb) = opportunity(
                textures@,
                state@.compute_storage_residency,
                textures.len() as int,
            );
            &&& out.eligible == e
            &&& out.hits == h
            &&& out.eligible_bytes == saturated(eb)
            &&& out.hit_bytes == saturated(hb)
        }),
{
    let ghost mirror = state@.compute_storage_residency;
    let mut out = ResidencyOpportunity { eligible: 0, hits: 0, eligible_bytes: 0, hit_bytes: 0 };
    let mut i: usize = 0;
    while i < textures.len()
        invariant
            state.wf(),
            mirror == state@.compute_storage_residency,
            i <= textures.len(),
            ({
                let (e, h, eb, hb) = opportunity(textures@, mirror, i as int);
                &&& 0 <= h <= e <= i
                &&& 0 <= hb <= eb
                &&& out.eligible == e
                &&& out.hits == h
                &&& out.eligible_bytes == saturated(eb)
                &&& out.hit_bytes == saturated(hb)
            }),
        decreases textures.len() - i,
    {
        let t = &textures[i];
        if t.is_storage {
            match t.residency {
                Some(candidate) => {
                    if !candidate.key.is_linear() {
                        let bytes: u64 = t.bytes.len() as u64;
                        out.eligible = out.eligible + 1;
                        out.eligible_bytes = saturating_sum(out.eligible_bytes, bytes);
                        let recorded = state.compute_storage_residency.get(&candidate.key);
                        let same = match recorded {
                            Some(generation) => generation == candidate.seed_generation,
                            None => false,
                        };
                        if same {
                            out.hits = out.hits + 1;
                            out.hit_bytes = saturating_sum(out.hit_bytes, bytes);
                        }
                    }
                },
                None => {},
            }
        }
        i = i + 1;
    }
    out
}

/// The mirror with room for a window: no window that meets it, and at most so many
/// siblings that it is within the bound.
pub open spec fn roomy(
    mirror: Seq<(ComputeStorageResidencyKey, u32)>,
    key: ComputeStorageResidencyKey,
) -> Seq<(ComputeStorageResidencyKey, u32)> {
    let apart = survivors(
        mirror,
        Victims::Meeting { mapping_id: key.mapping_id, lo: key.surface_offset, hi: key.span_end },
    );
    let extra = siblings(apart, key) + 1 - STORAGE_RESIDENCY_WINDOWS_PER_MAPPING;
    thinned(
        apart,
        key,
        if extra > 0 {
            extra
        } else {
            0
        },
    )
}

/// The mirror after a storage image was written back. A linear window is not kept
/// there: the host's copy of the texture knows who holds it.
pub open spec fn is_noted(
    before: Seq<(ComputeStorageResidencyKey, u32)>,
    residency: Option<ComputeStorageResidencyCandidate>,
    after: Seq<(ComputeStorageResidencyKey, u32)>,
) -> bool {
    match residency {
        None => after == before,
        Some(candidate) => {
            let generation = next_generation(candidate.seed_generation);
            if candidate.key.linear_key() {
                after == before
            } else if candidate.key.heap_key() {
                is_inserted(before, candidate.key, generation, after)
            } else {
                is_inserted(roomy(before, candidate.key), candidate.key, generation, after)
            }
        },
    }
}

/// Record that the engine holds what was just written back.
pub fn note_storage_residency_writeback(state: &mut DeviceState, texture: &StagedTexture)
    requires
        old(state).wf(),
    ensures
        final(state).wf(),
        is_noted(
            old(state)@.compute_storage_residency,
            texture.residency,
            final(state)@.compute_storage_residency,
        ),
        final(state)@ == (DeviceView {
            compute_storage_residency: final(state)@.compute_storage_residency,
            ..old(state)@
        }),
{
    let candidate = match texture.residency {
        Some(candidate) => candidate,
        None => {
            return ;
        },
    };
    if candidate.key.is_linear() {
        return ;
    }
    let generation: u32 = bump_generation(candidate.seed_generation);
    if candidate.key.is_heap() {
        state.compute_storage_residency.insert(candidate.key, generation);
        return ;
    }
    state.invalidate_storage_residency_window(
        candidate.key.mapping_id,
        candidate.key.surface_offset,
        candidate.key.span_end,
    );
    let count: usize = state.compute_storage_residency.count_siblings(&candidate.key);
    let extra: usize = if count >= STORAGE_RESIDENCY_WINDOWS_PER_MAPPING {
        count - STORAGE_RESIDENCY_WINDOWS_PER_MAPPING + 1
    } else {
        0
    };
    state.compute_storage_residency.thin(&candidate.key, extra);
    state.compute_storage_residency.insert(candidate.key, generation);
}

/// A window that is still owed to task memory, with the pages that alias it.
#[derive(Clone, Debug, PartialEq, Eq)]
pub struct OwedWindow {
    pub key: ComputeStorageResidencyKey,
    pub generation: u32,
    pub pages: Vec<u64>,
}

/// An owed window as values.
pub struct OwedView {
    pub key: ComputeStorageResidencyKey,
    pub generation: u32,
    pub pages: Seq<u64>,
}

/// The linear windows that are still owed to task memory.
#[derive(Clone, Debug, PartialEq, Eq)]
pub struct LinearDeferred {
    pub windows: Vec<OwedWindow>,
}

pub open spec fn owed_view(w: OwedWindow) -> OwedView {
    OwedView { key: w.key, generation: w.generation, pages: w.pages@ }
}

impl View for LinearDeferred {
    type V = Seq<OwedView>;

    open spec fn view(&self) -> Seq<OwedView> {
        self.windows@.map_values(|w: OwedWindow| owed_view(w))
    }
}

/// The owed windows without those of `key`.
pub open spec fn disarmed(windows: Seq<OwedView>, key: ComputeStorageResidencyKey) -> Seq<
    OwedView,
> {
    windows.filter(|w: OwedView| w.key != key)
}

impl LinearDeferred {
    pub fn new() -> (owed: LinearDeferred)
        ensures
            owed@ == Seq::<OwedView>::empty(),
    {
        let owed = LinearDeferred { windows: Vec::new() };
        assert(owed@ =~= Seq::<OwedView>::empty());
        owed
    }

    /// Drop what is owed for a window: newer content took its place.
    pub fn disarm_linear_deferred_window(&mut self, key: &ComputeStorageResidencyKey)
        ensures
            final(self)@ == disarmed(old(self)@, *key),
    {
        let ghost before = self@;
        let mut windows: Vec<OwedWindow> = Vec::new();
        core::mem::swap(&mut windows, &mut self.windows);
        let mut kept: Vec<OwedWindow> = Vec::new();
        let ghost f = |w: OwedWindow| owed_view(w);
        let mut from: usize = 0;
        let len: usize = windows.len();
        proof {
            reveal(Seq::filter);
            assert(before.take(0) == Seq::<OwedView>::empty());
            assert(kept@.map_values(f) =~= Seq::<OwedView>::empty());
        }
        while from < len
            invariant
                from <= len,
                len == windows.len(),
                f == (|w: OwedWindow| owed_view(w)),
                before == windows@.map_values(f),
                kept@.map_values(f) == disarmed(before.take(from as int), *key),
            decreases len - from,
        {
            proof {
                reveal(Seq::filter);
                let next = before.take(from + 1);
                assert(next.drop_last() == before.take(from as int));
                assert(next.last() == before[from as int]);
            }
            let ghost so_far = kept@;
            let w = &windows[from];
            if w.key != *key {
                let pages: Vec<u64> = vstd::slice::slice_to_vec(w.pages.as_slice());
                kept.push(OwedWindow { key: w.key, generation: w.generation, pages });
                assert(kept@.map_values(f) =~= so_far.map_values(f).push(before[from as int]));
            }
            from = from + 1;
        }
        assert(before.take(len as int) =~= before);
        self.windows = kept;
    }

    /// Record a window that is owed to task memory.
    pub fn arm_linear_deferred_window(
        &mut self,
        key: ComputeStorageResidencyKey,
        generation: u32,
        pages: Vec<u64>,
    )
        ensures
            final(self)@ == old(self)@.push(OwedView { key, generation, pages: pages@ }),
    {
        self.windows.push(OwedWindow { key, generation, pages });
        assert(self@ =~= old(self)@.push(OwedView { key, generation, pages: pages@ }));
    }
}

/// The span of task memory that a deferred linear output is owed to, where the
/// guest mapped it.
pub open spec fn owed_span(task_id: u32, texture: StagedTexture, view: DeviceView) -> Option<
    (u64, u64),
> {
    match (texture.residency, texture.writeback) {
        (Some(candidate), TextureWriteback::Linear { gva, .. }) => if write_allowed(
            view.task_spans,
            task_id,
            gva,
            candidate.key.span_end,
        ) {
            Some((gva, candidate.key.span_end))
        } else {
            None
        },
        _ => None,
    }
}

/// The span whose pages a deferred output has to be indexed under.
pub fn deferred_flush_span(state: &DeviceState, task_id: u32, texture: &StagedTexture) -> (span:
    Option<(u64, u64)>)
    ensures
        span == owed_span(task_id, *texture, state@),
{
    match (texture.residency, texture.writeback) {
        (Some(candidate), TextureWriteback::Linear { gva, .. }) => {
            if state.gva_write_allowed(task_id, gva, candidate.key.span_end) {
                Some((gva, candidate.key.span_end))
            } else {
                None
            }
        },
        _ => None,
    }
}

/// Windows other than `key`.
pub open spec fn others(
    windows: Seq<(ComputeStorageResidencyKey, u32)>,
    key: ComputeStorageResidencyKey,
) -> Seq<ComputeStorageResidencyKey>
    decreases windows.len(),
{
    if windows.len() == 0 {
        Seq::empty()
    } else {
        let rest = others(windows.drop_last(), key);
        if windows.last().0 == key {
            rest
        } else {
            rest.push(windows.last().0)
        }
    }
}

/// The bytes of a mapping that a window spans.
pub open spec fn span_of(key: ComputeStorageResidencyKey, mapping_id: u32) -> Victims {
    Victims::Meeting { mapping_id, lo: key.surface_offset, hi: key.span_end }
}

/// Both states are the same but for what an output changes.
pub open spec fn output_changes(before: DeviceView, after: DeviceView) -> bool {
    after == (DeviceView {
        mappings: after.mappings,
        compute_storage_residency: after.compute_storage_residency,
        compute_deferred_flush: after.compute_deferred_flush,
        deferred_alias_pages: after.deferred_alias_pages,
        ..before
    })
}

/// What a deferred surface output leaves behind: what was owed for windows that
/// meet it is dropped, and it is owed in their place.
pub open spec fn surface_deferred(
    before: DeviceView,
    candidate: ComputeStorageResidencyCandidate,
    mapping_id: u32,
    after: DeviceView,
) -> bool {
    &&& output_changes(before, after)
    &&& is_inserted(
        survivors(before.compute_deferred_flush, span_of(candidate.key, mapping_id)),
        candidate.key,
        next_generation(candidate.seed_generation),
        after.compute_deferred_flush,
    )
    &&& after.deferred_alias_pages == before.aliases_indexed(mapping_id).deferred_alias_pages
    &&& after.mappings == before.written(mapping_id).mappings
    &&& is_noted(
        before.compute_storage_residency,
        Some(candidate),
        after.compute_storage_residency,
    )
}

/// What a deferred output is, or why it is none.
pub open spec fn deferred_outcome(
    texture: StagedTexture,
    deferred: Seq<(ComputeStorageResidencyKey, u32)>,
) -> Result<Seq<ComputeStorageResidencyKey>, ComputeStatus> {
    match (texture.residency, texture.writeback) {
        (Some(candidate), TextureWriteback::Linear { pixel_format, .. }) => if texel_bytes(
            pixel_format,
        ) is None {
            Err(ComputeStatus::MetalFailed("compute_vk_deferred_linear_note"))
        } else {
            Ok(Seq::empty())
        },
        (Some(candidate), TextureWriteback::Type11 { mapping_id, .. }) => Ok(
            others(taken(deferred, span_of(candidate.key, mapping_id)), candidate.key),
        ),
        _ => Err(ComputeStatus::MetalFailed("compute_vk_deferred_identity")),
    }
}

/// Keep an output in the engine. The windows handed back are superseded: the
/// engine need not hold them any longer. `pages` are the page addresses of
/// [`deferred_flush_span`], where it gives one.
pub fn finish_deferred(
    state: &mut DeviceState,
    cache: &mut LinearCache,
    owed: &mut LinearDeferred,
    task_id: u32,
    texture: &StagedTexture,
    pages: Vec<u64>,
) -> (superseded: Result<Vec<ComputeStorageResidencyKey>, ComputeStatus>)
    requires
        old(state).wf(),
    ensures
        final(state).wf(),
        match (superseded, deferred_outcome(*texture, old(state)@.compute_deferred_flush)) {
            (Ok(s), Ok(v)) => s@ == v,
            (Err(a), Err(b)) => a == b,
            _ => false,
        },
        superseded is Err ==> final(state)@ == old(state)@ && *final(cache) == *old(cache)
            && final(owed)@ == old(owed)@,
        superseded is Ok ==> match texture.writeback {
            TextureWriteback::Linear {
                texture_ref,
                gva,
                pixel_format,
                row_stride,
                width,
                height,
                bpp,
            } => {
                let window = LinearWindow { gva, pixel_format, width, height, row_stride };
                let key = texture.residency->0.key;
                let generation = next_generation(texture.residency->0.seed_generation);
                &&& final(state)@ == old(state)@
                &&& final(cache).resident(task_id, texture_ref, window) == Some(generation)
                &&& final(cache).colors == old(cache).colors
                &&& forall|t: u32, r: u32|
                    t != task_id || r != texture_ref ==> #[trigger] final(cache).entry(t, r)
                        == old(cache).entry(t, r)
                &&& final(owed)@ == if owed_span(task_id, *texture, old(state)@) is Some {
                    disarmed(old(owed)@, key).push(OwedView { key, generation, pages: pages@ })
                } else {
                    disarmed(old(owed)@, key)
                }
            },
            TextureWriteback::Type11 { mapping_id, .. } => {
                &&& surface_deferred(
                    old(state)@,
                    texture.residency->0,
                    mapping_id,
                    final(state)@,
                )
                &&& *final(cache) == *old(cache)
                &&& final(owed)@ == old(owed)@
            },
            TextureWriteback::Nowhere => true,
        },
{
    let candidate = match texture.residency {
        Some(candidate) => candidate,
        None => {
            return Err(ComputeStatus::MetalFailed("compute_vk_deferred_identity"));
        },
    };
    let generation: u32 = bump_generation(candidate.seed_generation);
    match texture.writeback {
        TextureWriteback::Linear {
            texture_ref,
            gva,
            pixel_format,
            row_stride,
            width,
            height,
            bpp: _,
        } => {
            let window = LinearWindow { gva, pixel_format, width, height, row_stride };
            if !cache.note_linear_texture_resident(task_id, texture_ref, &window, generation) {
                return Err(ComputeStatus::MetalFailed("compute_vk_deferred_linear_note"));
            }
            owed.disarm_linear_deferred_window(&candidate.key);
            if deferred_flush_span(state, task_id, texture).is_some() {
                owed.arm_linear_deferred_window(candidate.key, generation, pages);
            }
            let none: Vec<ComputeStorageResidencyKey> = Vec::new();
            assert(none@ =~= Seq::<ComputeStorageResidencyKey>::empty());
            Ok(none)
        },
        TextureWriteback::Type11 { mapping_id, .. } => {
            let victims = state.take_deferred_flush_windows(
                mapping_id,
                candidate.key.surface_offset,
                candidate.key.span_end,
            );
            let mut superseded: Vec<ComputeStorageResidencyKey> = Vec::new();
            let mut i: usize = 0;
            assert(victims@.take(0) =~= Seq::<(ComputeStorageResidencyKey, u32)>::empty());
            while i < victims.len()
                invariant
                    i <= victims.len(),
                    superseded@ == others(victims@.take(i as int), candidate.key),
                decreases victims.len() - i,
            {
                proof {
                    let next = victims@.take(i + 1);
                    assert(next.drop_last() =~= victims@.take(i as int));
                    assert(next.last() == victims@[i as int]);
                }
                if victims[i].0 != candidate.key {
                    superseded.push(victims[i].0);
                }
                i = i + 1;
            }
            assert(victims@.take(i as int) =~= victims@);
            state.compute_deferred_flush.insert(candidate.key, generation);
            state.index_deferred_alias_pages(mapping_id);
            let _ = state.mark_mapping_written(mapping_id);
            note_storage_residency_writeback(state, texture);
            Ok(superseded)
        },
        TextureWriteback::Nowhere => Err(
            ComputeStatus::MetalFailed("compute_vk_deferred_identity"),
        ),
    }
}

/// Account for an output that the engine copied straight into guest memory: the
/// same bookkeeping as a write by the host.
pub fn finish_direct(state: &mut DeviceState, texture: &StagedTexture) -> (outcome: Result<
    (),
    ComputeStatus,
>)
    requires
        old(state).wf(),
    ensures
        final(state).wf(),
        match texture.writeback {
            TextureWriteback::Type11 { mapping_id, surface_offset, span_end, .. } => {
                let before = old(state)@;
                let after = final(state)@;
                &&& outcome == Ok::<(), ComputeStatus>(())
                &&& output_changes(before, after)
                &&& after.mappings == before.written(mapping_id).mappings
                &&& after.compute_deferred_flush == before.compute_deferred_flush
                &&& after.deferred_alias_pages == before.deferred_alias_pages
                &&& is_noted(
                    survivors(
                        before.compute_storage_residency,
                        Victims::Meeting { mapping_id, lo: surface_offset, hi: span_end },
                    ),
                    texture.residency,
                    after.compute_storage_residency,
                )
            },
            _ => {
                &&& outcome == Err::<(), ComputeStatus>(
                    ComputeStatus::MetalFailed("compute_vk_direct_non_type11"),
                )
                &&& final(state)@ == old(state)@
            },
        },
        outcome is Ok <==> texture.writeback is Type11,
        final(state)@.task_spans == old(state)@.task_spans,
        outcome is Ok && old(state)@.mappings.dom().contains(texture.writeback->mapping_id)
            ==> final(state)@.mappings[texture.writeback->mapping_id].content_generation
            != old(state)@.mappings[texture.writeback->mapping_id].content_generation,
{
    match texture.writeback {
        TextureWriteback::Type11 { mapping_id, surface_offset, span_end, .. } => {
            state.invalidate_storage_residency_window(mapping_id, surface_offset, span_end);
            let _ = state.mark_mapping_written(mapping_id);
            note_storage_residency_writeback(state, texture);
            Ok(())
        },
        _ => Err(ComputeStatus::MetalFailed("compute_vk_direct_non_type11")),
    }
}

/// A mapping keeps at most as many windows as the bound, the new one among them.
pub proof fn law_windows_per_mapping_are_bounded(
    mirror: Seq<(ComputeStorageResidencyKey, u32)>,
    key: ComputeStorageResidencyKey,
)
    ensures
        siblings(roomy(mirror, key), key) + 1 <= STORAGE_RESIDENCY_WINDOWS_PER_MAPPING,
{
    let apart = survivors(
        mirror,
        Victims::Meeting { mapping_id: key.mapping_id, lo: key.surface_offset, hi: key.span_end },
    );
    let extra = siblings(apart, key) + 1 - STORAGE_RESIDENCY_WINDOWS_PER_MAPPING;
    lemma_thinned_count(
        apart,
        key,
        if extra > 0 {
            extra
        } else {
            0
        },
    );
}

/// Canvases that take turns keep each other's residency: a window that does not
/// meet the new one stays recorded, as long as the mapping is within its bound.
pub proof fn law_disjoint_windows_keep_their_residency(
    before: Seq<(ComputeStorageResidencyKey, u32)>,
    candidate: ComputeStorageResidencyCandidate,
    after: Seq<(ComputeStorageResidencyKey, u32)>,
    other: ComputeStorageResidencyKey,
)
    requires
        in_key_order(before),
        is_noted(before, Some(candidate), after),
        other != candidate.key,
        !other.meets(
            candidate.key.mapping_id,
            candidate.key.surface_offset,
            candidate.key.span_end,
        ),
        siblings(before, candidate.key) < STORAGE_RESIDENCY_WINDOWS_PER_MAPPING,
    ensures
        lookup(after, other) == lookup(before, other),
{
    let key = candidate.key;
    let victims = Victims::Meeting {
        mapping_id: key.mapping_id,
        lo: key.surface_offset,
        hi: key.span_end,
    };
    if !key.linear_key() && !key.heap_key() {
        let apart = survivors(before, victims);
        lemma_fewer_siblings(before, victims, key);
        lemma_thinned_count(apart, key, 0);
        crate::residency::lemma_survivors(before, victims);
        assert(roomy(before, key) == apart);
    }
}

proof fn lemma_fewer_siblings(
    entries: Seq<(ComputeStorageResidencyKey, u32)>,
    victims: Victims,
    key: ComputeStorageResidencyKey,
)
    ensures
        siblings(survivors(entries, victims), key) <= siblings(entries, key),
    decreases entries.len(),
{
    reveal(Seq::filter);
    if entries.len() > 0 {
        let rest = entries.drop_last();
        lemma_fewer_siblings(rest, victims, key);
        let kept = survivors(rest, victims);
        assert(kept.push(entries.last()).drop_last() == kept);
    }
}

/// What was written back is recorded at the generation that the engine registered,
/// whatever became of its siblings.
pub proof fn law_written_window_is_recorded(
    before: Seq<(ComputeStorageResidencyKey, u32)>,
    candidate: ComputeStorageResidencyCandidate,
    after: Seq<(ComputeStorageResidencyKey, u32)>,
)
    requires
        is_noted(before, Some(candidate), after),
        !candidate.key.linear_key(),
    ensures
        lookup(after, candidate.key) == Some(next_generation(candidate.seed_generation)),
{
}

/// A deferred surface output is owed to the guest, and recorded as resident, at one
/// and the same generation.
pub proof fn law_deferred_surface_is_owed_and_recorded(
    before: DeviceView,
    candidate: ComputeStorageResidencyCandidate,
    mapping_id: u32,
    after: DeviceView,
)
    requires
        surface_deferred(before, candidate, mapping_id, after),
        !candidate.key.linear_key(),
    ensures
        lookup(after.compute_deferred_flush, candidate.key) == Some(
            next_generation(candidate.seed_generation),
        ),
        lookup(after.compute_storage_residency, candidate.key) == lookup(
            after.compute_deferred_flush,
            candidate.key,
        ),
{
}

/// An image of at least this many bytes a row, and this many rows, covers a display.
pub const DISPLAY_ROW_BYTES: u32 = 5120;

pub const DISPLAY_ROWS: u32 = 720;

/// The image covers a display. It goes by the row's bytes: a reinterpreting view may
/// have fewer texels in the same row.
pub fn is_display_sized(texture: &StagedTexture) -> (r: bool)
    ensures
        r == match texel_bytes(texture.pixel_format) {
            Some(bpp) => DISPLAY_ROW_BYTES <= texture.width * bpp <= u32::MAX && texture.height
                >= DISPLAY_ROWS,
            None => false,
        },
        r ==> texture.height >= 720,
        texel_bytes(texture.pixel_format) is Some && r ==> texture.width * texel_bytes(
            texture.pixel_format,
        )->0 >= 5120,
        texel_bytes(texture.pixel_format) is Some && 5120 <= texture.width * texel_bytes(
            texture.pixel_format,
        )->0 <= 0xffff_ffff && texture.height >= 720 ==> r,
{
    match bytes_per_pixel(texture.pixel_format) {
        Some(bpp) => match texture.width.checked_mul(bpp) {
            Some(row) => row >= DISPLAY_ROW_BYTES && texture.height >= DISPLAY_ROWS,
            None => false,
        },
        None => false,
    }
}

} // verus!
