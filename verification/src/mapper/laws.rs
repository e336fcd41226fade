//! What holds of the mapper across its operations.

use vstd::prelude::*;
use crate::contract::{DeviceSurfaceView, page_bytes};
use crate::host::{GuestView, TablePlanView};
use crate::mapper::pages::{
    claims, frame, highest_ref, list_claim, list_page, live_end, live_pages, ring_claim,
    rings_claim, surface_collision, task_claim, tasks_claim,
};
use crate::mapper::resolve::{
    Geometry, adopted_state, adoption, owes, resolution, revalidation,
};
use crate::mapper::views::usable_pages;
use crate::mapping::next_generation;
use crate::model::DeviceView;
use crate::observe::LatchView;

verus! {

/// A condemned mapping that resolves to the pages it was condemned with is the
/// same incarnation: it keeps its generation and its owed windows. One that
/// resolves to other pages is a new one: its generation moves on and its owed
/// windows are gone.
pub proof fn law_reprieve_keeps_the_incarnation(
    state: DeviceView,
    latch: LatchView,
    mapping_id: u32,
    geometry: Geometry,
    update: Option<Option<DeviceSurfaceView>>,
    plan: TablePlanView,
)
    requires
        state.mappings.dom().contains(mapping_id),
        state.mappings[mapping_id].condemned_entries is Some,
    ensures
        ({
            let r = adoption(state, latch, mapping_id, geometry, update, plan);
            let m = state.mappings[mapping_id];
            let same = m.condemned_entries == Some(plan.entries);
            &&& r.resolved && same ==> r.state.mappings[mapping_id].map_generation
                == m.map_generation && r.state.render_deferred_flush == state.render_deferred_flush
                && r.state.compute_deferred_flush == state.compute_deferred_flush
            &&& r.resolved && !same ==> r.state.mappings[mapping_id].map_generation
                == next_generation(m.map_generation) && !owes(
                r.state.render_deferred_flush,
                mapping_id,
            ) && !owes(r.state.compute_deferred_flush, mapping_id)
            &&& r.resolved ==> r.state.mappings[mapping_id].condemned_entries is None
        }),
{
    let r = adoption(state, latch, mapping_id, geometry, update, plan);
    let m = state.mappings[mapping_id];
    if r.resolved && m.condemned_entries != Some(plan.entries) {
        lemma_no_owed(state.render_deferred_flush, mapping_id);
        lemma_no_owed(state.compute_deferred_flush, mapping_id);
    }
}

/// What survives the removal of a mapping's windows is no window of it.
proof fn lemma_no_owed(
    entries: Seq<(crate::residency::ComputeStorageResidencyKey, u32)>,
    mapping_id: u32,
)
    ensures
        !owes(
            crate::residency::survivors(
                entries,
                crate::residency::Victims::OfMapping { mapping_id },
            ),
            mapping_id,
        ),
    decreases entries.len(),
{
    reveal(Seq::filter);
    let victims = crate::residency::Victims::OfMapping { mapping_id };
    let left = crate::residency::survivors(entries, victims);
    if entries.len() > 0 {
        lemma_no_owed(entries.drop_last(), mapping_id);
        let rest = crate::residency::survivors(entries.drop_last(), victims);
        if owes(left, mapping_id) {
            let i = choose|i: int|
                0 <= i < left.len() && (#[trigger] left[i]).0.of_mapping(mapping_id);
            if i < rest.len() {
                assert(rest[i] == left[i]);
            }
        }
    }
}

/// A resolve that adopts other pages than the mapping had moves its generation
/// on, and leaves it sharing no page with any live surface.
pub proof fn law_adopted_pages_are_nobody_elses(
    state: DeviceView,
    latch: LatchView,
    mapping_id: u32,
    geometry: Geometry,
    update: Option<Option<DeviceSurfaceView>>,
    plan: TablePlanView,
)
    requires
        state.mappings.dom().contains(mapping_id),
        state.mappings[mapping_id].condemned_entries is None,
        state.mappings[mapping_id].page_entries != plan.entries,
    ensures
        ({
            let r = adoption(state, latch, mapping_id, geometry, update, plan);
            &&& r.state.mappings[mapping_id].map_generation
                != state.mappings[mapping_id].map_generation || !r.resolved
            &&& r.resolved ==> r.state.mappings[mapping_id].page_entries == plan.entries
            &&& !surface_collision(r.state, mapping_id)
        }),
{
    let r = adoption(state, latch, mapping_id, geometry, update, plan);
    if !r.resolved {
        let adopted = adopted_state(state, mapping_id, update, plan);
        let done = adopted.with_mapping(
            mapping_id,
            crate::mapper::resolve::with_geometry(adopted.mappings[mapping_id], geometry),
        );
        crate::mapper::pages::law_failing_closed_ends_the_alias(done, mapping_id);
    }
}

/// A mapping that revalidates is mapped and has pages to write through.
pub proof fn law_valid_mapping_has_pages(
    state: DeviceView,
    latch: LatchView,
    guest: GuestView,
    mapping_id: u32,
)
    ensures
        ({
            let r = revalidation(state, latch, guest, mapping_id);
            r.miss is None ==> {
                &&& r.state.mappings.dom().contains(mapping_id)
                &&& r.state.mappings[mapping_id].mapped
                &&& r.state.mappings[mapping_id].page_entries.len() > 0
            }
        }),
{
}

/// A read of the mapping object that fails for want of a translation leaves a
/// cached page list as it is, silently.
pub proof fn law_untranslated_read_keeps_cached_pages(
    state: DeviceView,
    latch: LatchView,
    guest: GuestView,
    mapping_id: u32,
    refusal: crate::host::InternalRefusal,
)
    requires
        state.mappings.dom().contains(mapping_id),
        state.mappings[mapping_id].mapped,
        state.mappings[mapping_id].mapping_internal != 0,
        state.mappings[mapping_id].page_entries.len() > 0,
        (guest.internal)(
            state.mappings[mapping_id].mapping_internal,
            state.mapper_device_kva,
        ) == Err::<crate::host::MapperInternalFields, crate::host::InternalRefusal>(refusal),
        refusal.host_error == Some(crate::host::MemError::NoCpu) || refusal.host_error == Some(
            crate::host::MemError::Unmapped,
        ),
    ensures
        ({
            let r = revalidation(state, latch, guest, mapping_id);
            r.miss is None && r.state == state && r.latch == latch
        }),
{
    reveal(resolution);
}

/// Attaching the mapping object that is attached already changes nothing.
pub proof fn law_attach_is_idempotent(state: DeviceView, mapping_id: u32, internal: u64)
    ensures
        state.attached(mapping_id, internal).attached(mapping_id, internal) == state.attached(
            mapping_id,
            internal,
        ),
{
}

proof fn lemma_ring_clear(ring: Seq<u64>, i: int, gpas: Seq<u64>, page: u64, k: int)
    requires
        ring_claim(ring, i, gpas, page) is None,
        0 <= i <= k < ring.len(),
    ensures
        !claims(gpas, page, ring[k]),
    decreases ring.len() - i,
{
    if k > i {
        lemma_ring_clear(ring, i + 1, gpas, page, k);
    }
}

proof fn lemma_rings_clear(
    rings: Seq<Seq<u64>>,
    r: int,
    gpas: Seq<u64>,
    page: u64,
    a: int,
    k: int,
)
    requires
        rings_claim(rings, r, gpas, page) is None,
        0 <= r <= a < rings.len(),
        0 <= k < rings[a].len(),
    ensures
        !claims(gpas, page, rings[a][k]),
    decreases rings.len() - r,
{
    if a > r {
        lemma_rings_clear(rings, r + 1, gpas, page, a, k);
    } else {
        lemma_ring_clear(rings[r], 0, gpas, page, k);
    }
}

proof fn lemma_list_clear(first: u64, i: int, count: int, gpas: Seq<u64>, page: u64, k: int)
    requires
        list_claim(first, i, count, gpas, page) is None,
        i <= k < count,
    ensures
        !claims(gpas, page, list_page(first, k, page)),
    decreases count - i,
{
    if k > i {
        lemma_list_clear(first, i + 1, count, gpas, page, k);
    }
}

proof fn lemma_tasks_clear(state: DeviceView, t: int, gpas: Seq<u64>, a: int)
    requires
        tasks_claim(state, t, gpas) is None,
        0 <= t <= a < state.tasks.len(),
    ensures
        task_claim(state, a, gpas) is None,
    decreases state.tasks.len() - t,
{
    if a > t {
        lemma_tasks_clear(state, t + 1, gpas, a);
    }
}

/// Pages that a surface is accessed through never alias the device's transport,
/// a child queue, an active task's page directory, or the live part of an active
/// task's object list.
pub proof fn law_usable_pages_avoid_control_pages(
    state: DeviceView,
    mapping_id: u32,
    ring: int,
    slot: int,
    task: int,
    list_index: int,
)
    requires
        usable_pages(state, mapping_id) is Some,
    ensures
        ({
            let gpas = usable_pages(state, mapping_id)->0;
            let page = page_bytes(state.page_shift);
            &&& state.gfx.root_page != 0 ==> !claims(
                gpas,
                page,
                frame(state.gfx.root_page, state.page_shift),
            )
            &&& state.gfx.fifo_base_page != 0 ==> !claims(
                gpas,
                page,
                frame(state.gfx.fifo_base_page, state.page_shift),
            )
            &&& state.iosfc.ring_base != 0 ==> !claims(gpas, page, state.iosfc.ring_base)
            &&& 0 <= ring < state.child_rings.len() && 0 <= slot < state.child_rings[ring].len()
                ==> !claims(gpas, page, state.child_rings[ring][slot])
            &&& 0 <= task < state.tasks.len() && state.tasks[task].active
                && state.tasks[task].directory_pfn != 0 ==> !claims(
                gpas,
                page,
                frame(state.tasks[task].directory_pfn, state.page_shift),
            )
            &&& 0 <= task < state.tasks.len() && state.tasks[task].active
                && state.tasks[task].object_list_pfn != 0 && 0 <= list_index < live_pages(
                live_end(highest_ref(state.objects, state.objects.len() as int, task as u32)),
                page,
            ) ==> !claims(
                gpas,
                page,
                list_page(
                    frame(state.tasks[task].object_list_pfn, state.page_shift),
                    list_index,
                    page,
                ),
            )
        }),
{
    let gpas = usable_pages(state, mapping_id)->0;
    let page = page_bytes(state.page_shift);
    if 0 <= ring < state.child_rings.len() && 0 <= slot < state.child_rings[ring].len() {
        lemma_rings_clear(state.child_rings, 0, gpas, page, ring, slot);
    }
    if 0 <= task < state.tasks.len() {
        lemma_tasks_clear(state, 0, gpas, task);
        let count = live_pages(
            live_end(highest_ref(state.objects, state.objects.len() as int, task as u32)),
            page,
        ) as int;
        if state.tasks[task].active && state.tasks[task].object_list_pfn != 0 && 0 <= list_index
            < count {
            lemma_list_clear(
                frame(state.tasks[task].object_list_pfn, state.page_shift),
                0,
                count,
                gpas,
                page,
                list_index,
            );
        }
    }
}

} // verus!
