//! Host views over a surface's pages, and what every operation keeps of them.

use vstd::prelude::*;
use crate::contract::page_bytes;
use crate::host::{GuestView, HostOps, PageView, view_backed};
use crate::mapper::pages::{control_claim, first_control_page_collision};
use crate::mapper::owed::{lemma_revalidation_owes_no_more, owes_no_more};
use crate::mapper::resolve::{
    adopted_state, resolution, revalidation, revalidate_mapping_pages, walk_resolution,
};
use crate::mapping::MappingView;
use crate::model::{DeviceState, DeviceView, collect_gpas};
use crate::observe::{FailLatch, LatchView};

verus! {

/// The pages of a mapping one behind the other.
pub open spec fn surface_pages(state: DeviceView, mapping_id: u32) -> PageView {
    PageView { gpas: state.pages_of(mapping_id), page: page_bytes(state.page_shift) as nat }
}

/// The mapping's cached host view is mapped and shows exactly its pages, one for
/// each entry of its list.
pub open spec fn view_ok(
    state: DeviceView,
    mapping_id: u32,
    views: Map<usize, PageView>,
    ram: Map<int, u8>,
) -> bool {
    let m = state.mappings[mapping_id];
    &&& views.dom().contains(m.contig_ptr)
    &&& views[m.contig_ptr] == surface_pages(state, mapping_id)
    &&& state.pages_of(mapping_id).len() == m.page_entries.len()
    &&& m.contig_len == surface_pages(state, mapping_id).size()
    &&& view_backed(ram, surface_pages(state, mapping_id))
}

/// A mapping has a cached host view.
pub open spec fn has_view(state: DeviceView, mapping_id: u32) -> bool {
    state.mappings.dom().contains(mapping_id) && state.mappings[mapping_id].contig_ptr != 0
}

/// A condemned mapping has neither pages nor a view until it is resolved again.
pub open spec fn stash_ok(m: MappingView) -> bool {
    m.condemned_entries is Some ==> m.page_entries.len() == 0 && m.contig_ptr == 0
}

/// Every cached view is live, no two mappings share one, and the views waiting to
/// be unmapped are mapped and nobody's.
pub open spec fn views_ok(
    state: DeviceView,
    views: Map<usize, PageView>,
    ram: Map<int, u8>,
) -> bool {
    &&& forall|id: u32| #[trigger]
        state.mappings.dom().contains(id) ==> stash_ok(state.mappings[id])
    &&& forall|id: u32| #[trigger] has_view(state, id) ==> view_ok(state, id, views, ram)
    &&& forall|a: u32, b: u32| #[trigger]
        has_view(state, a) && #[trigger] has_view(state, b) && a != b
            ==> state.mappings[a].contig_ptr != state.mappings[b].contig_ptr
    &&& forall|i: int|
        0 <= i < state.retired_views.len() ==> views.dom().contains(
            (#[trigger] state.retired_views[i]).0,
        )
    &&& forall|i: int, id: u32|
        #![trigger state.retired_views[i], has_view(state, id)]
        0 <= i < state.retired_views.len() && has_view(state, id) ==> state.retired_views[i].0
            != state.mappings[id].contig_ptr
}

/// `after` differs from `before` in at most the mapping `id`, which has lost its
/// host view to the retired ones or kept it together with its pages.
pub open spec fn view_step(before: DeviceView, after: DeviceView, id: u32) -> bool {
    &&& after.page_shift == before.page_shift
    &&& forall|k: u32|
        #![trigger after.mappings.dom().contains(k)]
        k != id ==> after.mappings.dom().contains(k) == before.mappings.dom().contains(k)
    &&& forall|k: u32|
        #![trigger after.mappings[k]]
        k != id && before.mappings.dom().contains(k) ==> after.mappings[k] == before.mappings[k]
    &&& before.mappings.dom().contains(id) && stash_ok(before.mappings[id])
        && after.mappings.dom().contains(id) ==> stash_ok(after.mappings[id])
    &&& after.mappings.dom().contains(id) == before.mappings.dom().contains(id)
    &&& {
        ||| after.retired_views == before.retired_views && (!has_view(after, id) && !has_view(
            before,
            id,
        ))
        ||| after.retired_views == before.retired_views && has_view(before, id) && has_view(
            after,
            id,
        ) && after.mappings[id].contig_ptr == before.mappings[id].contig_ptr
            && after.mappings[id].contig_len == before.mappings[id].contig_len
            && after.mappings[id].page_entries == before.mappings[id].page_entries
        ||| has_view(before, id) && !has_view(after, id) && after.retired_views
            == before.retired_views.push(
            (before.mappings[id].contig_ptr, before.mappings[id].contig_len),
        )
    }
}

/// Such a step keeps the views in order.
pub proof fn lemma_view_step(
    before: DeviceView,
    after: DeviceView,
    id: u32,
    views: Map<usize, PageView>,
    ram: Map<int, u8>,
)
    requires
        views_ok(before, views, ram),
        view_step(before, after, id),
    ensures
        views_ok(after, views, ram),
{
    assert forall|k: u32| k != id implies #[trigger] has_view(after, k) == has_view(before, k) by {
        assert(after.mappings.dom().contains(k) == before.mappings.dom().contains(k));
        if before.mappings.dom().contains(k) {
            assert(after.mappings[k] == before.mappings[k]);
        }
    }
    assert forall|k: u32| #[trigger] after.mappings.dom().contains(k) implies stash_ok(
        after.mappings[k],
    ) by {
        assert(before.mappings.dom().contains(k));
        assert(stash_ok(before.mappings[k]));
        if k != id {
            assert(after.mappings[k] == before.mappings[k]);
        }
    }
    assert forall|k: u32| #[trigger] has_view(after, k) implies view_ok(after, k, views, ram) by {
        assert(has_view(before, k));
        assert(view_ok(before, k, views, ram));
        if k != id {
            assert(after.mappings[k] == before.mappings[k]);
        }
        assert(surface_pages(after, k) == surface_pages(before, k));
    }
    assert forall|a: u32, b: u32| #[trigger] has_view(after, a) && #[trigger] has_view(after, b)
        && a != b implies after.mappings[a].contig_ptr != after.mappings[b].contig_ptr by {
        assert(has_view(before, a) && has_view(before, b));
        assert(before.mappings[a].contig_ptr != before.mappings[b].contig_ptr);
    }
    assert forall|i: int| 0 <= i < after.retired_views.len() implies views.dom().contains(
        (#[trigger] after.retired_views[i]).0,
    ) by {
        if i < before.retired_views.len() {
            assert(after.retired_views[i] == before.retired_views[i]);
        } else {
            assert(view_ok(before, id, views, ram));
        }
    }
    assert forall|i: int, k: u32|
        #![trigger after.retired_views[i], has_view(after, k)]
        0 <= i < after.retired_views.len() && has_view(after, k) implies after.retired_views[i].0
        != after.mappings[k].contig_ptr by {
        assert(has_view(before, k));
        if i < before.retired_views.len() {
            assert(after.retired_views[i] == before.retired_views[i]);
        } else {
            assert(k != id);
        }
    }
}

/// Dropping a mapping's pages is such a step.
pub proof fn lemma_invalidated_step(state: DeviceView, id: u32)
    ensures
        view_step(state, state.invalidated(id), id),
{
}

/// A resolve keeps the views in order.
pub proof fn lemma_resolution_keeps_views(
    state: DeviceView,
    latch: LatchView,
    guest: GuestView,
    mapping_id: u32,
    views: Map<usize, PageView>,
    ram: Map<int, u8>,
)
    requires
        views_ok(state, views, ram),
    ensures
        views_ok(resolution(state, latch, guest, mapping_id).state, views, ram),
        resolution(state, latch, guest, mapping_id).state.page_shift == state.page_shift,
        resolution(state, latch, guest, mapping_id).state.compute_storage_residency
            == state.compute_storage_residency,
        !has_view(state, mapping_id) ==> !has_view(
            resolution(state, latch, guest, mapping_id).state,
            mapping_id,
        ),
{
    reveal(resolution);
    let r = resolution(state, latch, guest, mapping_id);
    if state.mappings.dom().contains(mapping_id) && state.mappings[mapping_id].mapped
        && state.mappings[mapping_id].mapping_internal != 0 {
        let m = state.mappings[mapping_id];
        if has_view(state, mapping_id) {
            assert(view_ok(state, mapping_id, views, ram));
        }
        match (guest.internal)(m.mapping_internal, state.mapper_device_kva) {
            Ok(fields) => {
                if (guest.validation)(mapping_id, fields) is Passed {
                    let w = walk_resolution(state, latch, guest, mapping_id, fields);
                    let read = (guest.descriptor)(m.mapping_internal);
                    let update = crate::mapper::resolve::device_update(read);
                    let geometry = crate::mapper::resolve::resolve_geometry(
                        m,
                        read,
                        page_bytes(state.page_shift),
                    );
                    match (guest.plan)(mapping_id, fields, geometry.min_size, state.page_shift) {
                        Ok(plan) => {
                            let adopted = adopted_state(state, mapping_id, update, plan);
                            assert(view_step(state, adopted, mapping_id));
                            lemma_view_step(state, adopted, mapping_id, views, ram);
                            assert(view_step(adopted, r.state, mapping_id));
                            lemma_view_step(adopted, r.state, mapping_id, views, ram);
                        },
                        Err(status) => {
                            assert(view_step(state, w.state, mapping_id));
                            lemma_view_step(state, w.state, mapping_id, views, ram);
                        },
                    }
                }
            },
            Err(_) => {},
        }
    }
}

/// A revalidation keeps the views in order.
pub proof fn lemma_revalidation_keeps_views(
    state: DeviceView,
    latch: LatchView,
    guest: GuestView,
    mapping_id: u32,
    views: Map<usize, PageView>,
    ram: Map<int, u8>,
)
    requires
        views_ok(state, views, ram),
    ensures
        views_ok(revalidation(state, latch, guest, mapping_id).state, views, ram),
        revalidation(state, latch, guest, mapping_id).state.page_shift == state.page_shift,
        revalidation(state, latch, guest, mapping_id).state.compute_storage_residency
            == state.compute_storage_residency,
        !has_view(state, mapping_id) ==> !has_view(
            revalidation(state, latch, guest, mapping_id).state,
            mapping_id,
        ),
{
    lemma_resolution_keeps_views(state, latch, guest, mapping_id, views, ram);
    let r = resolution(state, latch, guest, mapping_id);
    lemma_invalidated_step(r.state, mapping_id);
    lemma_view_step(r.state, r.state.invalidated(mapping_id), mapping_id, views, ram);
}

/// The views left once the first `n` of a list were given back.
pub open spec fn views_without(
    views: Map<usize, PageView>,
    list: Seq<(usize, usize)>,
    n: int,
) -> Map<usize, PageView>
    decreases n,
{
    if n <= 0 {
        views
    } else {
        views_without(views, list, n - 1).remove(list[n - 1].0)
    }
}

/// Whether the host has room for a view once the first `n` of a list were given back.
pub open spec fn room_without(
    room: bool,
    views: Map<usize, PageView>,
    list: Seq<(usize, usize)>,
    n: int,
) -> bool
    decreases n,
{
    if n <= 0 {
        room
    } else {
        room_without(room, views, list, n - 1) || views_without(
            views,
            list,
            n - 1,
        ).dom().contains(list[n - 1].0)
    }
}

/// The state with no view waiting to be unmapped.
pub open spec fn views_flushed(state: DeviceView) -> DeviceView {
    DeviceView { retired_views: Seq::empty(), ..state }
}

pub proof fn lemma_views_without(
    views: Map<usize, PageView>,
    list: Seq<(usize, usize)>,
    n: int,
    base: usize,
)
    requires
        0 <= n <= list.len(),
        forall|i: int| 0 <= i < n ==> (#[trigger] list[i]).0 != base,
        views.dom().contains(base),
    ensures
        views_without(views, list, n).dom().contains(base),
        views_without(views, list, n)[base] == views[base],
    decreases n,
{
    if n > 0 {
        lemma_views_without(views, list, n - 1, base);
    }
}

/// Giving the waiting views back keeps the others in order.
pub proof fn lemma_flush_keeps_views(
    state: DeviceView,
    views: Map<usize, PageView>,
    ram: Map<int, u8>,
)
    requires
        views_ok(state, views, ram),
    ensures
        views_ok(
            views_flushed(state),
            views_without(views, state.retired_views, state.retired_views.len() as int),
            ram,
        ),
{
    let list = state.retired_views;
    let left = views_without(views, list, list.len() as int);
    let after = views_flushed(state);
    assert forall|id: u32| #[trigger] has_view(after, id) implies view_ok(
        after,
        id,
        left,
        ram,
    ) by {
        assert(has_view(state, id));
        assert(view_ok(state, id, views, ram));
        let base = state.mappings[id].contig_ptr;
        assert forall|i: int| 0 <= i < list.len() implies (#[trigger] list[i]).0 != base by {}
        lemma_views_without(views, list, list.len() as int, base);
        assert(surface_pages(after, id) == surface_pages(state, id));
    }
    assert forall|a: u32, b: u32| #[trigger] has_view(after, a) && #[trigger] has_view(after, b)
        && a != b implies after.mappings[a].contig_ptr != after.mappings[b].contig_ptr by {
        assert(has_view(state, a) && has_view(state, b));
    }
}

/// Unmap the views whose pages changed. This is a safe point: no work that uses
/// them is in flight.
pub fn flush_retired_views<H: HostOps>(state: &mut DeviceState, host: &mut H)
    requires
        old(state).wf(),
    ensures
        final(state).wf(),
        final(state)@ == views_flushed(old(state)@),
        final(host).ram() == old(host).ram(),
        final(host).guest() == old(host).guest(),
        final(host).views() == views_without(
            old(host).views(),
            old(state)@.retired_views,
            old(state)@.retired_views.len() as int,
        ),
        final(host).room() == room_without(
            old(host).room(),
            old(host).views(),
            old(state)@.retired_views,
            old(state)@.retired_views.len() as int,
        ),
        forall|g: Seq<u64>, p: nat| #[trigger]
            final(host).packable(g, p) == old(host).packable(g, p),
{
    let n: usize = state.retired_views.len();
    let ghost list = state.retired_views@;
    let mut i: usize = 0;
    while i < n
        invariant
            *state == *old(state),
            list == state.retired_views@,
            n == list.len(),
            i <= n,
            host.ram() == old(host).ram(),
            host.guest() == old(host).guest(),
            host.views() == views_without(old(host).views(), list, i as int),
            host.room() == room_without(old(host).room(), old(host).views(), list, i as int),
            forall|g: Seq<u64>, p: nat| #[trigger]
                host.packable(g, p) == old(host).packable(g, p),
        decreases n - i,
    {
        let (base, len) = state.retired_views[i];
        host.unmap_pages(base, len);
        i = i + 1;
    }
    state.retired_views = Vec::new();
    assert(state@.retired_views =~= Seq::<(usize, usize)>::empty());
}

/// The page addresses that a mapping may be accessed through: all its entries
/// are valid, and none is a page that the device or a task needs for itself.
pub open spec fn usable_pages(state: DeviceView, mapping_id: u32) -> Option<Seq<u64>> {
    if state.mappings.dom().contains(mapping_id) {
        let m = state.mappings[mapping_id];
        let gpas = state.pages_of(mapping_id);
        if m.mapped && m.page_entries.len() > 0 && gpas.len() == m.page_entries.len()
            && control_claim(state, gpas) is None {
            Some(gpas)
        } else {
            None
        }
    } else {
        None
    }
}

/// Revalidate, and collect the page addresses of a mapped surface in order.
///
/// Fails closed on an empty list, an invalid entry, or a page of the device's
/// transport or of a task's structures. Whether a page is memory at all is left
/// to the host, which every user of the list asks next.
pub fn mapping_page_gpas<H: HostOps>(
    state: &mut DeviceState,
    host: &H,
    latch: &mut FailLatch,
    mapping_id: u32,
) -> (gpas: Option<Vec<u64>>)
    requires
        old(state).wf(),
    ensures
        final(state).wf(),
        ({
            let r = revalidation(old(state)@, old(latch)@, host.guest(), mapping_id);
            &&& final(state)@ == r.state
            &&& final(latch)@ == r.latch
            &&& match gpas {
                Some(g) => r.miss is None && usable_pages(r.state, mapping_id) == Some(g@),
                None => r.miss is Some || usable_pages(r.state, mapping_id) is None,
            }
        }),
{
    if !revalidate_mapping_pages(state, host, latch, mapping_id) {
        return None;
    }
    let gpas = match state.mappings.get(&mapping_id) {
        Some(m) => {
            if !m.mapped || m.page_entries.len() == 0 {
                return None;
            }
            let gpas = collect_gpas(&m.page_entries, state.page_shift);
            if gpas.len() != m.page_entries.len() {
                return None;
            }
            gpas
        },
        None => {
            return None;
        },
    };
    if first_control_page_collision(state, &gpas).is_some() {
        return None;
    }
    Some(gpas)
}

/// What becomes of a mapping's contiguous view: it is revalidated, waiting views
/// are given back, and a view is made where none is cached.
pub open spec fn contig_outcome(
    before: DeviceView,
    latch: LatchView,
    guest: GuestView,
    views: Map<usize, PageView>,
    room: bool,
    packable: spec_fn(Seq<u64>, nat) -> bool,
    mapping_id: u32,
    found: Option<(usize, usize)>,
    after: DeviceView,
    latch_after: LatchView,
    views_after: Map<usize, PageView>,
    room_after: bool,
) -> bool {
    let first = revalidation(before, latch, guest, mapping_id);
    if first.miss is Some {
        &&& found is None
        &&& after == first.state
        &&& latch_after == first.latch
        &&& views_after == views
        &&& room_after == room
    } else {
        let flushed = views_flushed(first.state);
        let list = first.state.retired_views;
        let left = views_without(views, list, list.len() as int);
        let free = room_without(room, views, list, list.len() as int);
        let m = flushed.mappings[mapping_id];
        if m.contig_ptr != 0 {
            &&& found == Some((m.contig_ptr, m.contig_len))
            &&& after == flushed
            &&& latch_after == first.latch
            &&& views_after == left
            &&& room_after == free
        } else {
            let second = revalidation(flushed, first.latch, guest, mapping_id);
            let page = page_bytes(before.page_shift) as nat;
            let made = second.miss is None && match usable_pages(second.state, mapping_id) {
                Some(gpas) => free && packable(gpas, page) && gpas.len() * page <= usize::MAX,
                None => false,
            };
            &&& latch_after == second.latch
            &&& found is Some <==> made
            &&& match found {
                Some((base, len)) => {
                    let view = surface_pages(second.state, mapping_id);
                    &&& base != 0
                    &&& !left.dom().contains(base)
                    &&& len == view.size()
                    &&& views_after == left.insert(base, view)
                    &&& after == second.state.with_mapping(
                        mapping_id,
                        MappingView {
                            contig_ptr: base,
                            contig_len: len,
                            ..second.state.mappings[mapping_id]
                        },
                    )
                },
                None => after == second.state && views_after == left && room_after == free,
            }
        }
    }
}

/// What a host's packing rule is, as a function.
pub open spec fn packing<H: HostOps>(host: H) -> spec_fn(Seq<u64>, nat) -> bool {
    |g: Seq<u64>, p: nat| host.packable(g, p)
}

/// A contiguous host view over the mapping's pages, made on first use.
///
/// The mapping is always revalidated first, so that a cached view never outlives
/// its pages. The host may be unable to lay a fragmented list out as one view;
/// such a surface is accessed by [`crate::mapper::io::write_mapping_bytes`] and
/// [`crate::mapper::io::read_mapping_bytes`]. A list that does not fit the address
/// space has no view.
pub fn ensure_contig_view<H: HostOps>(
    state: &mut DeviceState,
    host: &mut H,
    latch: &mut FailLatch,
    mapping_id: u32,
) -> (view: Option<(usize, usize)>)
    requires
        old(state).wf(),
        views_ok(old(state)@, old(host).views(), old(host).ram()),
    ensures
        final(state).wf(),
        views_ok(final(state)@, final(host).views(), final(host).ram()),
        contig_outcome(
            old(state)@,
            old(latch)@,
            old(host).guest(),
            old(host).views(),
            old(host).room(),
            packing(*old(host)),
            mapping_id,
            view,
            final(state)@,
            final(latch)@,
            final(host).views(),
            final(host).room(),
        ),
        final(host).ram() == old(host).ram(),
        final(host).guest() == old(host).guest(),
        forall|g: Seq<u64>, p: nat| #[trigger]
            final(host).packable(g, p) == old(host).packable(g, p),
        match view {
            Some((base, len)) => has_view(final(state)@, mapping_id) && base
                == final(state)@.mappings[mapping_id].contig_ptr && len
                == final(state)@.mappings[mapping_id].contig_len,
            None => true,
        },
        final(state)@.page_shift == old(state)@.page_shift,
        final(state)@.compute_storage_residency == old(state)@.compute_storage_residency,
        owes_no_more(old(state)@, final(state)@),
{
    let ghost views = host.views();
    let ghost ram = host.ram();
    let ghost guest = host.guest();
    proof {
        lemma_revalidation_owes_no_more(state@, latch@, guest, mapping_id);
        lemma_revalidation_keeps_views(state@, latch@, guest, mapping_id, views, ram);
    }
    if !revalidate_mapping_pages(state, host, latch, mapping_id) {
        return None;
    }
    proof {
        lemma_flush_keeps_views(state@, views, ram);
    }
    flush_retired_views(state, host);
    let ghost left = host.views();
    match state.mappings.get(&mapping_id) {
        Some(m) => {
            if m.contig_ptr != 0 {
                assert(has_view(state@, mapping_id));
                return Some((m.contig_ptr, m.contig_len));
            }
        },
        None => {
            return None;
        },
    }
    proof {
        lemma_revalidation_owes_no_more(state@, latch@, guest, mapping_id);
        lemma_revalidation_keeps_views(state@, latch@, guest, mapping_id, left, ram);
    }
    let gpas = match mapping_page_gpas(state, host, latch, mapping_id) {
        Some(gpas) => gpas,
        None => {
            return None;
        },
    };
    let page: usize = state.page_size() as usize;
    let len: usize = match gpas.len().checked_mul(page) {
        Some(len) => len,
        None => {
            return None;
        },
    };
    let ghost second = state@;
    let base: usize = match host.map_pages(gpas.as_slice(), page) {
        Some(base) => base,
        None => {
            return None;
        },
    };
    match state.mappings.get_mut(&mapping_id) {
        Some(m) => {
            m.contig_ptr = base;
            m.contig_len = len;
        },
        None => {},
    }
    proof {
        lemma_view_made(second, state@, mapping_id, left, host.views(), ram, base);
    }
    Some((base, len))
}

/// Caching a newly made view keeps the views in order.
proof fn lemma_view_made(
    before: DeviceView,
    after: DeviceView,
    id: u32,
    views: Map<usize, PageView>,
    views_after: Map<usize, PageView>,
    ram: Map<int, u8>,
    base: usize,
)
    requires
        views_ok(before, views, ram),
        before.mappings.dom().contains(id),
        before.mappings[id].condemned_entries is None,
        before.pages_of(id).len() == before.mappings[id].page_entries.len(),
        base != 0,
        !views.dom().contains(base),
        views_after == views.insert(base, surface_pages(before, id)),
        view_backed(ram, surface_pages(before, id)),
        after == before.with_mapping(
            id,
            MappingView {
                contig_ptr: base,
                contig_len: surface_pages(before, id).size() as usize,
                ..before.mappings[id]
            },
        ),
        surface_pages(before, id).size() <= usize::MAX,
        !has_view(before, id),
    ensures
        views_ok(after, views_after, ram),
{
    assert(surface_pages(after, id) == surface_pages(before, id));
    assert forall|k: u32| k != id implies #[trigger] has_view(after, k) == has_view(before, k) by {}
    assert forall|k: u32| #[trigger] after.mappings.dom().contains(k) implies stash_ok(
        after.mappings[k],
    ) by {
        assert(before.mappings.dom().contains(k));
    }
    assert forall|k: u32| #[trigger] has_view(after, k) implies view_ok(
        after,
        k,
        views_after,
        ram,
    ) by {
        if k != id {
            assert(has_view(before, k));
            assert(view_ok(before, k, views, ram));
            assert(surface_pages(after, k) == surface_pages(before, k));
        }
    }
    assert forall|a: u32, b: u32| #[trigger] has_view(after, a) && #[trigger] has_view(after, b)
        && a != b implies after.mappings[a].contig_ptr != after.mappings[b].contig_ptr by {
        if a != id {
            assert(has_view(before, a) && view_ok(before, a, views, ram));
        }
        if b != id {
            assert(has_view(before, b) && view_ok(before, b, views, ram));
        }
    }
}

} // verus!
