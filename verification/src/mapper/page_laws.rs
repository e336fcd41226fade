//! Pages that two surfaces list, and views over a surface's pages.

use vstd::prelude::*;
use crate::contract::{DeviceSurfaceView, page_bytes, page_start, view_window};
use crate::host::{GuestView, PageView};
use crate::mapper::owed::{owed_at, owes_bytes};
use crate::mapper::pages::{
    alias_found, alias_of, failed_closed, latched_format, lists_page, lowest_sharer, shared_page,
    shares_with, surface_collision, surfaces_collide,
};
use crate::mapper::resolve::{needs_resolve, revalidation, sized_for, standing};
use crate::mapper::views::{
    contig_outcome, room_without, surface_pages, usable_pages, views_flushed, views_without,
};
use crate::mapping::MappingView;
use crate::model::DeviceView;
use crate::observe::LatchView;
use crate::residency::{ComputeStorageResidencyKey, Victims};
use crate::residency_laws::law_removal_splits_the_windows;

verus! {

/// Two surfaces collide on a page that both are mapped to. Neither collides with itself,
/// and each collides with the other.
pub proof fn law_collisions_are_mutual(state: DeviceView, id: u32, owner: u32, base: u64)
    ensures
        surfaces_collide(state, id, owner, base) ==> surfaces_collide(state, owner, id, base),
        !surfaces_collide(state, id, id, base),
        surfaces_collide(state, id, owner, base) ==> state.mappings[id].mapped
            && state.mappings[owner].mapped,
        surfaces_collide(state, id, owner, base) ==> exists|i: int, j: int|
            0 <= i < state.pages_of(id).len() && 0 <= j < state.pages_of(owner).len()
                && page_start(#[trigger] state.pages_of(id)[i], page_bytes(state.page_shift))
                == page_start(
                #[trigger] state.pages_of(owner)[j],
                page_bytes(state.page_shift),
            ),
{
    if surfaces_collide(state, id, owner, base) {
        let page = page_bytes(state.page_shift);
        let i = choose|i: int|
            0 <= i < state.pages_of(id).len() && page_start(
                #[trigger] state.pages_of(id)[i],
                page,
            ) == base;
        let j = choose|j: int|
            0 <= j < state.pages_of(owner).len() && page_start(
                #[trigger] state.pages_of(owner)[j],
                page,
            ) == base;
        assert(page_start(state.pages_of(id)[i], page) == page_start(
            state.pages_of(owner)[j],
            page,
        ));
    }
}

/// Two mapped surfaces that list the same page collide.
pub proof fn law_shared_pages_collide(state: DeviceView, id: u32, owner: u32, i: int, j: int)
    requires
        id != owner,
        state.mappings.dom().contains(id),
        state.mappings.dom().contains(owner),
        state.mappings[id].mapped,
        state.mappings[owner].mapped,
        0 <= i < state.pages_of(id).len(),
        0 <= j < state.pages_of(owner).len(),
        state.pages_of(id)[i] == state.pages_of(owner)[j],
    ensures
        surface_collision(state, id),
        surface_collision(state, owner),
        shares_with(state, id, owner),
{
    let base = page_start(state.pages_of(id)[i], page_bytes(state.page_shift));
    assert(surfaces_collide(state, id, owner, base));
    assert(surfaces_collide(state, owner, id, base));
}

/// The page found is the first of the other's list that both list.
pub proof fn law_first_shared_page(mine: Seq<u64>, theirs: Seq<u64>, page: u64, i: int)
    requires
        0 <= i <= theirs.len(),
    ensures
        match shared_page(mine, theirs, page, i) {
            Some(base) => lists_page(mine, page, base) && exists|k: int|
                i <= k < theirs.len() && page_start(#[trigger] theirs[k], page) == base
                    && forall|j: int|
                    i <= j < k ==> !lists_page(mine, page, page_start(#[trigger] theirs[j], page)),
            None => forall|j: int|
                i <= j < theirs.len() ==> !lists_page(
                    mine,
                    page,
                    page_start(#[trigger] theirs[j], page),
                ),
        },
    decreases theirs.len() - i,
{
    if i < theirs.len() {
        let base = page_start(theirs[i], page);
        if lists_page(mine, page, base) {
            assert(page_start(theirs[i], page) == base);
        } else {
            law_first_shared_page(mine, theirs, page, i + 1);
            if let Some(found) = shared_page(mine, theirs, page, i + 1) {
                let k = choose|k: int|
                    i + 1 <= k < theirs.len() && page_start(#[trigger] theirs[k], page) == found
                        && forall|j: int|
                        i + 1 <= j < k ==> !lists_page(
                            mine,
                            page,
                            page_start(#[trigger] theirs[j], page),
                        );
                assert(page_start(theirs[k], page) == found);
            }
        }
    }
}

/// The lowest sharer shares, and no lower surface does.
pub proof fn law_lowest_sharers(state: DeviceView, id: u32, owner: u32, other: u32)
    requires
        lowest_sharer(state, id, owner),
        other < owner,
    ensures
        shares_with(state, id, owner),
        !shares_with(state, id, other),
{
}

/// The alias of a surface is with the lowest that shares a page, on the first page of the
/// other's list that both list.
pub proof fn law_aliases_are_the_first(state: DeviceView, id: u32, owner: u32)
    requires
        lowest_sharer(state, id, owner),
    ensures
        ({
            let page = page_bytes(state.page_shift);
            let theirs = state.pages_of(owner);
            &&& alias_of(state, id) is Some
            &&& (alias_of(state, id)->0).1 == owner
            &&& lists_page(state.pages_of(id), page, (alias_of(state, id)->0).0)
            &&& exists|k: int|
                0 <= k < theirs.len() && page_start(#[trigger] theirs[k], page) == (alias_of(
                    state,
                    id,
                )->0).0 && forall|j: int|
                    0 <= j < k ==> !lists_page(
                        state.pages_of(id),
                        page,
                        page_start(#[trigger] theirs[j], page),
                    )
        }),
{
    let page = page_bytes(state.page_shift);
    let mine = state.pages_of(id);
    let theirs = state.pages_of(owner);
    let base = choose|base: u64| surfaces_collide(state, id, owner, base);
    assert(surfaces_collide(state, id, owner, base));
    assert(surface_collision(state, id));
    let chosen = choose|o: u32| lowest_sharer(state, id, o);
    assert(lowest_sharer(state, id, chosen));
    assert(shares_with(state, id, chosen) && shares_with(state, id, owner));
    assert(chosen == owner);
    law_first_shared_page(mine, theirs, page, 0);
    let j = choose|j: int| 0 <= j < theirs.len() && page_start(#[trigger] theirs[j], page) == base;
    assert(lists_page(mine, page, page_start(theirs[j], page)));
}

/// An alias is noted of the surface and the pages it lists, for what it was resolved.
pub proof fn law_noted_aliases(state: DeviceView, id: u32, path: &'static str)
    requires
        alias_of(state, id) is Some,
        state.mappings[id].page_entries.len() <= usize::MAX,
    ensures
        surface_collision(state, id),
        alias_found(state, id, path).mapping_id == id,
        alias_found(state, id, path).owner == (alias_of(state, id)->0).1,
        alias_found(state, id, path).gpa == (alias_of(state, id)->0).0,
        alias_found(state, id, path).mine_pages == state.mappings[id].page_entries.len(),
        alias_found(state, id, path).path == path,
{
}

/// A surface that fails closed has no pages and owes nothing; other surfaces owe and list
/// what they did.
pub proof fn law_failing_closed(
    state: DeviceView,
    id: u32,
    other: u32,
    owed: (ComputeStorageResidencyKey, u32),
)
    requires
        state.mappings.dom().contains(id),
        other != id,
    ensures
        ({
            let after = failed_closed(state, id);
            &&& after.mappings[id].page_entries.len() == 0
            &&& after.mappings[id].contig_ptr == 0
            &&& after.mappings[id].map_generation != state.mappings[id].map_generation
            &&& after.mappings.dom().contains(other) <==> state.mappings.dom().contains(other)
            &&& state.mappings.dom().contains(other) ==> after.mappings[other]
                == state.mappings[other]
            &&& after.compute_deferred_flush.contains(owed) <==> state.compute_deferred_flush.contains(
                owed,
            ) && owed.0.mapping_id != id
            &&& after.render_deferred_flush.contains(owed) <==> state.render_deferred_flush.contains(
                owed,
            ) && owed.0.mapping_id != id
            &&& after.compute_storage_residency == state.compute_storage_residency
        }),
{
    law_removal_splits_the_windows(
        state.compute_deferred_flush,
        Victims::OfMapping { mapping_id: id },
        owed,
    );
    law_removal_splits_the_windows(
        state.render_deferred_flush,
        Victims::OfMapping { mapping_id: id },
        owed,
    );
}

/// A format that is left open is BGRA.
pub proof fn law_open_formats_are_bgra(format: u16)
    ensures
        latched_format(0) == 80,
        format > 0 ==> latched_format(format) == format,
{
}

/// A size grows to hold the window of a view, and never shrinks.
pub proof fn law_sizes_hold_the_window(
    size: u64,
    surface: Option<DeviceSurfaceView>,
    format: u16,
    width: u32,
    height: u32,
)
    ensures
        ({
            let grown = sized_for(size, surface, format, width, height);
            let window = view_window(surface, format, width, height);
            &&& grown >= size
            &&& window is None ==> grown == size
            &&& window is Some ==> grown >= window->0.end
            &&& window is Some ==> grown == size || grown == window->0.end
        }),
{
}

/// Resolved is what is mapped to a mapping object and has no pages, no geometry, or too
/// few pages for it.
pub proof fn law_what_needs_resolving(m: MappingView, page_shift: u32)
    ensures
        needs_resolve(m, page_shift) ==> m.mapped && m.mapping_internal > 0,
        m.mapped && m.mapping_internal > 0 && m.page_entries.len() == 0 ==> needs_resolve(
            m,
            page_shift,
        ),
        m.mapped && m.mapping_internal > 0 && !m.has_geom ==> needs_resolve(m, page_shift),
        m.mapped && m.mapping_internal > 0 && !crate::mapper::pages::covers_geom(m, page_shift)
            ==> needs_resolve(m, page_shift),
        m.has_geom && m.page_entries.len() > 0 && crate::mapper::pages::covers_geom(m, page_shift)
            ==> !needs_resolve(m, page_shift),
{
}

/// A mapping stands where it is mapped and has pages.
pub proof fn law_what_stands(state: DeviceView, id: u32)
    ensures
        standing(state, id) is None <==> state.mappings.dom().contains(id)
            && state.mappings[id].mapped && state.mappings[id].page_entries.len() > 0,
        !state.mappings.dom().contains(id) ==> standing(state, id) == Some("revalidate_gone"),
        state.mappings.dom().contains(id) && standing(state, id) is Some ==> standing(state, id)
            == Some("revalidate_no_pages"),
{
}

/// Pages are usable where the surface is mapped, every entry is valid, and none is one of
/// the device's own.
pub proof fn law_usable_pages(state: DeviceView, id: u32)
    ensures
        match usable_pages(state, id) {
            Some(gpas) => {
                &&& state.mappings.dom().contains(id)
                &&& state.mappings[id].mapped
                &&& gpas == state.pages_of(id)
                &&& gpas.len() == state.mappings[id].page_entries.len()
                &&& gpas.len() > 0
                &&& crate::mapper::pages::control_claim(state, gpas) is None
            },
            None => {
                ||| !state.mappings.dom().contains(id)
                ||| !state.mappings[id].mapped
                ||| state.mappings[id].page_entries.len() == 0
                ||| state.pages_of(id).len() != state.mappings[id].page_entries.len()
                ||| crate::mapper::pages::control_claim(state, state.pages_of(id)) is Some
            },
        },
{
}

/// A surface's view is of its own pages, at the device's page size.
pub proof fn law_surface_views(state: DeviceView, id: u32)
    ensures
        surface_pages(state, id).gpas == state.pages_of(id),
        surface_pages(state, id).page == page_bytes(state.page_shift),
{
}

/// Views that are given back are gone, the others stay; giving one back makes room.
pub proof fn law_views_are_given_back(
    room: bool,
    views: Map<usize, PageView>,
    list: Seq<(usize, usize)>,
    n: int,
    base: usize,
)
    requires
        0 <= n <= list.len(),
    ensures
        views_without(views, list, n).dom().contains(base) <==> views.dom().contains(base)
            && forall|k: int| 0 <= k < n ==> (#[trigger] list[k]).0 != base,
        views_without(views, list, n).dom().contains(base) ==> views_without(views, list, n)[base]
            == views[base],
        room ==> room_without(room, views, list, n),
        n > 0 && views.dom().contains(list[0].0) ==> room_without(room, views, list, n),
        n == 0 ==> room_without(room, views, list, n) == room,
    decreases n,
{
    if n > 0 {
        law_views_are_given_back(room, views, list, n - 1, base);
        if n == 1 {
            assert(views_without(views, list, 0) == views);
        }
    }
}

/// Flushing forgets the views to be given back, and nothing else.
pub proof fn law_flushing_views(state: DeviceView)
    ensures
        views_flushed(state).retired_views.len() == 0,
        views_flushed(state).mappings == state.mappings,
        views_flushed(state).page_shift == state.page_shift,
        views_flushed(state).compute_deferred_flush == state.compute_deferred_flush,
        views_flushed(state).render_deferred_flush == state.render_deferred_flush,
        views_flushed(state).compute_storage_residency == state.compute_storage_residency,
{
}

/// A view that is found is the mapping's own, or one of its pages that is new.
pub proof fn law_found_views(
    before: DeviceView,
    latch: LatchView,
    guest: GuestView,
    views: Map<usize, PageView>,
    room: bool,
    packable: spec_fn(Seq<u64>, nat) -> bool,
    id: u32,
    found: Option<(usize, usize)>,
    after: DeviceView,
    latch_after: LatchView,
    views_after: Map<usize, PageView>,
    room_after: bool,
)
    requires
        contig_outcome(
            before,
            latch,
            guest,
            views,
            room,
            packable,
            id,
            found,
            after,
            latch_after,
            views_after,
            room_after,
        ),
    ensures
        revalidation(before, latch, guest, id).miss is Some ==> found is None,
        found is Some ==> after.mappings[id].contig_ptr == (found->0).0 && after.mappings[id].contig_len
            == (found->0).1,
        found is Some && !views.dom().contains((found->0).0) && views_after.dom().contains(
            (found->0).0,
        ) ==> (found->0).0 > 0 && (found->0).1 == views_after[(found->0).0].size(),
{
    let first = revalidation(before, latch, guest, id);
    if first.miss is None && found is Some {
        let list = first.state.retired_views;
        law_views_are_given_back(room, views, list, list.len() as int, (found->0).0);
    }
}

/// Something is owed of bytes where an owed window meets them, of either kind.
pub proof fn law_what_is_owed_of_bytes(state: DeviceView, id: u32, lo: u64, hi: u64, i: int)
    ensures
        0 <= i < state.compute_deferred_flush.len() && state.compute_deferred_flush[i].0.mapping_id
            == id && state.compute_deferred_flush[i].0.surface_offset < hi
            && state.compute_deferred_flush[i].0.span_end > lo ==> owes_bytes(state, id, lo, hi),
        0 <= i < state.render_deferred_flush.len() && state.render_deferred_flush[i].0.mapping_id
            == id && state.render_deferred_flush[i].0.surface_offset < hi
            && state.render_deferred_flush[i].0.span_end > lo ==> owes_bytes(state, id, lo, hi),
        state.compute_deferred_flush.len() == 0 && state.render_deferred_flush.len() == 0
            ==> !owes_bytes(state, id, lo, hi),
        owes_bytes(state, id, lo, hi) <==> owed_at(state.compute_deferred_flush, id, lo, hi)
            || owed_at(state.render_deferred_flush, id, lo, hi),
{
}

} // verus!
