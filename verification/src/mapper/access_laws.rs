//! What holds of accesses that follow one another.

use vstd::prelude::*;
use crate::contract::page_bytes;
use crate::host::{
    DescriptorView, GuestView, PageView, same_mappings_shown, view_bytes, view_written,
};
use crate::mapper::io::{
    access_path, bytes_agree, covered, law_bytes_read_back, lemma_packed_whole, run_path,
};
use crate::mapper::pages::tasks_claim;
use crate::mapper::resolve::{
    device_after, device_update, resolution, resolve_geometry,
    revalidation, with_geometry,
};
use crate::mapper::views::{
    contig_outcome, has_view, surface_pages, usable_pages, views_flushed, views_ok,
};
use crate::mapping::MappingView;
use crate::model::DeviceView;
use crate::observe::LatchView;

verus! {

/// A state that differs from another in the views alone: those that wait to be
/// given back, and the one that the mapping has.
spec fn same_but_views(a: DeviceView, b: DeviceView, mapping_id: u32) -> bool {
    &&& a.mappings.dom().contains(mapping_id)
    &&& b.mappings.dom().contains(mapping_id)
    &&& b == (DeviceView {
        retired_views: b.retired_views,
        mappings: a.mappings.insert(
            mapping_id,
            MappingView {
                contig_ptr: b.mappings[mapping_id].contig_ptr,
                contig_len: b.mappings[mapping_id].contig_len,
                ..a.mappings[mapping_id]
            },
        ),
        ..a
    })
}

/// The geometry that a resolve goes by is the one it goes by again once it is
/// latched.
proof fn lemma_geometry_latched(m: MappingView, read: DescriptorView, page: u64, kept: MappingView)
    requires
        ({
            let g = resolve_geometry(m, read, page);
            let latched = with_geometry(m, g);
            &&& kept.has_geom == latched.has_geom
            &&& kept.width == latched.width
            &&& kept.height == latched.height
            &&& kept.format == latched.format
            &&& kept.device == device_after(m, device_update(read))
        }),
    ensures
        resolve_geometry(kept, read, page) == resolve_geometry(m, read, page),
        with_geometry(kept, resolve_geometry(m, read, page)) == kept,
{
}

/// The guest shows a page table for the mapping: its object is read and found to be
/// the mapping's.
pub open spec fn table_shown(state: DeviceView, guest: GuestView, mapping_id: u32) -> bool {
    let m = state.mappings[mapping_id];
    match (guest.internal)(m.mapping_internal, state.mapper_device_kva) {
        Ok(fields) => {
            let read = (guest.descriptor)(m.mapping_internal);
            let geometry = resolve_geometry(m, read, page_bytes(state.page_shift));
            (guest.validation)(mapping_id, fields) is Passed && (guest.plan)(
                mapping_id,
                fields,
                geometry.min_size,
                state.page_shift,
            ) is Ok
        },
        Err(_) => false,
    }
}

/// The same failures and aliases are known. More lines may wait to be logged.
pub open spec fn same_failures(a: LatchView, b: LatchView) -> bool {
    &&& a.seen == b.seen
    &&& a.aliased == b.aliased
    &&& a.fresh_aliases == b.fresh_aliases
}

/// A resolve that did not fail closed on a page alias comes to the same again, and
/// nothing changes then.
proof fn lemma_resolved_again(
    before: DeviceView,
    latch: LatchView,
    guest: GuestView,
    shown: GuestView,
    mapping_id: u32,
    after: DeviceView,
    known: LatchView,
)
    requires
        same_mappings_shown(guest, shown),
        before.mappings.dom().contains(mapping_id),
        ({
            let r = resolution(before, latch, guest, mapping_id);
            &&& r.resolved || !table_shown(before, guest, mapping_id)
            &&& same_but_views(r.state, after, mapping_id)
            &&& known.seen == r.latch.seen
        }),
    ensures
        after.page_shift == before.page_shift,
        ({
            let r = resolution(before, latch, guest, mapping_id);
            let again = resolution(after, known, shown, mapping_id);
            &&& again.resolved == r.resolved
            &&& again.state == after
            &&& same_failures(again.latch, known)
        }),
{
    reveal(resolution);
    let r = resolution(before, latch, guest, mapping_id);
    let again = resolution(after, known, shown, mapping_id);
    let m = before.mappings[mapping_id];
    let kept = after.mappings[mapping_id];
    if m.mapped && m.mapping_internal != 0 {
        match (guest.internal)(m.mapping_internal, before.mapper_device_kva) {
            Err(refusal) => {},
            Ok(fields) => {
                let read = (guest.descriptor)(m.mapping_internal);
                let page = page_bytes(before.page_shift);
                if (guest.validation)(mapping_id, fields) is Passed {
                    lemma_geometry_latched(m, read, page, kept);
                    assert(after.mappings.insert(mapping_id, kept) =~= after.mappings);
                    assert(again.state == after);
                    assert(again.latch.seen =~= known.seen);
                }
            },
        }
    }
}

/// Resolving a mapping a second time changes nothing, in the mapping or elsewhere:
/// what the first resolve came to stands. A resolve that fails closed on a page
/// alias is another matter, for it gives its pages up each time.
pub proof fn law_second_resolve_changes_nothing(
    before: DeviceView,
    latch: LatchView,
    guest: GuestView,
    shown: GuestView,
    mapping_id: u32,
)
    requires
        same_mappings_shown(guest, shown),
        resolution(before, latch, guest, mapping_id).resolved || !table_shown(
            before,
            guest,
            mapping_id,
        ),
    ensures
        ({
            let first = resolution(before, latch, guest, mapping_id);
            let second = resolution(first.state, first.latch, shown, mapping_id);
            &&& second.resolved == first.resolved
            &&& second.state == first.state
            &&& same_failures(second.latch, first.latch)
        }),
{
    let first = resolution(before, latch, guest, mapping_id);
    reveal(resolution);
    if before.mappings.dom().contains(mapping_id) {
        assert(first.state.mappings.insert(mapping_id, first.state.mappings[mapping_id])
            =~= first.state.mappings);
        assert(same_but_views(first.state, first.state, mapping_id));
        lemma_resolved_again(before, latch, guest, shown, mapping_id, first.state, first.latch);
    }
}

/// A mapping that revalidated does so again, and nothing changes then.
proof fn lemma_revalidated_again(
    before: DeviceView,
    latch: LatchView,
    guest: GuestView,
    shown: GuestView,
    mapping_id: u32,
    after: DeviceView,
    latch_after: LatchView,
)
    requires
        same_mappings_shown(guest, shown),
        ({
            let r = revalidation(before, latch, guest, mapping_id);
            &&& r.miss is None
            &&& same_but_views(r.state, after, mapping_id)
            &&& latch_after.seen == r.latch.seen
        }),
    ensures
        after.page_shift == before.page_shift,
        is_settled(after, latch_after, shown, mapping_id),
{
    let m = before.mappings[mapping_id];
    if m.mapping_internal != 0 {
        let r = resolution(before, latch, guest, mapping_id);
        assert(r.resolved || !table_shown(before, guest, mapping_id)) by {
            reveal(resolution);
        }
        assert(r.state.mappings[mapping_id].mapping_internal == m.mapping_internal
            && r.state.page_shift == before.page_shift && (r.resolved
            || r.state.mappings[mapping_id].page_table_kva == m.page_table_kva)) by {
            reveal(resolution);
        }
        assert forall|known: LatchView| known.seen == latch_after.seen implies {
            let again = #[trigger] revalidation(after, known, shown, mapping_id);
            again.miss is None && again.state == after && same_failures(again.latch, known)
        } by {
            lemma_resolved_again(before, latch, guest, shown, mapping_id, after, known);
        }
    }
}

/// Revalidating the mapping succeeds and changes nothing, where no more failures
/// are known than in `latch`.
spec fn is_settled(state: DeviceView, latch: LatchView, guest: GuestView, mapping_id: u32) -> bool {
    forall|known: LatchView|
        known.seen == latch.seen ==> {
            let r = #[trigger] revalidation(state, known, guest, mapping_id);
            r.miss is None && r.state == state && same_failures(r.latch, known)
        }
}

/// Where a mapping has a contiguous view, and nothing waits to be given back,
/// asking for the view again finds it and changes nothing.
proof fn lemma_view_found_again(
    before: DeviceView,
    latch: LatchView,
    guest: GuestView,
    shown: GuestView,
    views: Map<usize, PageView>,
    room: bool,
    packable: spec_fn(Seq<u64>, nat) -> bool,
    mapping_id: u32,
    found: Option<(usize, usize)>,
    after: DeviceView,
    latch_after: LatchView,
    views_after: Map<usize, PageView>,
    room_after: bool,
)
    requires
        same_mappings_shown(guest, shown),
        found is Some,
        contig_outcome(
            before,
            latch,
            guest,
            views,
            room,
            packable,
            mapping_id,
            found,
            after,
            latch_after,
            views_after,
            room_after,
        ),
    ensures
        after.page_shift == before.page_shift,
        after.retired_views.len() == 0,
        after.mappings[mapping_id].contig_ptr != 0,
        found == Some(
            (after.mappings[mapping_id].contig_ptr, after.mappings[mapping_id].contig_len),
        ),
        is_settled(after, latch_after, shown, mapping_id),
        views_flushed(after) == after,
{
    let first = revalidation(before, latch, guest, mapping_id);
    let flushed = views_flushed(first.state);
    assert(flushed.mappings.insert(mapping_id, flushed.mappings[mapping_id]) =~= flushed.mappings);
    assert(same_but_views(first.state, flushed, mapping_id));
    lemma_revalidated_again(before, latch, guest, guest, mapping_id, flushed, first.latch);
    assert(after.retired_views =~= Seq::<(usize, usize)>::empty());
    if flushed.mappings[mapping_id].contig_ptr == 0 {
        assert(after.mappings =~= first.state.mappings.insert(
            mapping_id,
            after.mappings[mapping_id],
        ));
    }
    assert(same_but_views(first.state, after, mapping_id));
    lemma_revalidated_again(before, latch, guest, shown, mapping_id, after, latch_after);
}

/// [`crate::mapper::ensure_contig_view`] on a mapping that has its view finds
/// that view again: no view is made or given back, and nothing changes. The view
/// is as long as the page list, and no view is left waiting to be given back.
pub proof fn law_second_view_is_the_first(
    before: DeviceView,
    latch: LatchView,
    guest: GuestView,
    shown: GuestView,
    views: Map<usize, PageView>,
    room: bool,
    packable: spec_fn(Seq<u64>, nat) -> bool,
    mapping_id: u32,
    found: Option<(usize, usize)>,
    after: DeviceView,
    latch_after: LatchView,
    views_after: Map<usize, PageView>,
    room_after: bool,
    ram: Map<int, u8>,
    again: Option<(usize, usize)>,
    end: DeviceView,
    latch_end: LatchView,
    views_end: Map<usize, PageView>,
    room_end: bool,
)
    requires
        same_mappings_shown(guest, shown),
        found is Some,
        contig_outcome(
            before,
            latch,
            guest,
            views,
            room,
            packable,
            mapping_id,
            found,
            after,
            latch_after,
            views_after,
            room_after,
        ),
        views_ok(after, views_after, ram),
        contig_outcome(
            after,
            latch_after,
            shown,
            views_after,
            room_after,
            packable,
            mapping_id,
            again,
            end,
            latch_end,
            views_end,
            room_end,
        ),
    ensures
        (found->0).1 == after.mappings[mapping_id].page_entries.len() * page_bytes(
            after.page_shift,
        ),
        after.retired_views.len() == 0,
        again == found,
        end == after,
        same_failures(latch_end, latch_after),
        views_end == views_after,
        room_end == room_after,
{
    lemma_view_found_again(
        before,
        latch,
        guest,
        shown,
        views,
        room,
        packable,
        mapping_id,
        found,
        after,
        latch_after,
        views_after,
        room_after,
    );
    assert(has_view(after, mapping_id));
}

/// What a task's structures claim does not rest on the views.
proof fn lemma_tasks_claim_same(a: DeviceView, b: DeviceView, t: int, gpas: Seq<u64>)
    requires
        b == (DeviceView { retired_views: b.retired_views, ..a }),
    ensures
        tasks_claim(b, t, gpas) == tasks_claim(a, t, gpas),
    decreases a.tasks.len() - t,
{
    if 0 <= t < a.tasks.len() {
        lemma_tasks_claim_same(a, b, t + 1, gpas);
    }
}

/// An access that went through the pages in runs goes through again, to the same
/// pages.
proof fn lemma_runs_again(
    before: DeviceView,
    latch: LatchView,
    guest: GuestView,
    shown: GuestView,
    views: Map<usize, PageView>,
    room: bool,
    packable: spec_fn(Seq<u64>, nat) -> bool,
    mapping_id: u32,
    off: u64,
    len: int,
    reached: int,
    after: DeviceView,
    latch_after: LatchView,
    views_after: Map<usize, PageView>,
    room_after: bool,
    done: bool,
    count: int,
    end: DeviceView,
    latch_end: LatchView,
    views_end: Map<usize, PageView>,
    room_end: bool,
)
    requires
        0 <= len,
        same_mappings_shown(guest, shown),
        run_path(
            before,
            latch,
            guest,
            views,
            room,
            packable,
            mapping_id,
            off,
            len,
            true,
            reached,
            after,
            latch_after,
            views_after,
            room_after,
        ),
        access_path(
            after,
            latch_after,
            shown,
            views_after,
            room_after,
            packable,
            mapping_id,
            off,
            len,
            done,
            count,
            end,
            latch_end,
            views_end,
            room_end,
        ),
    ensures
        done,
        count == len,
        after.page_shift == before.page_shift,
        surface_pages(end, mapping_id) == surface_pages(after, mapping_id),
        off + len <= surface_pages(after, mapping_id).size(),
{
    let r = revalidation(before, latch, guest, mapping_id);
    assert(after.mappings.insert(mapping_id, after.mappings[mapping_id]) =~= after.mappings);
    assert(same_but_views(r.state, after, mapping_id));
    lemma_revalidated_again(before, latch, guest, shown, mapping_id, after, latch_after);
    assert(is_settled(after, latch_after, shown, mapping_id));
    assert(views_flushed(after) == after);
    assert(after.pages_of(mapping_id) == r.state.pages_of(mapping_id));
    lemma_tasks_claim_same(r.state, after, 0, r.state.pages_of(mapping_id));
    assert(usable_pages(after, mapping_id) == usable_pages(r.state, mapping_id));
    let (view, middle, noted, left, free): (
        Option<(usize, usize)>,
        DeviceView,
        LatchView,
        Map<usize, PageView>,
        bool,
    ) = choose|
        view: Option<(usize, usize)>,
        middle: DeviceView,
        noted: LatchView,
        left: Map<usize, PageView>,
        free: bool,
    |
        #![trigger contig_outcome(after, latch_after, shown, views_after, room_after, packable, mapping_id, view, middle, noted, left, free)]
        contig_outcome(
            after,
            latch_after,
            shown,
            views_after,
            room_after,
            packable,
            mapping_id,
            view,
            middle,
            noted,
            left,
            free,
        ) && if covered(view, off, len) {
            done && count == len && end == middle && latch_end == noted && views_end == left
                && room_end == free
        } else {
            run_path(
                middle,
                noted,
                shown,
                left,
                free,
                packable,
                mapping_id,
                off,
                len,
                done,
                count,
                end,
                latch_end,
                views_end,
                room_end,
            )
        };
    let pages = usable_pages(after, mapping_id)->0;
    let page = page_bytes(after.page_shift) as nat;
    lemma_packed_whole(packable, pages, page, 0, off as int, off + len);
    let made = after.with_mapping(
        mapping_id,
        MappingView {
            contig_ptr: middle.mappings[mapping_id].contig_ptr,
            contig_len: middle.mappings[mapping_id].contig_len,
            ..after.mappings[mapping_id]
        },
    );
    assert(surface_pages(made, mapping_id) == surface_pages(after, mapping_id));
    if after.mappings[mapping_id].contig_ptr == 0 && view is Some {
        assert(middle == made);
        assert(covered(view, off, len));
    } else {
        assert(middle == after);
    }
}

/// What [`crate::mapper::write_mapping_bytes`] wrote,
/// [`crate::mapper::read_mapping_bytes`] reads back, whether the host shows the
/// pages as one view or run by run: the read succeeds and fills its buffer with
/// the bytes. Between the two the guest shows the same mappings, as it does after a
/// write that avoids the structures it shows them by, and no two of the bytes differ
/// that the surface has at one place in memory.
pub proof fn law_read_after_write(
    before: DeviceView,
    latch: LatchView,
    guest: GuestView,
    shown: GuestView,
    views: Map<usize, PageView>,
    room: bool,
    packable: spec_fn(Seq<u64>, nat) -> bool,
    mapping_id: u32,
    off: u64,
    bytes: Seq<u8>,
    ram: Map<int, u8>,
    after: DeviceView,
    latch_after: LatchView,
    views_after: Map<usize, PageView>,
    room_after: bool,
    read: bool,
    count: int,
    end: DeviceView,
    latch_end: LatchView,
    views_end: Map<usize, PageView>,
    room_end: bool,
)
    requires
        same_mappings_shown(guest, shown),
        access_path(
            before,
            latch,
            guest,
            views,
            room,
            packable,
            mapping_id,
            off,
            bytes.len() as int,
            true,
            bytes.len() as int,
            after,
            latch_after,
            views_after,
            room_after,
        ),
        bytes_agree(surface_pages(after, mapping_id), off as int, bytes),
        access_path(
            after,
            latch_after,
            shown,
            views_after,
            room_after,
            packable,
            mapping_id,
            off,
            bytes.len() as int,
            read,
            count,
            end,
            latch_end,
            views_end,
            room_end,
        ),
    ensures
        read,
        count == bytes.len(),
        view_bytes(
            view_written(ram, surface_pages(after, mapping_id), off as int, bytes),
            surface_pages(end, mapping_id),
            off as int,
            count as nat,
        ) == bytes,
{
    let len = bytes.len() as int;
    let (view, middle, noted, left, free): (
        Option<(usize, usize)>,
        DeviceView,
        LatchView,
        Map<usize, PageView>,
        bool,
    ) = choose|
        view: Option<(usize, usize)>,
        middle: DeviceView,
        noted: LatchView,
        left: Map<usize, PageView>,
        free: bool,
    |
        #![trigger contig_outcome(before, latch, guest, views, room, packable, mapping_id, view, middle, noted, left, free)]
        contig_outcome(
            before,
            latch,
            guest,
            views,
            room,
            packable,
            mapping_id,
            view,
            middle,
            noted,
            left,
            free,
        ) && if covered(view, off, len) {
            after == middle && latch_after == noted && views_after == left && room_after == free
        } else {
            run_path(
                middle,
                noted,
                guest,
                left,
                free,
                packable,
                mapping_id,
                off,
                len,
                true,
                len,
                after,
                latch_after,
                views_after,
                room_after,
            )
        };
    if covered(view, off, len) {
        lemma_view_found_again(
            before,
            latch,
            guest,
            shown,
            views,
            room,
            packable,
            mapping_id,
            view,
            after,
            latch_after,
            views_after,
            room_after,
        );
    } else {
        lemma_runs_again(
            middle,
            noted,
            guest,
            shown,
            left,
            free,
            packable,
            mapping_id,
            off,
            len,
            len,
            after,
            latch_after,
            views_after,
            room_after,
            read,
            count,
            end,
            latch_end,
            views_end,
            room_end,
        );
    }
    assert(surface_pages(end, mapping_id) == surface_pages(after, mapping_id));
    law_bytes_read_back(ram, surface_pages(after, mapping_id), off as int, bytes);
}

} // verus!
