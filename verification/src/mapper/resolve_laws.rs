//! What a resolve reads and what it leaves, by the fields of what the guest shows.

use vstd::prelude::*;
use crate::contract::{DeviceSurfaceView, page_bytes, view_window};
use crate::host::{
    DescriptorView, GuestView, InternalRefusal, MapperInternalFields, MemError, Status,
};
use crate::mapper::pages::covers_geom;
use crate::mapper::resolve::{resolution, resolve_geometry, revalidation, scanout_resolution};
use crate::mapping::MappingView;
use crate::model::DeviceView;
use crate::observe::LatchView;

verus! {

/// The mapping object of a mapped slot reads, and is found to be the slot's.
pub open spec fn object_read(
    state: DeviceView,
    guest: GuestView,
    mapping_id: u32,
    fields: MapperInternalFields,
) -> bool {
    let m = state.mappings[mapping_id];
    &&& state.mappings.dom().contains(mapping_id)
    &&& m.mapped
    &&& m.mapping_internal > 0
    &&& (guest.internal)(m.mapping_internal, state.mapper_device_kva) == Ok::<
        MapperInternalFields,
        InternalRefusal,
    >(fields)
    &&& (guest.validation)(mapping_id, fields) == Status::Passed
}

/// The mapping has a geometry of its own.
pub open spec fn measured(m: MappingView) -> bool {
    m.has_geom && m.width > 0 && m.height > 0
}

/// `size` is the largest of three.
pub open spec fn largest_of(size: int, a: int, b: int, c: int) -> bool {
    &&& size >= a && size >= b && size >= c
    &&& size == a || size == b || size == c
}

/// The end of a view's window over the surface; zero where it has none.
pub open spec fn window_end(
    surface: Option<DeviceSurfaceView>,
    format: u16,
    width: u32,
    height: u32,
) -> int {
    match view_window(surface, format, width, height) {
        Some(window) => window.end as int,
        None => 0,
    }
}

/// A mapping without a geometry takes that of its device descriptor: the descriptor's
/// width, height and, as its format, the low half of the pixel format. It takes the
/// pages that the table has for the whole allocation, at least a page, and the window of
/// that geometry.
pub proof fn law_resolve_takes_the_descriptors_geometry(
    state: DeviceView,
    latch: LatchView,
    guest: GuestView,
    mapping_id: u32,
    fields: MapperInternalFields,
    surface: DeviceSurfaceView,
    size: u64,
)
    requires
        object_read(state, guest, mapping_id, fields),
        !measured(state.mappings[mapping_id]),
        (guest.descriptor)(state.mappings[mapping_id].mapping_internal) == DescriptorView::Surface(
            surface,
        ),
        surface.width > 0 && surface.height > 0,
        largest_of(
            size as int,
            page_bytes(state.page_shift) as int,
            surface.alloc_size as int,
            window_end(
                Some(surface),
                (surface.pixel_format as int % 0x1_0000) as u16,
                surface.width,
                surface.height,
            ),
        ),
    ensures
        ({
            let r = resolution(state, latch, guest, mapping_id);
            let m = r.state.mappings[mapping_id];
            let plan = (guest.plan)(mapping_id, fields, size, state.page_shift);
            &&& r.resolved ==> {
                &&& m.has_geom
                &&& m.width == surface.width
                &&& m.height == surface.height
                &&& m.format == surface.pixel_format as int % 0x1_0000
                &&& m.device == Some(surface)
                &&& plan is Ok
                &&& m.page_entries == (plan->Ok_0).entries
                &&& m.page_table_kva == (plan->Ok_0).page_table_kva
                &&& m.mapped
                &&& m.mapping_internal == state.mappings[mapping_id].mapping_internal
                &&& m.condemned_entries is None
            }
            &&& plan is Err ==> !r.resolved && m.width == surface.width && m.height
                == surface.height && m.format == surface.pixel_format as int % 0x1_0000
                && m.page_entries == state.mappings[mapping_id].page_entries
        }),
{
    reveal(resolution);
    let raw = surface.pixel_format;
    assert(raw & 0xffff == raw % 0x1_0000) by (bit_vector);
    let m = state.mappings[mapping_id];
    let geometry = resolve_geometry(
        m,
        DescriptorView::Surface(surface),
        page_bytes(state.page_shift),
    );
    assert(geometry.min_size == size);
}

/// A mapping without a geometry gets none from a descriptor that has none: where there is no
/// descriptor, or one of its dimensions is zero, the mapping's geometry stays as it was.
pub proof fn law_resolve_takes_no_empty_geometry(
    state: DeviceView,
    latch: LatchView,
    guest: GuestView,
    mapping_id: u32,
    fields: MapperInternalFields,
)
    requires
        object_read(state, guest, mapping_id, fields),
        !measured(state.mappings[mapping_id]),
        ({
            let read = (guest.descriptor)(state.mappings[mapping_id].mapping_internal);
            read is Surface ==> (read->Surface_0).width == 0 || (read->Surface_0).height == 0
        }),
    ensures
        ({
            let old_m = state.mappings[mapping_id];
            let m = resolution(state, latch, guest, mapping_id).state.mappings[mapping_id];
            &&& m.has_geom == old_m.has_geom
            &&& m.width == old_m.width
            &&& m.height == old_m.height
            &&& m.format == old_m.format
        }),
{
    reveal(resolution);
}

/// A mapping that has a geometry keeps it, whatever the descriptor says; only a format
/// that is missing is taken from there. Its table has to cover the window of that
/// geometry, besides what the descriptor asks for.
pub proof fn law_resolve_keeps_its_own_geometry(
    state: DeviceView,
    latch: LatchView,
    guest: GuestView,
    mapping_id: u32,
    fields: MapperInternalFields,
)
    requires
        object_read(state, guest, mapping_id, fields),
        measured(state.mappings[mapping_id]),
    ensures
        ({
            let old_m = state.mappings[mapping_id];
            let r = resolution(state, latch, guest, mapping_id);
            let m = r.state.mappings[mapping_id];
            let read = (guest.descriptor)(old_m.mapping_internal);
            &&& r.resolved ==> {
                &&& m.has_geom
                &&& m.width == old_m.width
                &&& m.height == old_m.height
                &&& old_m.format > 0 ==> m.format == old_m.format
                &&& m.mapped && m.condemned_entries is None
                &&& old_m.format == 0 && read is Surface && (read->Surface_0).width > 0 && (
                read->Surface_0).height > 0 ==> m.format == (read->Surface_0).pixel_format as int
                    % 0x1_0000
                &&& old_m.format == 0 && !(read is Surface) ==> m.format == 0
                &&& exists|size: u64|
                    {
                        let plan = #[trigger] (guest.plan)(
                            mapping_id,
                            fields,
                            size,
                            state.page_shift,
                        );
                        &&& plan is Ok
                        &&& m.page_entries == (plan->Ok_0).entries
                        &&& m.page_table_kva == (plan->Ok_0).page_table_kva
                        &&& size >= page_bytes(state.page_shift)
                        &&& size >= window_end(m.device, m.format, m.width, m.height)
                        &&& read is Surface ==> size >= (read->Surface_0).alloc_size
                    }
            }
        }),
{
    reveal(resolution);
    let old_m = state.mappings[mapping_id];
    let read = (guest.descriptor)(old_m.mapping_internal);
    let geometry = resolve_geometry(old_m, read, page_bytes(state.page_shift));
    if read is Surface {
        let raw = (read->Surface_0).pixel_format;
        assert(raw & 0xffff == raw % 0x1_0000) by (bit_vector);
    }
    let r = resolution(state, latch, guest, mapping_id);
    if r.resolved {
        let plan = (guest.plan)(mapping_id, fields, geometry.min_size, state.page_shift);
        assert(plan is Ok);
    }
}

/// A resolve goes by the descriptor it reads last: one that decodes takes the place of
/// the mapping's, one that does not decode clears it, and one that cannot be read leaves
/// it.
pub proof fn law_resolve_takes_the_last_descriptor(
    state: DeviceView,
    latch: LatchView,
    guest: GuestView,
    mapping_id: u32,
    fields: MapperInternalFields,
)
    requires
        object_read(state, guest, mapping_id, fields),
        resolution(state, latch, guest, mapping_id).resolved,
    ensures
        ({
            let old_m = state.mappings[mapping_id];
            let m = resolution(state, latch, guest, mapping_id).state.mappings[mapping_id];
            match (guest.descriptor)(old_m.mapping_internal) {
                DescriptorView::Surface(surface) => m.device == Some(surface),
                DescriptorView::Undecoded => m.device is None,
                DescriptorView::Absent => m.device == old_m.device,
                DescriptorView::Refused(_) => m.device == old_m.device,
                DescriptorView::Unreadable(_) => m.device == old_m.device,
            }
        }),
{
    reveal(resolution);
}

/// Pages that change end the incarnation of a mapping: its generation moves on by one,
/// past zero, and its host view waits to be given back. Pages that stay leave both.
pub proof fn law_changed_pages_end_the_incarnation(
    state: DeviceView,
    latch: LatchView,
    guest: GuestView,
    mapping_id: u32,
    fields: MapperInternalFields,
)
    requires
        object_read(state, guest, mapping_id, fields),
        state.mappings[mapping_id].condemned_entries is None,
        resolution(state, latch, guest, mapping_id).resolved,
    ensures
        ({
            let r = resolution(state, latch, guest, mapping_id);
            let old_m = state.mappings[mapping_id];
            let m = r.state.mappings[mapping_id];
            let changed = m.page_entries != old_m.page_entries;
            &&& m.content_generation == old_m.content_generation
            &&& changed ==> {
                &&& old_m.map_generation < 0xffff_ffff ==> m.map_generation == old_m.map_generation
                    + 1
                &&& old_m.map_generation == 0xffff_ffff ==> m.map_generation == 1
                &&& m.contig_ptr == 0
                &&& old_m.contig_ptr > 0 ==> r.state.retired_views.len()
                    == state.retired_views.len() + 1 && r.state.retired_views.last() == (
                    old_m.contig_ptr,
                    old_m.contig_len,
                )
                &&& old_m.contig_ptr == 0 ==> r.state.retired_views == state.retired_views
            }
            &&& !changed ==> {
                &&& m.map_generation == old_m.map_generation
                &&& m.contig_ptr == old_m.contig_ptr
                &&& m.contig_len == old_m.contig_len
                &&& r.state.retired_views == state.retired_views
            }
        }),
{
    reveal(resolution);
}

/// A resolve touches no other mapping, and nothing of the device but what it owes and
/// the views that it is to give back.
pub proof fn law_resolve_touches_one_mapping(
    state: DeviceView,
    latch: LatchView,
    guest: GuestView,
    mapping_id: u32,
    other: u32,
)
    requires
        other != mapping_id,
    ensures
        ({
            let after = resolution(state, latch, guest, mapping_id).state;
            &&& after.mappings.dom().contains(other) == state.mappings.dom().contains(other)
            &&& state.mappings.dom().contains(other) ==> after.mappings[other]
                == state.mappings[other]
            &&& after.mappings.dom().contains(mapping_id) == state.mappings.dom().contains(
                mapping_id,
            )
            &&& after.id == state.id
            &&& after.page_shift == state.page_shift
            &&& after.mapper_device_kva == state.mapper_device_kva
            &&& after.iosfc == state.iosfc
            &&& after.gfx == state.gfx
            &&& after.child_rings == state.child_rings
            &&& after.tasks == state.tasks
            &&& after.objects == state.objects
            &&& after.compute_storage_residency == state.compute_storage_residency
            &&& after.task_spans == state.task_spans
        }),
{
    reveal(resolution);
}

/// A slot that is not there, not mapped, or has no mapping object is not resolved, and
/// nothing changes.
pub proof fn law_nothing_to_resolve(
    state: DeviceView,
    latch: LatchView,
    guest: GuestView,
    mapping_id: u32,
)
    requires
        !state.mappings.dom().contains(mapping_id) || !state.mappings[mapping_id].mapped
            || state.mappings[mapping_id].mapping_internal == 0,
    ensures
        ({
            let r = resolution(state, latch, guest, mapping_id);
            !r.resolved && r.state == state && r.latch == latch
        }),
{
    reveal(resolution);
}

/// A mapping object that cannot be read leaves a mapping that has pages resolved, and
/// one that has none unresolved. One of another mapping leaves it unresolved. Nothing
/// changes in the state, and the failure is known from then on, unless it is that the
/// host could not translate.
pub proof fn law_unreadable_objects(
    state: DeviceView,
    latch: LatchView,
    guest: GuestView,
    mapping_id: u32,
)
    requires
        state.mappings.dom().contains(mapping_id),
        state.mappings[mapping_id].mapped,
        state.mappings[mapping_id].mapping_internal > 0,
    ensures
        ({
            let m = state.mappings[mapping_id];
            let r = resolution(state, latch, guest, mapping_id);
            match (guest.internal)(m.mapping_internal, state.mapper_device_kva) {
                Err(refusal) => {
                    &&& r.state == state
                    &&& r.resolved <==> m.page_entries.len() > 0
                    &&& refusal.host_error is None || m.page_entries.len() == 0
                        ==> r.latch.seen.contains(
                        (
                            mapping_id,
                            match refusal.status.refusal_spec() {
                                Some(reason) => reason@,
                                None => "ok"@,
                            },
                        ),
                    )
                    &&& m.page_entries.len() > 0 && (refusal.host_error == Some(MemError::NoCpu)
                        || refusal.host_error == Some(MemError::Unmapped)) ==> r.latch == latch
                },
                Ok(fields) => (guest.validation)(mapping_id, fields) != Status::Passed ==> {
                    &&& r.state == state
                    &&& !r.resolved
                },
            }
        }),
{
    reveal(resolution);
}

/// A mapping revalidates where it is mapped and has pages once it was resolved again. A
/// table that was live and does not resolve any more drops the pages and ends the
/// incarnation; a list that came from no table stays.
pub proof fn law_revalidation(
    state: DeviceView,
    latch: LatchView,
    guest: GuestView,
    mapping_id: u32,
)
    ensures
        ({
            let r = revalidation(state, latch, guest, mapping_id);
            let known = state.mappings.dom().contains(mapping_id);
            let m = state.mappings[mapping_id];
            let again = resolution(state, latch, guest, mapping_id);
            let after = r.state.mappings[mapping_id];
            &&& !known ==> r.miss == Some("revalidate_gone") && r.state == state
            &&& known && !m.mapped ==> r.miss == Some("revalidate_unmapped") && r.state == state
            &&& known && m.mapped && m.mapping_internal == 0 ==> r.state == state && r.latch == latch
                && (r.miss is None <==> m.page_entries.len() > 0)
            &&& known && m.mapped && m.mapping_internal > 0 ==> r.latch == again.latch
            &&& known && m.mapped && m.mapping_internal > 0 && again.resolved ==> r.state
                == again.state && (r.miss is None <==> again.state.mappings[mapping_id].mapped
                && again.state.mappings[mapping_id].page_entries.len() > 0)
            &&& known && m.mapped && m.mapping_internal > 0 && !again.resolved && m.page_table_kva
                > 0 ==> r.miss == Some("revalidate_resolve_fail") && (m.page_entries.len() > 0
                ==> after.page_entries.len() == 0 && after.page_table_kva == 0 && after.contig_ptr
                == 0)
            &&& known && m.mapped && m.mapping_internal > 0 && !again.resolved && m.page_table_kva
                == 0 ==> r.state == again.state
            &&& r.miss is None ==> known && after.mapped && after.page_entries.len() > 0
        }),
{
    reveal(resolution);
}

/// Before a surface is painted it is resolved again where its list is empty, where its
/// geometry is missing, or where its pages end before the window of its geometry does.
pub proof fn law_scanout_resolves_what_is_short(
    state: DeviceView,
    latch: LatchView,
    guest: GuestView,
    mapping_id: u32,
)
    requires
        state.mappings.dom().contains(mapping_id),
    ensures
        ({
            let m = state.mappings[mapping_id];
            let short = m.page_entries.len() == 0 || !m.has_geom || !covers_geom(
                m,
                state.page_shift,
            );
            let ready = scanout_resolution(state, latch, guest, mapping_id);
            let again = resolution(state, latch, guest, mapping_id);
            &&& m.mapped && m.mapping_internal > 0 && short ==> ready == again
            &&& !m.mapped || m.mapping_internal == 0 || !short ==> ready.state == state
                && ready.latch == latch && (ready.resolved <==> m.mapped && m.page_entries.len()
                > 0)
        }),
{
}

} // verus!
