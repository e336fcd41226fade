//! Resolving a mapping: its page list and geometry, from the guest's mapping
//! object and device descriptor.

use vstd::prelude::*;
use crate::contract::{
    DeviceSurface, DeviceSurfaceView, page_bytes, surface_view, view_sample_window, view_window,
};
use crate::host::{
    DescriptorRead, DescriptorView, GuestView, HostOps, MapperInternalFields, MemError, Status,
    TablePlan, TablePlanView,
};
use crate::mapper::capture::{MapperDecline, refusal_or_ok, refusal_reason};
use crate::mapper::pages::{
    alias_found, covers_geom, fail_on_alias, failed_closed,
    pages_cover_geom, plan_adoption_decision, plan_changes, surface_collision,
};
use crate::mapping::{MappingEntry, MappingView, bump_generation, next_generation};
use crate::model::{DeviceState, DeviceView};
use crate::observe::{FailLatch, LatchView};
use crate::residency::{ComputeStorageResidencyKey, ResidencyMap};

verus! {

/// What a resolve came to.
pub struct Resolution {
    pub resolved: bool,
    pub state: DeviceView,
    pub latch: LatchView,
}

/// What a descriptor read says of the mapping's device descriptor: `None` keeps
/// the one it has, else it is replaced.
pub open spec fn device_update(read: DescriptorView) -> Option<Option<DeviceSurfaceView>> {
    match read {
        DescriptorView::Surface(surface) => Some(Some(surface)),
        DescriptorView::Undecoded => Some(None),
        _ => None,
    }
}

/// The mapping's descriptor after the update.
pub open spec fn device_after(
    m: MappingView,
    update: Option<Option<DeviceSurfaceView>>,
) -> Option<DeviceSurfaceView> {
    match update {
        Some(device) => device,
        None => m.device,
    }
}

/// Geometry and the size that the page table has to cover.
pub struct Geometry {
    pub width: u32,
    pub height: u32,
    pub format: u16,
    pub min_size: u64,
}

/// The larger of a size and the end of a view's window, where it has one.
pub open spec fn sized_for(
    size: u64,
    surface: Option<DeviceSurfaceView>,
    format: u16,
    width: u32,
    height: u32,
) -> u64 {
    match view_window(surface, format, width, height) {
        Some(window) => if window.end > size {
            window.end
        } else {
            size
        },
        None => size,
    }
}

/// The geometry that a device descriptor gives: at least one page, the whole
/// allocation, and the window of its own dimensions.
pub open spec fn descriptor_geometry(read: DescriptorView, page: u64) -> Geometry {
    match read {
        DescriptorView::Surface(surface) => {
            let base: u64 = if surface.alloc_size > page {
                surface.alloc_size as u64
            } else {
                page
            };
            if surface.width > 0 && surface.height > 0 {
                let format = (surface.pixel_format & 0xffff) as u16;
                Geometry {
                    width: surface.width,
                    height: surface.height,
                    format,
                    min_size: sized_for(
                        base,
                        Some(surface),
                        format,
                        surface.width,
                        surface.height,
                    ),
                }
            } else {
                Geometry { width: 0, height: 0, format: 0, min_size: base }
            }
        },
        _ => Geometry { width: 0, height: 0, format: 0, min_size: page },
    }
}

/// The geometry that a resolve goes by: a mapping's own latched geometry wins
/// over the descriptor's and enlarges the size to cover.
pub open spec fn resolve_geometry(m: MappingView, read: DescriptorView, page: u64) -> Geometry {
    let given = descriptor_geometry(read, page);
    if m.has_geom && m.width > 0 && m.height > 0 {
        let format = if m.format != 0 {
            m.format
        } else {
            given.format
        };
        Geometry {
            width: m.width,
            height: m.height,
            format,
            min_size: sized_for(
                given.min_size,
                device_after(m, device_update(read)),
                format,
                m.width,
                m.height,
            ),
        }
    } else {
        given
    }
}

/// The failure that a descriptor read is latched as; an absent descriptor is none.
pub open spec fn descriptor_noted(
    latch: LatchView,
    mapping_id: u32,
    read: DescriptorView,
) -> LatchView {
    match read {
        DescriptorView::Refused(status) => latch.noted(mapping_id, refusal_or_ok(status)@),
        DescriptorView::Unreadable(error) => latch.noted(
            mapping_id,
            MapperDecline::DeviceDescriptorRead(error).slug_spec()@,
        ),
        _ => latch,
    }
}

/// The mapping with the geometry latched, where it is known.
pub open spec fn with_geometry(m: MappingView, geometry: Geometry) -> MappingView {
    if geometry.width > 0 && geometry.height > 0 {
        MappingView {
            has_geom: true,
            width: geometry.width,
            height: geometry.height,
            format: geometry.format,
            ..m
        }
    } else {
        m
    }
}

/// Some owed window belongs to the mapping.
pub open spec fn owes(entries: Seq<(ComputeStorageResidencyKey, u32)>, mapping_id: u32) -> bool {
    exists|i: int| 0 <= i < entries.len() && (#[trigger] entries[i]).0.of_mapping(mapping_id)
}

/// The mapping with a page plan adopted. Changed pages move its generation on and
/// end its host view.
pub open spec fn adopted_mapping(
    m: MappingView,
    update: Option<Option<DeviceSurfaceView>>,
    plan: TablePlanView,
) -> MappingView {
    let changed = plan_changes(m.condemned_entries, m.page_entries, plan.entries);
    MappingView {
        mapped: true,
        page_entries: plan.entries,
        page_table_kva: plan.page_table_kva,
        condemned_entries: None,
        device: device_after(m, update),
        contig_ptr: if changed {
            0
        } else {
            m.contig_ptr
        },
        contig_len: if changed && m.contig_ptr != 0 {
            0
        } else {
            m.contig_len
        },
        map_generation: if changed {
            next_generation(m.map_generation)
        } else {
            m.map_generation
        },
        ..m
    }
}

/// The state with the plan adopted, before anything is checked: a host view over
/// changed pages is retired.
pub open spec fn adopted_state(
    state: DeviceView,
    mapping_id: u32,
    update: Option<Option<DeviceSurfaceView>>,
    plan: TablePlanView,
) -> DeviceView {
    let m = state.mappings[mapping_id];
    let changed = plan_changes(m.condemned_entries, m.page_entries, plan.entries);
    let retired = if changed {
        state.with_view_retired(m)
    } else {
        state
    };
    retired.with_mapping(mapping_id, adopted_mapping(m, update, plan))
}

/// The state with the alias pages of a mapping indexed.
pub open spec fn alias_indexed(state: DeviceView, mapping_id: u32) -> DeviceView {
    DeviceView {
        deferred_alias_pages: state.deferred_alias_pages + Seq::new(
            state.pages_of(mapping_id).len(),
            |i: int| (state.pages_of(mapping_id)[i], mapping_id),
        ),
        ..state
    }
}

/// Adopting a page plan. A condemned backing that really died takes its owed
/// windows along. One that lives on keeps them, and its pages are indexed again.
/// A page shared with another live surface fails closed.
pub open spec fn adoption(
    state: DeviceView,
    latch: LatchView,
    mapping_id: u32,
    geometry: Geometry,
    update: Option<Option<DeviceSurfaceView>>,
    plan: TablePlanView,
) -> Resolution {
    let m = state.mappings[mapping_id];
    let changed = plan_changes(m.condemned_entries, m.page_entries, plan.entries);
    let condemned = m.condemned_entries is Some;
    let adopted = adopted_state(state, mapping_id, update, plan);
    let armed = owes(adopted.render_deferred_flush, mapping_id) || owes(
        adopted.compute_deferred_flush,
        mapping_id,
    );
    let settled = if condemned && changed {
        adopted.without_windows(mapping_id)
    } else if condemned && armed {
        alias_indexed(adopted, mapping_id)
    } else {
        adopted
    };
    if condemned && !changed && armed && surface_collision(settled, mapping_id) {
        Resolution {
            resolved: false,
            state: failed_closed(settled, mapping_id),
            latch: latch.alias_noted(alias_found(settled, mapping_id, "reprieve")),
        }
    } else {
        let done = settled.with_mapping(
            mapping_id,
            with_geometry(settled.mappings[mapping_id], geometry),
        );
        if changed && surface_collision(done, mapping_id) {
            Resolution {
                resolved: false,
                state: failed_closed(done, mapping_id),
                latch: latch.alias_noted(alias_found(done, mapping_id, "rewire")),
            }
        } else {
            Resolution {
                resolved: true,
                state: done,
                latch: latch.cleared(mapping_id),
            }
        }
    }
}

/// A resolve whose mapping object was read and found to be the mapping's.
pub open spec fn walk_resolution(
    state: DeviceView,
    latch: LatchView,
    guest: GuestView,
    mapping_id: u32,
    fields: MapperInternalFields,
) -> Resolution {
    let m = state.mappings[mapping_id];
    let read = (guest.descriptor)(m.mapping_internal);
    let update = device_update(read);
    let geometry = resolve_geometry(m, read, page_bytes(state.page_shift));
    let noted = descriptor_noted(latch, mapping_id, read);
    match (guest.plan)(mapping_id, fields, geometry.min_size, state.page_shift) {
        Ok(plan) => adoption(state, noted, mapping_id, geometry, update, plan),
        Err(status) => Resolution {
            resolved: false,
            state: state.with_mapping(
                mapping_id,
                with_geometry(MappingView { device: device_after(m, update), ..m }, geometry),
            ),
            latch: if geometry.width > 0 && geometry.height > 0 {
                noted.noted(mapping_id, refusal_or_ok(status)@)
            } else {
                noted
            },
        },
    }
}

/// What a resolve of `mapping_id` comes to.
///
/// An unreadable mapping object leaves a cached page list in force: the guest may
/// stop exposing the address while the pages stay live. That is silent where the
/// host merely could not translate, and latched otherwise.
#[verifier::opaque]
pub open spec fn resolution(
    state: DeviceView,
    latch: LatchView,
    guest: GuestView,
    mapping_id: u32,
) -> Resolution {
    let refused = Resolution { resolved: false, state, latch };
    if !state.mappings.dom().contains(mapping_id) {
        refused
    } else {
        let m = state.mappings[mapping_id];
        if !m.mapped || m.mapping_internal == 0 {
            refused
        } else {
            match (guest.internal)(m.mapping_internal, state.mapper_device_kva) {
                Err(refusal) => {
                    let cached = m.page_entries.len() != 0;
                    let silent = cached && (refusal.host_error == Some(MemError::NoCpu)
                        || refusal.host_error == Some(MemError::Unmapped));
                    Resolution {
                        resolved: cached,
                        state,
                        latch: if silent {
                            latch
                        } else {
                            latch.noted(mapping_id, refusal_or_ok(refusal.status)@)
                        },
                    }
                },
                Ok(fields) => match (guest.validation)(mapping_id, fields) {
                    Status::Passed => walk_resolution(state, latch, guest, mapping_id, fields),
                    status => Resolution {
                        resolved: false,
                        state,
                        latch: latch.noted(mapping_id, refusal_or_ok(status)@),
                    },
                },
            }
        }
    }
}

fn size_for(
    size: u64,
    surface: &Option<DeviceSurface>,
    format: u16,
    width: u32,
    height: u32,
) -> (min_size: u64)
    ensures
        min_size == sized_for(size, surface_view(*surface), format, width, height),
{
    match view_sample_window(surface, format, width, height) {
        Some(window) => if window.end > size {
            window.end
        } else {
            size
        },
        None => size,
    }
}

/// The geometry and size that a resolve goes by. The descriptor read is consumed
/// into the update that it makes.
fn find_geometry(m: &MappingEntry, update: &Option<Option<DeviceSurface>>, page: u64) -> (geometry:
    Geometry)
    ensures
        forall|read: DescriptorView|
            #![trigger resolve_geometry(m@, read, page)]
            update_view(*update) == device_update(read) ==> geometry == resolve_geometry(
                m@,
                read,
                page,
            ),
{
    let mut width: u32 = 0;
    let mut height: u32 = 0;
    let mut format: u16 = 0;
    let mut min_size: u64 = page;
    match update {
        Some(device) => {
            match device {
                Some(surface) => {
                    if surface.alloc_size as u64 > page {
                        min_size = surface.alloc_size as u64;
                    }
                    if surface.width > 0 && surface.height > 0 {
                        width = surface.width;
                        height = surface.height;
                        let low: u32 = surface.pixel_format & 0xffff;
                        let raw: u32 = surface.pixel_format;
                        assert(low <= 0xffff) by (bit_vector)
                            requires
                                low == raw & 0xffff,
                        ;
                        format = low as u16;
                        min_size = size_for(min_size, device, format, width, height);
                    }
                },
                None => {},
            }
        },
        None => {},
    }
    if m.has_geom && m.width > 0 && m.height > 0 {
        width = m.width;
        height = m.height;
        if m.format != 0 {
            format = m.format;
        }
        min_size = match update {
            Some(device) => size_for(min_size, device, format, width, height),
            None => size_for(min_size, &m.device, format, width, height),
        };
    }
    Geometry { width, height, format, min_size }
}

/// An update by its view.
pub open spec fn update_view(update: Option<Option<DeviceSurface>>) -> Option<
    Option<DeviceSurfaceView>,
> {
    match update {
        Some(device) => Some(surface_view(device)),
        None => None,
    }
}

fn find_owed(map: &ResidencyMap, mapping_id: u32) -> (found: bool)
    ensures
        found == owes(map@, mapping_id),
{
    let mut i: usize = 0;
    while i < map.entries.len()
        invariant
            i <= map.entries.len(),
            forall|k: int| 0 <= k < i ==> !(#[trigger] map@[k]).0.of_mapping(mapping_id),
        decreases map.entries.len() - i,
    {
        let key = map.entries[i].0;
        if key.mapping_id == mapping_id {
            assert(map@[i as int].0.of_mapping(mapping_id));
            return true;
        }
        i = i + 1;
    }
    false
}

/// Latch the geometry where it is known.
fn latch_geometry(state: &mut DeviceState, mapping_id: u32, geometry: &Geometry)
    requires
        old(state).wf(),
        old(state)@.mappings.dom().contains(mapping_id),
    ensures
        final(state).wf(),
        final(state)@ == old(state)@.with_mapping(
            mapping_id,
            with_geometry(old(state)@.mappings[mapping_id], *geometry),
        ),
{
    if geometry.width > 0 && geometry.height > 0 {
        let _ = state.set_mapping_geom(
            mapping_id,
            geometry.width,
            geometry.height,
            geometry.format,
        );
    } else {
        assert(state@.mappings =~= state@.mappings.insert(
            mapping_id,
            state@.mappings[mapping_id],
        ));
    }
}

/// Put the plan into the mapping slot. Tells whether the pages changed, whether a
/// condemned backing died, and whether one lives on.
fn adopt_plan(
    state: &mut DeviceState,
    mapping_id: u32,
    update: Option<Option<DeviceSurface>>,
    plan: TablePlan,
) -> (decision: (bool, bool, bool))
    requires
        old(state).wf(),
        old(state)@.mappings.dom().contains(mapping_id),
    ensures
        final(state).wf(),
        final(state)@ == adopted_state(old(state)@, mapping_id, update_view(update), plan@),
        ({
            let m = old(state)@.mappings[mapping_id];
            let changed = plan_changes(m.condemned_entries, m.page_entries, plan@.entries);
            &&& decision.0 == changed
            &&& decision.1 == (m.condemned_entries is Some && changed)
            &&& decision.2 == (m.condemned_entries is Some && !changed)
        }),
{
    let ghost before = state@.mappings[mapping_id];
    let mut retired: Option<(usize, usize)> = None;
    let mut decision = (false, false, false);
    match state.mappings.get_mut(&mapping_id) {
        Some(m) => {
            let condemned = m.condemned_entries.take();
            decision = match &condemned {
                Some(old_entries) => plan_adoption_decision(
                    Some(old_entries.as_slice()),
                    m.page_entries.as_slice(),
                    plan.entries.as_slice(),
                ),
                None => plan_adoption_decision(
                    None,
                    m.page_entries.as_slice(),
                    plan.entries.as_slice(),
                ),
            };
            if decision.0 {
                if m.contig_ptr != 0 {
                    retired = Some((m.contig_ptr, m.contig_len));
                    m.contig_ptr = 0;
                    m.contig_len = 0;
                }
                m.map_generation = bump_generation(m.map_generation);
            }
            m.page_entries = plan.entries;
            m.page_table_kva = plan.page_table_kva;
            m.mapped = true;
            match update {
                Some(device) => {
                    m.device = device;
                },
                None => {},
            }
        },
        None => {},
    }
    match retired {
        Some(view) => {
            state.retired_views.push(view);
        },
        None => {},
    }
    assert(state@.mappings[mapping_id] == adopted_mapping(before, update_view(update), plan@));
    decision
}

/// Adopt a page plan and check what it owns.
fn adopt(
    state: &mut DeviceState,
    latch: &mut FailLatch,
    mapping_id: u32,
    geometry: Geometry,
    update: Option<Option<DeviceSurface>>,
    plan: TablePlan,
) -> (resolved: bool)
    requires
        old(state).wf(),
        old(state)@.mappings.dom().contains(mapping_id),
    ensures
        final(state).wf(),
        ({
            let r = adoption(
                old(state)@,
                old(latch)@,
                mapping_id,
                geometry,
                update_view(update),
                plan@,
            );
            resolved == r.resolved && final(state)@ == r.state && final(latch)@ == r.latch
        }),
{
    let (changed, died, lives) = adopt_plan(state, mapping_id, update, plan);
    if died {
        state.drop_windows(mapping_id);
    } else if lives {
        let armed = find_owed(&state.render_deferred_flush, mapping_id) || find_owed(
            &state.compute_deferred_flush,
            mapping_id,
        );
        if armed {
            state.index_deferred_alias_pages(mapping_id);
            if fail_on_alias(state, latch, mapping_id, "reprieve") {
                return false;
            }
        }
    }
    latch_geometry(state, mapping_id, &geometry);
    if changed && fail_on_alias(state, latch, mapping_id, "rewire") {
        return false;
    }
    latch.clear(mapping_id);
    true
}

/// The update that a descriptor read makes, latching a read that failed.
fn take_descriptor(latch: &mut FailLatch, mapping_id: u32, read: DescriptorRead) -> (update: Option<
    Option<DeviceSurface>,
>)
    ensures
        update_view(update) == device_update(read@),
        final(latch)@ == descriptor_noted(old(latch)@, mapping_id, read@),
{
    match read {
        DescriptorRead::Absent => None,
        DescriptorRead::Refused(status) => {
            let _ = latch.note(mapping_id, refusal_reason(&status));
            None
        },
        DescriptorRead::Unreadable(error) => {
            let _ = latch.note(mapping_id, MapperDecline::DeviceDescriptorRead(error).slug());
            None
        },
        DescriptorRead::Undecoded => Some(None),
        DescriptorRead::Surface(surface) => Some(Some(surface)),
    }
}

/// Resolve a mapped slot: page list from the mapping object's table, geometry
/// from the device descriptor. Safe to call again and again.
///
/// Tells whether the mapping has a page list to go by. Failures on a mapped
/// surface are latched by reason, once each until it resolves again.
pub fn resolve_mapping_backing<H: HostOps>(
    state: &mut DeviceState,
    host: &H,
    latch: &mut FailLatch,
    mapping_id: u32,
) -> (resolved: bool)
    requires
        old(state).wf(),
    ensures
        final(state).wf(),
        ({
            let r = resolution(old(state)@, old(latch)@, host.guest(), mapping_id);
            resolved == r.resolved && final(state)@ == r.state && final(latch)@ == r.latch
        }),
{
    proof {
        reveal(resolution);
    }
    let (internal, cached) = match state.mappings.get(&mapping_id) {
        Some(m) => {
            if !m.mapped || m.mapping_internal == 0 {
                return false;
            }
            (m.mapping_internal, m.page_entries.len() != 0)
        },
        None => {
            return false;
        },
    };
    let fields = match host.read_mapper_internal(internal, state.mapper_device_kva) {
        Ok(fields) => fields,
        Err(refusal) => {
            let untranslated = match refusal.host_error {
                Some(MemError::NoCpu) => true,
                Some(MemError::Unmapped) => true,
                _ => false,
            };
            if !(cached && untranslated) {
                let _ = latch.note(mapping_id, refusal_reason(&refusal.status));
            }
            return cached;
        },
    };
    match host.validate_mapper_internal(mapping_id, &fields) {
        Status::Passed => {},
        status => {
            let _ = latch.note(mapping_id, refusal_reason(&status));
            return false;
        },
    }
    let read = host.read_device_descriptor(internal);
    let ghost shown = read@;
    let update = take_descriptor(latch, mapping_id, read);
    let page: u64 = state.page_size();
    let geometry = match state.mappings.get(&mapping_id) {
        Some(m) => find_geometry(m, &update, page),
        None => Geometry { width: 0, height: 0, format: 0, min_size: page },
    };
    assert(geometry == resolve_geometry(state@.mappings[mapping_id], shown, page));
    match host.build_table_plan(mapping_id, &fields, geometry.min_size, state.page_shift) {
        Ok(plan) => adopt(state, latch, mapping_id, geometry, update, plan),
        Err(status) => {
            let ghost m = state@.mappings[mapping_id];
            match update {
                Some(device) => match state.mappings.get_mut(&mapping_id) {
                    Some(entry) => {
                        entry.device = device;
                    },
                    None => {},
                },
                None => {
                    assert(state@.mappings =~= state@.mappings.insert(
                        mapping_id,
                        state@.mappings[mapping_id],
                    ));
                },
            }
            latch_geometry(state, mapping_id, &geometry);
            if geometry.width > 0 && geometry.height > 0 {
                let _ = latch.note(mapping_id, refusal_reason(&status));
            }
            assert(state@.mappings =~= old(state)@.with_mapping(
                mapping_id,
                with_geometry(
                    MappingView { device: device_after(m, device_update(shown)), ..m },
                    geometry,
                ),
            ).mappings);
            false
        },
    }
}

/// A mapped slot with a mapping object whose list is empty, unmeasured or too short.
pub open spec fn needs_resolve(m: MappingView, page_shift: u32) -> bool {
    m.mapped && m.mapping_internal != 0 && (m.page_entries.len() == 0 || !m.has_geom
        || !covers_geom(m, page_shift))
}

/// What making a mapping ready for scanout comes to.
pub open spec fn scanout_resolution(
    state: DeviceView,
    latch: LatchView,
    guest: GuestView,
    mapping_id: u32,
) -> Resolution {
    if !state.mappings.dom().contains(mapping_id) {
        Resolution { resolved: false, state, latch }
    } else if needs_resolve(state.mappings[mapping_id], state.page_shift) {
        resolution(state, latch, guest, mapping_id)
    } else {
        let m = state.mappings[mapping_id];
        Resolution { resolved: m.mapped && m.page_entries.len() > 0, state, latch }
    }
}

/// Ensure pages, and geometry if possible, before a surface is painted or stored:
/// resolve again where the list is empty, the geometry missing, or the list too
/// short for it.
pub fn ensure_resolved_for_scanout<H: HostOps>(
    state: &mut DeviceState,
    host: &H,
    latch: &mut FailLatch,
    mapping_id: u32,
) -> (ready: bool)
    requires
        old(state).wf(),
    ensures
        final(state).wf(),
        ({
            let r = scanout_resolution(old(state)@, old(latch)@, host.guest(), mapping_id);
            ready == r.resolved && final(state)@ == r.state && final(latch)@ == r.latch
        }),
{
    let (mapped, has_internal, empty, has_geom) = match state.mappings.get(&mapping_id) {
        Some(m) => (m.mapped, m.mapping_internal != 0, m.page_entries.len() == 0, m.has_geom),
        None => {
            return false;
        },
    };
    let needs = mapped && has_internal && (empty || !has_geom || !pages_cover_geom(
        state,
        mapping_id,
    ));
    if needs {
        resolve_mapping_backing(state, host, latch, mapping_id)
    } else {
        mapped && !empty
    }
}

/// What revalidating a mapping comes to: why it missed, if it did.
pub struct Revalidation {
    pub miss: Option<&'static str>,
    pub state: DeviceView,
    pub latch: LatchView,
}

/// How a mapping stands after its revalidation: writable through a list of pages,
/// or not.
pub open spec fn standing(state: DeviceView, mapping_id: u32) -> Option<&'static str> {
    if !state.mappings.dom().contains(mapping_id) {
        Some("revalidate_gone")
    } else if state.mappings[mapping_id].mapped && state.mappings[mapping_id].page_entries.len()
        > 0 {
        None
    } else {
        Some("revalidate_no_pages")
    }
}

/// A mapping with a mapping object is resolved again. Where a table that was
/// live is no longer readable, its pages are dropped. A list that never came
/// from a table is accepted as it is.
pub open spec fn revalidation(
    state: DeviceView,
    latch: LatchView,
    guest: GuestView,
    mapping_id: u32,
) -> Revalidation {
    if !state.mappings.dom().contains(mapping_id) {
        Revalidation { miss: Some("revalidate_gone"), state, latch }
    } else {
        let m = state.mappings[mapping_id];
        if !m.mapped {
            Revalidation { miss: Some("revalidate_unmapped"), state, latch }
        } else if m.mapping_internal == 0 {
            Revalidation { miss: standing(state, mapping_id), state, latch }
        } else {
            let r = resolution(state, latch, guest, mapping_id);
            if !r.resolved && m.page_table_kva != 0 {
                Revalidation {
                    miss: Some("revalidate_resolve_fail"),
                    state: if m.page_entries.len() > 0 {
                        r.state.invalidated(mapping_id)
                    } else {
                        r.state
                    },
                    latch: r.latch,
                }
            } else {
                Revalidation { miss: standing(r.state, mapping_id), state: r.state, latch: r.latch }
            }
        }
    }
}

/// Why a mapping cannot be written through now, or `None` where it can.
///
/// A mapping that is gone or unmapped, or that has no pages yet, is a benign
/// miss; a live table that turned unreadable is the one that drops content.
pub fn revalidate_mapping_reason<H: HostOps>(
    state: &mut DeviceState,
    host: &H,
    latch: &mut FailLatch,
    mapping_id: u32,
) -> (miss: Option<&'static str>)
    requires
        old(state).wf(),
    ensures
        final(state).wf(),
        ({
            let r = revalidation(old(state)@, old(latch)@, host.guest(), mapping_id);
            miss == r.miss && final(state)@ == r.state && final(latch)@ == r.latch
        }),
{
    let (has_internal, had_table, had_pages) = match state.mappings.get(&mapping_id) {
        Some(m) => {
            if !m.mapped {
                return Some("revalidate_unmapped");
            }
            (m.mapping_internal != 0, m.page_table_kva != 0, m.page_entries.len() != 0)
        },
        None => {
            return Some("revalidate_gone");
        },
    };
    if has_internal {
        let resolved = resolve_mapping_backing(state, host, latch, mapping_id);
        if !resolved && had_table {
            if had_pages {
                let _ = state.invalidate_mapping_pages(mapping_id);
            }
            return Some("revalidate_resolve_fail");
        }
    }
    match state.mappings.get(&mapping_id) {
        Some(m) => if m.mapped && m.page_entries.len() != 0 {
            None
        } else {
            Some("revalidate_no_pages")
        },
        None => Some("revalidate_gone"),
    }
}

/// Whether a mapping can be written through now; see [`revalidate_mapping_reason`].
pub fn revalidate_mapping_pages<H: HostOps>(
    state: &mut DeviceState,
    host: &H,
    latch: &mut FailLatch,
    mapping_id: u32,
) -> (valid: bool)
    requires
        old(state).wf(),
    ensures
        final(state).wf(),
        ({
            let r = revalidation(old(state)@, old(latch)@, host.guest(), mapping_id);
            valid == (r.miss is None) && final(state)@ == r.state && final(latch)@ == r.latch
        }),
{
    revalidate_mapping_reason(state, host, latch, mapping_id).is_none()
}

/// From this many microseconds on a revalidation is slow.
pub const REVALIDATE_SLOW_US: u64 = 1_000;

pub fn revalidate_timing_is_slow(elapsed_us: u64) -> (slow: bool)
    ensures
        slow == (elapsed_us >= REVALIDATE_SLOW_US),
{
    elapsed_us >= REVALIDATE_SLOW_US
}

} // verus!
