//! The device state that the mapper and the compute path read and change.

use vstd::prelude::*;
use crate::contract::{entry_gpa, entry_gpa_shift, page_bytes, page_size_of};
use crate::mapping::{
    MappingEntry, MappingTable, MappingView, blank_mapping, bump_generation, next_generation,
};
use crate::residency::{ComputeStorageResidencyKey, ResidencyMap, Victims, survivors, taken};

verus! {

/// Exclusive bound on mapping ids.
pub const MAX_MAPPINGS: u32 = 0x4000;
/// Number of task slots.
pub const MAX_TASKS: usize = 64;
/// Number of child rings.
pub const MAX_CHILD_RINGS: usize = 16;

/// Exclusive bound on page shifts.
pub const PAGE_SHIFT_LIMIT: u32 = 32;

/// Which device an instance is.
#[derive(Clone, Copy, Debug, PartialEq, Eq, Structural)]
pub struct DeviceId(pub u32);

/// The surface-mapper transport.
#[derive(Clone, Copy, Debug, PartialEq, Eq, Structural)]
pub struct SurfaceRing {
    pub ring_base: u64,
}

/// The graphics transport.
#[derive(Clone, Copy, Debug, PartialEq, Eq, Structural)]
pub struct GraphicsTransport {
    pub root_page: u32,
    pub fifo_base_page: u32,
}

/// A child command ring.
#[derive(Debug, PartialEq, Eq)]
pub struct ChildRing {
    pub page_gpas: Vec<u64>,
}

/// A guest task.
#[derive(Clone, Copy, Debug, PartialEq, Eq, Structural)]
pub struct TaskEntry {
    pub active: bool,
    pub directory_pfn: u32,
    pub object_list_pfn: u32,
    pub object_list_count: u32,
}

/// A registered guest object.
#[derive(Clone, Copy, Debug, PartialEq, Eq, Structural)]
pub struct ObjectEntry {
    pub object_type: u8,
}

impl Default for ObjectEntry {
    fn default() -> (entry: ObjectEntry)
        ensures
            entry == (ObjectEntry { object_type: 0 }),
    {
        ObjectEntry { object_type: 0 }
    }
}

/// A span of task memory that the guest mapped.
#[derive(Clone, Copy, Debug, PartialEq, Eq, Structural)]
pub struct TaskSpan {
    pub task_id: u32,
    pub gva: u64,
    pub len: u64,
}

/// The mapper's hand-off, captured while the publishing processor still holds it.
#[derive(Clone, Copy, Debug, PartialEq, Eq, Structural)]
pub struct MapperCapture {
    pub producer: u32,
    pub mapper_device_kva: u64,
    pub request_type: u32,
    pub mapping_internal: u64,
}

pub struct DeviceState {
    pub id: DeviceId,
    pub page_shift: u32,
    pub mappings: MappingTable,
    pub mapper_device_kva: u64,
    pub iosfc: SurfaceRing,
    pub gfx: GraphicsTransport,
    pub child_rings: Vec<ChildRing>,
    pub tasks: Vec<TaskEntry>,
    /// Registered objects by task and reference.
    pub objects: Vec<(u32, u32, ObjectEntry)>,
    /// Host views to be unmapped at the next safe point.
    pub retired_views: Vec<(usize, usize)>,
    /// Windows whose guest bytes hold exactly what the engine last wrote back.
    pub compute_storage_residency: ResidencyMap,
    /// Render windows that still owe the guest their contents.
    pub render_deferred_flush: ResidencyMap,
    /// Compute windows that still owe the guest their contents.
    pub compute_deferred_flush: ResidencyMap,
    /// Pages of mappings with owed windows, for readers that go by page.
    pub deferred_alias_pages: Vec<(u64, u32)>,
    pub task_spans: Vec<TaskSpan>,
}

/// The device state as values.
pub struct DeviceView {
    pub id: DeviceId,
    pub page_shift: u32,
    pub mappings: Map<u32, MappingView>,
    pub mapper_device_kva: u64,
    pub iosfc: SurfaceRing,
    pub gfx: GraphicsTransport,
    pub child_rings: Seq<Seq<u64>>,
    pub tasks: Seq<TaskEntry>,
    pub objects: Seq<(u32, u32, ObjectEntry)>,
    pub retired_views: Seq<(usize, usize)>,
    pub compute_storage_residency: Seq<(ComputeStorageResidencyKey, u32)>,
    pub render_deferred_flush: Seq<(ComputeStorageResidencyKey, u32)>,
    pub compute_deferred_flush: Seq<(ComputeStorageResidencyKey, u32)>,
    pub deferred_alias_pages: Seq<(u64, u32)>,
    pub task_spans: Seq<TaskSpan>,
}

pub open spec fn rings_view(rings: Seq<ChildRing>) -> Seq<Seq<u64>> {
    Seq::new(rings.len(), |i: int| rings[i].page_gpas@)
}

impl View for DeviceState {
    type V = DeviceView;

    open spec fn view(&self) -> DeviceView {
        DeviceView {
            id: self.id,
            page_shift: self.page_shift,
            mappings: self.mappings@,
            mapper_device_kva: self.mapper_device_kva,
            iosfc: self.iosfc,
            gfx: self.gfx,
            child_rings: rings_view(self.child_rings@),
            tasks: self.tasks@,
            objects: self.objects@,
            retired_views: self.retired_views@,
            compute_storage_residency: self.compute_storage_residency@,
            render_deferred_flush: self.render_deferred_flush@,
            compute_deferred_flush: self.compute_deferred_flush@,
            deferred_alias_pages: self.deferred_alias_pages@,
            task_spans: self.task_spans@,
        }
    }
}

/// The mapping with its pages gone and its generation moved on: whatever was
/// built on the old pages no longer stands.
pub open spec fn without_pages(m: MappingView) -> MappingView {
    MappingView {
        page_entries: Seq::empty(),
        page_table_kva: 0,
        contig_ptr: 0,
        contig_len: 0,
        map_generation: next_generation(m.map_generation),
        ..m
    }
}

impl DeviceView {
    /// The state with another entry under `id`.
    pub open spec fn with_mapping(self, id: u32, m: MappingView) -> DeviceView {
        DeviceView { mappings: self.mappings.insert(id, m), ..self }
    }

    /// The state with the mapping's host view handed over for unmapping.
    pub open spec fn with_view_retired(self, m: MappingView) -> DeviceView {
        DeviceView {
            retired_views: if m.contig_ptr != 0 {
                self.retired_views.push((m.contig_ptr, m.contig_len))
            } else {
                self.retired_views
            },
            ..self
        }
    }

    /// The state after a mapping's pages were dropped.
    pub open spec fn invalidated(self, id: u32) -> DeviceView {
        if self.mappings.dom().contains(id) {
            self.with_view_retired(self.mappings[id]).with_mapping(
                id,
                without_pages(self.mappings[id]),
            )
        } else {
            self
        }
    }

    /// The state after a mapping's owed windows were dropped.
    pub open spec fn without_windows(self, id: u32) -> DeviceView {
        DeviceView {
            render_deferred_flush: survivors(
                self.render_deferred_flush,
                Victims::OfMapping { mapping_id: id },
            ),
            compute_deferred_flush: survivors(
                self.compute_deferred_flush,
                Victims::OfMapping { mapping_id: id },
            ),
            ..self
        }
    }

    /// The state after a mapping's owed render windows were dropped.
    pub open spec fn without_render_windows(self, id: u32) -> DeviceView {
        DeviceView {
            render_deferred_flush: survivors(
                self.render_deferred_flush,
                Victims::OfMapping { mapping_id: id },
            ),
            ..self
        }
    }

    /// The state after a surface was unmapped: no pages and no mapping object.
    pub open spec fn unmapped(self, id: u32) -> DeviceView {
        if self.mappings.dom().contains(id) {
            let m = self.mappings[id];
            self.with_view_retired(m).with_mapping(
                id,
                MappingView {
                    mapped: false,
                    mapping_internal: 0,
                    condemned_entries: None,
                    ..without_pages(m)
                },
            )
        } else {
            self
        }
    }

    /// The entry under `id`, blank where there is none.
    pub open spec fn mapping_or_blank(self, id: u32) -> MappingView {
        if self.mappings.dom().contains(id) {
            self.mappings[id]
        } else {
            blank_mapping()
        }
    }

    /// The state after mapping object `internal` was attached under `id`. The
    /// object that is attached already changes nothing; another one is a new
    /// surface, without pages, geometry or descriptor.
    pub open spec fn attached(self, id: u32, internal: u64) -> DeviceView {
        let m = self.mapping_or_blank(id);
        if self.mappings.dom().contains(id) && m.mapped && m.mapping_internal == internal {
            self
        } else {
            self.with_view_retired(m).with_mapping(
                id,
                MappingView {
                    mapped: true,
                    mapping_internal: internal,
                    has_geom: false,
                    width: 0,
                    height: 0,
                    format: 0,
                    device: None,
                    condemned_entries: None,
                    ..without_pages(m)
                },
            )
        }
    }

    /// The state after a mapping's contents changed.
    pub open spec fn written(self, id: u32) -> DeviceView {
        if self.mappings.dom().contains(id) {
            self.with_mapping(
                id,
                MappingView {
                    content_generation: next_generation(self.mappings[id].content_generation),
                    ..self.mappings[id]
                },
            )
        } else {
            self
        }
    }

    /// The state after the pages of a mapping with owed windows were indexed.
    pub open spec fn aliases_indexed(self, id: u32) -> DeviceView {
        if self.mappings.dom().contains(id) {
            DeviceView {
                deferred_alias_pages: self.deferred_alias_pages + Seq::new(
                    self.pages_of(id).len(),
                    |i: int| (self.pages_of(id)[i], id),
                ),
                ..self
            }
        } else {
            self
        }
    }

    /// The page addresses of a mapping's valid entries.
    pub open spec fn pages_of(self, id: u32) -> Seq<u64> {
        valid_gpas(self.mappings[id].page_entries, self.page_shift)
    }
}

/// The addresses of the valid entries, in order.
pub open spec fn valid_gpas(entries: Seq<u32>, page_shift: u32) -> Seq<u64>
    decreases entries.len(),
{
    if entries.len() == 0 {
        Seq::empty()
    } else {
        let rest = valid_gpas(entries.drop_last(), page_shift);
        match entry_gpa(entries.last(), page_shift) {
            Some(gpa) => rest.push(gpa),
            None => rest,
        }
    }
}

/// Collect the addresses of the valid entries.
pub fn collect_gpas(entries: &Vec<u32>, page_shift: u32) -> (gpas: Vec<u64>)
    requires
        page_shift < 64,
    ensures
        gpas@ == valid_gpas(entries@, page_shift),
{
    let mut gpas: Vec<u64> = Vec::new();
    let mut i: usize = 0;
    assert(entries@.take(0) == Seq::<u32>::empty());
    while i < entries.len()
        invariant
            page_shift < 64,
            i <= entries.len(),
            gpas@ == valid_gpas(entries@.take(i as int), page_shift),
        decreases entries.len() - i,
    {
        proof {
            let next = entries@.take(i + 1);
            assert(next.drop_last() == entries@.take(i as int));
            assert(next.last() == entries@[i as int]);
        }
        match entry_gpa_shift(entries[i], page_shift) {
            Some(gpa) => gpas.push(gpa),
            None => {},
        }
        i = i + 1;
    }
    assert(entries@.take(i as int) == entries@);
    gpas
}

impl DeviceState {
    /// The tables are in order and the page shift is one.
    pub open spec fn wf(&self) -> bool {
        &&& self.page_shift < PAGE_SHIFT_LIMIT
        &&& self.tasks.len() <= u32::MAX
        &&& self.mappings.wf()
        &&& self.compute_storage_residency.wf()
        &&& self.render_deferred_flush.wf()
        &&& self.compute_deferred_flush.wf()
    }

    pub fn new(id: DeviceId, page_shift: u32) -> (state: DeviceState)
        requires
            page_shift < PAGE_SHIFT_LIMIT,
        ensures
            state.wf(),
            state.id == id,
            state.page_shift == page_shift,
            state@.mappings == Map::<u32, MappingView>::empty(),
            state.tasks.len() == MAX_TASKS,
            state.child_rings.len() == MAX_CHILD_RINGS,
            forall|i: int| 0 <= i < state.tasks.len() ==> !(#[trigger] state.tasks[i]).active,
            forall|i: int|
                0 <= i < state.child_rings.len() ==> (#[trigger] state.child_rings[i]).page_gpas.len()
                    == 0,
            state.mapper_device_kva == 0,
            state.iosfc == (SurfaceRing { ring_base: 0 }),
            state.gfx == (GraphicsTransport { root_page: 0, fifo_base_page: 0 }),
            state.objects.len() == 0,
            state.retired_views.len() == 0,
            state@.compute_storage_residency.len() == 0,
            state@.render_deferred_flush.len() == 0,
            state@.compute_deferred_flush.len() == 0,
            state.deferred_alias_pages.len() == 0,
            state.task_spans.len() == 0,
            state.tasks.len() == 64,
            state.child_rings.len() == 16,
    {
        let mut child_rings: Vec<ChildRing> = Vec::new();
        while child_rings.len() < MAX_CHILD_RINGS
            invariant
                child_rings.len() <= MAX_CHILD_RINGS,
                forall|i: int|
                    0 <= i < child_rings.len() ==> (#[trigger] child_rings[i]).page_gpas.len() == 0,
            decreases MAX_CHILD_RINGS - child_rings.len(),
        {
            child_rings.push(ChildRing { page_gpas: Vec::new() });
        }
        let mut tasks: Vec<TaskEntry> = Vec::new();
        while tasks.len() < MAX_TASKS
            invariant
                tasks.len() <= MAX_TASKS,
                forall|i: int| 0 <= i < tasks.len() ==> !(#[trigger] tasks[i]).active,
            decreases MAX_TASKS - tasks.len(),
        {
            tasks.push(
                TaskEntry {
                    active: false,
                    directory_pfn: 0,
                    object_list_pfn: 0,
                    object_list_count: 0,
                },
            );
        }
        DeviceState {
            id,
            page_shift,
            mappings: MappingTable::new(),
            mapper_device_kva: 0,
            iosfc: SurfaceRing { ring_base: 0 },
            gfx: GraphicsTransport { root_page: 0, fifo_base_page: 0 },
            child_rings,
            tasks,
            objects: Vec::new(),
            retired_views: Vec::new(),
            compute_storage_residency: ResidencyMap::new(),
            render_deferred_flush: ResidencyMap::new(),
            compute_deferred_flush: ResidencyMap::new(),
            deferred_alias_pages: Vec::new(),
            task_spans: Vec::new(),
        }
    }

    /// Bytes of one guest page.
    pub fn page_size(&self) -> (size: u64)
        requires
            self.page_shift < 64,
        ensures
            size == page_bytes(self.page_shift),
            size > 0,
            self.page_shift < PAGE_SHIFT_LIMIT ==> size < 0x1_0000_0000,
    {
        page_size_of(self.page_shift)
    }

    fn take_mapping(&mut self, id: u32) -> (m: MappingEntry)
        requires
            old(self).wf(),
        ensures
            m@ == old(self)@.mapping_or_blank(id),
            final(self).wf(),
            final(self)@ == if old(self)@.mappings.dom().contains(id) {
                old(self)@.with_mapping(id, blank_mapping())
            } else {
                old(self)@
            },
    {
        match self.mappings.find(id) {
            Some(_) => {
                let mut blank = MappingEntry::blank();
                match self.mappings.get_mut(&id) {
                    Some(e) => {
                        core::mem::swap(e, &mut blank);
                    },
                    None => {},
                }
                blank
            },
            None => MappingEntry::blank(),
        }
    }

    /// Retire an entry's host view and drop its pages.
    fn drop_pages(&mut self, m: &mut MappingEntry)
        requires
            old(self).wf(),
        ensures
            final(self).wf(),
            final(self)@ == old(self)@.with_view_retired(old(m)@),
            final(m)@ == without_pages(old(m)@),
    {
        if m.contig_ptr != 0 {
            self.retired_views.push((m.contig_ptr, m.contig_len));
        }
        m.contig_ptr = 0;
        m.contig_len = 0;
        m.page_entries = Vec::new();
        m.page_table_kva = 0;
        m.map_generation = bump_generation(m.map_generation);
        assert(m@.page_entries =~= Seq::<u32>::empty());
    }

    /// Drop a mapping's pages and everything built on them; it stays mapped.
    pub fn invalidate_mapping_pages(&mut self, id: u32) -> (known: bool)
        requires
            old(self).wf(),
        ensures
            final(self).wf(),
            known == old(self)@.mappings.dom().contains(id),
            final(self)@ == old(self)@.invalidated(id),
    {
        if !self.mappings.contains_key(&id) {
            return false;
        }
        let mut m = self.take_mapping(id);
        self.drop_pages(&mut m);
        self.mappings.insert(id, m);
        assert(self@.mappings =~= old(self)@.invalidated(id).mappings);
        true
    }

    /// Mark a surface as mapped, in a blank slot where none is there yet.
    pub fn map_surface(&mut self, id: u32) -> (ok: bool)
        requires
            old(self).wf(),
        ensures
            final(self).wf(),
            ok == (id < MAX_MAPPINGS),
            final(self)@ == if ok {
                old(self)@.with_mapping(
                    id,
                    MappingView { mapped: true, ..old(self)@.mapping_or_blank(id) },
                )
            } else {
                old(self)@
            },
            id < 0x4000 ==> final(self)@.mappings.dom().contains(id)
                && final(self)@.mappings[id].mapped,
            id >= 0x4000 ==> !ok,
            ok && old(self)@.mappings.dom().contains(id) ==> final(self)@.mappings[id].page_entries
                == old(self)@.mappings[id].page_entries && final(self)@.mappings[id].map_generation
                == old(self)@.mappings[id].map_generation,
    {
        if id >= MAX_MAPPINGS {
            return false;
        }
        let mut m = self.take_mapping(id);
        m.mapped = true;
        self.mappings.insert(id, m);
        assert(self@.mappings =~= old(self)@.with_mapping(
            id,
            MappingView { mapped: true, ..old(self)@.mapping_or_blank(id) },
        ).mappings);
        true
    }

    /// Unmap a surface: its pages and its mapping object are gone.
    pub fn unmap_surface(&mut self, id: u32) -> (known: bool)
        requires
            old(self).wf(),
        ensures
            final(self).wf(),
            known == old(self)@.mappings.dom().contains(id),
            final(self)@ == old(self)@.unmapped(id),
    {
        if !self.mappings.contains_key(&id) {
            return false;
        }
        let mut m = self.take_mapping(id);
        self.drop_pages(&mut m);
        m.mapped = false;
        m.mapping_internal = 0;
        m.condemned_entries = None;
        self.mappings.insert(id, m);
        assert(self@.mappings =~= old(self)@.unmapped(id).mappings);
        true
    }

    /// Attach a mapping object. The one that is attached already changes nothing.
    pub fn attach_mapping_internal(&mut self, id: u32, internal: u64) -> (ok: bool)
        requires
            old(self).wf(),
        ensures
            final(self).wf(),
            ok == (id < MAX_MAPPINGS),
            final(self)@ == if ok {
                old(self)@.attached(id, internal)
            } else {
                old(self)@
            },
            id >= 0x4000 ==> !ok,
            ok ==> final(self)@.mappings.dom().contains(id) && final(self)@.mappings[id].mapped
                && final(self)@.mappings[id].mapping_internal == internal,
    {
        if id >= MAX_MAPPINGS {
            return false;
        }
        let same = match self.mappings.get(&id) {
            Some(m) => m.mapped && m.mapping_internal == internal,
            None => false,
        };
        if same {
            return true;
        }
        let mut m = self.take_mapping(id);
        self.drop_pages(&mut m);
        m.mapped = true;
        m.mapping_internal = internal;
        m.has_geom = false;
        m.width = 0;
        m.height = 0;
        m.format = 0;
        m.device = None;
        m.condemned_entries = None;
        self.mappings.insert(id, m);
        assert(self@.mappings =~= old(self)@.attached(id, internal).mappings);
        true
    }

    /// Latch a mapping's geometry.
    pub fn set_mapping_geom(&mut self, id: u32, width: u32, height: u32, format: u16) -> (known:
        bool)
        requires
            old(self).wf(),
        ensures
            final(self).wf(),
            known == old(self)@.mappings.dom().contains(id),
            final(self)@ == if known {
                old(self)@.with_mapping(
                    id,
                    MappingView {
                        has_geom: true,
                        width,
                        height,
                        format,
                        ..old(self)@.mappings[id]
                    },
                )
            } else {
                old(self)@
            },
            known ==> final(self)@.mappings[id].has_geom,
            known ==> final(self)@.mappings[id].width == width,
            known ==> final(self)@.mappings[id].height == height,
            known ==> final(self)@.mappings[id].format == format,
            known ==> final(self)@.mappings[id].page_entries == old(self)@.mappings[id].page_entries,
    {
        match self.mappings.get_mut(&id) {
            Some(m) => {
                m.has_geom = true;
                m.width = width;
                m.height = height;
                m.format = format;
                true
            },
            None => false,
        }
    }

    /// A trailing delete: stash the page list and drop it, keeping the generation,
    /// so that a resolve to the same pages finds the same incarnation alive.
    pub fn condemn_surface_backing(&mut self, id: u32) -> (known: bool)
        requires
            old(self).wf(),
        ensures
            final(self).wf(),
            known == old(self)@.mappings.dom().contains(id),
            final(self)@ == if known {
                let m = old(self)@.mappings[id];
                old(self)@.with_view_retired(m).with_mapping(
                    id,
                    MappingView {
                        condemned_entries: Some(m.page_entries),
                        page_entries: Seq::empty(),
                        page_table_kva: 0,
                        contig_ptr: 0,
                        contig_len: 0,
                        ..m
                    },
                )
            } else {
                old(self)@
            },
            known ==> final(self)@.mappings[id].page_entries.len() == 0,
            known ==> final(self)@.mappings[id].condemned_entries == Some(
                old(self)@.mappings[id].page_entries,
            ),
            known ==> final(self)@.mappings[id].map_generation == old(
                self,
            )@.mappings[id].map_generation,
            known ==> final(self)@.mappings[id].contig_ptr == 0,
            known && old(self)@.mappings[id].contig_ptr > 0 ==> final(self)@.retired_views.last()
                == (old(self)@.mappings[id].contig_ptr, old(self)@.mappings[id].contig_len),
    {
        if !self.mappings.contains_key(&id) {
            return false;
        }
        let mut m = self.take_mapping(id);
        if m.contig_ptr != 0 {
            self.retired_views.push((m.contig_ptr, m.contig_len));
        }
        m.contig_ptr = 0;
        m.contig_len = 0;
        m.page_table_kva = 0;
        let mut pages: Vec<u32> = Vec::new();
        core::mem::swap(&mut pages, &mut m.page_entries);
        m.condemned_entries = Some(pages);
        assert(m@.page_entries =~= Seq::<u32>::empty());
        let ghost after = m@;
        self.mappings.insert(id, m);
        assert(self@.mappings =~= old(self)@.mappings.insert(id, after));
        true
    }

    /// Drop every owed window of a mapping.
    pub fn drop_windows(&mut self, id: u32)
        requires
            old(self).wf(),
        ensures
            final(self).wf(),
            final(self)@ == old(self)@.without_windows(id),
    {
        self.render_deferred_flush.remove_all(Victims::OfMapping { mapping_id: id });
        self.compute_deferred_flush.remove_all(Victims::OfMapping { mapping_id: id });
    }

    /// Drop every owed render window of a mapping.
    pub fn drop_render_deferred_windows(&mut self, id: u32)
        requires
            old(self).wf(),
        ensures
            final(self).wf(),
            final(self)@ == old(self)@.without_render_windows(id),
    {
        self.render_deferred_flush.remove_all(Victims::OfMapping { mapping_id: id });
    }

    /// Forget the residency of every window that meets bytes `[lo, hi)` of a mapping.
    pub fn invalidate_storage_residency_window(&mut self, mapping_id: u32, lo: u64, hi: u64)
        requires
            old(self).wf(),
        ensures
            final(self).wf(),
            final(self)@ == (DeviceView {
                compute_storage_residency: survivors(
                    old(self)@.compute_storage_residency,
                    Victims::Meeting { mapping_id, lo, hi },
                ),
                ..old(self)@
            }),
    {
        self.compute_storage_residency.remove_all(Victims::Meeting { mapping_id, lo, hi });
    }

    /// Take the owed compute windows that meet bytes `[lo, hi)` of a mapping.
    pub fn take_deferred_flush_windows(&mut self, mapping_id: u32, lo: u64, hi: u64) -> (out: Vec<
        (ComputeStorageResidencyKey, u32),
    >)
        requires
            old(self).wf(),
        ensures
            final(self).wf(),
            out@ == taken(
                old(self)@.compute_deferred_flush,
                Victims::Meeting { mapping_id, lo, hi },
            ),
            final(self)@ == (DeviceView {
                compute_deferred_flush: survivors(
                    old(self)@.compute_deferred_flush,
                    Victims::Meeting { mapping_id, lo, hi },
                ),
                ..old(self)@
            }),
    {
        self.compute_deferred_flush.take_all(Victims::Meeting { mapping_id, lo, hi })
    }

    /// A mapping's contents changed: its content generation moves on.
    pub fn mark_mapping_written(&mut self, id: u32) -> (known: bool)
        requires
            old(self).wf(),
        ensures
            final(self).wf(),
            known == old(self)@.mappings.dom().contains(id),
            final(self)@ == old(self)@.written(id),
    {
        match self.mappings.get_mut(&id) {
            Some(m) => {
                m.content_generation = bump_generation(m.content_generation);
                true
            },
            None => false,
        }
    }

    /// Index the pages of a mapping that owes the guest its contents.
    pub fn index_deferred_alias_pages(&mut self, id: u32)
        requires
            old(self).wf(),
        ensures
            final(self).wf(),
            final(self)@ == old(self)@.aliases_indexed(id),
    {
        let gpas = match self.mappings.get(&id) {
            Some(m) => collect_gpas(&m.page_entries, self.page_shift),
            None => {
                return ;
            },
        };
        let ghost before = self.deferred_alias_pages@;
        let mut i: usize = 0;
        while i < gpas.len()
            invariant
                i <= gpas.len(),
                old(self).wf(),
                self.wf(),
                self@ == (DeviceView {
                    deferred_alias_pages: self.deferred_alias_pages@,
                    ..old(self)@
                }),
                self.deferred_alias_pages@ == before + Seq::new(
                    i as nat,
                    |k: int| (gpas@[k], id),
                ),
            decreases gpas.len() - i,
        {
            self.deferred_alias_pages.push((gpas[i], id));
            i = i + 1;
            assert(self.deferred_alias_pages@ =~= before + Seq::new(
                i as nat,
                |k: int| (gpas@[k], id),
            ));
        }
        assert(Seq::new(i as nat, |k: int| (gpas@[k], id)) =~= Seq::new(
            old(self)@.pages_of(id).len(),
            |i: int| (old(self)@.pages_of(id)[i], id),
        ));
    }

    /// Define a task by its page directory.
    pub fn define_task(&mut self, id: u32, _limit: u64, directory_pfn: u32) -> (ok: bool)
        requires
            old(self).wf(),
        ensures
            final(self).wf(),
            ok == (id < old(self).tasks.len()),
            final(self)@ == if ok {
                DeviceView {
                    tasks: old(self)@.tasks.update(
                        id as int,
                        TaskEntry {
                            active: true,
                            directory_pfn,
                            object_list_pfn: 0,
                            object_list_count: 0,
                        },
                    ),
                    ..old(self)@
                }
            } else {
                old(self)@
            },
            ok ==> final(self)@.tasks[id as int].active,
            ok ==> final(self)@.tasks[id as int].directory_pfn == directory_pfn,
            ok ==> final(self)@.tasks[id as int].object_list_pfn == 0,
            ok ==> final(self)@.tasks[id as int].object_list_count == 0,
    {
        let i: usize = id as usize;
        if i >= self.tasks.len() {
            return false;
        }
        self.tasks.set(
            i,
            TaskEntry {
                active: true,
                directory_pfn,
                object_list_pfn: 0,
                object_list_count: 0,
            },
        );
        true
    }

    /// Tell where a task's object list is and how many slots it advertises.
    pub fn set_object_list(&mut self, id: u32, pfn: u32, count: u32) -> (ok: bool)
        requires
            old(self).wf(),
        ensures
            final(self).wf(),
            ok == (id < old(self).tasks.len() && old(self).tasks[id as int].active),
            final(self)@ == if ok {
                DeviceView {
                    tasks: old(self)@.tasks.update(
                        id as int,
                        TaskEntry {
                            object_list_pfn: pfn,
                            object_list_count: count,
                            ..old(self)@.tasks[id as int]
                        },
                    ),
                    ..old(self)@
                }
            } else {
                old(self)@
            },
            ok ==> final(self)@.tasks[id as int].object_list_pfn == pfn,
            ok ==> final(self)@.tasks[id as int].object_list_count == count,
            ok ==> final(self)@.tasks[id as int].directory_pfn == old(self)@.tasks[id as int].directory_pfn,
    {
        let i: usize = id as usize;
        if i >= self.tasks.len() {
            return false;
        }
        let task = self.tasks[i];
        if !task.active {
            return false;
        }
        self.tasks.set(
            i,
            TaskEntry {
                active: task.active,
                directory_pfn: task.directory_pfn,
                object_list_pfn: pfn,
                object_list_count: count,
            },
        );
        true
    }

    /// Register an object of a task.
    pub fn insert_object(&mut self, task_id: u32, object_ref: u32, entry: ObjectEntry) -> (ok: bool)
        requires
            old(self).wf(),
        ensures
            final(self).wf(),
            ok == (task_id < old(self).tasks.len()),
            final(self)@ == if ok {
                DeviceView {
                    objects: old(self)@.objects.push((task_id, object_ref, entry)),
                    ..old(self)@
                }
            } else {
                old(self)@
            },
            ok ==> final(self)@.objects.last() == (task_id, object_ref, entry),
            ok ==> final(self)@.objects.len() == old(self)@.objects.len() + 1,
    {
        if task_id as usize >= self.tasks.len() {
            return false;
        }
        self.objects.push((task_id, object_ref, entry));
        true
    }

    /// Record a span of task memory that the guest mapped.
    pub fn note_task_map(&mut self, task_id: u32, gva: u64, len: u64)
        requires
            old(self).wf(),
        ensures
            final(self).wf(),
            final(self)@ == (DeviceView {
                task_spans: old(self)@.task_spans.push(TaskSpan { task_id, gva, len }),
                ..old(self)@
            }),
            final(self)@.task_spans.last().task_id == task_id,
            final(self)@.task_spans.last().gva == gva,
            final(self)@.task_spans.last().len == len,
            final(self)@.task_spans.len() == old(self)@.task_spans.len() + 1,
    {
        self.task_spans.push(TaskSpan { task_id, gva, len });
    }

    /// Whether the device may write `[gva, gva + len)` of a task.
    pub fn gva_write_allowed(&self, task_id: u32, gva: u64, len: u64) -> (allowed: bool)
        ensures
            allowed == write_allowed(self@.task_spans, task_id, gva, len),
    {
        let mut known = false;
        let mut i: usize = 0;
        while i < self.task_spans.len()
            invariant
                i <= self.task_spans.len(),
                known == exists|k: int|
                    0 <= k < i && (#[trigger] self.task_spans[k]).task_id == task_id,
                forall|k: int|
                    0 <= k < i ==> !span_covers(#[trigger] self.task_spans[k], task_id, gva, len),
            decreases self.task_spans.len() - i,
        {
            let span = self.task_spans[i];
            if span.task_id == task_id {
                known = true;
                if span.gva <= gva && gva - span.gva <= span.len && len <= span.len - (gva
                    - span.gva) {
                    assert(span_covers(self.task_spans[i as int], task_id, gva, len));
                    return true;
                }
            }
            assert(self.task_spans[i as int] == span);
            i = i + 1;
        }
        !known
    }
}

/// The span belongs to the task and holds all of `[gva, gva + len)`.
pub open spec fn span_covers(span: TaskSpan, task_id: u32, gva: u64, len: u64) -> bool {
    span.task_id == task_id && span.gva <= gva && gva + len <= span.gva + span.len
}

/// A task's memory may be written inside its recorded spans; a task without any
/// is not bounded.
pub open spec fn write_allowed(spans: Seq<TaskSpan>, task_id: u32, gva: u64, len: u64) -> bool {
    ||| exists|k: int|
        0 <= k < spans.len() && span_covers(#[trigger] spans[k], task_id, gva, len)
    ||| forall|k: int| 0 <= k < spans.len() ==> (#[trigger] spans[k]).task_id != task_id
}

} // verus!
