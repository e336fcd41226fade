//! Mapped surfaces and the table that holds them.

use vstd::prelude::*;
use crate::contract::{DeviceSurface, DeviceSurfaceView, surface_view};

verus! {

/// One mapped surface: its guest page list, geometry and cached host view.
#[derive(Debug, PartialEq, Eq)]
pub struct MappingEntry {
    pub mapped: bool,
    /// Kernel address of the guest's mapping object; zero where none is attached.
    pub mapping_internal: u64,
    /// Kernel address of the page table last resolved; zero for a page list that
    /// was not read from one.
    pub page_table_kva: u64,
    pub page_entries: Vec<u32>,
    /// Contiguous host view over the pages; zero where none is built.
    pub contig_ptr: usize,
    pub contig_len: usize,
    /// Changes whenever the pages do.
    pub map_generation: u32,
    /// Changes whenever the contents do.
    pub content_generation: u32,
    pub has_geom: bool,
    pub width: u32,
    pub height: u32,
    pub format: u16,
    pub device: Option<DeviceSurface>,
    /// The page list that a trailing delete condemned, until the next resolve.
    pub condemned_entries: Option<Vec<u32>>,
}

/// A mapped surface as values.
pub struct MappingView {
    pub mapped: bool,
    pub mapping_internal: u64,
    pub page_table_kva: u64,
    pub page_entries: Seq<u32>,
    pub contig_ptr: usize,
    pub contig_len: usize,
    pub map_generation: u32,
    pub content_generation: u32,
    pub has_geom: bool,
    pub width: u32,
    pub height: u32,
    pub format: u16,
    pub device: Option<DeviceSurfaceView>,
    pub condemned_entries: Option<Seq<u32>>,
}

/// An optional list by its view.
pub open spec fn entries_view(entries: Option<Vec<u32>>) -> Option<Seq<u32>> {
    match entries {
        Some(e) => Some(e@),
        None => None,
    }
}

impl View for MappingEntry {
    type V = MappingView;

    open spec fn view(&self) -> MappingView {
        MappingView {
            mapped: self.mapped,
            mapping_internal: self.mapping_internal,
            page_table_kva: self.page_table_kva,
            page_entries: self.page_entries@,
            contig_ptr: self.contig_ptr,
            contig_len: self.contig_len,
            map_generation: self.map_generation,
            content_generation: self.content_generation,
            has_geom: self.has_geom,
            width: self.width,
            height: self.height,
            format: self.format,
            device: surface_view(self.device),
            condemned_entries: entries_view(self.condemned_entries),
        }
    }
}

/// A slot that nothing was mapped into yet.
pub open spec fn blank_mapping() -> MappingView {
    MappingView {
        mapped: false,
        mapping_internal: 0,
        page_table_kva: 0,
        page_entries: Seq::empty(),
        contig_ptr: 0,
        contig_len: 0,
        map_generation: 0,
        content_generation: 0,
        has_geom: false,
        width: 0,
        height: 0,
        format: 0,
        device: None,
        condemned_entries: None,
    }
}

impl MappingEntry {
    pub fn blank() -> (entry: MappingEntry)
        ensures
            entry@ == blank_mapping(),
    {
        let entry = MappingEntry {
            mapped: false,
            mapping_internal: 0,
            page_table_kva: 0,
            page_entries: Vec::new(),
            contig_ptr: 0,
            contig_len: 0,
            map_generation: 0,
            content_generation: 0,
            has_geom: false,
            width: 0,
            height: 0,
            format: 0,
            device: None,
            condemned_entries: None,
        };
        assert(entry@.page_entries =~= Seq::<u32>::empty());
        entry
    }
}

/// The next generation: never zero.
pub open spec fn next_generation(current: u32) -> u32 {
    if current == u32::MAX {
        1
    } else {
        (current + 1) as u32
    }
}

pub fn bump_generation(current: u32) -> (next: u32)
    ensures
        next == next_generation(current),
        next != 0,
        next != current,
{
    let next: u32 = current.wrapping_add(1);
    if next == 0 {
        1
    } else {
        next
    }
}

/// Mapped surfaces by id.
#[derive(Debug, PartialEq, Eq)]
pub struct MappingTable {
    pub ids: Vec<u32>,
    pub entries: Vec<MappingEntry>,
}

/// Slot `i` of the table is that of `id`.
pub open spec fn slot_of(ids: Seq<u32>, i: int, id: u32) -> bool {
    0 <= i < ids.len() && ids[i] == id
}

impl View for MappingTable {
    type V = Map<u32, MappingView>;

    open spec fn view(&self) -> Map<u32, MappingView> {
        Map::new(
            |id: u32| exists|i: int| slot_of(self.ids@, i, id),
            |id: u32| self.entries@[choose|i: int| slot_of(self.ids@, i, id)]@,
        )
    }
}

impl MappingTable {
    /// Every id has one slot.
    pub open spec fn wf(&self) -> bool {
        &&& self.ids.len() == self.entries.len()
        &&& forall|i: int, j: int|
            0 <= i < self.ids.len() && 0 <= j < self.ids.len() && self.ids[i] == self.ids[j]
                ==> i == j
    }

    pub proof fn lemma_slot(&self, i: int)
        requires
            self.wf(),
            0 <= i < self.ids.len(),
        ensures
            self@.dom().contains(self.ids[i]),
            self@[self.ids[i]] == self.entries[i]@,
    {
        let id = self.ids[i];
        assert(slot_of(self.ids@, i, id));
        let j = choose|j: int| slot_of(self.ids@, j, id);
        assert(slot_of(self.ids@, j, id));
        assert(self.ids[j] == self.ids[i]);
    }

    pub fn new() -> (table: MappingTable)
        ensures
            table.wf(),
            table@ == Map::<u32, MappingView>::empty(),
    {
        let table = MappingTable { ids: Vec::new(), entries: Vec::new() };
        assert(table@ =~= Map::<u32, MappingView>::empty());
        table
    }

    pub fn find(&self, id: u32) -> (slot: Option<usize>)
        requires
            self.wf(),
        ensures
            match slot {
                Some(i) => i < self.ids.len() && self.ids[i as int] == id && self@.dom().contains(
                    id,
                ) && self@[id] == self.entries[i as int]@,
                None => !self@.dom().contains(id),
            },
    {
        let mut i: usize = 0;
        while i < self.ids.len()
            invariant
                self.wf(),
                i <= self.ids.len(),
                forall|k: int| 0 <= k < i ==> self.ids[k] != id,
            decreases self.ids.len() - i,
        {
            if self.ids[i] == id {
                proof {
                    self.lemma_slot(i as int);
                }
                return Some(i);
            }
            i = i + 1;
        }
        assert(!exists|k: int| slot_of(self.ids@, k, id));
        None
    }

    pub fn get(&self, id: &u32) -> (entry: Option<&MappingEntry>)
        requires
            self.wf(),
        ensures
            match entry {
                Some(e) => self@.dom().contains(*id) && self@[*id] == e@,
                None => !self@.dom().contains(*id),
            },
    {
        match self.find(*id) {
            Some(i) => Some(&self.entries[i]),
            None => None,
        }
    }

    pub fn contains_key(&self, id: &u32) -> (found: bool)
        requires
            self.wf(),
        ensures
            found == self@.dom().contains(*id),
    {
        self.find(*id).is_some()
    }

    /// Access to an entry in place.
    pub fn get_mut(&mut self, id: &u32) -> (entry: Option<&mut MappingEntry>)
        requires
            old(self).wf(),
        ensures
            match entry {
                Some(e) => {
                    &&& old(self)@.dom().contains(*id)
                    &&& old(self)@[*id] == (*e)@
                    &&& final(self).wf()
                    &&& final(self)@ == old(self)@.insert(*id, (*final(e))@)
                },
                None => !old(self)@.dom().contains(*id) && *final(self) == *old(self),
            },
    {
        match self.find(*id) {
            Some(i) => {
                proof {
                    lemma_set_slot(*self, i as int);
                }
                Some(&mut self.entries[i])
            },
            None => None,
        }
    }

    /// Put an entry in place of what stands under `id`.
    pub fn insert(&mut self, id: u32, entry: MappingEntry)
        requires
            old(self).wf(),
        ensures
            final(self).wf(),
            final(self)@ == old(self)@.insert(id, entry@),
    {
        match self.find(id) {
            Some(i) => {
                proof {
                    lemma_set_slot(*self, i as int);
                }
                self.entries.set(i, entry);
            },
            None => {
                let ghost before = *self;
                self.ids.push(id);
                self.entries.push(entry);
                proof {
                    assert(self.entries@.drop_last() =~= before.entries@);
                    lemma_push_slot(before, *self, id);
                }
            },
        }
    }
}

/// Replacing the entry in a slot replaces its id's value.
proof fn lemma_set_slot(table: MappingTable, i: int)
    requires
        table.wf(),
        0 <= i < table.ids.len(),
    ensures
        forall|after: MappingTable|
            #![trigger after@]
            after.ids == table.ids && after.entries@.len() == table.entries@.len() && (forall|
                k: int,
            |
                0 <= k < table.entries.len() && k != i ==> after.entries@[k] == table.entries@[k])
                ==> after.wf() && after@ == table@.insert(table.ids[i], after.entries@[i]@),
{
    assert forall|after: MappingTable|
        #![trigger after@]
        after.ids == table.ids && after.entries@.len() == table.entries@.len() && (forall|k: int|
            0 <= k < table.entries.len() && k != i ==> after.entries@[k]
                == table.entries@[k]) implies after.wf() && after@ == table@.insert(
        table.ids[i],
        after.entries@[i]@,
    ) by {
        let id = table.ids[i];
        table.lemma_slot(i);
        after.lemma_slot(i);
        assert forall|k: u32| #[trigger] after@.dom().contains(k) implies after@[k]
            == table@.insert(id, after.entries@[i]@)[k] by {
            let j = choose|j: int| slot_of(after.ids@, j, k);
            assert(slot_of(after.ids@, j, k));
            after.lemma_slot(j);
            table.lemma_slot(j);
        }
        assert(after@ =~= table@.insert(id, after.entries@[i]@));
    }
}

proof fn lemma_push_slot(before: MappingTable, after: MappingTable, id: u32)
    requires
        before.wf(),
        !before@.dom().contains(id),
        after.ids@ == before.ids@.push(id),
        after.entries@.len() == before.entries@.len() + 1,
        after.entries@.drop_last() == before.entries@,
    ensures
        after.wf(),
        after@ == before@.insert(id, after.entries@.last()@),
{
    let n = before.ids.len() as int;
    assert forall|i: int, j: int|
        0 <= i < after.ids.len() && 0 <= j < after.ids.len() && after.ids[i]
            == after.ids[j] implies i == j by {
        if i == n && j < n {
            assert(slot_of(before.ids@, j, id));
        } else if j == n && i < n {
            assert(slot_of(before.ids@, i, id));
        }
    }
    after.lemma_slot(n);
    assert forall|k: u32| #[trigger] after@.dom().contains(k) <==> before@.insert(
        id,
        after.entries@.last()@,
    ).dom().contains(k) by {
        if before@.dom().contains(k) {
            let j = choose|j: int| slot_of(before.ids@, j, k);
            assert(slot_of(before.ids@, j, k));
            assert(slot_of(after.ids@, j, k));
        }
        if after@.dom().contains(k) && k != id {
            let j = choose|j: int| slot_of(after.ids@, j, k);
            assert(slot_of(after.ids@, j, k));
            assert(slot_of(before.ids@, j, k));
        }
    }
    assert forall|k: u32| #[trigger] after@.dom().contains(k) implies after@[k] == before@.insert(
        id,
        after.entries@.last()@,
    )[k] by {
        let j = choose|j: int| slot_of(after.ids@, j, k);
        assert(slot_of(after.ids@, j, k));
        after.lemma_slot(j);
        if j < n {
            before.lemma_slot(j);
            assert(after.entries@.drop_last()[j] == before.entries@[j]);
        }
    }
    assert(after@ =~= before@.insert(id, after.entries@.last()@));
}

} // verus!
