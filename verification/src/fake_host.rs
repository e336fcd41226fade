//! A host over tables: guest memory by byte, registers, and mapping objects.

use std::collections::HashMap;
use vstd::prelude::*;
use crate::contract::{DeviceSurface, page_bytes, page_size_of};
use crate::host::{
    DescriptorRead, DescriptorView, GuestView, HostMemory, HostOps, InternalRefusal,
    MapperInternalFields, MemError, PageView, Status, TablePlan, TablePlanView, view_backed,
    view_bytes, view_written,
};

verus! {

/// A mapping object of the guest driver.
pub struct MapperObject {
    pub internal: u64,
    pub owner: u64,
    pub fields: MapperInternalFields,
    pub device: Option<DeviceSurface>,
    pub table_kva: u64,
    pub entries: Vec<u32>,
}

/// A view that was mapped.
pub struct FakeView {
    pub gpas: Vec<u64>,
    pub page: usize,
}

/// Most views that are mapped at a time.
pub const FAKE_VIEW_LIMIT: usize = 0x1000;

/// A host whose guest is a set of tables.
pub struct FakeHost {
    pub memory: HashMap<u64, u8>,
    pub xregs: Vec<(u32, u64)>,
    /// Kernel reads fail with this error where it is set.
    pub kva_error: Option<MemError>,
    pub objects: Vec<MapperObject>,
    /// Only pages in sequence can be laid out as one view.
    pub strict_linux_map: bool,
    pub slots: Vec<Option<FakeView>>,
}

/// The byte `i` behind `at` is there.
pub open spec fn byte_there(memory: Map<u64, u8>, at: u64, i: int) -> bool {
    at + i <= u64::MAX && memory.dom().contains((at + i) as u64)
}

/// The `len` bytes from `at` on.
pub open spec fn bytes_from(memory: Map<u64, u8>, at: u64, len: nat) -> Seq<u8> {
    Seq::new(len, |i: int| memory[(at + i) as u64])
}

/// Bytes from `at` on, where all of them are there.
pub open spec fn memory_bytes(memory: Map<u64, u8>, at: u64, len: nat) -> Result<
    Seq<u8>,
    MemError,
> {
    if forall|i: int| 0 <= i < len ==> #[trigger] byte_there(memory, at, i) {
        Ok(bytes_from(memory, at, len))
    } else {
        Err(MemError::Unmapped)
    }
}

/// The register's value where it was set.
pub open spec fn register(xregs: Seq<(u32, u64)>, reg: u32) -> Result<u64, MemError>
    decreases xregs.len(),
{
    if xregs.len() == 0 {
        Err(MemError::XregUnavailable)
    } else if xregs.last().0 == reg {
        Ok(xregs.last().1)
    } else {
        register(xregs.drop_last(), reg)
    }
}

/// The address holds the same in both memories.
pub open spec fn same_byte(before: Map<u64, u8>, after: Map<u64, u8>, a: u64) -> bool {
    &&& after.dom().contains(a) == before.dom().contains(a)
    &&& after.dom().contains(a) ==> after[a] == before[a]
}

/// The first mapping object at `internal`.
pub open spec fn object_at(objects: Seq<MapperObject>, internal: u64) -> Option<MapperObject>
    decreases objects.len(),
{
    if objects.len() == 0 {
        None
    } else if objects[0].internal == internal {
        Some(objects[0])
    } else {
        object_at(objects.drop_first(), internal)
    }
}

/// The first mapping object with the given fields.
pub open spec fn object_with(
    objects: Seq<MapperObject>,
    fields: MapperInternalFields,
) -> Option<MapperObject>
    decreases objects.len(),
{
    if objects.len() == 0 {
        None
    } else if objects[0].fields == fields {
        Some(objects[0])
    } else {
        object_with(objects.drop_first(), fields)
    }
}

pub open spec fn object_fields(
    objects: Seq<MapperObject>,
    internal: u64,
    mapper: u64,
) -> Result<MapperInternalFields, Status> {
    match object_at(objects, internal) {
        None => Err(Status::ErrInternalRead("iosurface_mapper_internal_owner_read")),
        Some(object) => if mapper != 0 && object.owner != mapper {
            Err(Status::ErrInternalRead("iosurface_mapper_internal_owner_mismatch"))
        } else {
            Ok(object.fields)
        },
    }
}

pub open spec fn object_plan(
    objects: Seq<MapperObject>,
    fields: MapperInternalFields,
    min_size: u64,
    page_shift: u32,
) -> Result<TablePlanView, Status> {
    match object_with(objects, fields) {
        None => Err(Status::ErrTable("iosurface_table_pointer_read")),
        Some(object) => if page_shift < 64 && object.entries.len() * page_bytes(page_shift)
            >= min_size {
            Ok(TablePlanView { entries: object.entries@, page_table_kva: object.table_kva })
        } else {
            Err(Status::ErrTable("iosurface_table_short"))
        },
    }
}

/// Pages in sequence.
pub open spec fn sequential(gpas: Seq<u64>, page: nat) -> bool {
    forall|i: int| 0 <= i < gpas.len() - 1 ==> #[trigger] gpas[i] + page == gpas[i + 1]
}

impl FakeHost {
    pub open spec fn slot_views(&self) -> Map<usize, PageView> {
        Map::new(
            |b: usize| 1 <= b <= self.slots.len() && self.slots[b - 1] is Some,
            |b: usize|
                PageView {
                    gpas: self.slots[b - 1]->0.gpas@,
                    page: self.slots[b - 1]->0.page as nat,
                },
        )
    }

    pub open spec fn ram_map(&self) -> Map<int, u8> {
        Map::new(
            |a: int| 0 <= a <= u64::MAX && self.memory@.dom().contains(a as u64),
            |a: int| self.memory@[a as u64],
        )
    }

    /// Everything but the memory is the same.
    pub open spec fn same_but_memory(&self, other: &FakeHost) -> bool {
        &&& self.xregs == other.xregs
        &&& self.kva_error == other.kva_error
        &&& self.objects == other.objects
        &&& self.strict_linux_map == other.strict_linux_map
        &&& self.slots == other.slots
    }

    pub fn new() -> (host: FakeHost)
        ensures
            host.xregs.len() == 0,
            host.kva_error is None,
            host.objects.len() == 0,
            !host.strict_linux_map,
            host.memory@ == Map::<u64, u8>::empty(),
            host.room(),
            host.views() == Map::<usize, PageView>::empty(),
    {
        let host = FakeHost {
            memory: HashMap::new(),
            xregs: Vec::new(),
            kva_error: None,
            objects: Vec::new(),
            strict_linux_map: false,
            slots: Vec::new(),
        };
        assert(host.slot_views() =~= Map::<usize, PageView>::empty());
        host
    }

    /// Fill guest memory `[gpa, gpa + len)`.
    pub fn map_range(&mut self, gpa: u64, len: usize, fill: u8)
        requires
            gpa + len <= u64::MAX,
        ensures
            final(self).same_but_memory(old(self)),
            forall|a: u64| #[trigger]
                final(self).memory@.dom().contains(a) <==> old(self).memory@.dom().contains(a) || (
                gpa <= a < gpa + len),
            forall|a: u64|
                final(self).memory@.dom().contains(a) ==> #[trigger] final(self).memory@[a]
                    == if gpa <= a < gpa + len {
                    fill
                } else {
                    old(self).memory@[a]
                },
    {
        broadcast use vstd::std_specs::hash::group_hash_axioms;

        let mut i: usize = 0;
        while i < len
            invariant
                i <= len,
                gpa + len <= u64::MAX,
                self.same_but_memory(old(self)),
                forall|a: u64| #[trigger]
                    self.memory@.dom().contains(a) <==> old(self).memory@.dom().contains(a) || (gpa
                        <= a < gpa + i),
                forall|a: u64|
                    self.memory@.dom().contains(a) ==> #[trigger] self.memory@[a] == if gpa <= a
                        < gpa + i {
                        fill
                    } else {
                        old(self).memory@[a]
                    },
            decreases len - i,
        {
            self.memory.insert(gpa + i as u64, fill);
            i = i + 1;
        }
    }

    /// Set a register.
    pub fn set_xreg(&mut self, reg: u32, value: u64)
        ensures
            register(final(self).xregs@, reg) == Ok::<u64, MemError>(value),
            forall|r: u32|
                r != reg ==> #[trigger] register(final(self).xregs@, r) == register(
                    old(self).xregs@,
                    r,
                ),
            *final(self) == (FakeHost { xregs: final(self).xregs, ..*old(self) }),
    {
        self.xregs.push((reg, value));
        assert(self.xregs@.drop_last() =~= old(self).xregs@);
    }

    /// Write guest memory byte by byte, mapping what was not there.
    pub fn put_bytes(&mut self, gpa: u64, bytes: &[u8])
        requires
            gpa + bytes.len() <= u64::MAX,
        ensures
            memory_bytes(final(self).memory@, gpa, bytes@.len()) == Ok::<Seq<u8>, MemError>(bytes@),
            final(self).same_but_memory(old(self)),
            forall|a: u64|
                !(gpa <= a < gpa + bytes.len()) ==> #[trigger] same_byte(
                    old(self).memory@,
                    final(self).memory@,
                    a,
                ),
    {
        broadcast use vstd::std_specs::hash::group_hash_axioms;

        let mut i: usize = 0;
        while i < bytes.len()
            invariant
                i <= bytes.len(),
                gpa + bytes.len() <= u64::MAX,
                self.same_but_memory(old(self)),
                forall|a: u64|
                    !(gpa <= a < gpa + bytes.len()) ==> #[trigger] same_byte(
                        old(self).memory@,
                        self.memory@,
                        a,
                    ),
                forall|k: int|
                    0 <= k < i ==> #[trigger] byte_there(self.memory@, gpa, k)
                        && self.memory@[(gpa + k) as u64] == bytes@[k],
            decreases bytes.len() - i,
        {
            let ghost before = self.memory@;
            self.memory.insert(gpa + i as u64, bytes[i]);
            proof {
                assert forall|a: u64| !(gpa <= a < gpa + bytes.len()) implies #[trigger] same_byte(
                    old(self).memory@,
                    self.memory@,
                    a,
                ) by {
                    assert(same_byte(old(self).memory@, before, a));
                }
            }
            i = i + 1;
            assert forall|k: int| 0 <= k < i implies #[trigger] byte_there(self.memory@, gpa, k)
                && self.memory@[(gpa + k) as u64] == bytes@[k] by {
                if k < i - 1 {
                    assert(byte_there(before, gpa, k));
                }
            }
        }
        assert(bytes_from(self.memory@, gpa, bytes@.len()) =~= bytes@) by {
            assert forall|k: int| 0 <= k < bytes@.len() implies bytes@[k] == bytes_from(
                self.memory@,
                gpa,
                bytes@.len(),
            )[k] by {
                assert(byte_there(self.memory@, gpa, k));
            }
        }
    }

    fn read_memory(&self, at: u64, len: usize) -> (bytes: Result<Vec<u8>, MemError>)
        ensures
            match bytes {
                Ok(b) => memory_bytes(self.memory@, at, len as nat) == Ok::<Seq<u8>, MemError>(b@)
                    && b.len() == len,
                Err(e) => memory_bytes(self.memory@, at, len as nat) == Err::<Seq<u8>, MemError>(
                    e,
                ),
            },
    {
        broadcast use vstd::std_specs::hash::group_hash_axioms;

        let mut bytes: Vec<u8> = Vec::new();
        let mut i: usize = 0;
        while i < len
            invariant
                i <= len,
                bytes.len() == i,
                forall|k: int|
                    0 <= k < i ==> #[trigger] byte_there(self.memory@, at, k) && bytes[k]
                        == self.memory@[(at + k) as u64],
            decreases len - i,
        {
            let address: u64 = match at.checked_add(i as u64) {
                Some(a) => a,
                None => {
                    assert(!byte_there(self.memory@, at, i as int));
                    return Err(MemError::Unmapped);
                },
            };
            match self.memory.get(&address) {
                Some(b) => bytes.push(*b),
                None => {
                    assert(!byte_there(self.memory@, at, i as int));
                    return Err(MemError::Unmapped);
                },
            }
            i = i + 1;
        }
        assert(bytes@ =~= bytes_from(self.memory@, at, len as nat)) by {
            assert forall|k: int| 0 <= k < len implies bytes@[k] == bytes_from(
                self.memory@,
                at,
                len as nat,
            )[k] by {
                assert(byte_there(self.memory@, at, k));
            }
        }
        Ok(bytes)
    }

    fn find_object(&self, internal: u64) -> (slot: Option<usize>)
        ensures
            match slot {
                Some(i) => i < self.objects.len() && object_at(self.objects@, internal) == Some(
                    self.objects[i as int],
                ),
                None => object_at(self.objects@, internal) is None,
            },
    {
        let mut i: usize = 0;
        assert(self.objects@.skip(0) == self.objects@);
        while i < self.objects.len()
            invariant
                i <= self.objects.len(),
                object_at(self.objects@, internal) == object_at(
                    self.objects@.skip(i as int),
                    internal,
                ),
            decreases self.objects.len() - i,
        {
            assert(self.objects@.skip(i as int)[0] == self.objects@[i as int]);
            assert(self.objects@.skip(i as int).drop_first() == self.objects@.skip(i + 1));
            if self.objects[i].internal == internal {
                return Some(i);
            }
            i = i + 1;
        }
        None
    }

    fn find_fields(&self, fields: &MapperInternalFields) -> (slot: Option<usize>)
        ensures
            match slot {
                Some(i) => i < self.objects.len() && object_with(self.objects@, *fields) == Some(
                    self.objects[i as int],
                ),
                None => object_with(self.objects@, *fields) is None,
            },
    {
        let mut i: usize = 0;
        assert(self.objects@.skip(0) == self.objects@);
        while i < self.objects.len()
            invariant
                i <= self.objects.len(),
                object_with(self.objects@, *fields) == object_with(
                    self.objects@.skip(i as int),
                    *fields,
                ),
            decreases self.objects.len() - i,
        {
            assert(self.objects@.skip(i as int)[0] == self.objects@[i as int]);
            assert(self.objects@.skip(i as int).drop_first() == self.objects@.skip(i + 1));
            if self.objects[i].fields == *fields {
                return Some(i);
            }
            i = i + 1;
        }
        None
    }
}

/// What the tables show of the guest.
pub open spec fn guest_of(
    memory: Map<u64, u8>,
    xregs: Seq<(u32, u64)>,
    kva_error: Option<MemError>,
    objects: Seq<MapperObject>,
) -> GuestView {
    GuestView {
        gpa: |at: u64, len: nat| memory_bytes(memory, at, len),
        kva: |at: u64, len: nat|
            match kva_error {
                Some(error) => Err(error),
                None => memory_bytes(memory, at, len),
            },
        xreg: |reg: u32| register(xregs, reg),
        identity: |internal: u64, mapper: u64|
            match kva_error {
                Some(_) => Err(Status::ErrInternalRead("iosurface_mapper_internal_owner_read")),
                None => object_fields(objects, internal, mapper),
            },
        internal: |internal: u64, mapper: u64|
            match kva_error {
                Some(error) => Err(
                    InternalRefusal {
                        status: Status::ErrInternalRead("iosurface_mapper_internal_owner_read"),
                        host_error: Some(error),
                    },
                ),
                None => match object_fields(objects, internal, mapper) {
                    Ok(fields) => Ok(fields),
                    Err(status) => Err(InternalRefusal { status, host_error: None }),
                },
            },
        validation: |mapping_id: u32, fields: MapperInternalFields|
            if fields.mapping_id == mapping_id {
                Status::Passed
            } else {
                Status::ErrValidate("iosurface_validate_mapping_id_mismatch")
            },
        descriptor: |internal: u64|
            match kva_error {
                Some(error) => DescriptorView::Unreadable(error),
                None => match object_at(objects, internal) {
                    None => DescriptorView::Refused(
                        Status::ErrDescriptor("iosurface_mapper_device_desc_pointer_read"),
                    ),
                    Some(object) => match object.device {
                        Some(surface) => DescriptorView::Surface(surface@),
                        None => DescriptorView::Absent,
                    },
                },
            },
        plan: |mapping_id: u32, fields: MapperInternalFields, min_size: u64, page_shift: u32|
            object_plan(objects, fields, min_size, page_shift),
        structures: Set::empty(),
    }
}

/// Every byte of every page is there.
pub open spec fn pages_there(memory: Map<u64, u8>, gpas: Seq<u64>, page: nat) -> bool {
    forall|i: int, j: int|
        0 <= i < gpas.len() && 0 <= j < page ==> #[trigger] (gpas[i] + j) <= u64::MAX
            && memory.dom().contains((gpas[i] + j) as u64)
}

impl HostMemory for FakeHost {
    open spec fn guest(&self) -> GuestView {
        guest_of(self.memory@, self.xregs@, self.kva_error, self.objects@)
    }

    fn read_gpa(&self, gpa: u64, len: usize) -> (bytes: Result<Vec<u8>, MemError>) {
        self.read_memory(gpa, len)
    }
}

impl HostOps for FakeHost {
    open spec fn ram(&self) -> Map<int, u8> {
        self.ram_map()
    }

    open spec fn views(&self) -> Map<usize, PageView> {
        self.slot_views()
    }

    open spec fn packable(&self, gpas: Seq<u64>, page: nat) -> bool {
        &&& gpas.len() > 0
        &&& pages_there(self.memory@, gpas, page)
        &&& self.strict_linux_map ==> sequential(gpas, page)
    }

    open spec fn room(&self) -> bool {
        self.slots.len() < FAKE_VIEW_LIMIT || exists|i: int|
            0 <= i < self.slots.len() && (#[trigger] self.slots[i]) is None
    }

    fn read_kva(&self, kva: u64, len: usize) -> (bytes: Result<Vec<u8>, MemError>) {
        match self.kva_error {
            Some(error) => Err(error),
            None => self.read_memory(kva, len),
        }
    }

    fn read_xreg(&self, reg: u32) -> (value: Result<u64, MemError>) {
        let mut i: usize = self.xregs.len();
        assert(self.xregs@.take(i as int) == self.xregs@);
        while i > 0
            invariant
                i <= self.xregs.len(),
                register(self.xregs@, reg) == register(self.xregs@.take(i as int), reg),
            decreases i,
        {
            let (number, value) = self.xregs[i - 1];
            assert(self.xregs@.take(i as int).last() == (number, value));
            assert(self.xregs@.take(i as int).drop_last() == self.xregs@.take(i - 1));
            if number == reg {
                return Ok(value);
            }
            i = i - 1;
        }
        Err(MemError::XregUnavailable)
    }

    fn read_mapper_identity(&self, internal: u64, mapper: u64) -> (fields: Result<
        MapperInternalFields,
        Status,
    >) {
        if self.kva_error.is_some() {
            return Err(Status::ErrInternalRead("iosurface_mapper_internal_owner_read"));
        }
        match self.find_object(internal) {
            None => Err(Status::ErrInternalRead("iosurface_mapper_internal_owner_read")),
            Some(i) => if mapper != 0 && self.objects[i].owner != mapper {
                Err(Status::ErrInternalRead("iosurface_mapper_internal_owner_mismatch"))
            } else {
                Ok(self.objects[i].fields)
            },
        }
    }

    fn read_mapper_internal(&self, internal: u64, mapper: u64) -> (fields: Result<
        MapperInternalFields,
        InternalRefusal,
    >) {
        match self.kva_error {
            Some(error) => Err(
                InternalRefusal {
                    status: Status::ErrInternalRead("iosurface_mapper_internal_owner_read"),
                    host_error: Some(error),
                },
            ),
            None => match self.read_mapper_identity(internal, mapper) {
                Ok(fields) => Ok(fields),
                Err(status) => Err(InternalRefusal { status, host_error: None }),
            },
        }
    }

    fn validate_mapper_internal(&self, mapping_id: u32, fields: &MapperInternalFields) -> (status:
        Status) {
        if fields.mapping_id == mapping_id {
            Status::Passed
        } else {
            Status::ErrValidate("iosurface_validate_mapping_id_mismatch")
        }
    }

    fn read_device_descriptor(&self, internal: u64) -> (read: DescriptorRead) {
        match self.kva_error {
            Some(error) => DescriptorRead::Unreadable(error),
            None => match self.find_object(internal) {
                None => DescriptorRead::Refused(
                    Status::ErrDescriptor("iosurface_mapper_device_desc_pointer_read"),
                ),
                Some(i) => match &self.objects[i].device {
                    Some(surface) => DescriptorRead::Surface(surface.duplicate()),
                    None => DescriptorRead::Absent,
                },
            },
        }
    }

    fn build_table_plan(
        &self,
        _mapping_id: u32,
        fields: &MapperInternalFields,
        min_size: u64,
        page_shift: u32,
    ) -> (plan: Result<TablePlan, Status>) {
        match self.find_fields(fields) {
            None => Err(Status::ErrTable("iosurface_table_pointer_read")),
            Some(i) => {
                let object = &self.objects[i];
                let covers = page_shift < 64 && {
                    let page: u128 = page_size_of(page_shift) as u128;
                    let count: u128 = object.entries.len() as u128;
                    assert(count * page <= 0xffff_ffff_ffff_ffff * 0xffff_ffff_ffff_ffff)
                        by (nonlinear_arith)
                        requires
                            count <= 0xffff_ffff_ffff_ffff,
                            page <= 0xffff_ffff_ffff_ffff,
                    ;
                    count * page >= min_size as u128
                };
                if covers {
                    let entries = vstd::slice::slice_to_vec(object.entries.as_slice());
                    Ok(TablePlan { entries, page_table_kva: object.table_kva })
                } else {
                    Err(Status::ErrTable("iosurface_table_short"))
                }
            },
        }
    }

    fn map_pages(&mut self, gpas: &[u64], page_size: usize) -> (base: Option<usize>) {
        if !self.can_pack(gpas, page_size) {
            return None;
        }
        let n: usize = self.slots.len();
        let mut slot: usize = 0;
        while slot < n && self.slots[slot].is_some()
            invariant
                *self == *old(self),
                n == self.slots.len(),
                slot <= n,
                forall|k: int| 0 <= k < slot ==> (#[trigger] self.slots[k]) is Some,
            decreases n - slot,
        {
            slot = slot + 1;
        }
        if slot >= FAKE_VIEW_LIMIT {
            assert(slot == n || self.slots[slot as int] is None);
        }
        if slot == n && n >= FAKE_VIEW_LIMIT {
            return None;
        }
        let view = FakeView { gpas: vstd::slice::slice_to_vec(gpas), page: page_size };
        assert(view.gpas@ == gpas@);
        let ghost shown = PageView { gpas: gpas@, page: page_size as nat };
        let ghost before = *self;
        if slot == n {
            self.slots.push(Some(view));
        } else {
            if slot == usize::MAX {
                return None;
            }
            self.slots.set(slot, Some(view));
        }
        let base: usize = slot + 1;
        proof {
            assert(self.slots[slot as int] is Some);
            assert(self.slot_views() =~= before.slot_views().insert(base, shown));
            lemma_backed(self.memory@, gpas@, page_size as nat);
        }
        Some(base)
    }

    fn unmap_pages(&mut self, base: usize, _len: usize) {
        let ghost before = *self;
        if base >= 1 && base <= self.slots.len() {
            if self.slots[base - 1].is_some() {
                self.slots.set(base - 1, None);
                assert(self.slots[base - 1] is None);
            }
        }
        assert(self.slot_views() =~= before.slot_views().remove(base));
    }

    fn read_view(&self, base: usize, off: usize, len: usize) -> (bytes: Vec<u8>) {
        broadcast use vstd::std_specs::hash::group_hash_axioms;

        let ghost shown = self.views()[base];
        let mut bytes: Vec<u8> = Vec::new();
        match &self.slots[base - 1] {
            Some(view) => {
                let mut i: usize = 0;
                while i < len
                    invariant
                        i <= len,
                        shown == (PageView { gpas: view.gpas@, page: view.page as nat }),
                        view_backed(self.ram(), shown),
                        off + len <= shown.size(),
                        off + len <= usize::MAX,
                        bytes@ == view_bytes(self.ram(), shown, off as int, i as nat),
                    decreases len - i,
                {
                    let address: u64 = view.address_of(off + i, Ghost(self.ram()));
                    match self.memory.get(&address) {
                        Some(b) => bytes.push(*b),
                        None => {},
                    }
                    i = i + 1;
                    assert(bytes@ =~= view_bytes(self.ram(), shown, off as int, i as nat));
                }
            },
            None => {},
        }
        bytes
    }

    fn write_view(&mut self, base: usize, off: usize, buf: &[u8], from: usize, len: usize) {
        broadcast use vstd::std_specs::hash::group_hash_axioms;

        let ghost shown = self.views()[base];
        let ghost sub = buf@.subrange(from as int, from + len);
        let ghost start = self.ram();
        assert(sub.take(0) == Seq::<u8>::empty());
        let mut i: usize = 0;
        while i < len
            invariant
                i <= len,
                from + len <= buf.len(),
                sub == buf@.subrange(from as int, from + len),
                self.slots == old(self).slots,
                self.strict_linux_map == old(self).strict_linux_map,
                self.xregs == old(self).xregs,
                self.kva_error == old(self).kva_error,
                self.objects == old(self).objects,
                old(self).views().dom().contains(base),
                shown == old(self).views()[base],
                view_backed(start, shown),
                start == old(self).ram(),
                off + len <= shown.size(),
                off + len <= usize::MAX,
                self.ram() == view_written(start, shown, off as int, sub.take(i as int)),
                self.memory@.dom() == old(self).memory@.dom(),
            decreases len - i,
        {
            let address: u64 = match &self.slots[base - 1] {
                Some(view) => view.address_of(off + i, Ghost(start)),
                None => 0,
            };
            let ghost before = self.ram();
            self.memory.insert(address, buf[from + i]);
            proof {
                assert(self.ram() =~= before.insert(shown.address(off + i), buf@[from + i]));
                let next = sub.take(i + 1);
                assert(next.drop_last() == sub.take(i as int));
                assert(next.last() == buf@[from + i]);
                assert(start.dom().contains(shown.address(off + i)));
                assert(self.memory@.dom() =~= old(self).memory@.dom());
            }
            i = i + 1;
        }
        assert(sub.take(len as int) == sub);
        proof {
            let a = old(self).guest();
            let b = self.guest();
            assert(a.internal =~= b.internal);
            assert(a.validation =~= b.validation);
            assert(a.descriptor =~= b.descriptor);
            assert(a.plan =~= b.plan);
        }
    }
}

impl FakeView {
    fn address_of(&self, o: usize, Ghost(ram): Ghost<Map<int, u8>>) -> (address: u64)
        requires
            o < (PageView { gpas: self.gpas@, page: self.page as nat }).size(),
            view_backed(ram, PageView { gpas: self.gpas@, page: self.page as nat }),
            forall|a: int| #[trigger] ram.dom().contains(a) ==> 0 <= a <= u64::MAX,
        ensures
            address == (PageView { gpas: self.gpas@, page: self.page as nat }).address(o as int),
    {
        proof {
            let shown = PageView { gpas: self.gpas@, page: self.page as nat };
            assert(ram.dom().contains(shown.address(o as int)));
            assert(self.page > 0) by (nonlinear_arith)
                requires
                    o < self.gpas@.len() * self.page,
                    o >= 0,
                    self.page >= 0,
                    self.gpas@.len() >= 0,
            ;
            lemma_page_index(o as int, self.page as int, self.gpas@.len() as int);
        }
        self.gpas[o / self.page] + (o % self.page) as u64
    }
}

/// Byte `o` of `count` pages lies in one of them.
pub proof fn lemma_page_index(o: int, page: int, count: int)
    requires
        0 <= o < count * page,
        0 < page,
    ensures
        0 <= o / page < count,
        0 <= o % page < page,
        o == (o / page) * page + o % page,
{
    vstd::arithmetic::div_mod::lemma_fundamental_div_mod(o, page);
    vstd::arithmetic::div_mod::lemma_mod_bound(o, page);
    vstd::arithmetic::div_mod::lemma_div_pos_is_pos(o, page);
    assert(o / page < count) by (nonlinear_arith)
        requires
            o < count * page,
            o == page * (o / page) + o % page,
            o % page >= 0,
            page > 0,
    ;
    assert(o == (o / page) * page + o % page) by (nonlinear_arith)
        requires
            o == page * (o / page) + o % page,
    ;
}

/// A layout of pages that are all there is backed by memory.
proof fn lemma_backed(memory: Map<u64, u8>, gpas: Seq<u64>, page: nat)
    requires
        page > 0,
        pages_there(memory, gpas, page),
    ensures
        view_backed(
            Map::new(
                |a: int| 0 <= a <= u64::MAX && memory.dom().contains(a as u64),
                |a: int| memory[a as u64],
            ),
            PageView { gpas, page },
        ),
{
    let view = PageView { gpas, page };
    let ram = Map::new(
        |a: int| 0 <= a <= u64::MAX && memory.dom().contains(a as u64),
        |a: int| memory[a as u64],
    );
    assert forall|o: int| 0 <= o < view.size() implies ram.dom().contains(
        #[trigger] view.address(o),
    ) by {
        lemma_page_index(o, page as int, gpas.len() as int);
        let i = o / (page as int);
        let j = o % (page as int);
        assert((gpas[i] + j) <= u64::MAX);
    }
}

impl FakeHost {
    fn can_pack(&self, gpas: &[u64], page: usize) -> (r: bool)
        ensures
            r == self.packable(gpas@, page as nat),
    {
        broadcast use vstd::std_specs::hash::group_hash_axioms;

        if gpas.len() == 0 {
            return false;
        }
        let mut i: usize = 0;
        while i < gpas.len()
            invariant
                i <= gpas.len(),
                gpas.len() > 0,
                forall|a: int, j: int|
                    0 <= a < i && 0 <= j < page ==> #[trigger] (gpas@[a] + j) <= u64::MAX
                        && self.memory@.dom().contains((gpas@[a] + j) as u64),
                self.strict_linux_map ==> forall|a: int|
                    0 <= a < i && a < gpas.len() - 1 ==> #[trigger] gpas@[a] + page == gpas@[a + 1],
            decreases gpas.len() - i,
        {
            let mut j: usize = 0;
            while j < page
                invariant
                    i < gpas.len(),
                    j <= page,
                    forall|k: int|
                        0 <= k < j ==> #[trigger] (gpas@[i as int] + k) <= u64::MAX
                            && self.memory@.dom().contains((gpas@[i as int] + k) as u64),
                decreases page - j,
            {
                let there = match gpas[i].checked_add(j as u64) {
                    Some(a) => self.memory.contains_key(&a),
                    None => false,
                };
                if !there {
                    assert(!((gpas@[i as int] + j as int) <= u64::MAX
                        && self.memory@.dom().contains((gpas@[i as int] + j as int) as u64)));
                    return false;
                }
                j = j + 1;
            }
            if self.strict_linux_map && i + 1 < gpas.len() {
                let follows = match gpas[i].checked_add(page as u64) {
                    Some(a) => a == gpas[i + 1],
                    None => false,
                };
                if !follows {
                    assert(gpas@[i as int] + page != gpas@[i + 1]);
                    return false;
                }
            }
            i = i + 1;
        }
        true
    }
}

} // verus!
