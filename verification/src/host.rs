//! What the device asks of the machine that hosts it.
//!
//! A host reads guest memory and registers, walks the guest driver's mapping
//! objects, and lays guest pages out as host views. The library is written
//! against [`HostMemory`] and [`HostOps`]; [`crate::fake_host::FakeHost`] is an
//! implementation over tables.

use vstd::prelude::*;
use crate::contract::{DeviceSurface, DeviceSurfaceView};

verus! {

/// Why the host could not read.
#[derive(Clone, Copy, Debug, PartialEq, Eq, Structural)]
pub enum MemError {
    /// Nothing is mapped there.
    Unmapped,
    /// No processor context to translate the address with.
    NoCpu,
    /// The register cannot be read now.
    XregUnavailable,
    BadArgs,
}

impl MemError {
    pub open spec fn slug_spec(self) -> &'static str {
        match self {
            MemError::Unmapped => "host_mem_unmapped",
            MemError::NoCpu => "host_mem_no_cpu",
            MemError::XregUnavailable => "host_xreg_unavailable",
            MemError::BadArgs => "host_bad_args",
        }
    }

    pub fn slug(&self) -> (slug: &'static str)
        ensures
            slug == self.slug_spec(),
    {
        match self {
            MemError::Unmapped => "host_mem_unmapped",
            MemError::NoCpu => "host_mem_no_cpu",
            MemError::XregUnavailable => "host_xreg_unavailable",
            MemError::BadArgs => "host_bad_args",
        }
    }
}

/// The outcome of a check on the guest driver's mapping structures. A refusal
/// carries the name of the check.
#[derive(Clone, Copy, Debug, PartialEq, Eq)]
pub enum Status {
    Passed,
    ErrInternalRead(&'static str),
    ErrValidate(&'static str),
    ErrDescriptor(&'static str),
    ErrTable(&'static str),
}

impl Status {
    /// The name of the check that refused.
    pub open spec fn refusal_spec(self) -> Option<&'static str> {
        match self {
            Status::Passed => None,
            Status::ErrInternalRead(slug) => Some(slug),
            Status::ErrValidate(slug) => Some(slug),
            Status::ErrDescriptor(slug) => Some(slug),
            Status::ErrTable(slug) => Some(slug),
        }
    }

    pub fn refusal(&self) -> (slug: Option<&'static str>)
        ensures
            slug == self.refusal_spec(),
    {
        match self {
            Status::Passed => None,
            Status::ErrInternalRead(slug) => Some(*slug),
            Status::ErrValidate(slug) => Some(*slug),
            Status::ErrDescriptor(slug) => Some(*slug),
            Status::ErrTable(slug) => Some(*slug),
        }
    }

    pub open spec fn class_spec(self) -> &'static str {
        match self {
            Status::Passed => "ok",
            Status::ErrInternalRead(_) => "internal_read",
            Status::ErrValidate(_) => "validate",
            Status::ErrDescriptor(_) => "descriptor",
            Status::ErrTable(_) => "table",
        }
    }

    pub fn class(&self) -> (class: &'static str)
        ensures
            class == self.class_spec(),
    {
        match self {
            Status::Passed => "ok",
            Status::ErrInternalRead(_) => "internal_read",
            Status::ErrValidate(_) => "validate",
            Status::ErrDescriptor(_) => "descriptor",
            Status::ErrTable(_) => "table",
        }
    }
}

/// The fields of a mapping object that the page walk goes by.
#[derive(Clone, Copy, Debug, PartialEq, Eq, Structural)]
pub struct MapperInternalFields {
    pub mapping_id: u32,
    pub page_field_48: u64,
    pub page_field_50: u64,
    pub page_count: u64,
}

/// A refused read of a mapping object, with the host's own reason where the
/// memory read itself failed.
#[derive(Clone, Copy, Debug, PartialEq, Eq)]
pub struct InternalRefusal {
    pub status: Status,
    pub host_error: Option<MemError>,
}

/// What reading a mapping object's device descriptor gave.
pub enum DescriptorRead {
    /// The object points to no descriptor: the documented absent state.
    Absent,
    /// The pointer could not be read or is not one.
    Refused(Status),
    /// The pointer is good, the descriptor behind it could not be read.
    Unreadable(MemError),
    /// A descriptor that does not decode.
    Undecoded,
    Surface(DeviceSurface),
}

/// A device descriptor read as values.
pub enum DescriptorView {
    Absent,
    Refused(Status),
    Unreadable(MemError),
    Undecoded,
    Surface(DeviceSurfaceView),
}

impl View for DescriptorRead {
    type V = DescriptorView;

    open spec fn view(&self) -> DescriptorView {
        match self {
            DescriptorRead::Absent => DescriptorView::Absent,
            DescriptorRead::Refused(status) => DescriptorView::Refused(*status),
            DescriptorRead::Unreadable(error) => DescriptorView::Unreadable(*error),
            DescriptorRead::Undecoded => DescriptorView::Undecoded,
            DescriptorRead::Surface(surface) => DescriptorView::Surface(surface@),
        }
    }
}

/// A page table as walked.
pub struct TablePlan {
    pub entries: Vec<u32>,
    pub page_table_kva: u64,
}

/// A page table as values.
pub struct TablePlanView {
    pub entries: Seq<u32>,
    pub page_table_kva: u64,
}

impl View for TablePlan {
    type V = TablePlanView;

    open spec fn view(&self) -> TablePlanView {
        TablePlanView { entries: self.entries@, page_table_kva: self.page_table_kva }
    }
}

/// What the guest shows of itself at one moment: what each read would give.
pub struct GuestView {
    /// Guest-physical bytes: address and length.
    pub gpa: spec_fn(u64, nat) -> Result<Seq<u8>, MemError>,
    /// Kernel-virtual bytes: address and length.
    pub kva: spec_fn(u64, nat) -> Result<Seq<u8>, MemError>,
    /// A processor register.
    pub xreg: spec_fn(u32) -> Result<u64, MemError>,
    /// The identity fields of a mapping object, checked against its owner where
    /// one is known (non-zero).
    pub identity: spec_fn(u64, u64) -> Result<MapperInternalFields, Status>,
    /// All fields of a mapping object, checked likewise.
    pub internal: spec_fn(u64, u64) -> Result<MapperInternalFields, InternalRefusal>,
    /// Whether the fields are those of a mapping id.
    pub validation: spec_fn(u32, MapperInternalFields) -> Status,
    /// The device descriptor of a mapping object.
    pub descriptor: spec_fn(u64) -> DescriptorView,
    /// The page table of a mapping id: fields, size to cover, page shift.
    pub plan: spec_fn(u32, MapperInternalFields, u64, u32) -> Result<TablePlanView, Status>,
    /// The guest-physical addresses that mapping objects, descriptors and page tables
    /// lie at, and what translates the way to them.
    pub structures: Set<int>,
}

/// Two moments show the same mapping objects, descriptors and page tables, at the same
/// places. Other memory may differ.
pub open spec fn same_mappings_shown(a: GuestView, b: GuestView) -> bool {
    &&& a.internal == b.internal
    &&& a.validation == b.validation
    &&& a.descriptor == b.descriptor
    &&& a.plan == b.plan
    &&& a.structures == b.structures
}

/// None of the view's `len` bytes from `off` on lies at one of the addresses.
pub open spec fn avoids(addresses: Set<int>, view: PageView, off: int, len: int) -> bool {
    forall|o: int| off <= o < off + len ==> !addresses.contains(#[trigger] view.address(o))
}

/// A read gave what the guest shows.
pub open spec fn read_gives(
    read: Result<Vec<u8>, MemError>,
    shown: Result<Seq<u8>, MemError>,
    len: nat,
) -> bool {
    match read {
        Ok(bytes) => shown == Ok::<Seq<u8>, MemError>(bytes@) && bytes.len() == len,
        Err(error) => shown == Err::<Seq<u8>, MemError>(error),
    }
}

/// A host view: guest pages laid out one behind the other.
pub struct PageView {
    pub gpas: Seq<u64>,
    pub page: nat,
}

impl PageView {
    pub open spec fn size(self) -> int {
        (self.gpas.len() * self.page) as int
    }

    /// The guest-physical address of byte `o` of the view.
    pub open spec fn address(self, o: int) -> int {
        self.gpas[o / (self.page as int)] + o % (self.page as int)
    }
}

/// Bytes `off..off + len` of a view.
pub open spec fn view_bytes(ram: Map<int, u8>, view: PageView, off: int, len: nat) -> Seq<u8> {
    Seq::new(len, |i: int| ram[view.address(off + i)])
}

/// Memory after `bytes` were written to a view from `off` on, one by one.
pub open spec fn view_written(
    ram: Map<int, u8>,
    view: PageView,
    off: int,
    bytes: Seq<u8>,
) -> Map<int, u8>
    decreases bytes.len(),
{
    if bytes.len() == 0 {
        ram
    } else {
        view_written(ram, view, off, bytes.drop_last()).insert(
            view.address(off + bytes.len() - 1),
            bytes.last(),
        )
    }
}

/// Every byte of a view is memory.
pub open spec fn view_backed(ram: Map<int, u8>, view: PageView) -> bool {
    forall|o: int|
        0 <= o < view.size() ==> ram.dom().contains(#[trigger] view.address(o))
}

/// Reads of the guest.
pub trait HostMemory: Sized {
    /// What the guest shows now.
    spec fn guest(&self) -> GuestView;

    fn read_gpa(&self, gpa: u64, len: usize) -> (bytes: Result<Vec<u8>, MemError>)
        ensures
            read_gives(bytes, (self.guest().gpa)(gpa, len as nat), len as nat),
    ;
}

/// The rest of what a host does.
pub trait HostOps: HostMemory {
    /// Guest memory as the host reaches it, by guest-physical address.
    spec fn ram(&self) -> Map<int, u8>;

    /// The views that are mapped, by their base.
    spec fn views(&self) -> Map<usize, PageView>;

    /// The host can lay these pages out one behind the other.
    spec fn packable(&self, gpas: Seq<u64>, page: nat) -> bool;

    /// The host can map one more view.
    spec fn room(&self) -> bool;

    fn read_kva(&self, kva: u64, len: usize) -> (bytes: Result<Vec<u8>, MemError>)
        ensures
            read_gives(bytes, (self.guest().kva)(kva, len as nat), len as nat),
    ;

    fn read_xreg(&self, reg: u32) -> (value: Result<u64, MemError>)
        ensures
            value == (self.guest().xreg)(reg),
    ;

    fn read_mapper_identity(&self, internal: u64, mapper: u64) -> (fields: Result<
        MapperInternalFields,
        Status,
    >)
        ensures
            fields == (self.guest().identity)(internal, mapper),
    ;

    fn read_mapper_internal(&self, internal: u64, mapper: u64) -> (fields: Result<
        MapperInternalFields,
        InternalRefusal,
    >)
        ensures
            fields == (self.guest().internal)(internal, mapper),
    ;

    fn validate_mapper_internal(&self, mapping_id: u32, fields: &MapperInternalFields) -> (status:
        Status)
        ensures
            status == (self.guest().validation)(mapping_id, *fields),
    ;

    fn read_device_descriptor(&self, internal: u64) -> (read: DescriptorRead)
        ensures
            read@ == (self.guest().descriptor)(internal),
    ;

    fn build_table_plan(
        &self,
        mapping_id: u32,
        fields: &MapperInternalFields,
        min_size: u64,
        page_shift: u32,
    ) -> (plan: Result<TablePlan, Status>)
        ensures
            match plan {
                Ok(p) => (self.guest().plan)(mapping_id, *fields, min_size, page_shift) == Ok::<
                    TablePlanView,
                    Status,
                >(p@),
                Err(status) => (self.guest().plan)(mapping_id, *fields, min_size, page_shift)
                    == Err::<TablePlanView, Status>(status),
            },
    ;

    /// Lay guest pages out as one view; the host decides whether it can.
    fn map_pages(&mut self, gpas: &[u64], page_size: usize) -> (base: Option<usize>)
        requires
            page_size > 0,
        ensures
            base is Some <==> old(self).room() && old(self).packable(gpas@, page_size as nat),
            final(self).ram() == old(self).ram(),
            final(self).guest() == old(self).guest(),
            forall|g: Seq<u64>, p: nat| #[trigger]
                final(self).packable(g, p) == old(self).packable(g, p),
            match base {
                Some(b) => {
                    let view = PageView { gpas: gpas@, page: page_size as nat };
                    &&& b != 0
                    &&& !old(self).views().dom().contains(b)
                    &&& final(self).views() == old(self).views().insert(b, view)
                    &&& view_backed(final(self).ram(), view)
                },
                None => final(self).views() == old(self).views() && final(self).room() == old(
                    self,
                ).room(),
            },
    ;

    /// Give a view back. What is not a view is left alone.
    fn unmap_pages(&mut self, base: usize, len: usize)
        ensures
            final(self).ram() == old(self).ram(),
            final(self).guest() == old(self).guest(),
            final(self).views() == old(self).views().remove(base),
            old(self).views().dom().contains(base) ==> final(self).room(),
            !old(self).views().dom().contains(base) ==> final(self).room() == old(self).room(),
            forall|g: Seq<u64>, p: nat| #[trigger]
                final(self).packable(g, p) == old(self).packable(g, p),
    ;

    /// Copy bytes out of a view.
    fn read_view(&self, base: usize, off: usize, len: usize) -> (bytes: Vec<u8>)
        requires
            self.views().dom().contains(base),
            view_backed(self.ram(), self.views()[base]),
            off + len <= self.views()[base].size(),
            off + len <= usize::MAX,
        ensures
            bytes@ == view_bytes(self.ram(), self.views()[base], off as int, len as nat),
    ;

    /// Copy bytes `from..from + len` of a buffer into a view. The guest goes on to show
    /// the same mappings, unless the bytes are of what it shows them by.
    fn write_view(&mut self, base: usize, off: usize, buf: &[u8], from: usize, len: usize)
        requires
            old(self).views().dom().contains(base),
            view_backed(old(self).ram(), old(self).views()[base]),
            off + len <= old(self).views()[base].size(),
            off + len <= usize::MAX,
            from + len <= buf.len(),
        ensures
            final(self).ram() == view_written(
                old(self).ram(),
                old(self).views()[base],
                off as int,
                buf@.subrange(from as int, from + len),
            ),
            avoids(
                old(self).guest().structures,
                old(self).views()[base],
                off as int,
                len as int,
            ) ==> same_mappings_shown(old(self).guest(), final(self).guest()),
            final(self).views() == old(self).views(),
            final(self).room() == old(self).room(),
            forall|g: Seq<u64>, p: nat| #[trigger]
                final(self).packable(g, p) == old(self).packable(g, p),
    ;
}

} // verus!
