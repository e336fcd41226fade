//! What views over guest pages show.

use vstd::prelude::*;
use crate::host::{
    GuestView, MemError, PageView, Status, avoids, read_gives, same_mappings_shown, view_backed,
    view_bytes, view_written,
};
use crate::mapping::{blank_mapping, next_generation};

verus! {

/// Byte `j` of page `i` of a view lies `j` bytes into the guest page `i`; the view is as
/// long as its pages.
pub proof fn law_views_lie_page_by_page(view: PageView, i: int, j: int)
    requires
        0 <= i < view.gpas.len(),
        0 <= j < view.page,
    ensures
        view.size() == view.gpas.len() * view.page,
        0 <= i * view.page + j < view.size(),
        view.address(i * view.page + j) == view.gpas[i] + j,
{
    let p = view.page as int;
    let n = view.gpas.len() as int;
    vstd::arithmetic::div_mod::lemma_fundamental_div_mod_converse(i * p + j, p, i, j);
    assert(0 <= i * p + j < n * p) by (nonlinear_arith)
        requires
            0 <= i < n,
            0 <= j < p,
    ;
}

/// Reading a view gives the guest's bytes at the addresses it shows.
pub proof fn law_views_show_the_guest(ram: Map<int, u8>, view: PageView, off: int, len: nat, k: int)
    requires
        0 <= k < len,
    ensures
        view_bytes(ram, view, off, len).len() == len,
        view_bytes(ram, view, off, len)[k] == ram[view.address(off + k)],
{
}

/// Writing a view changes the guest's bytes at the addresses it shows, and no others.
pub proof fn law_writes_stay_in_the_view(
    ram: Map<int, u8>,
    view: PageView,
    off: int,
    bytes: Seq<u8>,
    a: int,
)
    ensures
        (forall|k: int| 0 <= k < bytes.len() ==> #[trigger] view.address(off + k) != a)
            ==> view_written(ram, view, off, bytes)[a] == ram[a] && (view_written(
            ram,
            view,
            off,
            bytes,
        ).dom().contains(a) <==> ram.dom().contains(a)),
        bytes.len() > 0 && a == view.address(off + bytes.len() - 1) ==> view_written(
            ram,
            view,
            off,
            bytes,
        )[a] == bytes[bytes.len() - 1],
    decreases bytes.len(),
{
    if bytes.len() > 0 {
        let rest = bytes.drop_last();
        law_writes_stay_in_the_view(ram, view, off, rest, a);
        if forall|k: int| 0 <= k < bytes.len() ==> #[trigger] view.address(off + k) != a {
            assert(view.address(off + (bytes.len() - 1)) != a);
            assert forall|k: int| 0 <= k < rest.len() implies #[trigger] view.address(off + k)
                != a by {}
        }
    }
}

/// Bytes avoid addresses where none of them lies at one.
pub proof fn law_what_bytes_avoid(addresses: Set<int>, view: PageView, off: int, len: int, k: int)
    requires
        0 <= k < len,
    ensures
        addresses.contains(view.address(off + k)) ==> !avoids(addresses, view, off, len),
        avoids(Set::empty(), view, off, len),
{
    if avoids(addresses, view, off, len) {
        assert(!addresses.contains(view.address(off + k)));
    }
}

/// A view is backed where the guest has every byte of every page.
pub proof fn law_backed_views(ram: Map<int, u8>, view: PageView, i: int, j: int)
    requires
        view_backed(ram, view),
        0 <= i < view.gpas.len(),
        0 <= j < view.page,
    ensures
        ram.dom().contains(view.gpas[i] + j),
{
    law_views_lie_page_by_page(view, i, j);
    assert(ram.dom().contains(view.address(i * view.page + j)));
}

/// A read that succeeds gives what the guest shows, at the length asked for; one that fails
/// fails as the guest does.
pub proof fn law_reads_are_the_guests(
    read: Result<Vec<u8>, MemError>,
    shown: Result<Seq<u8>, MemError>,
    len: nat,
)
    requires
        read_gives(read, shown, len),
    ensures
        read is Ok <==> shown is Ok,
        read is Ok ==> read->Ok_0@ == shown->Ok_0 && shown->Ok_0.len() == len,
        read is Err ==> read->Err_0 == shown->Err_0,
{
}

/// Two guests that show the same mappings show the same objects, descriptors and tables.
pub proof fn law_same_mappings(a: GuestView, b: GuestView)
    ensures
        same_mappings_shown(a, b) ==> a.internal == b.internal && a.validation == b.validation
            && a.descriptor == b.descriptor && a.plan == b.plan && a.structures == b.structures,
        same_mappings_shown(a, b) <==> same_mappings_shown(b, a),
        same_mappings_shown(a, a),
{
}

/// How a failed read is named.
pub proof fn law_memory_errors_are_named(error: MemError)
    ensures
        error is Unmapped ==> error.slug_spec() == "host_mem_unmapped",
        error is NoCpu ==> error.slug_spec() == "host_mem_no_cpu",
        error is XregUnavailable ==> error.slug_spec() == "host_xreg_unavailable",
        error is BadArgs ==> error.slug_spec() == "host_bad_args",
{
}

/// A status that did not pass refuses with its own reason.
pub proof fn law_statuses_are_named(slug: &'static str)
    ensures
        Status::Passed.refusal_spec() is None,
        Status::Passed.class_spec() == "ok",
        Status::ErrInternalRead(slug).refusal_spec() == Some(slug),
        Status::ErrInternalRead(slug).class_spec() == "internal_read",
        Status::ErrValidate(slug).refusal_spec() == Some(slug),
        Status::ErrValidate(slug).class_spec() == "validate",
        Status::ErrDescriptor(slug).refusal_spec() == Some(slug),
        Status::ErrDescriptor(slug).class_spec() == "descriptor",
        Status::ErrTable(slug).refusal_spec() == Some(slug),
        Status::ErrTable(slug).class_spec() == "table",
{
}

/// A mapping starts unmapped, without pages, view, geometry or surface, in generation 0.
pub proof fn law_mappings_start_blank()
    ensures
        !blank_mapping().mapped,
        !blank_mapping().has_geom,
        blank_mapping().page_entries.len() == 0,
        blank_mapping().mapping_internal == 0,
        blank_mapping().page_table_kva == 0,
        blank_mapping().contig_ptr == 0,
        blank_mapping().contig_len == 0,
        blank_mapping().map_generation == 0,
        blank_mapping().content_generation == 0,
        blank_mapping().width == 0,
        blank_mapping().height == 0,
        blank_mapping().format == 0,
        blank_mapping().device is None,
        blank_mapping().condemned_entries is None,
        next_generation(blank_mapping().map_generation) == 1,
{
}

} // verus!
