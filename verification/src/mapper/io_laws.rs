//! How the bytes of a surface are reached, run by run.

use vstd::prelude::*;
use crate::mapper::io::{
    bytes_before, bytes_reached, covered, overwritten, packed_to, run_end, run_touched, runs_pack,
};
use crate::model::DeviceView;
use crate::residency::{ComputeStorageResidencyKey, Victims};
use crate::residency_laws::law_removal_splits_the_windows;

verus! {

/// A run is of pages that lie one behind the other, and ends where the next does not.
pub proof fn law_runs_are_consecutive(gpas: Seq<u64>, i: int, page: nat)
    requires
        0 <= i < gpas.len(),
    ensures
        i < run_end(gpas, i, page) <= gpas.len(),
        forall|k: int|
            #![trigger gpas[k]]
            i <= k < run_end(gpas, i, page) - 1 ==> gpas[k] + page == gpas[k + 1],
        run_end(gpas, i, page) < gpas.len() ==> gpas[run_end(gpas, i, page) - 1] + page
            != gpas[run_end(gpas, i, page)],
    decreases gpas.len() - i,
{
    if i + 1 < gpas.len() && gpas[i] + page == gpas[i + 1] {
        law_runs_are_consecutive(gpas, i + 1, page);
    }
}

/// The byte lies in pages `i` to below `j`.
pub open spec fn in_pages(i: int, j: int, page: nat, b: int) -> bool {
    i * page <= b < j * page
}

/// A run is touched where one of the wanted bytes lies in it.
pub proof fn law_touched_runs(i: int, j: int, page: nat, lo: int, hi: int)
    requires
        i < j,
        page > 0,
        lo < hi,
    ensures
        run_touched(i, j, page, lo, hi) <==> exists|b: int|
            lo <= b < hi && #[trigger] in_pages(i, j, page, b),
{
    assert(i * page < j * page) by (nonlinear_arith)
        requires
            i < j,
            page > 0,
    ;
    if run_touched(i, j, page, lo, hi) {
        let b = if lo >= i * page {
            lo
        } else {
            i * page
        };
        assert(in_pages(i, j, page, b));
    }
}

/// Of the wanted bytes those are reached that lie before page `i`.
pub proof fn law_bytes_before_a_page(i: int, page: nat, off: int, len: int, k: int)
    requires
        0 <= len,
        0 <= k < len,
    ensures
        0 <= bytes_before(i, page, off, len) <= len,
        k < bytes_before(i, page, off, len) <==> off + k < i * page,
{
}

/// All touched runs can be laid out exactly where none stops the walk, and the walk stops at
/// a touched run that cannot be.
pub proof fn law_walks_stop_at_the_first_unpackable_run(
    packable: spec_fn(Seq<u64>, nat) -> bool,
    gpas: Seq<u64>,
    page: nat,
    i: int,
    lo: int,
    hi: int,
)
    requires
        0 <= i <= gpas.len(),
    ensures
        i <= packed_to(packable, gpas, page, i, lo, hi) <= gpas.len(),
        runs_pack(packable, gpas, page, i, lo, hi) <==> packed_to(packable, gpas, page, i, lo, hi)
            == gpas.len(),
        ({
            let k = packed_to(packable, gpas, page, i, lo, hi);
            let j = run_end(gpas, k, page);
            k < gpas.len() ==> run_touched(k, j, page, lo, hi) && !packable(
                gpas.subrange(k, j),
                page,
            )
        }),
    decreases gpas.len() - i,
{
    if i < gpas.len() {
        law_runs_are_consecutive(gpas, i, page);
        law_walks_stop_at_the_first_unpackable_run(
            packable,
            gpas,
            page,
            run_end(gpas, i, page),
            lo,
            hi,
        );
    }
}

/// Without room nothing is reached; with room, everything where all touched runs can be laid
/// out and the pages hold the bytes.
pub proof fn law_what_is_reached(
    room: bool,
    packable: spec_fn(Seq<u64>, nat) -> bool,
    gpas: Seq<u64>,
    page: nat,
    off: int,
    len: int,
)
    requires
        0 <= off,
        0 < len,
        off + len <= gpas.len() * page,
    ensures
        !room ==> bytes_reached(room, packable, gpas, page, off, len) == 0,
        room && runs_pack(packable, gpas, page, 0, off, off + len) ==> bytes_reached(
            room,
            packable,
            gpas,
            page,
            off,
            len,
        ) == len,
        0 <= bytes_reached(room, packable, gpas, page, off, len) <= len,
{
    law_walks_stop_at_the_first_unpackable_run(packable, gpas, page, 0, off, off + len);
    law_bytes_before_a_page(
        packed_to(packable, gpas, page, 0, off, off + len),
        page,
        off,
        len,
        0,
    );
}

/// A view covers bytes that end within its length.
pub proof fn law_covered_bytes(base: usize, length: usize, off: u64, len: int)
    ensures
        covered(Some((base, length)), off, len) <==> off + len <= length,
        !covered(None, off, len),
{
}

/// Overwriting bytes of a surface ends the residency of the windows that meet them, and
/// nothing else.
pub proof fn law_overwriting_ends_residency(
    state: DeviceView,
    id: u32,
    off: u64,
    len: int,
    entry: (ComputeStorageResidencyKey, u32),
)
    requires
        0 <= len,
        off + len <= 0xffff_ffff_ffff_ffff,
    ensures
        overwritten(state, id, off, len).compute_storage_residency.contains(entry)
            <==> state.compute_storage_residency.contains(entry) && !(entry.0.mapping_id == id
            && entry.0.surface_offset < off + len && entry.0.span_end > off),
        overwritten(state, id, off, len).mappings == state.mappings,
        overwritten(state, id, off, len).compute_deferred_flush == state.compute_deferred_flush,
        overwritten(state, id, off, len).render_deferred_flush == state.render_deferred_flush,
        overwritten(state, id, off, len).retired_views == state.retired_views,
{
    law_removal_splits_the_windows(
        state.compute_storage_residency,
        Victims::Meeting { mapping_id: id, lo: off, hi: (off + len) as u64 },
        entry,
    );
}

} // verus!
