//! Contents that an engine still owes to a mapping's bytes.

use vstd::prelude::*;
use crate::contract::page_bytes;
use crate::host::GuestView;
use crate::mapper::resolve::{resolution, resolve_geometry, revalidation};
use crate::model::{DeviceState, DeviceView};
use crate::observe::LatchView;
use crate::residency::{ComputeStorageResidencyKey, Victims, survivors, taken};

verus! {

/// One of the owed windows meets bytes `[lo, hi)` of the mapping.
pub open spec fn owed_at(
    windows: Seq<(ComputeStorageResidencyKey, u32)>,
    mapping_id: u32,
    lo: u64,
    hi: u64,
) -> bool {
    exists|i: int| 0 <= i < windows.len() && (#[trigger] windows[i]).0.meets(mapping_id, lo, hi)
}

/// Contents that an engine holds are owed to bytes `[lo, hi)` of the mapping: what the
/// guest has there is older.
pub open spec fn owes_bytes(state: DeviceView, mapping_id: u32, lo: u64, hi: u64) -> bool {
    owed_at(state.compute_deferred_flush, mapping_id, lo, hi) || owed_at(
        state.render_deferred_flush,
        mapping_id,
        lo,
        hi,
    )
}

/// The windows that an access has to land first, with their generations.
#[derive(Clone, Debug, PartialEq, Eq)]
pub struct OwedContents {
    pub compute: Vec<(ComputeStorageResidencyKey, u32)>,
    pub render: Vec<(ComputeStorageResidencyKey, u32)>,
}

/// Take the windows that are owed to bytes `[lo, hi)` of a mapping. The caller lands
/// their contents in the guest; nothing is owed there any longer.
///
/// Every access of a mapping's bytes from the host comes after this, for an engine's
/// output may stay in the engine until somebody looks.
pub fn flush_intersecting(state: &mut DeviceState, mapping_id: u32, lo: u64, hi: u64) -> (owed:
    OwedContents)
    requires
        old(state).wf(),
    ensures
        final(state).wf(),
        owed.compute@ == taken(
            old(state)@.compute_deferred_flush,
            Victims::Meeting { mapping_id, lo, hi },
        ),
        owed.render@ == taken(
            old(state)@.render_deferred_flush,
            Victims::Meeting { mapping_id, lo, hi },
        ),
        final(state)@ == (DeviceView {
            compute_deferred_flush: survivors(
                old(state)@.compute_deferred_flush,
                Victims::Meeting { mapping_id, lo, hi },
            ),
            render_deferred_flush: survivors(
                old(state)@.render_deferred_flush,
                Victims::Meeting { mapping_id, lo, hi },
            ),
            ..old(state)@
        }),
        !owes_bytes(final(state)@, mapping_id, lo, hi),
{
    let victims = Victims::Meeting { mapping_id, lo, hi };
    let compute = state.take_deferred_flush_windows(mapping_id, lo, hi);
    let render = state.render_deferred_flush.take_all(victims);
    proof {
        lemma_none_owed(old(state)@.compute_deferred_flush, mapping_id, lo, hi);
        lemma_none_owed(old(state)@.render_deferred_flush, mapping_id, lo, hi);
    }
    OwedContents { compute, render }
}

proof fn lemma_none_owed(
    windows: Seq<(ComputeStorageResidencyKey, u32)>,
    mapping_id: u32,
    lo: u64,
    hi: u64,
)
    ensures
        !owed_at(
            survivors(windows, Victims::Meeting { mapping_id, lo, hi }),
            mapping_id,
            lo,
            hi,
        ),
{
    let victims = Victims::Meeting { mapping_id, lo, hi };
    let kept = |e: (ComputeStorageResidencyKey, u32)| !victims.takes(e.0);
    let left = windows.filter(kept);
    assert(survivors(windows, victims) == left);
    assert forall|i: int| 0 <= i < left.len() implies !(#[trigger] left[i]).0.meets(
        mapping_id,
        lo,
        hi,
    ) by {
        windows.lemma_filter_pred(kept, i);
    }
}

/// What `after` owes to any bytes, `before` owed too.
pub open spec fn owes_no_more(before: DeviceView, after: DeviceView) -> bool {
    forall|mapping_id: u32, lo: u64, hi: u64|
        #![trigger owed_at(after.compute_deferred_flush, mapping_id, lo, hi)]
        #![trigger owed_at(after.render_deferred_flush, mapping_id, lo, hi)]
        owes_bytes(after, mapping_id, lo, hi) ==> owes_bytes(before, mapping_id, lo, hi)
}

proof fn lemma_survivors_owed(
    windows: Seq<(ComputeStorageResidencyKey, u32)>,
    victims: Victims,
    mapping_id: u32,
    lo: u64,
    hi: u64,
)
    requires
        owed_at(survivors(windows, victims), mapping_id, lo, hi),
    ensures
        owed_at(windows, mapping_id, lo, hi),
{
    let kept = |e: (ComputeStorageResidencyKey, u32)| !victims.takes(e.0);
    let left = windows.filter(kept);
    assert(survivors(windows, victims) == left);
    let i = choose|i: int|
        0 <= i < left.len() && (#[trigger] left[i]).0.meets(mapping_id, lo, hi);
    assert(left.contains(left[i]));
    windows.lemma_filter_contains_rev(kept, left[i]);
    let j = choose|j: int| 0 <= j < windows.len() && windows[j] == left[i];
    assert(windows[j].0.meets(mapping_id, lo, hi));
}

proof fn lemma_dropped_windows_owe_no_more(state: DeviceView, id: u32, after: DeviceView)
    requires
        after.compute_deferred_flush == state.compute_deferred_flush
            || after.compute_deferred_flush == state.without_windows(id).compute_deferred_flush,
        after.render_deferred_flush == state.render_deferred_flush || after.render_deferred_flush
            == state.without_windows(id).render_deferred_flush,
    ensures
        owes_no_more(state, after),
{
    let victims = Victims::OfMapping { mapping_id: id };
    assert forall|m: u32, lo: u64, hi: u64|
        #![trigger owed_at(after.compute_deferred_flush, m, lo, hi)]
        #![trigger owed_at(after.render_deferred_flush, m, lo, hi)]
        owes_bytes(after, m, lo, hi) implies owes_bytes(state, m, lo, hi) by {
        if owed_at(after.compute_deferred_flush, m, lo, hi) {
            if after.compute_deferred_flush != state.compute_deferred_flush {
                lemma_survivors_owed(state.compute_deferred_flush, victims, m, lo, hi);
            }
        } else if after.render_deferred_flush != state.render_deferred_flush {
            lemma_survivors_owed(state.render_deferred_flush, victims, m, lo, hi);
        }
    }
}

/// A revalidation makes nothing owed.
pub proof fn lemma_revalidation_owes_no_more(
    state: DeviceView,
    latch: LatchView,
    guest: GuestView,
    mapping_id: u32,
)
    ensures
        owes_no_more(state, revalidation(state, latch, guest, mapping_id).state),
{
    reveal(resolution);
    let r = revalidation(state, latch, guest, mapping_id);
    if state.mappings.dom().contains(mapping_id) {
        let m = state.mappings[mapping_id];
        match (guest.internal)(m.mapping_internal, state.mapper_device_kva) {
            Ok(fields) => {
                let read = (guest.descriptor)(m.mapping_internal);
                let geometry = resolve_geometry(m, read, page_bytes(state.page_shift));
                match (guest.plan)(mapping_id, fields, geometry.min_size, state.page_shift) {
                    Ok(plan) => {
                        let victims = Victims::OfMapping { mapping_id };
                        lemma_twice(state.compute_deferred_flush, victims);
                        lemma_twice(state.render_deferred_flush, victims);
                    },
                    Err(_) => {},
                }
            },
            Err(_) => {},
        }
    }
    lemma_dropped_windows_owe_no_more(state, mapping_id, r.state);
}

/// Removing the same victims twice is removing them once.
proof fn lemma_twice(windows: Seq<(ComputeStorageResidencyKey, u32)>, victims: Victims)
    ensures
        survivors(survivors(windows, victims), victims) == survivors(windows, victims),
    decreases windows.len(),
{
    reveal(Seq::filter);
    if windows.len() > 0 {
        lemma_twice(windows.drop_last(), victims);
        let rest = survivors(windows.drop_last(), victims);
        if !victims.takes(windows.last().0) {
            assert(rest.push(windows.last()).drop_last() =~= rest);
        }
    }
}

} // verus!
