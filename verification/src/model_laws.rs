//! What the device's own operations do to a mapping, field by field.

use vstd::prelude::*;
use crate::contract::entry_gpa;
use crate::mapping::next_generation;
use crate::model::{DeviceView, TaskSpan, valid_gpas, write_allowed};

verus! {

/// Generations count up and go on with one behind the last.
pub proof fn law_generations_count_up(current: u32)
    ensures
        current < 0xffff_ffff ==> next_generation(current) == current + 1,
        current == 0xffff_ffff ==> next_generation(current) == 1,
{
}

/// Dropping a mapping's pages leaves it mapped and measured, without pages or a view; its
/// incarnation is over, and the view it had waits to be given back.
pub proof fn law_dropping_pages(state: DeviceView, id: u32)
    requires
        state.mappings.dom().contains(id),
    ensures
        ({
            let after = state.invalidated(id);
            let old_m = state.mappings[id];
            let m = after.mappings[id];
            &&& m.page_entries.len() == 0 && m.page_table_kva == 0
            &&& m.contig_ptr == 0 && m.contig_len == 0
            &&& old_m.map_generation < 0xffff_ffff ==> m.map_generation == old_m.map_generation + 1
            &&& old_m.map_generation == 0xffff_ffff ==> m.map_generation == 1
            &&& m.content_generation == old_m.content_generation
            &&& m.mapped == old_m.mapped && m.mapping_internal == old_m.mapping_internal
            &&& m.has_geom == old_m.has_geom && m.device == old_m.device
            &&& m.width == old_m.width && m.height == old_m.height && m.format == old_m.format
            &&& m.condemned_entries == old_m.condemned_entries
            &&& old_m.contig_ptr == 0 ==> after.retired_views == state.retired_views
            &&& old_m.contig_ptr > 0 ==> after.retired_views == state.retired_views.push(
                (old_m.contig_ptr, old_m.contig_len),
            )
        }),
{
}

/// Writing to a mapping moves its content generation on, and nothing else.
pub proof fn law_writing_moves_the_content_on(state: DeviceView, id: u32)
    requires
        state.mappings.dom().contains(id),
    ensures
        ({
            let after = state.written(id);
            let old_m = state.mappings[id];
            let m = after.mappings[id];
            &&& m.content_generation == next_generation(old_m.content_generation)
            &&& m.map_generation == old_m.map_generation
            &&& m.page_entries == old_m.page_entries && m.contig_ptr == old_m.contig_ptr
            &&& m.mapped == old_m.mapped && m.mapping_internal == old_m.mapping_internal
            &&& m.has_geom == old_m.has_geom && m.width == old_m.width && m.height == old_m.height
            &&& after.retired_views == state.retired_views
        }),
{
}

/// What is done to a mapping that is not there does nothing.
pub proof fn law_unknown_mappings(state: DeviceView, id: u32)
    requires
        !state.mappings.dom().contains(id),
    ensures
        state.invalidated(id) == state,
        state.written(id) == state,
        state.unmapped(id) == state,
        state.aliases_indexed(id) == state,
{
}

/// The pages of a list are those of its valid entries, in their order.
pub proof fn law_pages_of_a_list(entries: Seq<u32>, entry: u32, page_shift: u32)
    ensures
        valid_gpas(Seq::empty(), page_shift).len() == 0,
        entry as int % 2 == 1 ==> valid_gpas(entries.push(entry), page_shift) == valid_gpas(
            entries,
            page_shift,
        ).push(entry_gpa(entry, page_shift)->0),
        entry as int % 2 == 0 ==> valid_gpas(entries.push(entry), page_shift) == valid_gpas(
            entries,
            page_shift,
        ),
{
    assert(entry & 1 != 0 <==> entry % 2 == 1) by (bit_vector);
    assert(entries.push(entry).drop_last() =~= entries);
}

/// The pages of a mapping that owes its contents are indexed by the mapping, one by one.
pub proof fn law_alias_pages_are_indexed(state: DeviceView, id: u32, i: int)
    requires
        state.mappings.dom().contains(id),
        0 <= i < valid_gpas(state.mappings[id].page_entries, state.page_shift).len(),
    ensures
        ({
            let after = state.aliases_indexed(id).deferred_alias_pages;
            let pages = valid_gpas(state.mappings[id].page_entries, state.page_shift);
            let before = state.deferred_alias_pages;
            &&& after.len() == before.len() + pages.len()
            &&& after[before.len() + i] == (pages[i], id)
            &&& after.take(before.len() as int) == before
        }),
{
    let after = state.aliases_indexed(id).deferred_alias_pages;
    assert(after.take(state.deferred_alias_pages.len() as int) =~= state.deferred_alias_pages);
}

/// The address lies in the span.
pub open spec fn in_span(span: TaskSpan, b: int) -> bool {
    span.gva <= b < span.gva + span.len
}

/// A task may be written where one of its spans holds all the bytes, or where nothing is
/// known of its memory.
pub proof fn law_where_a_task_may_be_written(
    spans: Seq<TaskSpan>,
    task_id: u32,
    gva: u64,
    len: u64,
)
    requires
        len > 0,
    ensures
        write_allowed(spans, task_id, gva, len) <==> {
            ||| exists|k: int|
                0 <= k < spans.len() && (#[trigger] spans[k]).task_id == task_id && forall|b: int|
                    gva <= b < gva + len ==> #[trigger] in_span(spans[k], b)
            ||| forall|k: int| 0 <= k < spans.len() ==> (#[trigger] spans[k]).task_id != task_id
        },
{
    if exists|k: int|
        0 <= k < spans.len() && (#[trigger] spans[k]).task_id == task_id && forall|b: int|
            gva <= b < gva + len ==> #[trigger] in_span(spans[k], b) {
        let k = choose|k: int|
            0 <= k < spans.len() && (#[trigger] spans[k]).task_id == task_id && forall|b: int|
                gva <= b < gva + len ==> #[trigger] in_span(spans[k], b);
        let first = gva as int;
        let last = gva + len - 1;
        assert(in_span(spans[k], first) && in_span(spans[k], last));
        assert(crate::model::span_covers(spans[k], task_id, gva, len));
    }
    if exists|k: int|
        0 <= k < spans.len() && crate::model::span_covers(
            #[trigger] spans[k],
            task_id,
            gva,
            len,
        ) {
        let k = choose|k: int|
            0 <= k < spans.len() && crate::model::span_covers(
                #[trigger] spans[k],
                task_id,
                gva,
                len,
            );
        assert(spans[k].task_id == task_id);
    }
}

} // verus!
