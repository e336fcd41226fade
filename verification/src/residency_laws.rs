//! What is recorded of windows, by their bytes.

use vstd::prelude::*;
use crate::residency::{
    ComputeStorageResidencyKey, Victims, in_key_order, is_inserted, lemma_lookup_at, lookup,
    siblings, survivors, taken, thinned,
};

verus! {

/// Byte `b` of the mapping lies in the window.
pub open spec fn holds_byte(key: ComputeStorageResidencyKey, mapping_id: u32, b: int) -> bool {
    key.mapping_id == mapping_id && key.surface_offset <= b < key.span_end
}

/// A window meets a range of a mapping where a byte lies in both, as long as neither is
/// empty.
pub proof fn law_windows_meet_in_a_byte(
    key: ComputeStorageResidencyKey,
    mapping_id: u32,
    lo: u64,
    hi: u64,
)
    requires
        lo < hi,
        key.surface_offset < key.span_end,
    ensures
        key.meets(mapping_id, lo, hi) <==> exists|b: int|
            lo <= b < hi && #[trigger] holds_byte(key, mapping_id, b),
{
    if key.meets(mapping_id, lo, hi) {
        let b = if lo >= key.surface_offset {
            lo as int
        } else {
            key.surface_offset as int
        };
        assert(holds_byte(key, mapping_id, b));
    }
}

/// Removing windows keeps the others with their generations and takes the victims; what
/// is taken and what is left make up what was there. The victims are the windows that
/// meet a range, those of a mapping, or one.
pub proof fn law_removal_splits_the_windows(
    entries: Seq<(ComputeStorageResidencyKey, u32)>,
    victims: Victims,
    e: (ComputeStorageResidencyKey, u32),
)
    ensures
        ({
            let hit = match victims {
                Victims::Meeting { mapping_id, lo, hi } => e.0.mapping_id == mapping_id
                    && e.0.surface_offset < hi && e.0.span_end > lo,
                Victims::OfMapping { mapping_id } => e.0.mapping_id == mapping_id,
                Victims::One { key } => e.0 == key,
            };
            &&& survivors(entries, victims).contains(e) <==> entries.contains(e) && !hit
            &&& taken(entries, victims).contains(e) <==> entries.contains(e) && hit
            &&& survivors(entries, victims).len() + taken(entries, victims).len() == entries.len()
        }),
    decreases entries.len(),
{
    reveal(Seq::filter);
    if entries.len() > 0 {
        let rest = entries.drop_last();
        law_removal_splits_the_windows(rest, victims, e);
        let last = entries.last();
        assert(entries == rest.push(last));
        lemma_push_contains(rest, last, e);
        lemma_push_contains(survivors(rest, victims), last, e);
        lemma_push_contains(taken(rest, victims), last, e);
    }
}

proof fn lemma_push_contains(
    s: Seq<(ComputeStorageResidencyKey, u32)>,
    last: (ComputeStorageResidencyKey, u32),
    e: (ComputeStorageResidencyKey, u32),
)
    ensures
        s.push(last).contains(e) <==> s.contains(e) || e == last,
{
    let more = s.push(last);
    assert(more[s.len() as int] == last);
    if s.contains(e) {
        let i = choose|i: int| 0 <= i < s.len() && s[i] == e;
        assert(more[i] == e);
    }
    if more.contains(e) && e != last {
        let i = choose|i: int| 0 <= i < more.len() && more[i] == e;
        assert(s[i] == e);
    }
}

/// What is looked up is what is there.
pub proof fn law_lookup_finds_what_is_there(
    entries: Seq<(ComputeStorageResidencyKey, u32)>,
    key: ComputeStorageResidencyKey,
    generation: u32,
)
    requires
        in_key_order(entries),
    ensures
        lookup(entries, key) == Some(generation) <==> entries.contains((key, generation)),
{
    if entries.contains((key, generation)) {
        let i = choose|i: int| 0 <= i < entries.len() && entries[i] == (key, generation);
        lemma_lookup_at(entries, i);
    }
    if lookup(entries, key) == Some(generation) {
        let i = choose|i: int| crate::residency::holds_at(entries, i, key);
        assert(crate::residency::holds_at(entries, i, key));
        assert(entries[i] == (key, generation));
    }
}

/// An inserted window is there at its generation and at no other; the other windows stay
/// at theirs.
pub proof fn law_insertion_adds_one_window(
    before: Seq<(ComputeStorageResidencyKey, u32)>,
    key: ComputeStorageResidencyKey,
    generation: u32,
    after: Seq<(ComputeStorageResidencyKey, u32)>,
    e: (ComputeStorageResidencyKey, u32),
)
    requires
        in_key_order(before),
        is_inserted(before, key, generation, after),
    ensures
        after.contains(e) <==> e == (key, generation) || (e.0 != key && before.contains(e)),
{
    law_lookup_finds_what_is_there(after, e.0, e.1);
    law_lookup_finds_what_is_there(before, e.0, e.1);
    assert(lookup(after, e.0) == if e.0 == key {
        Some(generation)
    } else {
        lookup(before, e.0)
    });
}

/// Windows of linear memory and of heaps have numbers of their own, and their keys hold
/// the task, the texture and the geometry; a heap's has no place in memory.
pub proof fn law_window_keys(
    task_id: u32,
    texture_ref: u32,
    gva: u64,
    row_stride: u32,
    span: u64,
    width: u32,
    height: u32,
    pixel_format: u16,
)
    ensures
        ({
            let linear = ComputeStorageResidencyKey::spec_linear(
                task_id,
                texture_ref,
                gva,
                row_stride,
                span,
                width,
                height,
                pixel_format,
            );
            let heap = ComputeStorageResidencyKey::spec_heap(
                task_id,
                texture_ref,
                width,
                height,
                pixel_format,
            );
            &&& linear.mapping_id == 0xffff_ffff && heap.mapping_id == 0xffff_fffe
            &&& linear.linear_key() && !linear.heap_key()
            &&& heap.heap_key() && !heap.linear_key()
            &&& linear.map_generation == task_id && heap.map_generation == task_id
            &&& linear.texture_ref == texture_ref && heap.texture_ref == texture_ref
            &&& linear.width == width && heap.width == width
            &&& linear.height == height && heap.height == height
            &&& linear.pixel_format == pixel_format && heap.pixel_format == pixel_format
            &&& linear.surface_offset == gva && heap.surface_offset == 0
            &&& linear.surface_bpr == row_stride && heap.surface_bpr == 0
            &&& linear.span_end == span && heap.span_end == 0
        }),
{
}

/// A window of a mapped surface is neither linear nor of a heap.
pub proof fn law_surface_windows(key: ComputeStorageResidencyKey)
    ensures
        key.mapping_id < 0xffff_fffe <==> !key.linear_key() && !key.heap_key(),
        key.linear_key() <==> key.mapping_id == 0xffff_ffff,
        key.heap_key() <==> key.mapping_id == 0xffff_fffe,
{
}

/// Thinning takes the first windows of a mapping other than the given one, as many as
/// are asked for, and keeps all windows of other mappings and the given one.
pub proof fn law_thinning_takes_the_first(
    entries: Seq<(ComputeStorageResidencyKey, u32)>,
    key: ComputeStorageResidencyKey,
    n: int,
    e: (ComputeStorageResidencyKey, u32),
)
    requires
        n >= 0,
    ensures
        ({
            let other = e.0.mapping_id == key.mapping_id && e.0 != key;
            &&& !other ==> (thinned(entries, key, n).contains(e) <==> entries.contains(e))
            &&& thinned(entries, key, n).contains(e) ==> entries.contains(e)
        }),
        forall|i: int|
            0 <= i < entries.len() && siblings(entries.take(i), key) >= n ==> thinned(
                entries,
                key,
                n,
            ).contains(#[trigger] entries[i]),
    decreases entries.len(),
{
    if entries.len() > 0 {
        let rest = entries.drop_last();
        let last = entries.last();
        law_thinning_takes_the_first(rest, key, n, e);
        assert(entries == rest.push(last));
        lemma_push_contains(rest, last, e);
        lemma_push_contains(thinned(rest, key, n), last, e);
        let out = thinned(entries, key, n);
        assert forall|i: int|
            0 <= i < entries.len() && siblings(entries.take(i), key) >= n implies out.contains(
            #[trigger] entries[i],
        ) by {
            if i < rest.len() {
                assert(rest.take(i) =~= entries.take(i));
                assert(rest[i] == entries[i]);
                assert(thinned(rest, key, n).contains(rest[i]));
                lemma_push_contains(thinned(rest, key, n), last, entries[i]);
            } else {
                assert(entries.take(i) =~= rest);
                lemma_push_contains(thinned(rest, key, n), last, last);
            }
        }
    }
}

} // verus!
