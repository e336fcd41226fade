//! Which byte windows the engine holds as GPU-resident storage images.

use vstd::prelude::*;

verus! {

/// The identity of a storage window: a byte window of a mapped surface, of a
/// linear texture, or a heap texture that has no guest bytes at all.
#[derive(Clone, Copy, Debug, PartialEq, Eq, Structural)]
pub struct ComputeStorageResidencyKey {
    pub mapping_id: u32,
    pub map_generation: u32,
    pub surface_offset: u64,
    pub surface_bpr: u32,
    pub span_end: u64,
    pub width: u32,
    pub height: u32,
    pub pixel_format: u16,
    /// Zero for a window of a mapped surface.
    pub texture_ref: u32,
}

/// In place of a mapping id: the window of a linear texture. Its generation is the
/// task, its offset the task address, its end the length of its span.
pub const LINEAR_MAPPING_ID: u32 = 0xffff_ffff;
/// In place of a mapping id: a heap texture. Its generation is the task.
pub const HEAP_MAPPING_ID: u32 = 0xffff_fffe;

impl ComputeStorageResidencyKey {
    pub open spec fn linear_key(&self) -> bool {
        self.mapping_id == LINEAR_MAPPING_ID
    }

    pub open spec fn heap_key(&self) -> bool {
        self.mapping_id == HEAP_MAPPING_ID
    }

    /// A window of a linear texture.
    pub fn is_linear(&self) -> (r: bool)
        ensures
            r == self.linear_key(),
    {
        self.mapping_id == LINEAR_MAPPING_ID
    }

    /// A heap texture.
    pub fn is_heap(&self) -> (r: bool)
        ensures
            r == self.heap_key(),
    {
        self.mapping_id == HEAP_MAPPING_ID
    }

    pub open spec fn spec_heap(
        task_id: u32,
        texture_ref: u32,
        width: u32,
        height: u32,
        pixel_format: u16,
    ) -> ComputeStorageResidencyKey {
        ComputeStorageResidencyKey {
            mapping_id: HEAP_MAPPING_ID,
            map_generation: task_id,
            surface_offset: 0,
            surface_bpr: 0,
            span_end: 0,
            width,
            height,
            pixel_format,
            texture_ref,
        }
    }

    /// The identity of a heap texture.
    pub fn heap(
        task_id: u32,
        texture_ref: u32,
        width: u32,
        height: u32,
        pixel_format: u16,
    ) -> (key: ComputeStorageResidencyKey)
        ensures
            key == ComputeStorageResidencyKey::spec_heap(
                task_id,
                texture_ref,
                width,
                height,
                pixel_format,
            ),
            key.heap_key() && !key.linear_key(),
    {
        ComputeStorageResidencyKey {
            mapping_id: HEAP_MAPPING_ID,
            map_generation: task_id,
            surface_offset: 0,
            surface_bpr: 0,
            span_end: 0,
            width,
            height,
            pixel_format,
            texture_ref,
        }
    }

    pub open spec fn spec_linear(
        task_id: u32,
        texture_ref: u32,
        gva: u64,
        row_stride: u32,
        span: u64,
        width: u32,
        height: u32,
        pixel_format: u16,
    ) -> ComputeStorageResidencyKey {
        ComputeStorageResidencyKey {
            mapping_id: LINEAR_MAPPING_ID,
            map_generation: task_id,
            surface_offset: gva,
            surface_bpr: row_stride,
            span_end: span,
            width,
            height,
            pixel_format,
            texture_ref,
        }
    }

    /// The identity of a linear texture's window.
    pub fn linear(
        task_id: u32,
        texture_ref: u32,
        gva: u64,
        row_stride: u32,
        span: u64,
        width: u32,
        height: u32,
        pixel_format: u16,
    ) -> (key: ComputeStorageResidencyKey)
        ensures
            key == ComputeStorageResidencyKey::spec_linear(
                task_id,
                texture_ref,
                gva,
                row_stride,
                span,
                width,
                height,
                pixel_format,
            ),
            key.linear_key() && !key.heap_key(),
    {
        ComputeStorageResidencyKey {
            mapping_id: LINEAR_MAPPING_ID,
            map_generation: task_id,
            surface_offset: gva,
            surface_bpr: row_stride,
            span_end: span,
            width,
            height,
            pixel_format,
            texture_ref,
        }
    }

    /// Keys are ordered field by field, the byte window first.
    pub open spec fn before(&self, other: &ComputeStorageResidencyKey) -> bool {
        if self.mapping_id != other.mapping_id {
            self.mapping_id < other.mapping_id
        } else if self.map_generation != other.map_generation {
            self.map_generation < other.map_generation
        } else if self.surface_offset != other.surface_offset {
            self.surface_offset < other.surface_offset
        } else if self.surface_bpr != other.surface_bpr {
            self.surface_bpr < other.surface_bpr
        } else if self.span_end != other.span_end {
            self.span_end < other.span_end
        } else if self.width != other.width {
            self.width < other.width
        } else if self.height != other.height {
            self.height < other.height
        } else if self.pixel_format != other.pixel_format {
            self.pixel_format < other.pixel_format
        } else {
            self.texture_ref < other.texture_ref
        }
    }

    fn is_before(&self, other: &ComputeStorageResidencyKey) -> (r: bool)
        ensures
            r == self.before(other),
    {
        if self.mapping_id != other.mapping_id {
            self.mapping_id < other.mapping_id
        } else if self.map_generation != other.map_generation {
            self.map_generation < other.map_generation
        } else if self.surface_offset != other.surface_offset {
            self.surface_offset < other.surface_offset
        } else if self.surface_bpr != other.surface_bpr {
            self.surface_bpr < other.surface_bpr
        } else if self.span_end != other.span_end {
            self.span_end < other.span_end
        } else if self.width != other.width {
            self.width < other.width
        } else if self.height != other.height {
            self.height < other.height
        } else if self.pixel_format != other.pixel_format {
            self.pixel_format < other.pixel_format
        } else {
            self.texture_ref < other.texture_ref
        }
    }

    /// The window meets bytes `[lo, hi)` of mapping `mapping_id`.
    pub open spec fn meets(&self, mapping_id: u32, lo: u64, hi: u64) -> bool {
        self.mapping_id == mapping_id && self.surface_offset < hi && lo < self.span_end
    }

    fn does_meet(&self, mapping_id: u32, lo: u64, hi: u64) -> (r: bool)
        ensures
            r == self.meets(mapping_id, lo, hi),
    {
        self.mapping_id == mapping_id && self.surface_offset < hi && lo < self.span_end
    }

    /// A window of mapping `mapping_id`.
    pub open spec fn of_mapping(&self, mapping_id: u32) -> bool {
        self.mapping_id == mapping_id
    }

    /// Another window under the same mapping.
    pub open spec fn sibling_of(&self, key: &ComputeStorageResidencyKey) -> bool {
        self.mapping_id == key.mapping_id && *self != *key
    }

    fn is_of_mapping(&self, mapping_id: u32) -> (r: bool)
        ensures
            r == self.of_mapping(mapping_id),
    {
        self.mapping_id == mapping_id
    }
}

/// Generations by window, in key order.
pub struct ResidencyMap {
    pub entries: Vec<(ComputeStorageResidencyKey, u32)>,
}

pub open spec fn in_key_order(entries: Seq<(ComputeStorageResidencyKey, u32)>) -> bool {
    forall|i: int, j: int| 0 <= i < j < entries.len() ==> entries[i].0.before(&entries[j].0)
}

/// The generation recorded for `key`.
pub open spec fn lookup(
    entries: Seq<(ComputeStorageResidencyKey, u32)>,
    key: ComputeStorageResidencyKey,
) -> Option<u32> {
    if exists|i: int| holds_at(entries, i, key) {
        Some(entries[choose|i: int| holds_at(entries, i, key)].1)
    } else {
        None
    }
}

/// The entry at `i` is that of `key`.
pub open spec fn holds_at(
    entries: Seq<(ComputeStorageResidencyKey, u32)>,
    i: int,
    key: ComputeStorageResidencyKey,
) -> bool {
    0 <= i < entries.len() && entries[i].0 == key
}

impl View for ResidencyMap {
    type V = Seq<(ComputeStorageResidencyKey, u32)>;

    open spec fn view(&self) -> Seq<(ComputeStorageResidencyKey, u32)> {
        self.entries@
    }
}

/// Putting `key` in its place.
pub open spec fn is_inserted(
    before: Seq<(ComputeStorageResidencyKey, u32)>,
    key: ComputeStorageResidencyKey,
    generation: u32,
    after: Seq<(ComputeStorageResidencyKey, u32)>,
) -> bool {
    &&& in_key_order(after)
    &&& forall|k: ComputeStorageResidencyKey| #[trigger]
        lookup(after, k) == if k == key {
            Some(generation)
        } else {
            lookup(before, k)
        }
}

/// Which windows a removal takes.
pub enum Victims {
    /// Windows that meet bytes of a mapping.
    Meeting { mapping_id: u32, lo: u64, hi: u64 },
    /// All windows of a mapping.
    OfMapping { mapping_id: u32 },
    /// One window.
    One { key: ComputeStorageResidencyKey },
}

impl Victims {
    pub open spec fn takes(&self, key: ComputeStorageResidencyKey) -> bool {
        match *self {
            Victims::Meeting { mapping_id, lo, hi } => key.meets(mapping_id, lo, hi),
            Victims::OfMapping { mapping_id } => key.of_mapping(mapping_id),
            Victims::One { key: k } => key == k,
        }
    }

    fn does_take(&self, key: ComputeStorageResidencyKey) -> (r: bool)
        ensures
            r == self.takes(key),
    {
        match self {
            Victims::Meeting { mapping_id, lo, hi } => key.does_meet(*mapping_id, *lo, *hi),
            Victims::OfMapping { mapping_id } => key.is_of_mapping(*mapping_id),
            Victims::One { key: k } => key == *k,
        }
    }
}

/// The entries left once the victims are gone.
pub open spec fn survivors(
    entries: Seq<(ComputeStorageResidencyKey, u32)>,
    victims: Victims,
) -> Seq<(ComputeStorageResidencyKey, u32)> {
    entries.filter(|e: (ComputeStorageResidencyKey, u32)| !victims.takes(e.0))
}

pub proof fn lemma_lookup_at(entries: Seq<(ComputeStorageResidencyKey, u32)>, i: int)
    requires
        in_key_order(entries),
        0 <= i < entries.len(),
    ensures
        lookup(entries, entries[i].0) == Some(entries[i].1),
{
    let key = entries[i].0;
    assert(holds_at(entries, i, key));
    let j = choose|j: int| holds_at(entries, j, key);
    assert(holds_at(entries, j, key));
    if j < i {
        assert(entries[j].0.before(&entries[i].0));
    } else if i < j {
        assert(entries[i].0.before(&entries[j].0));
    }
}

proof fn lemma_before_trans(
    a: ComputeStorageResidencyKey,
    b: ComputeStorageResidencyKey,
    c: ComputeStorageResidencyKey,
)
    requires
        a.before(&b),
        b.before(&c),
    ensures
        a.before(&c),
{
}

proof fn lemma_before_total(a: ComputeStorageResidencyKey, b: ComputeStorageResidencyKey)
    ensures
        a == b || a.before(&b) || b.before(&a),
        !(a.before(&b) && b.before(&a)),
{
}

/// Filtering keeps the order.
pub proof fn lemma_survivors(entries: Seq<(ComputeStorageResidencyKey, u32)>, victims: Victims)
    requires
        in_key_order(entries),
    ensures
        in_key_order(survivors(entries, victims)),
        forall|k: ComputeStorageResidencyKey| #[trigger]
            lookup(survivors(entries, victims), k) == if victims.takes(k) {
                None
            } else {
                lookup(entries, k)
            },
    decreases entries.len(),
{
    reveal(Seq::filter);
    let out = survivors(entries, victims);
    if entries.len() > 0 {
        let rest = entries.drop_last();
        let last = entries.last();
        lemma_survivors(rest, victims);
        let kept = survivors(rest, victims);
        assert forall|i: int| 0 <= i < kept.len() implies (#[trigger] kept[i]).0.before(
            &last.0,
        ) by {
            // A survivor is one of the entries before the last.
            lemma_lookup_at(kept, i);
            assert(lookup(rest, kept[i].0) is Some);
            let j = choose|j: int| holds_at(rest, j, kept[i].0);
            assert(entries[j].0.before(&entries[entries.len() - 1].0));
        }
        if victims.takes(last.0) {
            assert(out == kept);
        } else {
            assert(out == kept.push(last));
            assert(in_key_order(out));
        }
        assert forall|k: ComputeStorageResidencyKey| #[trigger] lookup(out, k) == if victims.takes(
            k,
        ) {
            None
        } else {
            lookup(entries, k)
        } by {
            assert(lookup(kept, k) == if victims.takes(k) {
                None
            } else {
                lookup(rest, k)
            });
            if k == last.0 {
                assert(lookup(entries, k) == Some(last.1)) by {
                    lemma_lookup_at(entries, entries.len() - 1);
                }
                if !victims.takes(k) {
                    lemma_lookup_at(out, out.len() - 1);
                } else {
                    assert(lookup(kept, k) is None);
                }
            } else {
                lemma_lookup_push(rest, last, k);
                assert(rest.push(last) == entries);
                if !victims.takes(last.0) {
                    lemma_lookup_push(kept, last, k);
                }
            }
        }
    } else {
        assert(out == entries);
    }
}

proof fn lemma_lookup_push(
    entries: Seq<(ComputeStorageResidencyKey, u32)>,
    last: (ComputeStorageResidencyKey, u32),
    k: ComputeStorageResidencyKey,
)
    requires
        in_key_order(entries),
        in_key_order(entries.push(last)),
        k != last.0,
    ensures
        lookup(entries.push(last), k) == lookup(entries, k),
{
    let more = entries.push(last);
    if exists|i: int| holds_at(entries, i, k) {
        let i = choose|i: int| holds_at(entries, i, k);
        lemma_lookup_at(entries, i);
        assert(more[i] == entries[i]);
        lemma_lookup_at(more, i);
    } else if exists|i: int| holds_at(more, i, k) {
        let i = choose|i: int| holds_at(more, i, k);
        assert(holds_at(entries, i, k));
    }
}

/// The entries that the victims take, in order.
pub open spec fn taken(entries: Seq<(ComputeStorageResidencyKey, u32)>, victims: Victims) -> Seq<
    (ComputeStorageResidencyKey, u32),
> {
    entries.filter(|e: (ComputeStorageResidencyKey, u32)| victims.takes(e.0))
}

/// How many other windows the mapping of `key` has.
pub open spec fn siblings(
    entries: Seq<(ComputeStorageResidencyKey, u32)>,
    key: ComputeStorageResidencyKey,
) -> int
    decreases entries.len(),
{
    if entries.len() == 0 {
        0
    } else {
        siblings(entries.drop_last(), key) + if entries.last().0.sibling_of(&key) {
            1int
        } else {
            0
        }
    }
}

/// The entries without the first `n` siblings of `key`.
pub open spec fn thinned(
    entries: Seq<(ComputeStorageResidencyKey, u32)>,
    key: ComputeStorageResidencyKey,
    n: int,
) -> Seq<(ComputeStorageResidencyKey, u32)>
    decreases entries.len(),
{
    if entries.len() == 0 {
        Seq::empty()
    } else {
        let rest = entries.drop_last();
        let last = entries.last();
        if last.0.sibling_of(&key) && siblings(rest, key) < n {
            thinned(rest, key, n)
        } else {
            thinned(rest, key, n).push(last)
        }
    }
}

/// What is left is as many siblings fewer as were asked for.
pub proof fn lemma_thinned_count(
    entries: Seq<(ComputeStorageResidencyKey, u32)>,
    key: ComputeStorageResidencyKey,
    n: int,
)
    requires
        n >= 0,
    ensures
        siblings(entries, key) >= 0,
        siblings(thinned(entries, key, n), key) == if siblings(entries, key) > n {
            siblings(entries, key) - n
        } else {
            0
        },
        n == 0 ==> thinned(entries, key, n) == entries,
    decreases entries.len(),
{
    if entries.len() > 0 {
        let rest = entries.drop_last();
        lemma_thinned_count(rest, key, n);
        let kept = thinned(rest, key, n);
        assert(kept.push(entries.last()).drop_last() == kept);
        assert(rest.push(entries.last()) == entries);
    } else {
        assert(thinned(entries, key, n) == entries);
    }
}

/// Thinning keeps the order and makes nothing up.
proof fn lemma_thinned_order(
    entries: Seq<(ComputeStorageResidencyKey, u32)>,
    key: ComputeStorageResidencyKey,
    n: int,
)
    requires
        in_key_order(entries),
    ensures
        in_key_order(thinned(entries, key, n)),
        forall|i: int|
            0 <= i < thinned(entries, key, n).len() ==> entries.contains(
                #[trigger] thinned(entries, key, n)[i],
            ),
    decreases entries.len(),
{
    if entries.len() > 0 {
        let rest = entries.drop_last();
        let last = entries.last();
        lemma_thinned_order(rest, key, n);
        let kept = thinned(rest, key, n);
        let out = thinned(entries, key, n);
        assert forall|i: int| 0 <= i < kept.len() implies entries.contains(#[trigger] kept[i])
            && kept[i].0.before(&last.0) by {
            assert(rest.contains(kept[i]));
            let j = choose|j: int| 0 <= j < rest.len() && rest[j] == kept[i];
            assert(entries[j] == kept[i]);
            assert(entries[j].0.before(&entries[entries.len() - 1].0));
        }
        assert(entries[entries.len() - 1] == last);
        assert(entries.contains(last));
        assert forall|i: int| 0 <= i < out.len() implies entries.contains(#[trigger] out[i]) by {
            if i < kept.len() {
                assert(out[i] == kept[i]);
            } else {
                assert(out[i] == last);
            }
        }
    }
}

impl ResidencyMap {
    pub open spec fn wf(&self) -> bool {
        in_key_order(self@)
    }

    pub fn new() -> (map: ResidencyMap)
        ensures
            map@ == Seq::<(ComputeStorageResidencyKey, u32)>::empty(),
            map.wf(),
    {
        ResidencyMap { entries: Vec::new() }
    }

    pub fn get(&self, key: &ComputeStorageResidencyKey) -> (generation: Option<u32>)
        requires
            self.wf(),
        ensures
            generation == lookup(self@, *key),
    {
        let mut i: usize = 0;
        while i < self.entries.len()
            invariant
                self.wf(),
                i <= self.entries.len(),
                forall|k: int| 0 <= k < i ==> (#[trigger] self.entries[k]).0 != *key,
            decreases self.entries.len() - i,
        {
            if self.entries[i].0 == *key {
                proof {
                    lemma_lookup_at(self@, i as int);
                }
                return Some(self.entries[i].1);
            }
            i = i + 1;
        }
        None
    }

    pub fn insert(&mut self, key: ComputeStorageResidencyKey, generation: u32)
        requires
            old(self).wf(),
        ensures
            is_inserted(old(self)@, key, generation, final(self)@),
            final(self).wf(),
    {
        let mut i: usize = 0;
        let ghost before = self@;
        while i < self.entries.len() && self.entries[i].0.is_before(&key)
            invariant
                self@ == before,
                in_key_order(before),
                i <= self.entries.len(),
                forall|k: int| 0 <= k < i ==> (#[trigger] before[k]).0.before(&key),
            decreases self.entries.len() - i,
        {
            i = i + 1;
        }
        if i < self.entries.len() && self.entries[i].0 == key {
            self.entries.set(i, (key, generation));
            proof {
                let after = self@;
                assert(after == before.update(i as int, (key, generation)));
                assert forall|k: ComputeStorageResidencyKey| #[trigger] lookup(after, k) == if k
                    == key {
                    Some(generation)
                } else {
                    lookup(before, k)
                } by {
                    lemma_same_elsewhere(before, after, i as int, k);
                }
            }
        } else {
            self.entries.insert(i, (key, generation));
            proof {
                let after = self@;
                assert(after == before.insert(i as int, (key, generation)));
                assert forall|a: int, b: int| 0 <= a < b < after.len() implies after[a].0.before(
                    &after[b].0,
                ) by {
                    if b == i {
                    } else if a == i {
                        lemma_before_total(key, before[i as int].0);
                        if b - 1 > i {
                            lemma_before_trans(key, before[i as int].0, before[b - 1].0);
                        }
                    }
                }
                assert forall|k: ComputeStorageResidencyKey| #[trigger] lookup(after, k) == if k
                    == key {
                    Some(generation)
                } else {
                    lookup(before, k)
                } by {
                    lemma_lookup_inserted(before, after, i as int, key, generation, k);
                }
            }
        }
    }

    /// Remove every window that the victims take.
    pub fn remove_all(&mut self, victims: Victims)
        requires
            old(self).wf(),
        ensures
            final(self)@ == survivors(old(self)@, victims),
            final(self).wf(),
    {
        let ghost before = self@;
        let mut kept: Vec<(ComputeStorageResidencyKey, u32)> = Vec::new();
        let mut i: usize = 0;
        proof {
            reveal(Seq::filter);
            assert(before.take(0) == Seq::<(ComputeStorageResidencyKey, u32)>::empty());
        }
        while i < self.entries.len()
            invariant
                self@ == before,
                i <= self.entries.len(),
                kept@ == survivors(before.take(i as int), victims),
            decreases self.entries.len() - i,
        {
            proof {
                reveal(Seq::filter);
                let next = before.take(i + 1);
                assert(next.drop_last() == before.take(i as int));
                assert(next.last() == before[i as int]);
            }
            let (key, generation) = self.entries[i];
            if !victims.does_take(key) {
                kept.push((key, generation));
            }
            i = i + 1;
        }
        assert(before.take(i as int) == before);
        proof {
            lemma_survivors(before, victims);
        }
        self.entries = kept;
    }

    /// Remove every window that the victims take, and hand them out.
    pub fn take_all(&mut self, victims: Victims) -> (out: Vec<(ComputeStorageResidencyKey, u32)>)
        requires
            old(self).wf(),
        ensures
            out@ == taken(old(self)@, victims),
            final(self)@ == survivors(old(self)@, victims),
            final(self).wf(),
    {
        let ghost before = self@;
        let mut out: Vec<(ComputeStorageResidencyKey, u32)> = Vec::new();
        let mut i: usize = 0;
        proof {
            reveal(Seq::filter);
            assert(before.take(0) == Seq::<(ComputeStorageResidencyKey, u32)>::empty());
        }
        while i < self.entries.len()
            invariant
                self@ == before,
                i <= self.entries.len(),
                out@ == taken(before.take(i as int), victims),
            decreases self.entries.len() - i,
        {
            proof {
                reveal(Seq::filter);
                let next = before.take(i + 1);
                assert(next.drop_last() == before.take(i as int));
                assert(next.last() == before[i as int]);
            }
            let (key, generation) = self.entries[i];
            if victims.does_take(key) {
                out.push((key, generation));
            }
            i = i + 1;
        }
        assert(before.take(i as int) == before);
        self.remove_all(victims);
        out
    }

    /// How many other windows the mapping of `key` has.
    pub fn count_siblings(&self, key: &ComputeStorageResidencyKey) -> (count: usize)
        ensures
            count == siblings(self@, *key),
            count <= self.entries.len(),
    {
        let mut count: usize = 0;
        let mut i: usize = 0;
        assert(self@.take(0) == Seq::<(ComputeStorageResidencyKey, u32)>::empty());
        while i < self.entries.len()
            invariant
                i <= self.entries.len(),
                count <= i,
                count == siblings(self@.take(i as int), *key),
            decreases self.entries.len() - i,
        {
            proof {
                let next = self@.take(i + 1);
                assert(next.drop_last() == self@.take(i as int));
                assert(next.last() == self@[i as int]);
            }
            let k = self.entries[i].0;
            if k.mapping_id == key.mapping_id && k != *key {
                count = count + 1;
            }
            i = i + 1;
        }
        assert(self@.take(i as int) == self@);
        count
    }

    /// Remove the first `n` siblings of `key`.
    pub fn thin(&mut self, key: &ComputeStorageResidencyKey, n: usize)
        requires
            old(self).wf(),
        ensures
            final(self)@ == thinned(old(self)@, *key, n as int),
            final(self).wf(),
    {
        let ghost before = self@;
        let mut kept: Vec<(ComputeStorageResidencyKey, u32)> = Vec::new();
        let mut seen: usize = 0;
        let mut i: usize = 0;
        assert(before.take(0) == Seq::<(ComputeStorageResidencyKey, u32)>::empty());
        while i < self.entries.len()
            invariant
                self@ == before,
                i <= self.entries.len(),
                seen <= i,
                seen == siblings(before.take(i as int), *key),
                kept@ == thinned(before.take(i as int), *key, n as int),
            decreases self.entries.len() - i,
        {
            proof {
                let next = before.take(i + 1);
                assert(next.drop_last() == before.take(i as int));
                assert(next.last() == before[i as int]);
            }
            let (k, generation) = self.entries[i];
            let sibling = k.mapping_id == key.mapping_id && k != *key;
            if !(sibling && seen < n) {
                kept.push((k, generation));
            }
            if sibling {
                seen = seen + 1;
            }
            i = i + 1;
        }
        assert(before.take(i as int) == before);
        proof {
            lemma_thinned_order(before, *key, n as int);
        }
        self.entries = kept;
    }
}

proof fn lemma_same_elsewhere(
    before: Seq<(ComputeStorageResidencyKey, u32)>,
    after: Seq<(ComputeStorageResidencyKey, u32)>,
    i: int,
    k: ComputeStorageResidencyKey,
)
    requires
        in_key_order(before),
        0 <= i < before.len(),
        after.len() == before.len(),
        after[i].0 == before[i].0,
        forall|j: int| 0 <= j < before.len() && j != i ==> #[trigger] after[j] == before[j],
    ensures
        in_key_order(after),
        lookup(after, k) == if k == before[i].0 {
            Some(after[i].1)
        } else {
            lookup(before, k)
        },
{
    assert forall|a: int, b: int| 0 <= a < b < after.len() implies after[a].0.before(
        &after[b].0,
    ) by {
        assert(before[a].0.before(&before[b].0));
        assert(after[a].0 == before[a].0 && after[b].0 == before[b].0);
    }
    if k == before[i].0 {
        lemma_lookup_at(after, i);
    } else if exists|j: int| holds_at(before, j, k) {
        let j = choose|j: int| holds_at(before, j, k);
        assert(after[j] == before[j]);
        lemma_lookup_at(before, j);
        lemma_lookup_at(after, j);
    } else if exists|j: int| holds_at(after, j, k) {
        let j = choose|j: int| holds_at(after, j, k);
        assert(holds_at(before, j, k));
    }
}

proof fn lemma_lookup_inserted(
    before: Seq<(ComputeStorageResidencyKey, u32)>,
    after: Seq<(ComputeStorageResidencyKey, u32)>,
    i: int,
    key: ComputeStorageResidencyKey,
    generation: u32,
    k: ComputeStorageResidencyKey,
)
    requires
        in_key_order(before),
        in_key_order(after),
        0 <= i <= before.len(),
        after == before.insert(i, (key, generation)),
    ensures
        lookup(after, k) == if k == key {
            Some(generation)
        } else {
            lookup(before, k)
        },
{
    if k == key {
        assert(after[i] == (key, generation));
        lemma_lookup_at(after, i);
    } else if exists|j: int| holds_at(before, j, k) {
        let j = choose|j: int| holds_at(before, j, k);
        lemma_lookup_at(before, j);
        if j < i {
            assert(after[j] == before[j]);
            lemma_lookup_at(after, j);
        } else {
            assert(after[j + 1] == before[j]);
            lemma_lookup_at(after, j + 1);
        }
    } else if exists|j: int| holds_at(after, j, k) {
        let j = choose|j: int| holds_at(after, j, k);
        if j < i {
            assert(holds_at(before, j, k));
        } else {
            assert(holds_at(before, j - 1, k));
        }
    }
}

} // verus!
