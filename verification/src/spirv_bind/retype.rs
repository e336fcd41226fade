//! The rewriting step of format specialization: patch, clone, retarget.

use vstd::prelude::*;
use vstd::set_lib::{lemma_len_subset, set_int_range, lemma_int_range};
use crate::spirv_bind::edit::{
    block_declares, block_inst, block_ok, editable, lemma_block_push, lemma_edited,
    lemma_no_overlap, lemma_operand_kept, operands_edited,
};
use crate::spirv_bind::format::{ImageFormat, image_raw_of, image_type_of_variable};
use crate::spirv_bind::index::{
    ModuleIndex, Site, is_site, lemma_site_within, pointee_of, site_of, type_of_variable,
};
use crate::spirv_bind::specialize::{plan_ok, types_ok};
use crate::spirv_bind::specialize_model::{
    cloned_variables, declared_format, fresh_ids, image_clones, image_key, is_clone_block,
    is_clone_of, is_cloned, is_lowest_user, is_user, keep_format, pointer_clones, pointer_key,
    is_rewritten, points_to_clone, requested_format, wanted_format,
};
use crate::spirv_bind::stream::{
    fits, id_bound, is_inst, lemma_inst_past_header, module_ok, word_count,
};

verus! {

/// The words of the instruction at `at` under a new id and with one operand replaced.
pub open spec fn clone_words(
    words: Seq<u32>,
    at: int,
    id: u32,
    slot: int,
    value: u32,
) -> Seq<u32> {
    words.subrange(at, at + word_count(words[at])).update(1, id).update(slot, value)
}

/// A module being rewritten: its words, the clones to be put in, and the next id.
pub struct Rewrite {
    pub words: Vec<u32>,
    pub block: Vec<u32>,
    pub next: u32,
    /// The variables retargeted so far.
    pub done: Ghost<Set<int>>,
    /// The image clones made so far.
    pub images: Ghost<Set<(int, int)>>,
    /// The pointer clones made so far.
    pub pointers: Ghost<Set<(int, int)>>,
}

/// The requests can be carried out on `words`: the clones' ids fit.
pub open spec fn ready(words: Seq<u32>, requested: Seq<(u32, ImageFormat)>) -> bool {
    &&& module_ok(words)
    &&& id_bound(words) + fresh_ids(words, requested) <= u32::MAX
}

impl Rewrite {
    pub open spec fn inv(&self, origin: Seq<u32>, requested: Seq<(u32, ImageFormat)>) -> bool {
        let n = id_bound(origin);
        &&& operands_edited(origin, self.words@)
        &&& is_clone_block(self.block@, origin, n, self.next as int)
        &&& self.images@.finite()
        &&& self.pointers@.finite()
        &&& self.next == n + self.images@.len() + self.pointers@.len()
        &&& self.images@.subset_of(image_clones(origin, requested))
        &&& self.pointers@.subset_of(pointer_clones(origin, requested))
        &&& forall|v: int| #[trigger]
            self.done@.contains(v) ==> {
                &&& is_cloned(origin, requested, v)
                &&& self.images@.contains(image_key(origin, requested, v))
                &&& self.pointers@.contains(pointer_key(origin, requested, v))
                &&& points_to_clone(
                    self.block@,
                    origin,
                    self.words@[site_of(origin, Site::Variable, v)->0 + 1] as int,
                    type_of_variable(origin, v)->0 as int,
                    image_type_of_variable(origin, v)->0 as int,
                    wanted_format(origin, requested, v).to_raw() as int,
                )
            }
        &&& forall|k: int|
            0 <= k < origin.len() && !#[trigger] is_rewritten(origin, requested, k)
                ==> self.words@[k] == origin[k]
        &&& forall|v: int|
            #![trigger site_of(origin, Site::Variable, v)]
            0 <= v < n && site_of(origin, Site::Variable, v) is Some && !self.done@.contains(v)
                ==> self.words@[site_of(origin, Site::Variable, v)->0 + 1] == origin[site_of(
                origin,
                Site::Variable,
                v,
            )->0 + 1]
    }

}

/// In `words`, image types below `cursor` have the format they keep; the others
/// have that of `origin`.
pub open spec fn patched(
    words: Seq<u32>,
    origin: Seq<u32>,
    requested: Seq<(u32, ImageFormat)>,
    cursor: int,
) -> bool {
    forall|t: int|
        #![trigger site_of(origin, Site::Image, t)]
        0 <= t < id_bound(origin) && site_of(origin, Site::Image, t) is Some ==> words[site_of(
            origin,
            Site::Image,
            t,
        )->0 + 8] == if t < cursor {
            keep_format(origin, requested, t).to_raw()
        } else {
            origin[site_of(origin, Site::Image, t)->0 + 8]
        }
}

/// The clone sets are finite: there is a clone at most per variable.
pub proof fn lemma_clones_finite(words: Seq<u32>, requested: Seq<(u32, ImageFormat)>)
    ensures
        cloned_variables(words, requested).finite(),
        image_clones(words, requested).finite(),
        pointer_clones(words, requested).finite(),
{
    let n = id_bound(words);
    let vars = cloned_variables(words, requested);
    lemma_int_range(0, n);
    assert(vars.subset_of(set_int_range(0, n)));
    lemma_len_subset(vars, set_int_range(0, n));
    vars.lemma_map_finite(|v: int| image_key(words, requested, v));
    vars.lemma_map_finite(|v: int| pointer_key(words, requested, v));
}

/// What a block declares it still declares with more behind it.
pub proof fn lemma_declares_grows(block: Seq<u32>, inst: Seq<u32>, words: Seq<u32>)
    requires
        block_ok(block),
        inst.len() > 0,
        word_count(inst[0]) == inst.len(),
    ensures
        forall|b: int, site: Site, id: int|
            block_declares(block, b, site, id) ==> #[trigger] block_declares(
                block + inst,
                b,
                site,
                id,
            ),
        forall|pointer: int, pt: int, it: int, raw: int|
            points_to_clone(block, words, pointer, pt, it, raw) ==> #[trigger] points_to_clone(
                block + inst,
                words,
                pointer,
                pt,
                it,
                raw,
            ),
{
    let out = block + inst;
    lemma_block_push(block, inst);
    assert forall|b: int, site: Site, id: int|
        block_declares(block, b, site, id) implies #[trigger] block_declares(
        out,
        b,
        site,
        id,
    ) by {
        assert(block_inst(block, b));
        crate::spirv_bind::stream::lemma_reaches_ge(block, 0, b);
        assert(block_inst(out, b));
        assert(out[b] == block[b]);
        if word_count(block[b]) >= 4 {
            assert(out[b + 1] == block[b + 1]);
            assert(out[b + 2] == block[b + 2]);
        }
    }
    assert forall|pointer: int, pt: int, it: int, raw: int|
        points_to_clone(block, words, pointer, pt, it, raw) implies #[trigger] points_to_clone(
        out,
        words,
        pointer,
        pt,
        it,
        raw,
    ) by {
        let (p, i) = choose|p: int, i: int|
            {
                &&& #[trigger] block_declares(block, p, Site::Pointer, pointer)
                &&& is_clone_of(block, p, words, site_of(words, Site::Pointer, pt)->0)
                &&& #[trigger] block_declares(block, i, Site::Image, block[p + 3] as int)
                &&& is_clone_of(block, i, words, site_of(words, Site::Image, it)->0)
                &&& block[i + 8] == raw
            };
        crate::spirv_bind::stream::lemma_reaches_ge(block, 0, p);
        crate::spirv_bind::stream::lemma_reaches_ge(block, 0, i);
        assert(out[p + 3] == block[p + 3]);
        assert(out[i + 8] == block[i + 8]);
        lemma_clone_kept(block, out, p, words, site_of(words, Site::Pointer, pt)->0);
        lemma_clone_kept(block, out, i, words, site_of(words, Site::Image, it)->0);
        assert(block_declares(out, p, Site::Pointer, pointer));
        assert(block_declares(out, i, Site::Image, out[p + 3] as int));
    }
}

/// A clone in a block is one in a block that goes on behind it.
pub proof fn lemma_clone_kept(block: Seq<u32>, out: Seq<u32>, b: int, words: Seq<u32>, a: int)
    requires
        block_inst(block, b),
        is_clone_of(block, b, words, a),
        block.len() <= out.len(),
        forall|k: int| 0 <= k < block.len() ==> #[trigger] out[k] == block[k],
    ensures
        is_clone_of(out, b, words, a),
{
    crate::spirv_bind::stream::lemma_reaches_ge(block, 0, b);
    assert forall|j: int|
        #![trigger out[b + j]]
        0 <= j < word_count(words[a]) && j != 1 && !(is_site(words, a, Site::Image) && j == 8) && !(
        is_site(words, a, Site::Pointer) && j == 3) implies out[b + j] == words[a + j] by {
        assert(out[b + j] == block[b + j]);
    }
}

/// Appending a clone under the next id keeps the clone block.
pub proof fn lemma_clone_appended(
    block: Seq<u32>,
    origin: Seq<u32>,
    words: Seq<u32>,
    at: int,
    next: u32,
    slot: int,
    value: u32,
)
    requires
        module_ok(origin),
        operands_edited(origin, words),
        is_clone_block(block, origin, id_bound(origin), next as int),
        id_bound(origin) <= next,
        is_inst(origin, at),
        (is_site(origin, at, Site::Image) && slot == 8) || (is_site(origin, at, Site::Pointer)
            && slot == 3),
    ensures
        ({
            let inst = clone_words(words, at, next, slot, value);
            let site = if slot == 8 {
                Site::Image
            } else {
                Site::Pointer
            };
            &&& inst.len() > 0
            &&& word_count(inst[0]) == inst.len()
            &&& is_clone_block(block + inst, origin, id_bound(origin), next + 1)
            &&& block_declares(block + inst, block.len() as int, site, next as int)
            &&& (block + inst)[block.len() + slot] == value
            &&& is_clone_of(block + inst, block.len() as int, origin, at)
        }),
{
    let inst = clone_words(words, at, next, slot, value);
    let out = block + inst;
    let n = id_bound(origin);
    lemma_edited(origin, words);
    lemma_inst_past_header(origin);
    let count = word_count(origin[at]);
    assert(words[at] == origin[at]);
    assert(inst.len() == count);
    assert(inst[0] == words[at]);
    lemma_block_push(block, inst);
    let m = block.len() as int;
    assert(block_inst(out, m));
    assert(out[m] == inst[0]);
    assert(out[m + 1] == inst[1]);
    assert(out[m + 1] == next);
    assert(out[m + slot] == inst[slot]);
    assert forall|b: int| #[trigger] block_inst(out, b) && b != m implies {
        &&& block_inst(block, b)
        &&& out[b + 1] == block[b + 1]
        &&& out[b] == block[b]
        &&& 0 <= b
        &&& b + word_count(block[b]) <= m
    } by {
        assert(block_inst(block, b));
        crate::spirv_bind::stream::lemma_reaches_ge(block, 0, b);
        let a = choose|a: int| is_clone_of(block, b, origin, a);
        assert(is_clone_of(block, b, origin, a));
    }
    assert forall|j: int|
        #![trigger out[m + j]]
        0 <= j < count && j != 1 && !(is_site(origin, at, Site::Image) && j == 8) && !(is_site(
            origin,
            at,
            Site::Pointer,
        ) && j == 3) implies out[m + j] == origin[at + j] by {
        lemma_operand_kept(origin, words, at, j);
        assert(out[m + j] == inst[j]);
    }
    assert(is_clone_of(out, m, origin, at));
    assert forall|b: int| #[trigger] block_inst(out, b) implies exists|a: int|
        is_clone_of(out, b, origin, a) by {
        if b != m {
            let a = choose|a: int| is_clone_of(block, b, origin, a);
            assert(is_clone_of(block, b, origin, a));
            assert forall|j: int|
                #![trigger out[b + j]]
                0 <= j < word_count(origin[a]) && j != 1 && !(is_site(origin, a, Site::Image) && j
                    == 8) && !(is_site(origin, a, Site::Pointer) && j == 3) implies out[b + j]
                == origin[a + j] by {
                assert(out[b + j] == block[b + j]);
            }
            assert(is_clone_of(out, b, origin, a));
        }
    }
}

/// Rewriting operand slots of distinct things never collides.
pub proof fn lemma_slots_apart(words: Seq<u32>, v: int, t: int)
    requires
        site_of(words, Site::Variable, v) is Some,
        site_of(words, Site::Image, t) is Some,
    ensures
        site_of(words, Site::Variable, v)->0 + 1 != site_of(words, Site::Image, t)->0 + 8,
{
    lemma_site_within(words, Site::Variable, v);
    lemma_site_within(words, Site::Image, t);
    let a = site_of(words, Site::Variable, v)->0;
    let i = site_of(words, Site::Image, t)->0;
    if a + 1 == i + 8 {
        lemma_no_overlap(words, a, i, a + 1);
    }
}

fn append_clone(
    words: &Vec<u32>,
    block: &mut Vec<u32>,
    at: usize,
    id: u32,
    slot: usize,
    value: u32,
)
    requires
        fits(words@, at as int),
        1 < slot < word_count(words@[at as int]),
    ensures
        final(block)@ == old(block)@ + clone_words(words@, at as int, id, slot as int, value),
{
    let count: usize = (words[at] >> 16) as usize;
    let ghost start = block@;
    let ghost inst = clone_words(words@, at as int, id, slot as int, value);
    let mut j: usize = 0;
    while j < count
        invariant
            fits(words@, at as int),
            count == word_count(words@[at as int]),
            1 < slot < count,
            j <= count,
            inst == clone_words(words@, at as int, id, slot as int, value),
            block@ == start + inst.take(j as int),
        decreases count - j,
    {
        assert(words@.len() == words.len());
        let word: u32 = if j == slot {
            value
        } else if j == 1 {
            id
        } else {
            words[at + j]
        };
        assert(word == inst[j as int]);
        block.push(word);
        assert(inst.take(j + 1) == inst.take(j as int).push(word));
        assert(block@ =~= start + inst.take(j + 1));
        j = j + 1;
    }
    assert(inst.take(count as int) == inst);
}

impl Rewrite {
    /// Make an image clone of type `t` in format `raw`.
    fn add_image(
        &mut self,
        at: usize,
        raw: u32,
        Ghost(t): Ghost<int>,
        Ghost(origin): Ghost<Seq<u32>>,
        Ghost(requested): Ghost<Seq<(u32, ImageFormat)>>,
    ) -> (id: u32)
        requires
            ready(origin, requested),
            old(self).inv(origin, requested),
            site_of(origin, Site::Image, t) == Some(at as int),
            image_clones(origin, requested).contains((t, raw as int)),
            !old(self).images@.contains((t, raw as int)),
        ensures
            final(self).inv(origin, requested),
            final(self).words == old(self).words,
            final(self).done == old(self).done,
            final(self).pointers == old(self).pointers,
            final(self).images@ == old(self).images@.insert((t, raw as int)),
            block_declares(
                final(self).block@,
                old(self).block@.len() as int,
                Site::Image,
                id as int,
            ),
            final(self).block@[old(self).block@.len() as int + 8] == raw,
            is_clone_of(final(self).block@, old(self).block@.len() as int, origin, at as int),
    {
        proof {
            lemma_site_within(origin, Site::Image, t);
            lemma_edited(origin, self.words@);
            lemma_clones_finite(origin, requested);
            let all = image_clones(origin, requested);
            let more = self.images@.insert((t, raw as int));
            assert(more.subset_of(all));
            lemma_len_subset(more, all);
            lemma_len_subset(self.pointers@, pointer_clones(origin, requested));
            lemma_clone_appended(
                self.block@,
                origin,
                self.words@,
                at as int,
                self.next,
                8,
                raw,
            );
            lemma_declares_grows(
                self.block@,
                clone_words(self.words@, at as int, self.next, 8, raw),
                origin,
            );
        }
        let id: u32 = self.next;
        append_clone(&self.words, &mut self.block, at, id, 8, raw);
        self.next = self.next + 1;
        proof {
            self.images@ = self.images@.insert((t, raw as int));
        }
        id
    }

    /// Make a pointer clone of type `pointer` that points to the image clone `image`.
    fn add_pointer(
        &mut self,
        at: usize,
        image: u32,
        Ghost(key): Ghost<(int, int)>,
        Ghost(origin): Ghost<Seq<u32>>,
        Ghost(requested): Ghost<Seq<(u32, ImageFormat)>>,
    ) -> (id: u32)
        requires
            ready(origin, requested),
            old(self).inv(origin, requested),
            site_of(origin, Site::Pointer, key.0) == Some(at as int),
            pointer_clones(origin, requested).contains(key),
            !old(self).pointers@.contains(key),
        ensures
            final(self).inv(origin, requested),
            final(self).words == old(self).words,
            final(self).done == old(self).done,
            final(self).images == old(self).images,
            final(self).pointers@ == old(self).pointers@.insert(key),
            block_declares(
                final(self).block@,
                old(self).block@.len() as int,
                Site::Pointer,
                id as int,
            ),
            final(self).block@[old(self).block@.len() as int + 3] == image,
            is_clone_of(final(self).block@, old(self).block@.len() as int, origin, at as int),
            final(self).block@.len() >= old(self).block@.len(),
            forall|b: int, site: Site, k: int|
                block_declares(old(self).block@, b, site, k) ==> #[trigger] block_declares(
                    final(self).block@,
                    b,
                    site,
                    k,
                ),
            forall|b: int|
                0 <= b < old(self).block@.len() ==> #[trigger] final(self).block@[b] == old(
                    self,
                ).block@[b],
            forall|pointer: int, pt: int, it: int, raw: int|
                points_to_clone(old(self).block@, origin, pointer, pt, it, raw)
                    ==> #[trigger] points_to_clone(
                    final(self).block@,
                    origin,
                    pointer,
                    pt,
                    it,
                    raw,
                ),
    {
        proof {
            lemma_site_within(origin, Site::Pointer, key.0);
            lemma_edited(origin, self.words@);
            lemma_clones_finite(origin, requested);
            let all = pointer_clones(origin, requested);
            let more = self.pointers@.insert(key);
            assert(more.subset_of(all));
            lemma_len_subset(more, all);
            lemma_len_subset(self.images@, image_clones(origin, requested));
            lemma_clone_appended(
                self.block@,
                origin,
                self.words@,
                at as int,
                self.next,
                3,
                image,
            );
            lemma_declares_grows(
                self.block@,
                clone_words(self.words@, at as int, self.next, 3, image),
                origin,
            );
        }
        let id: u32 = self.next;
        append_clone(&self.words, &mut self.block, at, id, 3, image);
        self.next = self.next + 1;
        proof {
            self.pointers@ = self.pointers@.insert(key);
        }
        id
    }

    /// Give variable `v` the pointer clone `pointer` for its type.
    fn retarget(
        &mut self,
        at: usize,
        pointer: u32,
        Ghost(v): Ghost<int>,
        Ghost(origin): Ghost<Seq<u32>>,
        Ghost(requested): Ghost<Seq<(u32, ImageFormat)>>,
    )
        requires
            module_ok(origin),
            old(self).inv(origin, requested),
            is_cloned(origin, requested, v),
            site_of(origin, Site::Variable, v) == Some(at as int),
            old(self).images@.contains(image_key(origin, requested, v)),
            old(self).pointers@.contains(pointer_key(origin, requested, v)),
            points_to_clone(
                old(self).block@,
                origin,
                pointer as int,
                type_of_variable(origin, v)->0 as int,
                image_type_of_variable(origin, v)->0 as int,
                wanted_format(origin, requested, v).to_raw() as int,
            ),
        ensures
            final(self).inv(origin, requested),
            final(self).block == old(self).block,
            final(self).images == old(self).images,
            final(self).pointers == old(self).pointers,
            final(self).done@ == old(self).done@.insert(v),
            forall|cursor: int|
                patched(old(self).words@, origin, requested, cursor) ==> #[trigger] patched(final(self).words@, 
                    origin,
                    requested,
                    cursor,
                ),
    {
        proof {
            lemma_site_within(origin, Site::Variable, v);
            lemma_inst_past_header(origin);
        }
        assert(self.words@.len() == self.words.len());
        let ghost before = self.words@;
        self.words.set(at + 1, pointer);
        proof {
            self.done@ = self.done@.insert(v);
            assert(is_inst(origin, at as int) && is_site(origin, at as int, Site::Variable));
            assert(editable(origin, at + 1));
            assert(is_rewritten(origin, requested, at + 1));
            assert(operands_edited(origin, self.words@));
            assert forall|k: int|
                #![trigger site_of(origin, Site::Variable, k)]
                k != v && site_of(origin, Site::Variable, k) is Some implies site_of(
                origin,
                Site::Variable,
                k,
            )->0 != at by {
                lemma_site_within(origin, Site::Variable, k);
            }
            assert forall|k: int| #[trigger] self.done@.contains(k) && k != v implies
                self.words@[site_of(origin, Site::Variable, k)->0 + 1] == before[site_of(
                origin,
                Site::Variable,
                k,
            )->0 + 1] by {
                assert(old(self).done@.contains(k));
                assert(is_cloned(origin, requested, k));
                assert(site_of(origin, Site::Variable, k) is Some);
                lemma_site_within(origin, Site::Variable, k);
            }
            assert forall|cursor: int|
                patched(old(self).words@, origin, requested, cursor) implies #[trigger] patched(self.words@, 
                origin,
                requested,
                cursor,
            ) by {
                assert forall|t: int|
                    #![trigger site_of(origin, Site::Image, t)]
                    0 <= t < id_bound(origin) && site_of(origin, Site::Image, t) is Some implies
                    self.words@[site_of(origin, Site::Image, t)->0 + 8] == before[site_of(
                    origin,
                    Site::Image,
                    t,
                )->0 + 8] by {
                    lemma_slots_apart(origin, v, t);
                    lemma_site_within(origin, Site::Image, t);
                }
            }
        }
    }
}

/// The tables speak of `origin` and of the requests.
pub open spec fn tables_ok(
    origin: Seq<u32>,
    requested: Seq<(u32, ImageFormat)>,
    index: &ModuleIndex,
    types: Seq<Option<usize>>,
    plan: Seq<Option<ImageFormat>>,
) -> bool {
    &&& module_ok(origin)
    &&& index.describes(origin)
    &&& types.len() == id_bound(origin)
    &&& plan.len() == id_bound(origin)
    &&& types_ok(origin, types)
    &&& plan_ok(origin, requested, plan)
}

/// The wanted format of a variable, given what its image type declares.
fn wanted(plan: &Vec<Option<ImageFormat>>, v: usize, declared: ImageFormat) -> (format: ImageFormat)
    requires
        v < plan.len(),
    ensures
        format == match plan[v as int] {
            Some(f) => f,
            None => declared,
        },
{
    match plan[v] {
        Some(format) => format,
        None => declared,
    }
}

fn is_type(types: &Vec<Option<usize>>, v: usize, t: usize) -> (r: bool)
    requires
        v < types.len(),
    ensures
        r == (types[v as int] == Some(t)),
{
    match types[v] {
        Some(k) => k == t,
        None => false,
    }
}

/// The format that image type `t` keeps.
fn find_keep(
    types: &Vec<Option<usize>>,
    plan: &Vec<Option<ImageFormat>>,
    t: usize,
    declared: ImageFormat,
    Ghost(origin): Ghost<Seq<u32>>,
    Ghost(requested): Ghost<Seq<(u32, ImageFormat)>>,
) -> (keep: ImageFormat)
    requires
        module_ok(origin),
        types.len() == id_bound(origin),
        plan.len() == id_bound(origin),
        types_ok(origin, types@),
        plan_ok(origin, requested, plan@),
        declared == declared_format(origin, t as int),
    ensures
        keep == keep_format(origin, requested, t as int),
{
    let n: usize = types.len();
    let mut lowest: Option<ImageFormat> = None;
    let ghost mut low: int = 0;
    let mut v: usize = 0;
    while v < n
        invariant
            n == id_bound(origin),
            types.len() == n,
            plan.len() == n,
            types_ok(origin, types@),
            plan_ok(origin, requested, plan@),
            declared == declared_format(origin, t as int),
            v <= n,
            forall|k: int|
                k < v && is_user(origin, t as int, k) ==> requested_format(
                    origin,
                    requested,
                    k,
                ) is Some,
            match lowest {
                None => forall|k: int| k < v ==> !is_user(origin, t as int, k),
                Some(f) => {
                    &&& is_user(origin, t as int, low)
                    &&& low < v
                    &&& forall|k: int| k < low ==> !is_user(origin, t as int, k)
                    &&& f == wanted_format(origin, requested, low)
                },
            },
        decreases n - v,
    {
        assert(types_ok(origin, types@));
        let ghost tv = types[v as int];
        if is_type(types, v, t) {
            assert(is_user(origin, t as int, v as int));
            assert(plan[v as int] == requested_format(origin, requested, v as int));
            match plan[v] {
                None => {
                    return declared;
                },
                Some(format) => {
                    match lowest {
                        None => {
                            lowest = Some(format);
                            proof {
                                low = v as int;
                            }
                        },
                        Some(_) => {},
                    }
                },
            }
        } else {
            assert(!is_user(origin, t as int, v as int));
        }
        v = v + 1;
    }
    match lowest {
        Some(format) => {
            proof {
                assert(is_lowest_user(origin, t as int, low));
                let chosen = choose|k: int| is_lowest_user(origin, t as int, k);
                assert(is_lowest_user(origin, t as int, chosen));
                assert(chosen == low);
            }
            format
        },
        None => declared,
    }
}

/// Group `raw` has been dealt with when the last group was `last`.
pub open spec fn passed(last: Option<u32>, raw: u32) -> bool {
    match last {
        Some(g) => raw <= g,
        None => false,
    }
}

/// Variable `v` takes a clone of image type `t` in format `raw`.
pub open spec fn in_group(
    origin: Seq<u32>,
    requested: Seq<(u32, ImageFormat)>,
    t: int,
    raw: u32,
    v: int,
) -> bool {
    &&& is_user(origin, t, v)
    &&& is_cloned(origin, requested, v)
    &&& wanted_format(origin, requested, v).to_raw() == raw
}

/// Whether variable `v` takes a clone of image type `t`, and in which format.
fn group_of(
    types: &Vec<Option<usize>>,
    plan: &Vec<Option<ImageFormat>>,
    v: usize,
    t: usize,
    declared: ImageFormat,
    keep: ImageFormat,
    Ghost(origin): Ghost<Seq<u32>>,
    Ghost(requested): Ghost<Seq<(u32, ImageFormat)>>,
) -> (r: Option<u32>)
    requires
        types.len() == id_bound(origin),
        plan.len() == id_bound(origin),
        types_ok(origin, types@),
        plan_ok(origin, requested, plan@),
        declared == declared_format(origin, t as int),
        keep == keep_format(origin, requested, t as int),
        v < types.len(),
    ensures
        match r {
            Some(raw) => in_group(origin, requested, t as int, raw, v as int),
            None => forall|raw: u32| !in_group(origin, requested, t as int, raw, v as int),
        },
{
    let ghost tv = types[v as int];
    assert(plan[v as int] == requested_format(origin, requested, v as int));
    if is_type(types, v, t) {
        let format = wanted(plan, v, declared);
        if format != keep {
            Some(format.raw())
        } else {
            None
        }
    } else {
        None
    }
}

/// The next group of image type `t`, in ascending order of format operand.
fn next_group(
    types: &Vec<Option<usize>>,
    plan: &Vec<Option<ImageFormat>>,
    t: usize,
    declared: ImageFormat,
    keep: ImageFormat,
    last: Option<u32>,
    Ghost(origin): Ghost<Seq<u32>>,
    Ghost(requested): Ghost<Seq<(u32, ImageFormat)>>,
) -> (r: Option<u32>)
    requires
        module_ok(origin),
        types.len() == id_bound(origin),
        plan.len() == id_bound(origin),
        types_ok(origin, types@),
        plan_ok(origin, requested, plan@),
        declared == declared_format(origin, t as int),
        keep == keep_format(origin, requested, t as int),
    ensures
        match r {
            Some(raw) => {
                &&& !passed(last, raw)
                &&& exists|v: int| in_group(origin, requested, t as int, raw, v)
                &&& forall|v: int, other: u32|
                    in_group(origin, requested, t as int, other, v) && !passed(last, other) ==> raw
                        <= other
            },
            None => forall|v: int, other: u32|
                in_group(origin, requested, t as int, other, v) ==> passed(last, other),
        },
{
    let n: usize = types.len();
    let mut best: Option<u32> = None;
    let mut v: usize = 0;
    while v < n
        invariant
            n == id_bound(origin),
            types.len() == n,
            plan.len() == n,
            types_ok(origin, types@),
            plan_ok(origin, requested, plan@),
            declared == declared_format(origin, t as int),
            keep == keep_format(origin, requested, t as int),
            v <= n,
            match best {
                Some(raw) => {
                    &&& !passed(last, raw)
                    &&& exists|k: int| in_group(origin, requested, t as int, raw, k)
                    &&& forall|k: int, other: u32|
                        k < v && in_group(origin, requested, t as int, other, k) && !passed(
                            last,
                            other,
                        ) ==> raw <= other
                },
                None => forall|k: int, other: u32|
                    k < v && in_group(origin, requested, t as int, other, k) ==> passed(
                        last,
                        other,
                    ),
            },
        decreases n - v,
    {
        match group_of(
            types,
            plan,
            v,
            t,
            declared,
            keep,
            Ghost(origin),
            Ghost(requested),
        ) {
            Some(raw) => {
                let old_news = match last {
                    Some(g) => raw <= g,
                    None => false,
                };
                if !old_news {
                    let better = match best {
                        Some(b) => raw < b,
                        None => true,
                    };
                    if better {
                        best = Some(raw);
                    }
                }
            },
            None => {},
        }
        v = v + 1;
    }
    best
}

fn find_clone(clones: &Vec<(usize, u32)>, pointer: usize) -> (r: Option<u32>)
    ensures
        match r {
            Some(id) => clones@.contains((pointer, id)),
            None => forall|i: int| 0 <= i < clones.len() ==> (#[trigger] clones[i]).0 != pointer,
        },
{
    let mut i: usize = 0;
    while i < clones.len()
        invariant
            i <= clones.len(),
            forall|k: int| 0 <= k < i ==> (#[trigger] clones[k]).0 != pointer,
        decreases clones.len() - i,
    {
        if clones[i].0 == pointer {
            assert(clones@[i as int] == (pointer, clones@[i as int].1));
            return Some(clones[i].1);
        }
        i = i + 1;
    }
    None
}

/// The pointer clone `key` is one of image type `t` in format `raw`.
pub open spec fn is_pointer_of(
    origin: Seq<u32>,
    t: int,
    raw: u32,
    key: (int, int),
) -> bool {
    key.1 == raw && pointee_of(origin, key.0) is Some && pointee_of(origin, key.0)->0 == t
}

impl Rewrite {
    /// Clone image type `t` in format `raw` and give the clone to every variable of the group.
    fn clone_group(
        &mut self,
        index: &ModuleIndex,
        types: &Vec<Option<usize>>,
        plan: &Vec<Option<ImageFormat>>,
        t: usize,
        raw: u32,
        declared: ImageFormat,
        keep: ImageFormat,
        Ghost(origin): Ghost<Seq<u32>>,
        Ghost(requested): Ghost<Seq<(u32, ImageFormat)>>,
    )
        requires
            ready(origin, requested),
            old(self).inv(origin, requested),
            tables_ok(origin, requested, index, types@, plan@),
            t < id_bound(origin),
            site_of(origin, Site::Image, t as int) is Some,
            declared == declared_format(origin, t as int),
            keep == keep_format(origin, requested, t as int),
            exists|v: int| in_group(origin, requested, t as int, raw, v),
            !old(self).images@.contains((t as int, raw as int)),
            forall|key: (int, int)| #[trigger]
                old(self).pointers@.contains(key) ==> !is_pointer_of(origin, t as int, raw, key),
            forall|v: int|
                old(self).done@.contains(v) ==> !in_group(origin, requested, t as int, raw, v),
        ensures
            final(self).inv(origin, requested),
            forall|cursor: int|
                patched(old(self).words@, origin, requested, cursor) ==> #[trigger] patched(final(self).words@, 
                    origin,
                    requested,
                    cursor,
                ),
            forall|v: int| #[trigger]
                final(self).done@.contains(v) <==> old(self).done@.contains(v) || in_group(
                    origin,
                    requested,
                    t as int,
                    raw,
                    v,
                ),
            final(self).images@ == old(self).images@.insert((t as int, raw as int)),
            forall|key: (int, int)| #[trigger]
                final(self).pointers@.contains(key) ==> old(self).pointers@.contains(key)
                    || is_pointer_of(origin, t as int, raw, key),
    {
        let n: usize = types.len();
        let ghost ib = self.block@.len() as int;
        proof {
            let v = choose|v: int| in_group(origin, requested, t as int, raw, v);
            assert(cloned_variables(origin, requested).contains(v));
            assert(image_key(origin, requested, v) == (t as int, raw as int));
            assert(image_clones(origin, requested).contains((t as int, raw as int)));
            assert(index.images[t as int] is Some);
        }
        let image: u32 = match index.images[t] {
            Some(at) => self.add_image(
                at,
                raw,
                Ghost(t as int),
                Ghost(origin),
                Ghost(requested),
            ),
            None => 0,
        };
        let mut clones: Vec<(usize, u32)> = Vec::new();
        let mut v: usize = 0;
        while v < n
            invariant
                ready(origin, requested),
                self.inv(origin, requested),
                tables_ok(origin, requested, index, types@, plan@),
                n == id_bound(origin),
                t < n,
                v <= n,
                declared == declared_format(origin, t as int),
                keep == keep_format(origin, requested, t as int),
                forall|cursor: int|
                    patched(old(self).words@, origin, requested, cursor) ==> #[trigger] patched(self.words@, 
                        origin,
                        requested,
                        cursor,
                    ),
                forall|k: int| #[trigger]
                    self.done@.contains(k) <==> old(self).done@.contains(k) || (k < v && in_group(
                        origin,
                        requested,
                        t as int,
                        raw,
                        k,
                    )),
                forall|k: int|
                    old(self).done@.contains(k) ==> !in_group(
                        origin,
                        requested,
                        t as int,
                        raw,
                        k,
                    ),
                self.images@ == old(self).images@.insert((t as int, raw as int)),
                forall|key: (int, int)| #[trigger]
                    self.pointers@.contains(key) ==> old(self).pointers@.contains(key)
                        || is_pointer_of(origin, t as int, raw, key),
                forall|key: (int, int)| #[trigger]
                    old(self).pointers@.contains(key) ==> !is_pointer_of(
                        origin,
                        t as int,
                        raw,
                        key,
                    ),
                block_declares(self.block@, ib, Site::Image, image as int),
                self.block@[ib + 8] == raw,
                is_clone_of(
                    self.block@,
                    ib,
                    origin,
                    site_of(origin, Site::Image, t as int)->0,
                ),
                forall|i: int|
                    0 <= i < clones.len() ==> points_to_clone(
                        self.block@,
                        origin,
                        (#[trigger] clones[i]).1 as int,
                        clones[i].0 as int,
                        t as int,
                        raw as int,
                    ) && self.pointers@.contains((clones[i].0 as int, raw as int)),
                forall|key: (int, int)| #[trigger]
                    self.pointers@.contains(key) && is_pointer_of(origin, t as int, raw, key)
                        ==> exists|i: int|
                        0 <= i < clones.len() && (#[trigger] clones[i]).0 == key.0,
            decreases n - v,
        {
            let group = group_of(
                types,
                plan,
                v,
                t,
                declared,
                keep,
                Ghost(origin),
                Ghost(requested),
            );
            let member = match group {
                Some(g) => g == raw,
                None => false,
            };
            assert(member == in_group(origin, requested, t as int, raw, v as int));
            if member {
                proof {
                    lemma_site_within(origin, Site::Variable, v as int);
                    lemma_inst_past_header(origin);
                }
                assert(self.words@.len() == self.words.len());
                match index.variables[v] {
                    Some(at) => {
                        let pointer: usize = self.words[at + 1] as usize;
                        let ghost key = pointer_key(origin, requested, v as int);
                        proof {
                            assert(site_of(origin, Site::Variable, v as int) == Some(at as int));
                            assert(!self.done@.contains(v as int));
                            assert(key == (pointer as int, raw as int));
                            assert(cloned_variables(origin, requested).contains(v as int));
                            assert(pointer_clones(origin, requested).contains(key));
                            assert(is_pointer_of(origin, t as int, raw, key));
                        }
                        let id: u32 = match find_clone(&clones, pointer) {
                            Some(id) => {
                                let ghost i = choose|i: int|
                                    0 <= i < clones@.len() && clones@[i] == (pointer, id);
                                assert(clones[i] == (pointer, id));
                                id
                            },
                            None => {
                                let ghost pb = self.block@.len() as int;
                                assert(!self.pointers@.contains(key));
                                match index.pointers[pointer] {
                                    Some(from) => {
                                        let ghost old_block = self.block@;
                                        proof {
                                            crate::spirv_bind::stream::lemma_reaches_ge(
                                                old_block,
                                                0,
                                                ib,
                                            );
                                        }
                                        let id: u32 = self.add_pointer(
                                            from,
                                            image,
                                            Ghost(key),
                                            Ghost(origin),
                                            Ghost(requested),
                                        );
                                        proof {
                                            assert(self.block@[ib + 8] == old_block[ib + 8]);
                                            assert(block_declares(
                                                self.block@,
                                                pb,
                                                Site::Pointer,
                                                id as int,
                                            ));
                                            assert(block_declares(
                                                self.block@,
                                                ib,
                                                Site::Image,
                                                self.block@[pb + 3] as int,
                                            ));
                                            lemma_clone_kept(
                                                old_block,
                                                self.block@,
                                                ib,
                                                origin,
                                                site_of(origin, Site::Image, t as int)->0,
                                            );
                                            assert(points_to_clone(
                                                self.block@,
                                                origin,
                                                id as int,
                                                pointer as int,
                                                t as int,
                                                raw as int,
                                            ));
                                        }
                                        let ghost before = clones@;
                                        clones.push((pointer, id));
                                        proof {
                                            assert forall|k: (int, int)| #[trigger]
                                                self.pointers@.contains(k) && is_pointer_of(
                                                    origin,
                                                    t as int,
                                                    raw,
                                                    k,
                                                ) implies exists|i: int|
                                                0 <= i < clones.len() && (#[trigger] clones[i]).0
                                                    == k.0 by {
                                                if k == key {
                                                    assert(clones[before.len() as int].0 == k.0);
                                                } else {
                                                    let i = choose|i: int|
                                                        0 <= i < before.len() && (
                                                        #[trigger] before[i]).0 == k.0;
                                                    assert(clones[i] == before[i]);
                                                }
                                            }
                                            assert forall|i: int| 0 <= i < clones.len() implies
                                                points_to_clone(
                                                self.block@,
                                                origin,
                                                (#[trigger] clones[i]).1 as int,
                                                clones[i].0 as int,
                                                t as int,
                                                raw as int,
                                            ) && self.pointers@.contains(
                                                (clones[i].0 as int, raw as int),
                                            ) by {
                                                if i < before.len() {
                                                    assert(clones[i] == before[i]);
                                                }
                                            }
                                        }
                                        id
                                    },
                                    None => 0,
                                }
                            },
                        };
                        self.retarget(
                            at,
                            id,
                            Ghost(v as int),
                            Ghost(origin),
                            Ghost(requested),
                        );
                    },
                    None => {},
                }
            }
            v = v + 1;
        }
    }
}

/// The order of the rewriting: everything made so far belongs to image types
/// below `t`, or to `t` in a format already passed.
pub open spec fn in_order(
    origin: Seq<u32>,
    requested: Seq<(u32, ImageFormat)>,
    rewrite: Rewrite,
    t: int,
    last: Option<u32>,
) -> bool {
    &&& forall|key: (int, int)| #[trigger]
        rewrite.images@.contains(key) ==> key.0 < t || (key.0 == t && 0 <= key.1 <= u32::MAX
            && passed(last, key.1 as u32))
    &&& forall|key: (int, int)| #[trigger]
        rewrite.pointers@.contains(key) ==> pointee_of(origin, key.0) is Some && (pointee_of(
            origin,
            key.0,
        )->0 < t || (pointee_of(origin, key.0)->0 == t && 0 <= key.1 <= u32::MAX && passed(
            last,
            key.1 as u32,
        )))
    &&& forall|v: int| #[trigger]
        rewrite.done@.contains(v) <==> is_cloned(origin, requested, v) && (
        image_type_of_variable(origin, v)->0 < t || (image_type_of_variable(origin, v)->0 == t
            && passed(last, wanted_format(origin, requested, v).to_raw())))
}

impl Rewrite {
    /// Give image type `t` the format it keeps.
    fn patch_image(
        &mut self,
        at: usize,
        keep: ImageFormat,
        Ghost(t): Ghost<int>,
        Ghost(origin): Ghost<Seq<u32>>,
        Ghost(requested): Ghost<Seq<(u32, ImageFormat)>>,
    )
        requires
            module_ok(origin),
            old(self).inv(origin, requested),
            patched(old(self).words@, origin, requested, t),
            0 <= t < id_bound(origin),
            site_of(origin, Site::Image, t) == Some(at as int),
            keep == keep_format(origin, requested, t),
        ensures
            final(self).inv(origin, requested),
            patched(final(self).words@, origin, requested, t + 1),
            final(self).block == old(self).block,
            final(self).done == old(self).done,
            final(self).images == old(self).images,
            final(self).pointers == old(self).pointers,
    {
        proof {
            lemma_site_within(origin, Site::Image, t);
            lemma_inst_past_header(origin);
        }
        assert(self.words@.len() == self.words.len());
        let ghost before = self.words@;
        self.words.set(at + 8, keep.raw());
        proof {
            assert(is_inst(origin, at as int) && is_site(origin, at as int, Site::Image));
            assert(editable(origin, at + 8));
            assert(is_rewritten(origin, requested, at + 8));
            assert forall|v: int|
                #![trigger site_of(origin, Site::Variable, v)]
                site_of(origin, Site::Variable, v) is Some implies self.words@[site_of(
                origin,
                Site::Variable,
                v,
            )->0 + 1] == before[site_of(origin, Site::Variable, v)->0 + 1] by {
                lemma_slots_apart(origin, v, t);
                lemma_site_within(origin, Site::Variable, v);
            }
            assert forall|v: int| #[trigger] self.done@.contains(v) implies site_of(
                origin,
                Site::Variable,
                v,
            ) is Some by {
                assert(is_cloned(origin, requested, v));
            }
            assert forall|k: int|
                #![trigger site_of(origin, Site::Image, k)]
                k != t && site_of(origin, Site::Image, k) is Some implies self.words@[site_of(
                origin,
                Site::Image,
                k,
            )->0 + 8] == before[site_of(origin, Site::Image, k)->0 + 8] by {
                lemma_site_within(origin, Site::Image, k);
            }
        }
    }

    /// Settle every variable of image type `t`.
    fn retype_image(
        &mut self,
        index: &ModuleIndex,
        types: &Vec<Option<usize>>,
        plan: &Vec<Option<ImageFormat>>,
        t: usize,
        Ghost(origin): Ghost<Seq<u32>>,
        Ghost(requested): Ghost<Seq<(u32, ImageFormat)>>,
    )
        requires
            ready(origin, requested),
            old(self).inv(origin, requested),
            tables_ok(origin, requested, index, types@, plan@),
            t < id_bound(origin),
            patched(old(self).words@, origin, requested, t as int),
            in_order(origin, requested, *old(self), t as int, None),
        ensures
            final(self).inv(origin, requested),
            patched(final(self).words@, origin, requested, t + 1),
            in_order(origin, requested, *final(self), t + 1, None),
    {
        let at: usize = match index.images[t] {
            Some(at) => at,
            None => {
                proof {
                    lemma_untyped_order(origin, requested, *self, t as int);
                }
                return ;
            },
        };
        proof {
            lemma_site_within(origin, Site::Image, t as int);
            lemma_inst_past_header(origin);
        }
        assert(self.words@.len() == self.words.len());
        assert(site_of(origin, Site::Image, t as int) == Some(at as int));
        let declared = ImageFormat::from_raw(self.words[at + 8]);
        let keep = find_keep(types, plan, t, declared, Ghost(origin), Ghost(requested));
        self.patch_image(at, keep, Ghost(t as int), Ghost(origin), Ghost(requested));
        let mut last: Option<u32> = None;
        let mut more = true;
        while more
            invariant
                ready(origin, requested),
                self.inv(origin, requested),
                tables_ok(origin, requested, index, types@, plan@),
                t < id_bound(origin),
                site_of(origin, Site::Image, t as int) is Some,
                declared == declared_format(origin, t as int),
                keep == keep_format(origin, requested, t as int),
                patched(self.words@, origin, requested, t + 1),
                in_order(origin, requested, *self, t as int, last),
                !more ==> forall|v: int, raw: u32|
                    in_group(origin, requested, t as int, raw, v) ==> passed(last, raw),
            decreases
                    u32::MAX - (match last {
                        Some(g) => g as int,
                        None => -1,
                    }),
                    more as int,
        {
            match next_group(
                types,
                plan,
                t,
                declared,
                keep,
                last,
                Ghost(origin),
                Ghost(requested),
            ) {
                Some(raw) => {
                    let ghost before = *self;
                    self.clone_group(
                        index,
                        types,
                        plan,
                        t,
                        raw,
                        declared,
                        keep,
                        Ghost(origin),
                        Ghost(requested),
                    );
                    proof {
                        assert forall|v: int| #[trigger]
                            self.done@.contains(v) <==> is_cloned(origin, requested, v) && (
                            image_type_of_variable(origin, v)->0 < t || (image_type_of_variable(
                                origin,
                                v,
                            )->0 == t && passed(
                                Some(raw),
                                wanted_format(origin, requested, v).to_raw(),
                            ))) by {
                            assert(before.done@.contains(v) <==> is_cloned(origin, requested, v)
                                && (image_type_of_variable(origin, v)->0 < t || (
                            image_type_of_variable(origin, v)->0 == t && passed(
                                last,
                                wanted_format(origin, requested, v).to_raw(),
                            ))));
                            if is_cloned(origin, requested, v) && image_type_of_variable(
                                origin,
                                v,
                            )->0 == t {
                                let other = wanted_format(origin, requested, v).to_raw();
                                assert(in_group(origin, requested, t as int, other, v));
                            }
                        }
                    }
                    last = Some(raw);
                },
                None => {
                    more = false;
                },
            }
        }
        proof {
            assert forall|v: int| #[trigger]
                self.done@.contains(v) <==> is_cloned(origin, requested, v)
                    && image_type_of_variable(origin, v)->0 < t + 1 by {
                if is_cloned(origin, requested, v) && image_type_of_variable(origin, v)->0 == t {
                    let other = wanted_format(origin, requested, v).to_raw();
                    assert(in_group(origin, requested, t as int, other, v));
                }
            }
        }
    }
}

/// An id that is no image type has no users, so nothing is owed for it.
proof fn lemma_untyped_order(
    origin: Seq<u32>,
    requested: Seq<(u32, ImageFormat)>,
    rewrite: Rewrite,
    t: int,
)
    requires
        in_order(origin, requested, rewrite, t, None),
        forall|v: int| is_user(origin, t, v) ==> !is_cloned(origin, requested, v),
    ensures
        in_order(origin, requested, rewrite, t + 1, None),
{
    assert forall|v: int| #[trigger]
        rewrite.done@.contains(v) <==> is_cloned(origin, requested, v) && image_type_of_variable(
            origin,
            v,
        )->0 < t + 1 by {
        if is_cloned(origin, requested, v) && image_type_of_variable(origin, v)->0 == t {
            assert(is_user(origin, t, v));
        }
    }
}

/// Image type `t` has a user that was asked a format.
pub open spec fn is_touched(
    origin: Seq<u32>,
    requested: Seq<(u32, ImageFormat)>,
    t: int,
) -> bool {
    exists|v: int| #[trigger]
        is_user(origin, t, v) && requested_format(origin, requested, v) is Some
}

proof fn lemma_untouched(origin: Seq<u32>, requested: Seq<(u32, ImageFormat)>, t: int)
    requires
        !is_touched(origin, requested, t),
    ensures
        keep_format(origin, requested, t) == declared_format(origin, t),
        forall|v: int| #[trigger] is_user(origin, t, v) ==> !is_cloned(origin, requested, v),
{
}

/// Mark the image types that a request reaches.
fn touched_types(
    types: &Vec<Option<usize>>,
    plan: &Vec<Option<ImageFormat>>,
    Ghost(origin): Ghost<Seq<u32>>,
    Ghost(requested): Ghost<Seq<(u32, ImageFormat)>>,
) -> (touched: Vec<bool>)
    requires
        types.len() == id_bound(origin),
        plan.len() == id_bound(origin),
        types_ok(origin, types@),
        plan_ok(origin, requested, plan@),
    ensures
        touched.len() == types.len(),
        forall|t: int|
            0 <= t < touched.len() ==> #[trigger] touched[t] == is_touched(origin, requested, t),
{
    let n: usize = types.len();
    let mut touched: Vec<bool> = Vec::new();
    while touched.len() < n
        invariant
            touched.len() <= n,
            forall|i: int| 0 <= i < touched.len() ==> !#[trigger] touched[i],
        decreases n - touched.len(),
    {
        touched.push(false);
    }
    let mut v: usize = 0;
    while v < n
        invariant
            n == id_bound(origin),
            types.len() == n,
            plan.len() == n,
            touched.len() == n,
            types_ok(origin, types@),
            plan_ok(origin, requested, plan@),
            v <= n,
            forall|t: int|
                0 <= t < n ==> (#[trigger] touched[t] <==> exists|k: int| #[trigger]
                    is_user(origin, t, k) && k < v && requested_format(
                        origin,
                        requested,
                        k,
                    ) is Some),
        decreases n - v,
    {
        let ghost before = touched@;
        assert(plan[v as int] == requested_format(origin, requested, v as int));
        let ghost tv = types[v as int];
        match (plan[v], types[v]) {
            (Some(_), Some(t)) => {
                touched[t] = true;
                assert(is_user(origin, t as int, v as int));
            },
            _ => {},
        }
        proof {
            assert forall|t: int| 0 <= t < n implies (#[trigger] touched[t] <==> exists|k: int|
             #[trigger]
                is_user(origin, t, k) && k < v + 1 && requested_format(
                    origin,
                    requested,
                    k,
                ) is Some) by {
                assert(before[t] <==> exists|k: int| #[trigger]
                    is_user(origin, t, k) && k < v && requested_format(
                        origin,
                        requested,
                        k,
                    ) is Some);
            }
        }
        v = v + 1;
    }
    touched
}

/// Patch, clone and retarget over the whole module.
pub(crate) fn retype(
    words: Vec<u32>,
    index: &ModuleIndex,
    types: &Vec<Option<usize>>,
    plan: &Vec<Option<ImageFormat>>,
    Ghost(requested): Ghost<Seq<(u32, ImageFormat)>>,
) -> (rewrite: Rewrite)
    requires
        ready(words@, requested),
        tables_ok(words@, requested, index, types@, plan@),
    ensures
        rewrite.inv(words@, requested),
        patched(rewrite.words@, words@, requested, id_bound(words@)),
        rewrite.done@ == cloned_variables(words@, requested),
        rewrite.next == id_bound(words@) + fresh_ids(words@, requested),
{
    let ghost origin = words@;
    let n: usize = types.len();
    let touched = touched_types(types, plan, Ghost(origin), Ghost(requested));
    let bound: u32 = words[3];
    let mut rewrite = Rewrite {
        words,
        block: Vec::new(),
        next: bound,
        done: Ghost(Set::empty()),
        images: Ghost(Set::empty()),
        pointers: Ghost(Set::empty()),
    };
    assert forall|b: int| !block_inst(rewrite.block@, b) by {}
    let mut t: usize = 0;
    while t < n
        invariant
            ready(origin, requested),
            tables_ok(origin, requested, index, types@, plan@),
            n == id_bound(origin),
            touched.len() == n,
            forall|k: int|
                0 <= k < touched.len() ==> #[trigger] touched[k] == is_touched(
                    origin,
                    requested,
                    k,
                ),
            t <= n,
            rewrite.inv(origin, requested),
            patched(rewrite.words@, origin, requested, t as int),
            in_order(origin, requested, rewrite, t as int, None),
        decreases n - t,
    {
        if touched[t] {
            rewrite.retype_image(index, types, plan, t, Ghost(origin), Ghost(requested));
        } else {
            proof {
                lemma_untouched(origin, requested, t as int);
                lemma_untyped_order(origin, requested, rewrite, t as int);
                crate::spirv_bind::format::law_image_format_round_trip(
                    image_raw_of(origin, t as int)->0,
                    ImageFormat::Unknown,
                );
            }
        }
        t = t + 1;
    }
    proof {
        lemma_clones_finite(origin, requested);
        assert forall|v: int| is_cloned(origin, requested, v) implies rewrite.done@.contains(
            v,
        ) by {}
        assert(rewrite.done@ =~= cloned_variables(origin, requested));
        assert(rewrite.images@ =~= image_clones(origin, requested)) by {
            assert forall|key: (int, int)|
                image_clones(origin, requested).contains(key) implies rewrite.images@.contains(
                key,
            ) by {
                let v = choose|v: int|
                    cloned_variables(origin, requested).contains(v) && key == image_key(
                        origin,
                        requested,
                        v,
                    );
                assert(rewrite.done@.contains(v));
            }
        }
        assert(rewrite.pointers@ =~= pointer_clones(origin, requested)) by {
            assert forall|key: (int, int)|
                pointer_clones(origin, requested).contains(key) implies rewrite.pointers@.contains(
                key,
            ) by {
                let v = choose|v: int|
                    cloned_variables(origin, requested).contains(v) && key == pointer_key(
                        origin,
                        requested,
                        v,
                    );
                assert(rewrite.done@.contains(v));
            }
        }
    }
    rewrite
}

} // verus!
