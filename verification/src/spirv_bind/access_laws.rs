//! What the uses of a storage descriptor come to, by the numbers of the instructions.

use vstd::prelude::*;
use crate::spirv_bind::access::{
    BufferAccess, Flow, STORAGE_CLASS_STORAGE_BUFFER, STORAGE_CLASS_UNIFORM_CONSTANT,
    StorageImageAccess, buffer_access_spec, carried, carries, closed_under, is_root, lets_image_out,
    lets_pointer_out, lets_root_out, mentions, reads_image, storage_image_access_spec, writes_image,
    writes_through, yields,
};
use crate::spirv_bind::index::{Site, binding_of, declares, lemma_site_within, storage_class_of};
use crate::spirv_bind::literals::literal_at;
use crate::spirv_bind::stream::{is_inst, lemma_inst_past_header, module_ok, opcode, word_count};

verus! {

/// The number of an instruction: the low half of its first word.
pub open spec fn number(head: u32) -> int {
    head as int % 0x1_0000
}

/// The words of an instruction: the high half of its first word.
pub open spec fn length(head: u32) -> int {
    head as int / 0x1_0000
}

pub proof fn lemma_head(head: u32)
    ensures
        opcode(head) == number(head),
        word_count(head) == length(head),
{
    assert(head & 0xffff == head % 0x1_0000) by (bit_vector);
    assert(head >> 16 == head / 0x1_0000) by (bit_vector);
}

/// Instructions follow one another from the sixth word on, each as long as its first
/// word says, and a module that is whole ends with one of them.
pub proof fn law_instructions_follow_one_another(words: Seq<u32>, at: int)
    requires
        module_ok(words),
    ensures
        words.len() >= 5 && words[3] > 0,
        words.len() > 5 ==> is_inst(words, 5),
        is_inst(words, at) ==> 5 <= at && length(words[at]) > 0 && at + length(words[at])
            <= words.len(),
        is_inst(words, at) && at + length(words[at]) < words.len() ==> is_inst(
            words,
            at + length(words[at]),
        ),
        forall|k: int|
            is_inst(words, at) && at < k < at + length(words[at]) ==> !#[trigger] is_inst(words, k),
{
    if 0 <= at < words.len() {
        lemma_head(words[at]);
    }
    lemma_inst_past_header(words);
    if words.len() > 5 {
        crate::spirv_bind::stream::lemma_on_walk(words, 5);
    }
    if is_inst(words, at) {
        crate::spirv_bind::stream::lemma_inst_split(words, at);
        if at + length(words[at]) < words.len() {
            crate::spirv_bind::stream::lemma_on_walk(words, at + length(words[at]));
        }
    }
}

/// The last binding decoration of `id` in the module gives it this binding.
pub open spec fn decorated(words: Seq<u32>, at: int, id: int, binding: u32) -> bool {
    &&& is_inst(words, at)
    &&& number(words[at]) == 71
    &&& length(words[at]) >= 4
    &&& words[at + 1] == id
    &&& words[at + 2] == 33
    &&& words[at + 3] == binding
    &&& forall|k: int|
        #![trigger is_inst(words, k)]
        k > at && is_inst(words, k) && number(words[k]) == 71 && length(words[k]) >= 4 ==> !(
        words[k + 1] == id && words[k + 2] == 33)
}

/// The last declaration of variable `id` in the module is of this storage class.
pub open spec fn declared(words: Seq<u32>, at: int, id: int, class: int) -> bool {
    &&& is_inst(words, at)
    &&& number(words[at]) == 59
    &&& length(words[at]) >= 4
    &&& words[at + 2] == id
    &&& words[at + 3] == class
    &&& forall|k: int|
        #![trigger is_inst(words, k)]
        k > at && is_inst(words, k) && number(words[k]) == 59 && length(words[k]) >= 4 ==> words[k
            + 2] != id
}

/// `id` is a variable of the storage class at the binding.
pub open spec fn stands_at(words: Seq<u32>, binding: u32, class: int, id: int) -> bool {
    &&& 0 <= id < words[3]
    &&& exists|at: int| decorated(words, at, id, binding)
    &&& exists|at: int| declared(words, at, id, class)
}

proof fn lemma_stands(words: Seq<u32>, binding: u32, class: u32, id: int)
    ensures
        is_root(words, binding, class, id) <==> stands_at(words, binding, class as int, id),
{
    lemma_site_within(words, Site::Binding, id);
    lemma_site_within(words, Site::Variable, id);
    lemma_inst_past_header(words);
    assert forall|k: int| #[trigger] is_inst(words, k) implies opcode(words[k]) == number(words[k])
        && word_count(words[k]) == length(words[k]) by {
        lemma_head(words[k]);
    }
    if 0 <= id < words[3] {
        if binding_of(words, id) == Some(binding) {
            let at = crate::spirv_bind::index::site_of(words, Site::Binding, id)->0;
            assert forall|k: int|
                #![trigger is_inst(words, k)]
                k > at && is_inst(words, k) && number(words[k]) == 71 && length(words[k])
                    >= 4 implies !(words[k + 1] == id && words[k + 2] == 33) by {
                if words[k + 1] == id && words[k + 2] == 33 {
                    assert(declares(words, k, Site::Binding, id));
                }
            }
            assert(decorated(words, at, id, binding));
        }
        if exists|at: int| decorated(words, at, id, binding) {
            let at = choose|at: int| decorated(words, at, id, binding);
            assert(declares(words, at, Site::Binding, id));
            let last = crate::spirv_bind::index::site_of(words, Site::Binding, id)->0;
            assert(declares(words, last, Site::Binding, id));
            assert(last == at);
        }
        if storage_class_of(words, id) == Some(class) {
            let at = crate::spirv_bind::index::site_of(words, Site::Variable, id)->0;
            assert forall|k: int|
                #![trigger is_inst(words, k)]
                k > at && is_inst(words, k) && number(words[k]) == 59 && length(words[k])
                    >= 4 implies words[k + 2] != id by {
                if words[k + 2] == id {
                    assert(declares(words, k, Site::Variable, id));
                }
            }
            assert(declared(words, at, id, class as int));
        }
        if exists|at: int| declared(words, at, id, class as int) {
            let at = choose|at: int| declared(words, at, id, class as int);
            assert(declares(words, at, Site::Variable, id));
            let last = crate::spirv_bind::index::site_of(words, Site::Variable, id)->0;
            assert(declares(words, last, Site::Variable, id));
            assert(last == at);
        }
    }
}

/// The instruction at `at` hands the value `from` on as its result `to`: a copy, a
/// choice, or a merge of control flow.
pub open spec fn hands_on(words: Seq<u32>, at: int, from: int, to: int) -> bool {
    let n = number(words[at]);
    let count = length(words[at]);
    &&& is_inst(words, at)
    &&& to == words[at + 2] < words[3]
    &&& {
        ||| n == 83 && count >= 4 && words[at + 3] == from
        ||| n == 169 && count >= 6 && (words[at + 4] == from || words[at + 5] == from)
        ||| n == 245 && count >= 5 && exists|k: int|
            0 <= k && 3 + 2 * k < count && #[trigger] words[at + 3 + 2 * k] == from
    }
}

/// The instruction at `at` makes a pointer `to` from the pointer `from`.
pub open spec fn points_on(words: Seq<u32>, at: int, from: int, to: int) -> bool {
    let n = number(words[at]);
    ||| hands_on(words, at, from, to)
    ||| {
        &&& is_inst(words, at)
        &&& n == 65 || n == 66 || n == 67 || n == 70 || n == 121 || n == 122 || n == 123
        &&& length(words[at]) >= 4
        &&& words[at + 3] == from
        &&& to == words[at + 2] < words[3]
    }
}

/// `p` is the variable `v`, or a pointer made from it in `n` steps.
pub open spec fn points_into(words: Seq<u32>, v: int, n: nat, p: int) -> bool
    decreases n,
{
    if n == 0 {
        p == v
    } else {
        exists|at: int, q: int| #[trigger]
            points_on(words, at, q, p) && points_into(words, v, (n - 1) as nat, q)
    }
}

/// `p` is an image loaded from the variable `v`, handed on in `n` steps.
pub open spec fn image_of(words: Seq<u32>, v: int, n: nat, p: int) -> bool
    decreases n,
{
    if n == 0 {
        exists|at: int| #[trigger]
            is_inst(words, at) && number(words[at]) == 61 && length(words[at]) >= 4 && words[at + 3]
                == v && words[at + 2] == p && p < words[3]
    } else {
        exists|at: int, q: int| #[trigger]
            hands_on(words, at, q, p) && image_of(words, v, (n - 1) as nat, q)
    }
}

proof fn lemma_heads(words: Seq<u32>)
    ensures
        forall|k: int| #[trigger]
            is_inst(words, k) ==> opcode(words[k]) == number(words[k]) && word_count(words[k])
                == length(words[k]) && 5 <= k < words.len(),
{
    lemma_inst_past_header(words);
    assert forall|k: int| #[trigger] is_inst(words, k) implies opcode(words[k]) == number(words[k])
        && word_count(words[k]) == length(words[k]) by {
        lemma_head(words[k]);
    }
}

proof fn lemma_step_carries(words: Seq<u32>, flow: Flow, v: int, at: int, q: int, p: int)
    requires
        carries(words, flow, v, q),
        hands_on(words, at, q, p) || (flow == Flow::BufferPointer && points_on(words, at, q, p)),
    ensures
        carries(words, flow, v, p),
{
    lemma_heads(words);
    assert forall|s: Set<int>| #[trigger] closed_under(words, flow, v, s) implies s.contains(p) by {
        assert(s.contains(q));
        if number(words[at]) == 245 {
            let k = choose|k: int|
                0 <= k && 3 + 2 * k < length(words[at]) && #[trigger] words[at + 3 + 2 * k] == q;
            assert(s.contains(words[at + 3 + 2 * k] as int));
        }
        assert(yields(words, flow, v, at, s));
    }
}

proof fn lemma_pointer_carried(words: Seq<u32>, v: int, n: nat, p: int)
    requires
        points_into(words, v, n, p),
    ensures
        carries(words, Flow::BufferPointer, v, p),
    decreases n,
{
    if n > 0 {
        let (at, q) = choose|at: int, q: int| #[trigger]
            points_on(words, at, q, p) && points_into(words, v, (n - 1) as nat, q);
        lemma_pointer_carried(words, v, (n - 1) as nat, q);
        lemma_step_carries(words, Flow::BufferPointer, v, at, q, p);
    }
}

proof fn lemma_image_carried(words: Seq<u32>, v: int, n: nat, p: int)
    requires
        image_of(words, v, n, p),
    ensures
        carries(words, Flow::ImageObject, v, p),
    decreases n,
{
    lemma_heads(words);
    if n > 0 {
        let (at, q) = choose|at: int, q: int| #[trigger]
            hands_on(words, at, q, p) && image_of(words, v, (n - 1) as nat, q);
        lemma_image_carried(words, v, (n - 1) as nat, q);
        lemma_step_carries(words, Flow::ImageObject, v, at, q, p);
    } else {
        let at = choose|at: int| #[trigger]
            is_inst(words, at) && number(words[at]) == 61 && length(words[at]) >= 4 && words[at + 3]
                == v && words[at + 2] == p && p < words[3];
        assert forall|s: Set<int>| #[trigger]
            closed_under(words, Flow::ImageObject, v, s) implies s.contains(p) by {
            assert(yields(words, Flow::ImageObject, v, at, s));
        }
    }
}

/// The pointers that are followed from a buffer are those made from its variable.
pub proof fn law_followed_pointers(words: Seq<u32>, v: int, p: int)
    ensures
        carried(words, Flow::BufferPointer, v).contains(p) <==> exists|n: nat|
            points_into(words, v, n, p),
{
    lemma_heads(words);
    let made = Set::new(|p: int| exists|n: nat| points_into(words, v, n, p));
    assert(points_into(words, v, 0, v));
    assert(made.contains(v));
    assert forall|at: int|
        #[trigger] is_inst(words, at) && yields(words, Flow::BufferPointer, v, at, made) && words[at
            + 2] < words[3] implies made.contains(words[at + 2] as int) by {
        let to = words[at + 2] as int;
        let op = number(words[at]);
        let q = if op == 169 {
            if made.contains(words[at + 4] as int) {
                words[at + 4] as int
            } else {
                words[at + 5] as int
            }
        } else if op == 245 {
            let k = choose|k: int|
                0 <= k && 3 + 2 * k < length(words[at]) && made.contains(
                    #[trigger] words[at + 3 + 2 * k] as int,
                );
            words[at + 3 + 2 * k] as int
        } else {
            words[at + 3] as int
        };
        assert(made.contains(q));
        let n = choose|n: nat| points_into(words, v, n, q);
        assert(points_on(words, at, q, to));
        assert(points_into(words, v, n + 1, to));
    }
    assert(closed_under(words, Flow::BufferPointer, v, made));
    if exists|n: nat| points_into(words, v, n, p) {
        let n = choose|n: nat| points_into(words, v, n, p);
        lemma_pointer_carried(words, v, n, p);
    }
}

/// The images that are followed from a descriptor are those loaded from its variable
/// and handed on.
pub proof fn law_followed_images(words: Seq<u32>, v: int, p: int)
    ensures
        carried(words, Flow::ImageObject, v).contains(p) <==> exists|n: nat|
            image_of(words, v, n, p),
{
    lemma_heads(words);
    let made = Set::new(|p: int| exists|n: nat| image_of(words, v, n, p));
    assert forall|at: int|
        #[trigger] is_inst(words, at) && yields(words, Flow::ImageObject, v, at, made) && words[at
            + 2] < words[3] implies made.contains(words[at + 2] as int) by {
        let to = words[at + 2] as int;
        let op = number(words[at]);
        if op == 61 {
            assert(image_of(words, v, 0, to));
        } else {
            let q = if op == 169 {
                if made.contains(words[at + 4] as int) {
                    words[at + 4] as int
                } else {
                    words[at + 5] as int
                }
            } else if op == 245 {
                let k = choose|k: int|
                    0 <= k && 3 + 2 * k < length(words[at]) && made.contains(
                        #[trigger] words[at + 3 + 2 * k] as int,
                    );
                words[at + 3 + 2 * k] as int
            } else {
                words[at + 3] as int
            };
            assert(made.contains(q));
            let n = choose|n: nat| image_of(words, v, n, q);
            assert(hands_on(words, at, q, to));
            assert(image_of(words, v, n + 1, to));
        }
    }
    assert(closed_under(words, Flow::ImageObject, v, made));
    if exists|n: nat| image_of(words, v, n, p) {
        let n = choose|n: nat| image_of(words, v, n, p);
        lemma_image_carried(words, v, n, p);
    }
}

/// The instruction at `at` writes through the pointer `p`: a store, a copy to it, or an
/// atomic that changes what is there.
pub open spec fn stores_to(words: Seq<u32>, at: int, p: int) -> bool {
    let n = number(words[at]);
    let count = length(words[at]);
    &&& is_inst(words, at)
    &&& {
        ||| (n == 62 || n == 63 || n == 64 || n == 228 || n == 319) && count >= 2 && words[at + 1]
            == p
        ||| (229 <= n <= 242 || n == 318) && count >= 4 && words[at + 3] == p
    }
}

/// The instruction at `at` takes the pointer `p` where it is not followed: into a call,
/// out of the function, or into a number.
pub open spec fn takes_away(words: Seq<u32>, at: int, p: int) -> bool {
    let n = number(words[at]);
    let count = length(words[at]);
    &&& is_inst(words, at)
    &&& {
        ||| n == 57 && exists|k: int| 4 <= k < count && #[trigger] words[at + k] == p
        ||| n == 254 && count >= 2 && words[at + 1] == p
        ||| n == 117 && count >= 4 && words[at + 3] == p
    }
}

/// Some instruction writes through a pointer made from `v`.
pub open spec fn written_through(words: Seq<u32>, v: int) -> bool {
    exists|at: int, n: nat, p: int| #[trigger]
        stores_to(words, at, p) && #[trigger] points_into(words, v, n, p)
}

/// Some instruction takes a pointer made from `v` away.
pub open spec fn taken_away(words: Seq<u32>, v: int) -> bool {
    exists|at: int, n: nat, p: int| #[trigger]
        takes_away(words, at, p) && #[trigger] points_into(words, v, n, p)
}

/// How a module uses the storage buffer at a binding: not at all where no variable of
/// storage class 12 stands there; ambiguously where several do; else it writes it where
/// an instruction writes through a pointer made from the variable, leaves that open
/// where such a pointer is taken away, and only reads it otherwise.
pub proof fn law_buffer_access(words: Seq<u32>, binding: u32)
    requires
        module_ok(words),
    ensures
        ({
            let access = buffer_access_spec(words, binding);
            &&& access is None <==> forall|v: int| !stands_at(words, binding, 12, v)
            &&& access == Some(BufferAccess::AmbiguousBinding) <==> exists|a: int, b: int|
                a != b && stands_at(words, binding, 12, a) && stands_at(words, binding, 12, b)
            &&& forall|v: int|
                #![trigger stands_at(words, binding, 12, v)]
                stands_at(words, binding, 12, v) && access != Some(BufferAccess::AmbiguousBinding)
                    ==> {
                    &&& access == Some(BufferAccess::Writable) <==> written_through(words, v)
                    &&& access == Some(BufferAccess::PointerEscape) <==> !written_through(words, v)
                        && taken_away(words, v)
                    &&& access == Some(BufferAccess::ReadOnly) <==> !written_through(words, v)
                        && !taken_away(words, v)
                }
        }),
{
    let access = buffer_access_spec(words, binding);
    assert forall|v: int| is_root(words, binding, STORAGE_CLASS_STORAGE_BUFFER, v) <==>
        #[trigger] stands_at(words, binding, 12, v) by {
        lemma_stands(words, binding, STORAGE_CLASS_STORAGE_BUFFER, v);
    }
    if exists|v: int| is_root(words, binding, STORAGE_CLASS_STORAGE_BUFFER, v) {
        let root = choose|v: int| is_root(words, binding, STORAGE_CLASS_STORAGE_BUFFER, v);
        let s = carried(words, Flow::BufferPointer, root);
        assert(stands_at(words, binding, 12, root));
        lemma_written(words, root);
        lemma_taken(words, root);
        if exists|a: int, b: int|
            a != b && stands_at(words, binding, 12, a) && stands_at(words, binding, 12, b) {
            let (a, b) = choose|a: int, b: int|
                a != b && stands_at(words, binding, 12, a) && stands_at(words, binding, 12, b);
            assert(is_root(words, binding, STORAGE_CLASS_STORAGE_BUFFER, a));
            assert(is_root(words, binding, STORAGE_CLASS_STORAGE_BUFFER, b));
        }
        if exists|id: int|
            is_root(words, binding, STORAGE_CLASS_STORAGE_BUFFER, id) && id != root {
            let id = choose|id: int|
                is_root(words, binding, STORAGE_CLASS_STORAGE_BUFFER, id) && id != root;
            assert(stands_at(words, binding, 12, id));
        }
        assert forall|v: int|
            #![trigger stands_at(words, binding, 12, v)]
            stands_at(words, binding, 12, v) && access != Some(
                BufferAccess::AmbiguousBinding,
            ) implies v == root by {
            assert(is_root(words, binding, STORAGE_CLASS_STORAGE_BUFFER, v));
        }
    } else {
        assert forall|v: int| !stands_at(words, binding, 12, v) by {
            assert(!is_root(words, binding, STORAGE_CLASS_STORAGE_BUFFER, v));
        }
    }
}

proof fn lemma_written(words: Seq<u32>, v: int)
    ensures
        (exists|at: int| #[trigger]
            is_inst(words, at) && writes_through(
                words,
                at,
                carried(words, Flow::BufferPointer, v),
            )) <==> written_through(words, v),
{
    lemma_heads(words);
    let s = carried(words, Flow::BufferPointer, v);
    assert forall|p: int| #[trigger] s.contains(p) <==> exists|n: nat|
        points_into(words, v, n, p) by {
        law_followed_pointers(words, v, p);
    }
    if exists|at: int| #[trigger] is_inst(words, at) && writes_through(words, at, s) {
        let at = choose|at: int| #[trigger] is_inst(words, at) && writes_through(words, at, s);
        let op = number(words[at]);
        let p = if op == 62 || op == 63 || op == 64 || op == 228 || op == 319 {
            words[at + 1] as int
        } else {
            words[at + 3] as int
        };
        assert(s.contains(p));
        let n = choose|n: nat| points_into(words, v, n, p);
        assert(stores_to(words, at, p) && points_into(words, v, n, p));
    }
    if written_through(words, v) {
        let (at, n, p) = choose|at: int, n: nat, p: int| #[trigger]
            stores_to(words, at, p) && #[trigger] points_into(words, v, n, p);
        assert(s.contains(p));
        assert(is_inst(words, at) && writes_through(words, at, s));
    }
}

proof fn lemma_taken(words: Seq<u32>, v: int)
    ensures
        (exists|at: int| #[trigger]
            is_inst(words, at) && lets_pointer_out(
                words,
                at,
                carried(words, Flow::BufferPointer, v),
            )) <==> taken_away(words, v),
{
    lemma_heads(words);
    let s = carried(words, Flow::BufferPointer, v);
    assert forall|p: int| #[trigger] s.contains(p) <==> exists|n: nat|
        points_into(words, v, n, p) by {
        law_followed_pointers(words, v, p);
    }
    if exists|at: int| #[trigger] is_inst(words, at) && lets_pointer_out(words, at, s) {
        let at = choose|at: int| #[trigger] is_inst(words, at) && lets_pointer_out(words, at, s);
        let op = number(words[at]);
        let p = if op == 57 {
            let k = choose|k: int|
                4 <= k < word_count(words[at]) && s.contains(#[trigger] words[at + k] as int);
            words[at + k] as int
        } else if op == 254 {
            words[at + 1] as int
        } else {
            words[at + 3] as int
        };
        assert(s.contains(p));
        let n = choose|n: nat| points_into(words, v, n, p);
        assert(takes_away(words, at, p) && points_into(words, v, n, p));
    }
    if taken_away(words, v) {
        let (at, n, p) = choose|at: int, n: nat, p: int| #[trigger]
            takes_away(words, at, p) && #[trigger] points_into(words, v, n, p);
        assert(s.contains(p));
        if number(words[at]) == 57 {
            let k = choose|k: int| 4 <= k < length(words[at]) && #[trigger] words[at + k] == p;
            assert(s.contains(words[at + k] as int));
        }
        assert(is_inst(words, at) && lets_pointer_out(words, at, s));
    }
}

/// A buffer that is stored to, at a pointer made from its variable, is written.
///
/// This holds for each way in which a pointer is made: an access chain of any of the
/// four sorts (65, 66, 67, 70), a copy (83), a cast (121, 122, 123), a choice (169) or a
/// merge (245).
pub proof fn law_store_through_a_pointer_is_seen(
    words: Seq<u32>,
    binding: u32,
    v: int,
    n: nat,
    base: int,
    made: int,
    store: int,
)
    requires
        module_ok(words),
        stands_at(words, binding, 12, v),
        forall|id: int| stands_at(words, binding, 12, id) ==> id == v,
        points_into(words, v, n, base),
        is_inst(words, made) && words[made + 2] < words[3],
        ({
            let op = number(words[made]);
            let count = length(words[made]);
            ||| count >= 4 && words[made + 3] == base && (op == 65 || op == 66 || op == 67 || op
                == 70 || op == 83 || op == 121 || op == 122 || op == 123)
            ||| op == 169 && count >= 6 && (words[made + 4] == base || words[made + 5] == base)
            ||| op == 245 && count >= 5 && (words[made + 3] == base || (count >= 6 && words[made
                + 5] == base))
        }),
        is_inst(words, store) && number(words[store]) == 62 && length(words[store]) >= 2,
        words[store + 1] == words[made + 2],
    ensures
        buffer_access_spec(words, binding) == Some(BufferAccess::Writable),
{
    let p = words[made + 2] as int;
    if number(words[made]) == 245 {
        assert(words[made + 3 + 2 * 0] == words[made + 3]);
        assert(words[made + 3 + 2 * 1] == words[made + 5]);
    }
    assert(points_on(words, made, base, p));
    assert(points_into(words, v, n + 1, p));
    assert(stores_to(words, store, p));
    law_buffer_access(words, binding);
    assert(written_through(words, v));
}

/// The module's one buffer at the binding is the variable `v`, `base` points into it, and
/// what the instruction at `made` makes is stored to.
pub open spec fn stored_behind(
    words: Seq<u32>,
    binding: u32,
    v: int,
    n: nat,
    base: int,
    made: int,
    store: int,
) -> bool {
    &&& module_ok(words)
    &&& stands_at(words, binding, 12, v)
    &&& forall|id: int| stands_at(words, binding, 12, id) ==> id == v
    &&& points_into(words, v, n, base)
    &&& is_inst(words, made) && words[made + 2] < words[3]
    &&& is_inst(words, store) && number(words[store]) == 62 && length(words[store]) >= 2
    &&& words[store + 1] == words[made + 2]
}

/// A store behind an access chain (65) of the pointer is a write of the buffer.
pub proof fn law_store_behind_an_access_chain(
    words: Seq<u32>,
    binding: u32,
    v: int,
    n: nat,
    base: int,
    made: int,
    store: int,
)
    requires
        stored_behind(words, binding, v, n, base, made, store),
        number(words[made]) == 65,
        length(words[made]) >= 4,
        words[made + 3] == base,
    ensures
        buffer_access_spec(words, binding) == Some(BufferAccess::Writable),
{
    law_store_through_a_pointer_is_seen(words, binding, v, n, base, made, store);
}

/// A store behind an in-bounds access chain (66) of the pointer is a write of the buffer.
pub proof fn law_store_behind_an_in_bounds_access_chain(
    words: Seq<u32>,
    binding: u32,
    v: int,
    n: nat,
    base: int,
    made: int,
    store: int,
)
    requires
        stored_behind(words, binding, v, n, base, made, store),
        number(words[made]) == 66,
        length(words[made]) >= 4,
        words[made + 3] == base,
    ensures
        buffer_access_spec(words, binding) == Some(BufferAccess::Writable),
{
    law_store_through_a_pointer_is_seen(words, binding, v, n, base, made, store);
}

/// A store behind a pointer access chain (67) of the pointer is a write of the buffer.
pub proof fn law_store_behind_a_pointer_access_chain(
    words: Seq<u32>,
    binding: u32,
    v: int,
    n: nat,
    base: int,
    made: int,
    store: int,
)
    requires
        stored_behind(words, binding, v, n, base, made, store),
        number(words[made]) == 67,
        length(words[made]) >= 4,
        words[made + 3] == base,
    ensures
        buffer_access_spec(words, binding) == Some(BufferAccess::Writable),
{
    law_store_through_a_pointer_is_seen(words, binding, v, n, base, made, store);
}

/// A store behind an in-bounds pointer access chain (70) of the pointer is a write of the buffer.
pub proof fn law_store_behind_an_in_bounds_pointer_access_chain(
    words: Seq<u32>,
    binding: u32,
    v: int,
    n: nat,
    base: int,
    made: int,
    store: int,
)
    requires
        stored_behind(words, binding, v, n, base, made, store),
        number(words[made]) == 70,
        length(words[made]) >= 4,
        words[made + 3] == base,
    ensures
        buffer_access_spec(words, binding) == Some(BufferAccess::Writable),
{
    law_store_through_a_pointer_is_seen(words, binding, v, n, base, made, store);
}

/// A store behind a copy (83) of the pointer is a write of the buffer.
pub proof fn law_store_behind_a_copy(
    words: Seq<u32>,
    binding: u32,
    v: int,
    n: nat,
    base: int,
    made: int,
    store: int,
)
    requires
        stored_behind(words, binding, v, n, base, made, store),
        number(words[made]) == 83,
        length(words[made]) >= 4,
        words[made + 3] == base,
    ensures
        buffer_access_spec(words, binding) == Some(BufferAccess::Writable),
{
    law_store_through_a_pointer_is_seen(words, binding, v, n, base, made, store);
}

/// A store behind a cast to a generic pointer (121) of the pointer is a write of the buffer.
pub proof fn law_store_behind_a_cast_to_generic(
    words: Seq<u32>,
    binding: u32,
    v: int,
    n: nat,
    base: int,
    made: int,
    store: int,
)
    requires
        stored_behind(words, binding, v, n, base, made, store),
        number(words[made]) == 121,
        length(words[made]) >= 4,
        words[made + 3] == base,
    ensures
        buffer_access_spec(words, binding) == Some(BufferAccess::Writable),
{
    law_store_through_a_pointer_is_seen(words, binding, v, n, base, made, store);
}

/// A store behind a cast from a generic pointer (122) of the pointer is a write of the buffer.
pub proof fn law_store_behind_a_cast_from_generic(
    words: Seq<u32>,
    binding: u32,
    v: int,
    n: nat,
    base: int,
    made: int,
    store: int,
)
    requires
        stored_behind(words, binding, v, n, base, made, store),
        number(words[made]) == 122,
        length(words[made]) >= 4,
        words[made + 3] == base,
    ensures
        buffer_access_spec(words, binding) == Some(BufferAccess::Writable),
{
    law_store_through_a_pointer_is_seen(words, binding, v, n, base, made, store);
}

/// A store behind an explicit cast (123) of the pointer is a write of the buffer.
pub proof fn law_store_behind_an_explicit_cast(
    words: Seq<u32>,
    binding: u32,
    v: int,
    n: nat,
    base: int,
    made: int,
    store: int,
)
    requires
        stored_behind(words, binding, v, n, base, made, store),
        number(words[made]) == 123,
        length(words[made]) >= 4,
        words[made + 3] == base,
    ensures
        buffer_access_spec(words, binding) == Some(BufferAccess::Writable),
{
    law_store_through_a_pointer_is_seen(words, binding, v, n, base, made, store);
}

/// A store behind a choice (169) of the pointer, on either side, is a write of the buffer.
pub proof fn law_store_behind_a_choice(
    words: Seq<u32>,
    binding: u32,
    v: int,
    n: nat,
    base: int,
    made: int,
    store: int,
)
    requires
        stored_behind(words, binding, v, n, base, made, store),
        number(words[made]) == 169,
        length(words[made]) >= 6,
        words[made + 4] == base || words[made + 5] == base,
    ensures
        buffer_access_spec(words, binding) == Some(BufferAccess::Writable),
{
    law_store_through_a_pointer_is_seen(words, binding, v, n, base, made, store);
}

/// A store behind a merge of control flow (245) that the pointer comes into, on whichever
/// edge, is a write of the buffer.
pub proof fn law_store_behind_a_merge(
    words: Seq<u32>,
    binding: u32,
    v: int,
    n: nat,
    base: int,
    made: int,
    store: int,
    k: int,
)
    requires
        stored_behind(words, binding, v, n, base, made, store),
        number(words[made]) == 245,
        length(words[made]) >= 5,
        0 <= k,
        3 + 2 * k < length(words[made]),
        words[made + 3 + 2 * k] == base,
    ensures
        buffer_access_spec(words, binding) == Some(BufferAccess::Writable),
{
    let p = words[made + 2] as int;
    assert(points_on(words, made, base, p));
    assert(points_into(words, v, n + 1, p));
    assert(stores_to(words, store, p));
    law_buffer_access(words, binding);
    assert(written_through(words, v));
}

/// The instruction at `at` reads texels of the image `p`.
pub open spec fn texels_read(words: Seq<u32>, at: int, p: int) -> bool {
    is_inst(words, at) && number(words[at]) == 98 && length(words[at]) >= 5 && words[at + 3] == p
}

/// The instruction at `at` writes texels of the image `p`.
pub open spec fn texels_written(words: Seq<u32>, at: int, p: int) -> bool {
    is_inst(words, at) && number(words[at]) == 99 && length(words[at]) >= 4 && words[at + 1] == p
}

/// The instruction at `at` names the image `p` and neither asks for its shape (101 to
/// 107), nor loads (61), nor hands it on (83, 169, 245).
pub open spec fn image_used(words: Seq<u32>, at: int, p: int) -> bool {
    let n = number(words[at]);
    &&& is_inst(words, at)
    &&& !(101 <= n <= 107) && n != 61 && n != 83 && n != 169 && n != 245
    &&& exists|k: int| 1 <= k < length(words[at]) && #[trigger] words[at + k] == p
}

/// Some image of `v` is read.
pub open spec fn some_read(words: Seq<u32>, v: int) -> bool {
    exists|at: int, n: nat, p: int| #[trigger]
        texels_read(words, at, p) && #[trigger] image_of(words, v, n, p)
}

/// Some image of `v` is written.
pub open spec fn some_written(words: Seq<u32>, v: int) -> bool {
    exists|at: int, n: nat, p: int| #[trigger]
        texels_written(words, at, p) && #[trigger] image_of(words, v, n, p)
}

/// Some image of `v` is used in an instruction that is neither a read nor a write of
/// one.
pub open spec fn some_used(words: Seq<u32>, v: int) -> bool {
    exists|at: int, n: nat, p: int|
        #![trigger image_used(words, at, p), image_of(words, v, n, p)]
        image_used(words, at, p) && image_of(words, v, n, p) && forall|m: nat, q: int|
            #![trigger image_of(words, v, m, q)]
            image_of(words, v, m, q) ==> !texels_read(words, at, q) && !texels_written(words, at, q)
}

/// The descriptor pointer `v` is used other than to load from it.
pub open spec fn pointer_used(words: Seq<u32>, v: int) -> bool {
    exists|at: int| #[trigger] is_inst(words, at) && lets_root_out(words, at, v)
}

/// How a module uses the texels of the storage image at a binding: not at all where no
/// variable of storage class 0 stands there; ambiguously where several do; else as the
/// images loaded from it are read and written, and unknown where an image is used
/// otherwise, where its pointer is, or where nothing is read or written.
pub proof fn law_storage_image_access(words: Seq<u32>, binding: u32)
    requires
        module_ok(words),
    ensures
        ({
            let access = storage_image_access_spec(words, binding);
            &&& access is None <==> forall|v: int| !stands_at(words, binding, 0, v)
            &&& access == Some(StorageImageAccess::AmbiguousBinding) <==> exists|a: int, b: int|
                a != b && stands_at(words, binding, 0, a) && stands_at(words, binding, 0, b)
            &&& forall|v: int|
                #![trigger stands_at(words, binding, 0, v)]
                stands_at(words, binding, 0, v) && access != Some(
                    StorageImageAccess::AmbiguousBinding,
                ) ==> {
                    let reads = some_read(words, v);
                    let writes = some_written(words, v);
                    let open = some_used(words, v) || pointer_used(words, v) || (!reads && !writes);
                    &&& access == Some(StorageImageAccess::Unknown) <==> open
                    &&& access == Some(StorageImageAccess::ReadWrite) <==> !open && reads && writes
                    &&& access == Some(StorageImageAccess::ReadOnly) <==> !open && reads && !writes
                    &&& access == Some(StorageImageAccess::WriteOnly) <==> !open && !reads && writes
                }
        }),
{
    let access = storage_image_access_spec(words, binding);
    assert forall|v: int| is_root(words, binding, STORAGE_CLASS_UNIFORM_CONSTANT, v) <==>
        #[trigger] stands_at(words, binding, 0, v) by {
        lemma_stands(words, binding, STORAGE_CLASS_UNIFORM_CONSTANT, v);
    }
    if exists|v: int| is_root(words, binding, STORAGE_CLASS_UNIFORM_CONSTANT, v) {
        let root = choose|v: int| is_root(words, binding, STORAGE_CLASS_UNIFORM_CONSTANT, v);
        assert(stands_at(words, binding, 0, root));
        lemma_image_uses(words, root);
        if exists|a: int, b: int|
            a != b && stands_at(words, binding, 0, a) && stands_at(words, binding, 0, b) {
            let (a, b) = choose|a: int, b: int|
                a != b && stands_at(words, binding, 0, a) && stands_at(words, binding, 0, b);
            assert(is_root(words, binding, STORAGE_CLASS_UNIFORM_CONSTANT, a));
            assert(is_root(words, binding, STORAGE_CLASS_UNIFORM_CONSTANT, b));
        }
        if exists|id: int|
            is_root(words, binding, STORAGE_CLASS_UNIFORM_CONSTANT, id) && id != root {
            let id = choose|id: int|
                is_root(words, binding, STORAGE_CLASS_UNIFORM_CONSTANT, id) && id != root;
            assert(stands_at(words, binding, 0, id));
        }
        assert forall|v: int|
            #![trigger stands_at(words, binding, 0, v)]
            stands_at(words, binding, 0, v) && access != Some(
                StorageImageAccess::AmbiguousBinding,
            ) implies v == root by {
            assert(is_root(words, binding, STORAGE_CLASS_UNIFORM_CONSTANT, v));
        }
    } else {
        assert forall|v: int| !stands_at(words, binding, 0, v) by {
            assert(!is_root(words, binding, STORAGE_CLASS_UNIFORM_CONSTANT, v));
        }
    }
}

proof fn lemma_image_uses(words: Seq<u32>, v: int)
    ensures
        ({
            let s = carried(words, Flow::ImageObject, v);
            &&& (exists|at: int| #[trigger] is_inst(words, at) && reads_image(words, at, s))
                <==> some_read(words, v)
            &&& (exists|at: int| #[trigger] is_inst(words, at) && writes_image(words, at, s))
                <==> some_written(words, v)
            &&& (exists|at: int| #[trigger]
                is_inst(words, at) && (lets_image_out(words, at, s) || lets_root_out(
                    words,
                    at,
                    v,
                ))) <==> some_used(words, v) || pointer_used(words, v)
        }),
{
    lemma_heads(words);
    let s = carried(words, Flow::ImageObject, v);
    assert forall|p: int| #[trigger] s.contains(p) <==> exists|n: nat|
        image_of(words, v, n, p) by {
        law_followed_images(words, v, p);
    }
    if exists|at: int| #[trigger] is_inst(words, at) && reads_image(words, at, s) {
        let at = choose|at: int| #[trigger] is_inst(words, at) && reads_image(words, at, s);
        let p = words[at + 3] as int;
        assert(s.contains(p));
        let n = choose|n: nat| image_of(words, v, n, p);
        assert(texels_read(words, at, p) && image_of(words, v, n, p));
    }
    if some_read(words, v) {
        let (at, n, p) = choose|at: int, n: nat, p: int| #[trigger]
            texels_read(words, at, p) && #[trigger] image_of(words, v, n, p);
        assert(s.contains(p));
        assert(is_inst(words, at) && reads_image(words, at, s));
    }
    if exists|at: int| #[trigger] is_inst(words, at) && writes_image(words, at, s) {
        let at = choose|at: int| #[trigger] is_inst(words, at) && writes_image(words, at, s);
        let p = words[at + 1] as int;
        assert(s.contains(p));
        let n = choose|n: nat| image_of(words, v, n, p);
        assert(texels_written(words, at, p) && image_of(words, v, n, p));
    }
    if some_written(words, v) {
        let (at, n, p) = choose|at: int, n: nat, p: int| #[trigger]
            texels_written(words, at, p) && #[trigger] image_of(words, v, n, p);
        assert(s.contains(p));
        assert(is_inst(words, at) && writes_image(words, at, s));
    }
    if exists|at: int| #[trigger] is_inst(words, at) && lets_image_out(words, at, s) {
        let at = choose|at: int| #[trigger] is_inst(words, at) && lets_image_out(words, at, s);
        let k = choose|k: int|
            1 <= k < word_count(words[at]) && s.contains(#[trigger] words[at + k] as int);
        let p = words[at + k] as int;
        assert(s.contains(p));
        let n = choose|n: nat| image_of(words, v, n, p);
        assert(image_used(words, at, p));
        assert forall|m: nat, q: int|
            #![trigger image_of(words, v, m, q)]
            image_of(words, v, m, q) implies !texels_read(words, at, q) && !texels_written(
            words,
            at,
            q,
        ) by {
            assert(s.contains(q));
        }
        assert(image_used(words, at, p) && image_of(words, v, n, p));
        assert(some_used(words, v));
    }
    if some_used(words, v) {
        let (at, n, p) = choose|at: int, n: nat, p: int|
            #![trigger image_used(words, at, p), image_of(words, v, n, p)]
            image_used(words, at, p) && image_of(words, v, n, p) && forall|m: nat, q: int|
                #![trigger image_of(words, v, m, q)]
                image_of(words, v, m, q) ==> !texels_read(words, at, q) && !texels_written(
                    words,
                    at,
                    q,
                );
        assert(s.contains(p));
        let k = choose|k: int| 1 <= k < length(words[at]) && #[trigger] words[at + k] == p;
        assert(s.contains(words[at + k] as int));
        assert(mentions(words, at, 1, s));
        if reads_image(words, at, s) {
            let q = words[at + 3] as int;
            let m = choose|m: nat| image_of(words, v, m, q);
            assert(image_of(words, v, m, q));
            assert(texels_read(words, at, q));
        }
        if writes_image(words, at, s) {
            let q = words[at + 1] as int;
            let m = choose|m: nat| image_of(words, v, m, q);
            assert(image_of(words, v, m, q));
            assert(texels_written(words, at, q));
        }
        assert(is_inst(words, at) && lets_image_out(words, at, s));
    }
}

/// Each of these uses of the descriptor pointer lets it out of sight: a call, a return,
/// a store of it or to it, a copy of memory, an access chain, a texel pointer, a copy, a
/// cast, a choice, a merge, a composite, an operand of an extended instruction, an
/// initializer.
pub proof fn law_escaping_pointer_is_seen(words: Seq<u32>, v: int, at: int, k: int)
    requires
        is_inst(words, at),
        k < length(words[at]),
        words[at + k] == v,
        ({
            let n = number(words[at]);
            ||| n == 57 && k >= 4
            ||| n == 254 && k == 1
            ||| (n == 62 || n == 63 || n == 64) && 1 <= k <= 2
            ||| (n == 60 || n == 65 || n == 66 || n == 67 || n == 70 || n == 83 || n == 117 || n
                == 121 || n == 122 || n == 123 || n == 124) && k == 3
            ||| n == 169 && 4 <= k <= 5
            ||| n == 245 && k >= 3
            ||| n == 80 && k >= 3
            ||| n == 12 && k >= 5
            ||| n == 59 && k == 4
        }),
    ensures
        pointer_used(words, v),
{
    lemma_heads(words);
    assert(!literal_at(words, at, k));
    assert(lets_root_out(words, at, v));
}

/// Loads from the descriptor pointer, its own declaration, names, decorations, entry
/// points, execution modes and line marks do not let it out of sight, and an instruction
/// that does not name it does not either.
pub proof fn law_harmless_uses_of_the_pointer(words: Seq<u32>, v: int)
    requires
        forall|at: int, k: int|
            #![trigger words[at + k], is_inst(words, at)]
            is_inst(words, at) && 1 <= k < length(words[at]) && words[at + k] == v ==> {
                let n = number(words[at]);
                ||| n == 61
                ||| n == 59 && k < 4
                ||| n == 5 || n == 6 || n == 8
                ||| n == 15 || n == 16 || n == 331
                ||| 71 <= n <= 75 || n == 332 || n == 5632 || n == 5633
            },
    ensures
        !pointer_used(words, v),
{
    lemma_heads(words);
    if pointer_used(words, v) {
        let at = choose|at: int| #[trigger] is_inst(words, at) && lets_root_out(words, at, v);
        let op = opcode(words[at]);
        let k = choose|k: int|
            crate::spirv_bind::access::first_operand(op) <= k < word_count(words[at])
                && #[trigger] words[at + k] == v && !literal_at(words, at, k);
        assert(words[at + k] == v);
    }
}

} // verus!
