//! The sampler descriptors that a module declares.

use vstd::prelude::*;
use crate::spirv_bind::access::STORAGE_CLASS_UNIFORM_CONSTANT;
use crate::spirv_bind::index::{
    DECORATION_BINDING, OP_DECORATE, OP_TYPE_POINTER, OP_VARIABLE, Site, is_site,
};
use crate::spirv_bind::stream::{
    HEADER_WORDS, fits, is_inst, lemma_inst_past_header, lemma_inst_split, lemma_no_inner, opcode,
    reaches, word_count,
};

verus! {

pub const OP_TYPE_SAMPLER: u16 = 26;
pub const OP_TYPE_SAMPLED_IMAGE: u16 = 27;

/// The instruction at `at` declares `id` a sampler or a combined image sampler.
pub open spec fn declares_sampler_type(words: Seq<u32>, at: int, id: u32) -> bool {
    &&& is_inst(words, at)
    &&& opcode(words[at]) == OP_TYPE_SAMPLER || opcode(words[at]) == OP_TYPE_SAMPLED_IMAGE
    &&& word_count(words[at]) >= 2
    &&& words[at + 1] == id
}

/// `id` is a sampler type declared before `end`.
pub open spec fn is_sampler_type(words: Seq<u32>, end: int, id: u32) -> bool {
    exists|at: int| #[trigger] declares_sampler_type(words, at, id) && at < end
}

/// The instruction at `at` declares `id` a pointer to a sampler type known by then.
pub open spec fn declares_sampler_pointer(words: Seq<u32>, at: int, id: u32) -> bool {
    &&& is_inst(words, at)
    &&& is_site(words, at, Site::Pointer)
    &&& words[at + 1] == id
    &&& words[at + 2] == STORAGE_CLASS_UNIFORM_CONSTANT
    &&& is_sampler_type(words, at, words[at + 3])
}

/// `id` is a sampler pointer type declared before `end`.
pub open spec fn is_sampler_pointer(words: Seq<u32>, end: int, id: u32) -> bool {
    exists|at: int| #[trigger] declares_sampler_pointer(words, at, id) && at < end
}

/// The instruction at `at` declares `id` a variable of a sampler pointer type known by then.
pub open spec fn declares_sampler_variable(words: Seq<u32>, at: int, id: u32) -> bool {
    &&& is_inst(words, at)
    &&& is_site(words, at, Site::Variable)
    &&& words[at + 2] == id
    &&& words[at + 3] == STORAGE_CLASS_UNIFORM_CONSTANT
    &&& is_sampler_pointer(words, at, words[at + 1])
}

/// `id` is a sampler variable declared before `end`.
pub open spec fn is_sampler_variable(words: Seq<u32>, end: int, id: u32) -> bool {
    exists|at: int| #[trigger] declares_sampler_variable(words, at, id) && at < end
}

/// A sampler variable is decorated with `binding`.
pub open spec fn is_sampler_binding(words: Seq<u32>, binding: u32) -> bool {
    exists|at: int| #[trigger]
        is_inst(words, at) && is_site(words, at, Site::Binding) && words[at + 3] == binding
            && is_sampler_variable(words, words.len() as int, words[at + 1])
}

/// Strictly ascending: sorted, with nothing twice.
pub open spec fn ascending(s: Seq<u32>) -> bool {
    forall|i: int, j: int| 0 <= i < j < s.len() ==> s[i] < s[j]
}

fn find(ids: &Vec<u32>, id: u32) -> (found: bool)
    ensures
        found == ids@.contains(id),
{
    let mut i: usize = 0;
    while i < ids.len()
        invariant
            i <= ids.len(),
            forall|k: int| 0 <= k < i ==> ids[k] != id,
        decreases ids.len() - i,
    {
        if ids[i] == id {
            assert(ids@[i as int] == id);
            return true;
        }
        i = i + 1;
    }
    false
}

/// Put a value in its place, unless it is there already.
pub(crate) fn insert_ascending(sorted: &mut Vec<u32>, value: u32)
    requires
        ascending(old(sorted)@),
    ensures
        ascending(final(sorted)@),
        forall|x: u32| #[trigger]
            final(sorted)@.contains(x) <==> old(sorted)@.contains(x) || x == value,
{
    let mut i: usize = 0;
    while i < sorted.len() && sorted[i] < value
        invariant
            sorted@ == old(sorted)@,
            i <= sorted.len(),
            forall|k: int| 0 <= k < i ==> sorted[k] < value,
        decreases sorted.len() - i,
    {
        i = i + 1;
    }
    let ghost before = sorted@;
    if i < sorted.len() && sorted[i] == value {
        assert(before[i as int] == value);
        return ;
    }
    sorted.insert(i, value);
    proof {
        let after = sorted@;
        assert(after == before.insert(i as int, value));
        assert(after[i as int] == value);
        assert forall|x: u32| #[trigger]
            after.contains(x) <==> before.contains(x) || x == value by {
            if before.contains(x) {
                let k = choose|k: int| 0 <= k < before.len() && before[k] == x;
                if k < i {
                    assert(after[k] == x);
                } else {
                    assert(after[k + 1] == x);
                }
            }
            if after.contains(x) && x != value {
                let k = choose|k: int| 0 <= k < after.len() && after[k] == x;
                if k < i {
                    assert(before[k] == x);
                } else {
                    assert(before[k - 1] == x);
                }
            }
        }
    }
}

proof fn lemma_push_contains(before: Seq<u32>, value: u32)
    ensures
        forall|x: u32| #[trigger]
            before.push(value).contains(x) <==> before.contains(x) || x == value,
{
    let after = before.push(value);
    assert forall|x: u32| #[trigger] after.contains(x) <==> before.contains(x) || x == value by {
        if before.contains(x) {
            let k = choose|k: int| 0 <= k < before.len() && before[k] == x;
            assert(after[k] == x);
        }
        if x == value {
            assert(after[before.len() as int] == x);
        }
    }
}

/// Every set-0 sampler descriptor binding that the module declares, ascending.
///
/// Separate samplers and combined image samplers both count. The walk is
/// structural and ends at the first instruction that does not fit.
pub fn sampler_bindings(words: &[u32]) -> (bindings: Vec<u32>)
    ensures
        ascending(bindings@),
        forall|b: u32| #[trigger] bindings@.contains(b) <==> is_sampler_binding(words@, b),
{
    let mut types: Vec<u32> = Vec::new();
    let mut pointers: Vec<u32> = Vec::new();
    let mut variables: Vec<u32> = Vec::new();
    let mut decorations: Vec<(u32, u32)> = Vec::new();
    let mut i: usize = HEADER_WORDS;
    proof {
        lemma_inst_past_header(words@);
    }
    while i < words.len()
        invariant_except_break
            HEADER_WORDS <= i,
            reaches(words@, HEADER_WORDS as int, i as int),
            forall|id: u32| #[trigger]
                types@.contains(id) <==> is_sampler_type(words@, i as int, id),
            forall|id: u32| #[trigger]
                pointers@.contains(id) <==> is_sampler_pointer(words@, i as int, id),
            forall|id: u32| #[trigger]
                variables@.contains(id) <==> is_sampler_variable(words@, i as int, id),
            forall|id: u32, b: u32| #[trigger]
                decorations@.contains((id, b)) <==> exists|at: int| #[trigger]
                    is_inst(words@, at) && at < i && is_site(words@, at, Site::Binding) && words@[at
                        + 1] == id && words@[at + 3] == b,
        ensures
            forall|id: u32| #[trigger]
                variables@.contains(id) <==> is_sampler_variable(words@, words@.len() as int, id),
            forall|id: u32, b: u32| #[trigger]
                decorations@.contains((id, b)) <==> exists|at: int| #[trigger]
                    is_inst(words@, at) && is_site(words@, at, Site::Binding) && words@[at + 1]
                        == id && words@[at + 3] == b,
        decreases words.len() - i,
    {
        let head: u32 = words[i];
        assert((head & 0xffff) <= 0xffff) by (bit_vector);
        let count: usize = (head >> 16) as usize;
        let op: u16 = (head & 0xffff) as u16;
        if count == 0 || count > words.len() - i {
            proof {
                assert(!fits(words@, i as int));
                assert forall|at: int| #[trigger] is_inst(words@, at) implies at < i by {
                    if at > i {
                        lemma_no_inner(words@, HEADER_WORDS as int, i as int, at);
                    }
                }
            }
            break ;
        }
        let ghost (t0, p0, v0, d0) = (types@, pointers@, variables@, decorations@);
        let ghost at = i as int;
        proof {
            assert(is_inst(words@, at));
            lemma_inst_split(words@, at);
        }
        if (op == OP_TYPE_SAMPLER || op == OP_TYPE_SAMPLED_IMAGE) && count >= 2 {
            proof {
                assert(declares_sampler_type(words@, at, words@[at + 1]));
                lemma_push_contains(types@, words@[at + 1]);
            }
            types.push(words[i + 1]);
        } else if op == OP_TYPE_POINTER && count >= 4 {
            if words[i + 2] == STORAGE_CLASS_UNIFORM_CONSTANT && find(&types, words[i + 3]) {
                proof {
                    assert(declares_sampler_pointer(words@, at, words@[at + 1]));
                    lemma_push_contains(pointers@, words@[at + 1]);
                }
                pointers.push(words[i + 1]);
            }
        } else if op == OP_VARIABLE && count >= 4 {
            if words[i + 3] == STORAGE_CLASS_UNIFORM_CONSTANT && find(&pointers, words[i + 1]) {
                proof {
                    assert(declares_sampler_variable(words@, at, words@[at + 2]));
                    lemma_push_contains(variables@, words@[at + 2]);
                }
                variables.push(words[i + 2]);
            }
        } else if op == OP_DECORATE && count >= 4 && words[i + 2] == DECORATION_BINDING {
            decorations.push((words[i + 1], words[i + 3]));
        }
        proof {
            let end = at + count;
            assert forall|id: u32| #[trigger] types@.contains(id) <==> is_sampler_type(
                words@,
                end,
                id,
            ) by {
                if types@.contains(id) && t0.contains(id) {
                    let k = choose|k: int| #[trigger]
                        declares_sampler_type(words@, k, id) && k < at;
                    assert(declares_sampler_type(words@, k, id));
                }
                if is_sampler_type(words@, end, id) {
                    let k = choose|k: int| #[trigger]
                        declares_sampler_type(words@, k, id) && k < end;
                    assert(is_inst(words@, k));
                    if k < at {
                        assert(t0.contains(id));
                    }
                }
            }
            assert forall|id: u32| #[trigger] pointers@.contains(id) <==> is_sampler_pointer(
                words@,
                end,
                id,
            ) by {
                if pointers@.contains(id) && p0.contains(id) {
                    let k = choose|k: int| #[trigger]
                        declares_sampler_pointer(words@, k, id) && k < at;
                    assert(declares_sampler_pointer(words@, k, id));
                }
                if is_sampler_pointer(words@, end, id) {
                    let k = choose|k: int| #[trigger]
                        declares_sampler_pointer(words@, k, id) && k < end;
                    assert(is_inst(words@, k));
                    if k < at {
                        assert(p0.contains(id));
                    } else {
                        assert(t0.contains(words@[k + 3]));
                    }
                }
            }
            assert forall|id: u32| #[trigger] variables@.contains(id) <==> is_sampler_variable(
                words@,
                end,
                id,
            ) by {
                if variables@.contains(id) && v0.contains(id) {
                    let k = choose|k: int| #[trigger]
                        declares_sampler_variable(words@, k, id) && k < at;
                    assert(declares_sampler_variable(words@, k, id));
                }
                if is_sampler_variable(words@, end, id) {
                    let k = choose|k: int| #[trigger]
                        declares_sampler_variable(words@, k, id) && k < end;
                    assert(is_inst(words@, k));
                    if k < at {
                        assert(v0.contains(id));
                    } else {
                        assert(p0.contains(words@[k + 1]));
                    }
                }
            }
            assert forall|id: u32, b: u32| #[trigger] decorations@.contains((id, b)) <==> exists|
                k: int,
            | #[trigger]
                is_inst(words@, k) && k < end && is_site(words@, k, Site::Binding) && words@[k + 1]
                    == id && words@[k + 3] == b by {
                if decorations@.contains((id, b)) {
                    let j = choose|j: int|
                        0 <= j < decorations@.len() && decorations@[j] == (id, b);
                    if j < d0.len() {
                        assert(d0[j] == (id, b));
                        assert(d0.contains((id, b)));
                    } else {
                        assert(is_inst(words@, at) && is_site(words@, at, Site::Binding));
                    }
                }
                if exists|k: int| #[trigger]
                    is_inst(words@, k) && k < end && is_site(words@, k, Site::Binding) && words@[k
                        + 1] == id && words@[k + 3] == b {
                    let k = choose|k: int| #[trigger]
                        is_inst(words@, k) && k < end && is_site(words@, k, Site::Binding)
                            && words@[k + 1] == id && words@[k + 3] == b;
                    if k < at {
                        assert(d0.contains((id, b)));
                        let j = choose|j: int| 0 <= j < d0.len() && d0[j] == (id, b);
                        assert(decorations@[j] == (id, b));
                    } else {
                        assert(decorations@[d0.len() as int] == (id, b));
                    }
                }
            }
        }
        i = i + count;
    }
    let mut bindings: Vec<u32> = Vec::new();
    let mut d: usize = 0;
    while d < decorations.len()
        invariant
            d <= decorations.len(),
            ascending(bindings@),
            forall|b: u32| #[trigger]
                bindings@.contains(b) <==> exists|k: int|
                    0 <= k < d && (#[trigger] decorations[k]).1 == b && variables@.contains(
                        decorations[k].0,
                    ),
        decreases decorations.len() - d,
    {
        let (id, binding) = decorations[d];
        let ghost before = bindings@;
        if find(&variables, id) {
            insert_ascending(&mut bindings, binding);
        }
        proof {
            assert forall|b: u32| #[trigger] bindings@.contains(b) <==> exists|k: int|
                0 <= k < d + 1 && (#[trigger] decorations[k]).1 == b && variables@.contains(
                    decorations[k].0,
                ) by {
                assert(before.contains(b) <==> exists|k: int|
                    0 <= k < d && (#[trigger] decorations[k]).1 == b && variables@.contains(
                        decorations[k].0,
                    ));
                assert(decorations[d as int] == (id, binding));
            }
        }
        d = d + 1;
    }
    proof {
        assert forall|b: u32| #[trigger] bindings@.contains(b) <==> is_sampler_binding(
            words@,
            b,
        ) by {
            if bindings@.contains(b) {
                let k = choose|k: int|
                    0 <= k < decorations.len() && (#[trigger] decorations[k]).1 == b
                        && variables@.contains(decorations[k].0);
                assert(decorations@.contains((decorations[k].0, b)));
            }
            if is_sampler_binding(words@, b) {
                let at = choose|at: int| #[trigger]
                    is_inst(words@, at) && is_site(words@, at, Site::Binding) && words@[at + 3] == b
                        && is_sampler_variable(words@, words@.len() as int, words@[at + 1]);
                assert(decorations@.contains((words@[at + 1], b)));
                let k = choose|k: int|
                    0 <= k < decorations@.len() && decorations@[k] == (words@[at + 1], b);
                assert(decorations[k].1 == b);
            }
        }
    }
    bindings
}

} // verus!
