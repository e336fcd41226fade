//! Where bindings go, which are samplers', and what a module declares of itself.

use vstd::prelude::*;
use crate::spirv_bind::access_laws::{length, lemma_head, number};
use crate::spirv_bind::capability::{
    capabilities_end, declares_capability, is_capability, with_capability,
};
use crate::spirv_bind::index::{Site, is_site};
use crate::spirv_bind::relocate::{
    Band, buffer_band, count_moved, is_moved_word, is_relocated, sampled_band,
};
use crate::spirv_bind::samplers::{
    declares_sampler_pointer, declares_sampler_type, declares_sampler_variable, is_sampler_binding,
    is_sampler_pointer, is_sampler_type, is_sampler_variable,
};
use crate::spirv_bind::stream::{
    fits, is_inst, lemma_inst_past_header, lemma_on_walk, opcode, reaches, stream_ok, word_count,
};

verus! {

proof fn lemma_heads(words: Seq<u32>)
    ensures
        forall|k: int| #[trigger]
            is_inst(words, k) ==> opcode(words[k]) == number(words[k]) && word_count(words[k])
                == length(words[k]) && 5 <= k < words.len(),
{
    lemma_inst_past_header(words);
    assert forall|k: int| #[trigger] is_inst(words, k) implies opcode(words[k]) == number(words[k])
        && word_count(words[k]) == length(words[k]) by {
        lemma_head(words[k]);
    }
}

/// The word at `k` is the number of a binding decoration.
pub open spec fn binding_number(words: Seq<u32>, k: int) -> bool {
    &&& is_inst(words, k - 3)
    &&& number(words[k - 3]) == 71
    &&& length(words[k - 3]) >= 4
    &&& words[k - 1] == 33
}

/// The fragment's buffers, bindings below 32, move up by 104. No other word changes.
pub proof fn law_buffers_move_by_104(before: Seq<u32>, after: Seq<u32>, k: int)
    requires
        stream_ok(before),
        is_relocated(before, buffer_band(), after),
        0 <= k < before.len(),
    ensures
        after.len() == before.len(),
        binding_number(before, k) && before[k] < 32 ==> after[k] == before[k] + 104,
        !(binding_number(before, k) && before[k] < 32) ==> after[k] == before[k],
{
    lemma_heads(before);
    lemma_moved(before, buffer_band(), k);
}

/// The fragment's textures and samplers, bindings from 32 up to below 96, move up by 128.
/// No other word changes, and the color inputs from 96 on stay.
pub proof fn law_sampled_move_by_128(before: Seq<u32>, after: Seq<u32>, k: int)
    requires
        stream_ok(before),
        is_relocated(before, sampled_band(), after),
        0 <= k < before.len(),
    ensures
        after.len() == before.len(),
        binding_number(before, k) && 32 <= before[k] < 96 ==> after[k] == before[k] + 128,
        !(binding_number(before, k) && 32 <= before[k] < 96) ==> after[k] == before[k],
{
    lemma_heads(before);
    lemma_moved(before, sampled_band(), k);
}

proof fn lemma_moved(words: Seq<u32>, band: Band, k: int)
    requires
        stream_ok(words),
        0 <= k < words.len(),
    ensures
        is_moved_word(words, band, k) <==> binding_number(words, k) && band.lo <= words[k]
            < band.hi,
{
    lemma_heads(words);
    if is_moved_word(words, band, k) {
        lemma_on_walk(words, k - 3);
    }
}

/// A decoration that overruns the words, but whose number is still among them, moves with the
/// buffers and stays with the textures and samplers.
pub proof fn law_overrunning_decorations(
    before: Seq<u32>,
    buffers: Seq<u32>,
    sampled: Seq<u32>,
    at: int,
)
    requires
        is_relocated(before, buffer_band(), buffers),
        is_relocated(before, sampled_band(), sampled),
        5 <= at,
        reaches(before, 5, at),
        at + 3 < before.len() < at + length(before[at]),
        number(before[at]) == 71,
        before[at + 2] == 33,
    ensures
        before[at + 3] < 32 ==> buffers[at + 3] == before[at + 3] + 104,
        before[at + 3] >= 32 ==> buffers[at + 3] == before[at + 3],
        sampled[at + 3] == before[at + 3],
{
    lemma_head(before[at]);
    let k = at + 3;
    assert(is_moved_word(before, buffer_band(), k) <==> before[k] < 32);
    assert(!is_moved_word(before, sampled_band(), k));
    assert(buffers[k] == if is_moved_word(before, buffer_band(), k) {
        before[k] + 104
    } else {
        before[k] as int
    });
    assert(sampled[k] == before[k]);
}

/// As many words change as the count that is returned says: each instruction at a binding
/// of the band counts once.
pub proof fn law_moves_are_counted(words: Seq<u32>, band: Band, at: int)
    requires
        is_inst(words, at),
    ensures
        ({
            let next = at + length(words[at]);
            let moves = number(words[at]) == 71 && length(words[at]) >= 4 && words[at + 2] == 33
                && band.lo <= words[at + 3] < band.hi;
            count_moved(words, band, at) == count_moved(words, band, next) + if moves {
                1int
            } else {
                0
            }
        }),
        count_moved(words, band, words.len() as int) == 0,
{
    lemma_heads(words);
}

/// An instruction of a number, at least so long.
pub open spec fn is_numbered(words: Seq<u32>, at: int, op: int, least: int) -> bool {
    is_inst(words, at) && number(words[at]) == op && length(words[at]) >= least
}

/// A binding is a sampler's where a decoration (71) gives it to a variable (59) of
/// storage class 0 whose pointer type (32) is of that class and points to a sampler (26)
/// or a sampled image (27), each declared before it is used.
pub proof fn law_sampler_bindings(words: Seq<u32>, binding: u32)
    ensures
        is_sampler_binding(words, binding) <==> exists|d: int, v: int, p: int, t: int|
            {
                &&& #[trigger] is_numbered(words, d, 71, 4) && words[d + 2] == 33 && words[d + 3]
                    == binding
                &&& #[trigger] is_numbered(words, v, 59, 4) && words[v + 2] == words[d + 1]
                    && words[v + 3] == 0
                &&& #[trigger] is_numbered(words, p, 32, 4) && words[p + 1] == words[v + 1]
                    && words[p + 2] == 0 && p < v
                &&& (#[trigger] is_numbered(words, t, 26, 2) || is_numbered(words, t, 27, 2))
                    && words[t + 1] == words[p + 3] && t < p
            },
{
    lemma_heads(words);
    if is_sampler_binding(words, binding) {
        let d = choose|at: int| #[trigger]
            is_inst(words, at) && is_site(words, at, Site::Binding) && words[at + 3] == binding
                && is_sampler_variable(words, words.len() as int, words[at + 1]);
        let v = choose|at: int| #[trigger]
            declares_sampler_variable(words, at, words[d + 1]) && at < words.len();
        let p = choose|at: int| #[trigger]
            declares_sampler_pointer(words, at, words[v + 1]) && at < v;
        let t = choose|at: int| #[trigger]
            declares_sampler_type(words, at, words[p + 3]) && at < p;
        assert(is_numbered(words, d, 71, 4));
        assert(is_numbered(words, v, 59, 4));
        assert(is_numbered(words, p, 32, 4));
        assert(is_numbered(words, t, 26, 2) || is_numbered(words, t, 27, 2));
    }
    if exists|d: int, v: int, p: int, t: int|
        {
            &&& #[trigger] is_numbered(words, d, 71, 4) && words[d + 2] == 33 && words[d + 3]
                == binding
            &&& #[trigger] is_numbered(words, v, 59, 4) && words[v + 2] == words[d + 1] && words[v
                + 3] == 0
            &&& #[trigger] is_numbered(words, p, 32, 4) && words[p + 1] == words[v + 1] && words[p
                + 2] == 0 && p < v
            &&& (#[trigger] is_numbered(words, t, 26, 2) || is_numbered(words, t, 27, 2)) && words[t
                + 1] == words[p + 3] && t < p
        } {
        let (d, v, p, t) = choose|d: int, v: int, p: int, t: int|
            {
                &&& #[trigger] is_numbered(words, d, 71, 4) && words[d + 2] == 33 && words[d + 3]
                    == binding
                &&& #[trigger] is_numbered(words, v, 59, 4) && words[v + 2] == words[d + 1]
                    && words[v + 3] == 0
                &&& #[trigger] is_numbered(words, p, 32, 4) && words[p + 1] == words[v + 1]
                    && words[p + 2] == 0 && p < v
                &&& (#[trigger] is_numbered(words, t, 26, 2) || is_numbered(words, t, 27, 2))
                    && words[t + 1] == words[p + 3] && t < p
            };
        assert(declares_sampler_type(words, t, words[p + 3]));
        assert(is_sampler_type(words, p, words[p + 3]));
        assert(declares_sampler_pointer(words, p, words[v + 1]));
        assert(is_sampler_pointer(words, v, words[v + 1]));
        assert(declares_sampler_variable(words, v, words[d + 1]));
        assert(is_sampler_variable(words, words.len() as int, words[d + 1]));
        assert(is_inst(words, d) && is_site(words, d, Site::Binding));
    }
}

/// Only capabilities (17) stand between the header and `to`.
pub open spec fn capabilities_up_to(words: Seq<u32>, to: int) -> bool {
    reaches(words, 5, to) && forall|k: int|
        5 <= k < to && #[trigger] reaches(words, 5, k) ==> fits(words, k) && number(words[k]) == 17
}

proof fn lemma_capabilities(words: Seq<u32>, i: int)
    requires
        capabilities_up_to(words, i),
        5 <= i,
    ensures
        ({
            let end = capabilities_end(words, i);
            &&& i <= end
            &&& capabilities_up_to(words, end)
            &&& !(fits(words, end) && number(words[end]) == 17)
        }),
    decreases words.len() - i,
{
    if 0 <= i < words.len() {
        lemma_head(words[i]);
    }
    if is_capability(words, i) {
        let next = i + word_count(words[i]);
        crate::spirv_bind::stream::lemma_reaches_step(words, 5, i);
        assert forall|k: int| 5 <= k < next && #[trigger] reaches(words, 5, k) implies fits(
            words,
            k,
        ) && number(words[k]) == 17 by {
            if k > i {
                crate::spirv_bind::stream::lemma_no_inner(words, 5, i, k);
            }
        }
        lemma_capabilities(words, next);
    }
}

/// A module that gets the capability has it, as two words with the number 56, behind the
/// last of the capabilities that it starts with; the rest is as it was.
pub proof fn law_capability_56_goes_behind_the_others(words: Seq<u32>)
    requires
        words.len() >= 5,
    ensures
        ({
            let after = with_capability(words);
            let end = capabilities_end(words, 5);
            &&& capabilities_up_to(words, end)
            &&& !(fits(words, end) && number(words[end]) == 17)
            &&& 5 <= end <= words.len()
            &&& after.len() == words.len() + 2
            &&& number(after[end]) == 17 && length(after[end]) == 2 && after[end + 1] == 56
            &&& forall|k: int| 0 <= k < end ==> #[trigger] after[k] == words[k]
            &&& forall|k: int| end <= k < words.len() ==> #[trigger] words[k] == after[k + 2]
        }),
{
    assert(capabilities_up_to(words, 5));
    lemma_capabilities(words, 5);
    let end = capabilities_end(words, 5);
    crate::spirv_bind::stream::lemma_reaches_ge(words, 5, end);
    let after = with_capability(words);
    assert(0x0002_0011int % 0x1_0000 == 17 && 0x0002_0011int / 0x1_0000 == 2);
    assert forall|k: int| end <= k < words.len() implies #[trigger] words[k] == after[k + 2] by {}
}

/// A module declares the capability where one of the capabilities that it starts with is
/// number 56.
pub proof fn law_declared_capability(words: Seq<u32>)
    ensures
        declares_capability(words, 5) <==> exists|at: int|
            5 <= at && #[trigger] reaches(words, 5, at) && capabilities_up_to(words, at) && fits(
                words,
                at,
            ) && number(words[at]) == 17 && length(words[at]) >= 2 && words[at + 1] == 56,
{
    assert(capabilities_up_to(words, 5));
    lemma_declared(words, 5);
    if exists|at: int|
        5 <= at && #[trigger] reaches(words, 5, at) && capabilities_up_to(words, at) && fits(
            words,
            at,
        ) && number(words[at]) == 17 && length(words[at]) >= 2 && words[at + 1] == 56 {
        let at = choose|at: int|
            5 <= at && #[trigger] reaches(words, 5, at) && capabilities_up_to(words, at) && fits(
                words,
                at,
            ) && number(words[at]) == 17 && length(words[at]) >= 2 && words[at + 1] == 56;
        lemma_declared_at(words, 5, at);
    }
}

proof fn lemma_declared(words: Seq<u32>, i: int)
    requires
        capabilities_up_to(words, i),
        5 <= i,
    ensures
        declares_capability(words, i) ==> exists|at: int|
            5 <= at && #[trigger] reaches(words, 5, at) && capabilities_up_to(words, at) && fits(
                words,
                at,
            ) && number(words[at]) == 17 && length(words[at]) >= 2 && words[at + 1] == 56,
    decreases words.len() - i,
{
    if 0 <= i < words.len() {
        lemma_head(words[i]);
    }
    if is_capability(words, i) {
        if !(word_count(words[i]) >= 2 && words[i + 1] == 56) {
            let next = i + word_count(words[i]);
            crate::spirv_bind::stream::lemma_reaches_step(words, 5, i);
            assert forall|k: int| 5 <= k < next && #[trigger] reaches(words, 5, k) implies fits(
                words,
                k,
            ) && number(words[k]) == 17 by {
                if k > i {
                    crate::spirv_bind::stream::lemma_no_inner(words, 5, i, k);
                }
            }
            lemma_declared(words, next);
        }
    }
}

proof fn lemma_declared_at(words: Seq<u32>, i: int, at: int)
    requires
        5 <= i <= at,
        reaches(words, 5, i),
        reaches(words, i, at),
        capabilities_up_to(words, at),
        fits(words, at) && number(words[at]) == 17 && length(words[at]) >= 2 && words[at + 1] == 56,
    ensures
        declares_capability(words, i),
    decreases words.len() - i,
{
    lemma_head(words[at]);
    if i < at {
        assert(reaches(words, 5, i));
        lemma_head(words[i]);
        let next = i + word_count(words[i]);
        crate::spirv_bind::stream::lemma_reaches_step(words, 5, i);
        crate::spirv_bind::stream::lemma_reaches_ge(words, next, at);
        lemma_declared_at(words, next, at);
    }
}

} // verus!
