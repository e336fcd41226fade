//! The instruction stream of a SPIR-V module, as a walk over its words.

use vstd::prelude::*;

verus! {

/// Words of the module header; the first instruction follows them.
pub const HEADER_WORDS: usize = 5;

/// Number of words an instruction takes, from its first word.
pub open spec fn word_count(head: u32) -> int {
    (head >> 16) as int
}

/// Opcode of an instruction, from its first word.
pub open spec fn opcode(head: u32) -> int {
    (head & 0xffff) as int
}

/// An instruction of non-zero length starts at `at` and ends within the words.
pub open spec fn fits(words: Seq<u32>, at: int) -> bool {
    &&& 0 <= at < words.len()
    &&& 0 < word_count(words[at])
    &&& at + word_count(words[at]) <= words.len()
}

/// Stepping over whole instructions from `from` arrives at `to`.
pub open spec fn reaches(words: Seq<u32>, from: int, to: int) -> bool
    decreases words.len() - from,
{
    from == to || (fits(words, from) && reaches(words, from + word_count(words[from]), to))
}

/// `at` is the first word of an instruction of the module.
pub open spec fn is_inst(words: Seq<u32>, at: int) -> bool {
    reaches(words, HEADER_WORDS as int, at) && fits(words, at)
}

/// The header is complete and the instructions fill the rest exactly.
pub open spec fn stream_ok(words: Seq<u32>) -> bool {
    words.len() >= HEADER_WORDS && reaches(words, HEADER_WORDS as int, words.len() as int)
}

/// The declared exclusive bound on result ids.
pub open spec fn id_bound(words: Seq<u32>) -> int {
    words[3] as int
}

/// The module can be analysed: a whole stream and a non-zero id bound.
pub open spec fn module_ok(words: Seq<u32>) -> bool {
    stream_ok(words) && id_bound(words) > 0
}

pub proof fn lemma_reaches_ge(words: Seq<u32>, from: int, to: int)
    requires
        reaches(words, from, to),
    ensures
        from <= to,
        from == to || to <= words.len(),
    decreases words.len() - from,
{
    if from != to {
        lemma_reaches_ge(words, from + word_count(words[from]), to);
    }
}

pub proof fn lemma_reaches_step(words: Seq<u32>, from: int, at: int)
    requires
        reaches(words, from, at),
        fits(words, at),
    ensures
        reaches(words, from, at + word_count(words[at])),
    decreases words.len() - from,
{
    if from == at {
        assert(reaches(words, at + word_count(words[at]), at + word_count(words[at])));
    } else {
        lemma_reaches_step(words, from + word_count(words[from]), at);
    }
}

/// Of two positions on one walk, the later is reached from the earlier.
pub proof fn lemma_reaches_between(words: Seq<u32>, from: int, a: int, b: int)
    requires
        reaches(words, from, a),
        reaches(words, from, b),
        a <= b,
    ensures
        reaches(words, a, b),
    decreases words.len() - from,
{
    if from != a {
        lemma_reaches_ge(words, from + word_count(words[from]), a);
        lemma_reaches_between(words, from + word_count(words[from]), a, b);
    }
}

pub proof fn lemma_reaches_trans(words: Seq<u32>, a: int, b: int, c: int)
    requires
        reaches(words, a, b),
        reaches(words, b, c),
    ensures
        reaches(words, a, c),
    decreases words.len() - a,
{
    if a != b {
        lemma_reaches_trans(words, a + word_count(words[a]), b, c);
    }
}

/// No walk position lies strictly inside an instruction.
pub proof fn lemma_no_inner(words: Seq<u32>, from: int, a: int, b: int)
    requires
        reaches(words, from, a),
        reaches(words, from, b),
        a < b,
    ensures
        fits(words, a),
        a + word_count(words[a]) <= b,
{
    lemma_reaches_between(words, from, a, b);
    lemma_reaches_ge(words, a + word_count(words[a]), b);
}

/// The instructions before the end of the one at `at` are those before it, and it.
pub proof fn lemma_inst_split(words: Seq<u32>, at: int)
    requires
        is_inst(words, at),
    ensures
        reaches(words, HEADER_WORDS as int, at + word_count(words[at])),
        forall|k: int|
            #![trigger is_inst(words, k)]
            is_inst(words, k) ==> (k < at + word_count(words[at]) <==> k <= at),
{
    lemma_reaches_step(words, HEADER_WORDS as int, at);
    assert forall|k: int| #![trigger is_inst(words, k)] is_inst(words, k) implies (k < at
        + word_count(words[at]) <==> k <= at) by {
        if k > at {
            lemma_no_inner(words, HEADER_WORDS as int, at, k);
        }
    }
}

/// Instructions lie past the header.
pub proof fn lemma_inst_past_header(words: Seq<u32>)
    ensures
        forall|at: int| #[trigger] is_inst(words, at) ==> HEADER_WORDS <= at < words.len(),
{
    assert forall|at: int| #[trigger] is_inst(words, at) implies HEADER_WORDS <= at
        < words.len() by {
        lemma_reaches_ge(words, HEADER_WORDS as int, at);
    }
}

/// In a whole stream every position the walk stands on short of the end starts an instruction.
pub proof fn lemma_on_walk(words: Seq<u32>, at: int)
    requires
        stream_ok(words),
        reaches(words, HEADER_WORDS as int, at),
        at < words.len(),
    ensures
        is_inst(words, at),
{
    lemma_no_inner(words, HEADER_WORDS as int, at, words.len() as int);
}

} // verus!
