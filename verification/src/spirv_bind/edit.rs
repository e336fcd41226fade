//! How edits to a module's words act on its instruction stream.

use vstd::prelude::*;
use crate::spirv_bind::index::{Site, declares, is_site, site_id};
use crate::spirv_bind::stream::{
    HEADER_WORDS, fits, is_inst, lemma_inst_past_header, lemma_no_inner, lemma_on_walk,
    lemma_reaches_between, lemma_reaches_ge, lemma_reaches_step, lemma_reaches_trans, reaches,
    stream_ok, word_count,
};

verus! {

/// `b` is the first word of an instruction of a block of whole instructions.
pub open spec fn block_inst(block: Seq<u32>, b: int) -> bool {
    reaches(block, 0, b) && fits(block, b)
}

/// The block consists of whole instructions.
pub open spec fn block_ok(block: Seq<u32>) -> bool {
    reaches(block, 0, block.len() as int)
}

/// The block's instruction at `b` says `site` of `id`.
pub open spec fn block_declares(block: Seq<u32>, b: int, site: Site, id: int) -> bool {
    block_inst(block, b) && is_site(block, b, site) && site_id(block, b, site) == id
}

/// `words` with `block` put in before position `p`.
pub open spec fn spliced(words: Seq<u32>, p: int, block: Seq<u32>) -> Seq<u32> {
    words.subrange(0, p) + block + words.subrange(p, words.len() as int)
}

/// A walk within a window of `a` is the same walk in `b`, `d` words further on.
pub proof fn lemma_window(a: Seq<u32>, b: Seq<u32>, d: int, hi: int, x: int, y: int)
    requires
        0 <= x,
        y <= hi <= a.len(),
        0 <= x + d,
        hi + d <= b.len(),
        forall|k: int| x <= k < hi ==> #[trigger] a[k] == b[k + d],
        reaches(a, x, y),
    ensures
        reaches(b, x + d, y + d),
    decreases a.len() - x,
{
    if x != y {
        lemma_reaches_ge(a, x + word_count(a[x]), y);
        assert(a[x] == b[x + d]);
        lemma_window(a, b, d, hi, x + word_count(a[x]), y);
        assert(x + d + word_count(b[x + d]) == x + word_count(a[x]) + d);
    }
}

/// Two instructions of one walk that share a word are one instruction.
pub proof fn lemma_no_overlap(words: Seq<u32>, a: int, b: int, q: int)
    requires
        is_inst(words, a),
        is_inst(words, b),
        a <= q < a + word_count(words[a]),
        b <= q < b + word_count(words[b]),
    ensures
        a == b,
{
    if a < b {
        lemma_no_inner(words, HEADER_WORDS as int, a, b);
    } else if b < a {
        lemma_no_inner(words, HEADER_WORDS as int, b, a);
    }
}

/// An instruction that starts before a walk position ends by it.
pub proof fn lemma_inst_ends(words: Seq<u32>, p: int, k: int)
    requires
        reaches(words, HEADER_WORDS as int, p),
        is_inst(words, k),
        k < p,
    ensures
        k + word_count(words[k]) <= p,
{
    lemma_no_inner(words, HEADER_WORDS as int, k, p);
}

/// Splicing whole instructions in at a walk position keeps the stream whole, and
/// its instructions are the old ones and the block's.
pub proof fn lemma_splice(words: Seq<u32>, p: int, block: Seq<u32>)
    requires
        stream_ok(words),
        reaches(words, HEADER_WORDS as int, p),
        p <= words.len(),
        block_ok(block),
    ensures
        stream_ok(spliced(words, p, block)),
        forall|k: int|
            #![trigger is_inst(spliced(words, p, block), k)]
            is_inst(spliced(words, p, block), k) <==> {
                ||| k < p && is_inst(words, k)
                ||| p <= k < p + block.len() && block_inst(block, k - p)
                ||| p + block.len() <= k && is_inst(words, k - block.len())
            },
{
    let f = spliced(words, p, block);
    let h = HEADER_WORDS as int;
    let m = block.len() as int;
    let n = words.len() as int;
    lemma_reaches_ge(words, h, p);
    assert forall|k: int| 0 <= k < p implies #[trigger] words[k] == f[k + 0] by {}
    assert forall|k: int| 0 <= k < m implies #[trigger] block[k] == f[k + p] by {}
    assert forall|k: int| p <= k < n implies #[trigger] words[k] == f[k + m] by {}
    // The walk to p, through the block, and on to the end.
    lemma_window(words, f, 0, p, h, p);
    lemma_window(block, f, p, m, 0, m);
    lemma_reaches_trans(f, h, p, p + m);
    lemma_reaches_between(words, h, p, n);
    lemma_window(words, f, m, n, p, n);
    lemma_reaches_trans(f, h, p + m, n + m);
    assert forall|k: int|
        #![trigger is_inst(f, k)]
        is_inst(f, k) implies {
            ||| k < p && is_inst(words, k)
            ||| p <= k < p + m && block_inst(block, k - p)
            ||| p + m <= k && is_inst(words, k - m)
        } by {
        lemma_reaches_ge(f, h, k);
        if k < p {
            lemma_no_inner(f, h, k, p);
            assert(f[k] == words[k]);
            assert forall|j: int| h <= j < p implies #[trigger] f[j] == words[j + 0] by {}
            lemma_window(f, words, 0, p, h, k);
        } else if k < p + m {
            lemma_no_inner(f, h, k, p + m);
            lemma_reaches_between(f, h, p, k);
            assert(f[k] == block[k - p]);
            assert forall|j: int| p <= j < p + m implies #[trigger] f[j] == block[j + (-p)] by {}
            lemma_window(f, block, -p, p + m, p, k);
        } else {
            lemma_reaches_between(f, h, p + m, k);
            assert(f[k] == words[k - m]);
            assert forall|j: int| p + m <= j < n + m implies #[trigger] f[j] == words[j + (
            -m)] by {}
            lemma_window(f, words, -m, n + m, p + m, k);
            lemma_reaches_trans(words, h, p, k - m);
        }
    }
    assert forall|k: int|
        #![trigger is_inst(f, k)]
        ({
            ||| k < p && is_inst(words, k)
            ||| p <= k < p + m && block_inst(block, k - p)
            ||| p + m <= k && is_inst(words, k - m)
        }) implies is_inst(f, k) by {
        if k < p && is_inst(words, k) {
            lemma_no_inner(words, h, k, p);
            lemma_reaches_ge(words, h, k);
            lemma_window(words, f, 0, p, h, k);
            assert(f[k] == words[k]);
        } else if k < p + m && p <= k && block_inst(block, k - p) {
            lemma_reaches_ge(block, 0, k - p);
            lemma_window(block, f, p, m, 0, k - p);
            lemma_reaches_trans(f, h, p, k);
            assert(f[k] == block[k - p]);
        } else {
            lemma_reaches_between(words, h, p, k - m);
            lemma_window(words, f, m, n, p, k - m);
            lemma_reaches_trans(f, h, p + m, k);
            assert(f[k] == words[k - m]);
        }
    }
}

/// Appending one whole instruction to a block adds that instruction and no other.
pub proof fn lemma_block_push(block: Seq<u32>, inst: Seq<u32>)
    requires
        block_ok(block),
        inst.len() > 0,
        word_count(inst[0]) == inst.len(),
    ensures
        block_ok(block + inst),
        forall|b: int|
            #![trigger block_inst(block + inst, b)]
            block_inst(block + inst, b) <==> block_inst(block, b) || b == block.len(),
{
    let out = block + inst;
    let m = block.len() as int;
    assert forall|k: int| 0 <= k < m implies #[trigger] block[k] == out[k + 0] by {}
    assert forall|k: int| 0 <= k < m implies #[trigger] out[k] == block[k + 0] by {}
    lemma_window(block, out, 0, m, 0, m);
    assert(out[m] == inst[0]);
    assert(fits(out, m));
    lemma_reaches_step(out, 0, m);
    assert forall|b: int| #![trigger block_inst(out, b)] block_inst(out, b) implies block_inst(
        block,
        b,
    ) || b == m by {
        lemma_reaches_ge(out, 0, b);
        if b < m {
            lemma_no_inner(out, 0, b, m);
            lemma_window(out, block, 0, m, 0, b);
            assert(out[b] == block[b]);
        } else if b > m {
            lemma_no_inner(out, 0, m, b);
        }
    }
    assert forall|b: int| #![trigger block_inst(out, b)] block_inst(block, b) || b
        == m implies block_inst(out, b) by {
        if block_inst(block, b) {
            lemma_reaches_ge(block, 0, b);
            lemma_window(block, out, 0, m, 0, b);
            assert(out[b] == block[b]);
        }
    }
}

/// `q` is an operand that specialization may rewrite: the format of an image
/// type, or the type of a variable.
pub open spec fn editable(words: Seq<u32>, q: int) -> bool {
    exists|a: int| #[trigger]
        is_inst(words, a) && ((is_site(words, a, Site::Image) && q == a + 8) || (is_site(
            words,
            a,
            Site::Variable,
        ) && q == a + 1))
}

/// `after` differs from `before` in editable operands only.
pub open spec fn operands_edited(before: Seq<u32>, after: Seq<u32>) -> bool {
    &&& after.len() == before.len()
    &&& forall|q: int|
        0 <= q < before.len() && !editable(before, q) ==> #[trigger] after[q] == before[q]
}

/// Operand edits leave the first word of every instruction alone.
proof fn lemma_head_not_editable(words: Seq<u32>, k: int)
    requires
        is_inst(words, k),
    ensures
        !editable(words, k),
{
    if editable(words, k) {
        let a = choose|a: int| #[trigger]
            is_inst(words, a) && ((is_site(words, a, Site::Image) && k == a + 8) || (is_site(
                words,
                a,
                Site::Variable,
            ) && k == a + 1));
        lemma_no_overlap(words, a, k, k);
    }
}

proof fn lemma_edited_walk(before: Seq<u32>, after: Seq<u32>, x: int, y: int)
    requires
        stream_ok(before),
        operands_edited(before, after),
        reaches(before, HEADER_WORDS as int, x),
        y <= before.len(),
    ensures
        reaches(before, x, y) <==> reaches(after, x, y),
    decreases before.len() - x,
{
    if x != y && x < before.len() {
        lemma_on_walk(before, x);
        lemma_head_not_editable(before, x);
        lemma_inst_past_header(before);
        assert(after[x] == before[x]);
        lemma_reaches_step(before, HEADER_WORDS as int, x);
        lemma_edited_walk(before, after, x + word_count(before[x]), y);
    }
}

/// Operand edits keep the stream, its instructions, and what each declares.
pub proof fn lemma_edited(before: Seq<u32>, after: Seq<u32>)
    requires
        stream_ok(before),
        operands_edited(before, after),
    ensures
        stream_ok(after),
        forall|k: int| #[trigger] is_inst(after, k) <==> is_inst(before, k),
        forall|k: int| #[trigger] is_inst(before, k) ==> after[k] == before[k],
        forall|k: int, site: Site|
            is_inst(before, k) ==> #[trigger] is_site(after, k, site) == is_site(before, k, site),
        forall|k: int, site: Site|
            is_inst(before, k) && is_site(before, k, site) ==> #[trigger] site_id(after, k, site)
                == site_id(before, k, site),
        forall|k: int, site: Site, id: int| #[trigger]
            declares(after, k, site, id) == declares(before, k, site, id),
{
    let h = HEADER_WORDS as int;
    lemma_edited_walk(before, after, h, before.len() as int);
    lemma_inst_past_header(before);
    lemma_inst_past_header(after);
    assert forall|k: int| #[trigger] is_inst(before, k) implies after[k] == before[k] by {
        lemma_head_not_editable(before, k);
    }
    assert forall|k: int| #[trigger] is_inst(after, k) <==> is_inst(before, k) by {
        if is_inst(after, k) {
            lemma_edited_walk(before, after, h, k);
            lemma_on_walk(before, k);
        }
        if is_inst(before, k) {
            lemma_edited_walk(before, after, h, k);
        }
    }
    assert forall|k: int, site: Site| is_inst(before, k) implies #[trigger] is_site(after, k, site)
        == is_site(before, k, site) by {
        if word_count(before[k]) >= 4 {
            lemma_operand_kept(before, after, k, 2);
        }
    }
    assert forall|k: int, site: Site|
        is_inst(before, k) && is_site(before, k, site) implies #[trigger] site_id(after, k, site)
        == site_id(before, k, site) by {
        lemma_operand_kept(before, after, k, 2);
        if !(site is Variable) {
            lemma_operand_kept(before, after, k, 1);
        }
    }
}

/// Operand `j` of an instruction survives an edit unless it is an editable one.
pub proof fn lemma_operand_kept(before: Seq<u32>, after: Seq<u32>, k: int, j: int)
    requires
        operands_edited(before, after),
        is_inst(before, k),
        0 <= j < word_count(before[k]),
        !(is_site(before, k, Site::Image) && j == 8),
        !(is_site(before, k, Site::Variable) && j == 1),
    ensures
        after[k + j] == before[k + j],
{
    lemma_inst_past_header(before);
    if editable(before, k + j) {
        let a = choose|a: int| #[trigger]
            is_inst(before, a) && ((is_site(before, a, Site::Image) && k + j == a + 8) || (is_site(
                before,
                a,
                Site::Variable,
            ) && k + j == a + 1));
        lemma_no_overlap(before, a, k, k + j);
    }
}

} // verus!
