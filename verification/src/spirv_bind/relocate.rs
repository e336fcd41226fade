//! Moving fragment-stage bindings into bands of their own.

use vstd::prelude::*;
use crate::spirv_bind::index::{DECORATION_BINDING, OP_DECORATE};
use crate::spirv_bind::stream::{
    HEADER_WORDS, fits, lemma_no_inner, lemma_reaches_ge, lemma_reaches_step, opcode, reaches,
    word_count,
};

verus! {

pub const BUFFER_BINDING_LIMIT: u32 = 32;
pub const SAMPLED_RESOURCE_BINDING_BASE: u32 = 32;

/// Base of the framebuffer-fetch color-input band `[96,104)`. The band survives
/// both fragment relocations: the engine binds the input attachment by this number.
pub const COLOR_INPUT_BINDING_BASE: u32 = 96;
/// Exclusive end of the color-input band.
pub const COLOR_INPUT_BINDING_LIMIT: u32 = 104;
/// Fragment buffer destination offset: `[0,32)` goes to `[104,136)`.
pub const FRAG_BUFFER_BINDING_OFFSET: u32 = 104;
/// Fragment sampled-resource destination offset: `[32,96)` goes to `[160,224)`.
pub const FRAG_SAMPLED_RESOURCE_BINDING_OFFSET: u32 = 128;
/// Exclusive end of the relocated sampled-resource band.
pub const SAMPLED_RESOURCE_BINDING_LIMIT: u32 = COLOR_INPUT_BINDING_BASE;
/// Texture band base: Metal texture index N is binding 32+N.
pub const TEXTURE_BINDING_BASE: u32 = 32;
/// Sampler band base: Metal sampler index N is binding 64+N.
pub const SAMPLER_BINDING_BASE: u32 = 64;

/// A relocation: bindings in `[lo,hi)` move up by `offset`. Where `whole`, an
/// instruction that overruns the words ends the walk before it is looked at.
pub struct Band {
    pub lo: u32,
    pub hi: u32,
    pub offset: u32,
    pub whole: bool,
}

pub open spec fn buffer_band() -> Band {
    Band { lo: 0, hi: BUFFER_BINDING_LIMIT, offset: FRAG_BUFFER_BINDING_OFFSET, whole: false }
}

pub open spec fn sampled_band() -> Band {
    Band {
        lo: SAMPLED_RESOURCE_BINDING_BASE,
        hi: SAMPLED_RESOURCE_BINDING_LIMIT,
        offset: FRAG_SAMPLED_RESOURCE_BINDING_OFFSET,
        whole: true,
    }
}

/// The walk stands on a binding decoration at `at` whose number lies in the band.
pub open spec fn moves_at(words: Seq<u32>, band: Band, at: int) -> bool {
    &&& 0 <= at
    &&& at + 3 < words.len()
    &&& opcode(words[at]) == OP_DECORATE
    &&& word_count(words[at]) >= 4
    &&& band.whole ==> fits(words, at)
    &&& words[at + 2] == DECORATION_BINDING
    &&& band.lo <= words[at + 3] < band.hi
}

/// The word at `k` is a binding number that the relocation moves.
pub open spec fn is_moved_word(words: Seq<u32>, band: Band, k: int) -> bool {
    reaches(words, HEADER_WORDS as int, k - 3) && moves_at(words, band, k - 3)
}

/// How many bindings the relocation moves, from position `i` of the walk on.
pub open spec fn count_moved(words: Seq<u32>, band: Band, i: int) -> nat
    decreases words.len() - i,
{
    (if moves_at(words, band, i) {
        1nat
    } else {
        0nat
    }) + if fits(words, i) {
        count_moved(words, band, i + word_count(words[i]))
    } else {
        0
    }
}

/// `after` is `before` with every binding in the band moved, and nothing else changed.
pub open spec fn is_relocated(before: Seq<u32>, band: Band, after: Seq<u32>) -> bool {
    &&& after.len() == before.len()
    &&& forall|k: int|
        0 <= k < before.len() ==> #[trigger] after[k] == if is_moved_word(before, band, k) {
            before[k] + band.offset
        } else {
            before[k] as int
        }
}

proof fn lemma_count_bounded(words: Seq<u32>, band: Band, i: int)
    requires
        0 <= i,
    ensures
        i >= words.len() ==> count_moved(words, band, i) == 0,
        i < words.len() ==> count_moved(words, band, i) <= words.len() - i,
    decreases words.len() - i,
{
    if fits(words, i) {
        lemma_count_bounded(words, band, i + word_count(words[i]));
    }
}

/// Two walk positions do not share a fourth word unless they are one.
proof fn lemma_moved_word_behind(words: Seq<u32>, band: Band, i: int, k: int)
    requires
        reaches(words, HEADER_WORDS as int, i),
        is_moved_word(words, band, k),
        k - 3 < i,
    ensures
        k < i,
{
    lemma_no_inner(words, HEADER_WORDS as int, k - 3, i);
}

fn relocate(words: &mut [u32], band: Band) -> (moved: usize)
    requires
        band.hi + band.offset <= u32::MAX,
    ensures
        is_relocated(old(words)@, band, final(words)@),
        moved == count_moved(old(words)@, band, HEADER_WORDS as int),
{
    let n: usize = words.len();
    let mut moved: usize = 0;
    let mut i: usize = HEADER_WORDS;
    let ghost before = words@;
    proof {
        lemma_count_bounded(before, band, HEADER_WORDS as int);
        assert forall|k: int| 0 <= k < HEADER_WORDS implies !is_moved_word(before, band, k) by {
            if is_moved_word(before, band, k) {
                lemma_reaches_ge(before, HEADER_WORDS as int, k - 3);
            }
        }
    }
    while i < n
        invariant_except_break
            HEADER_WORDS <= i,
            reaches(before, HEADER_WORDS as int, i as int),
            forall|k: int| i <= k < n ==> #[trigger] words@[k] == before[k],
            forall|k: int|
                0 <= k < i && k < n ==> #[trigger] words@[k] == if is_moved_word(before, band, k) {
                    before[k] + band.offset
                } else {
                    before[k] as int
                },
            count_moved(before, band, HEADER_WORDS as int) == moved + count_moved(
                before,
                band,
                i as int,
            ),
        invariant
            n == before.len(),
            words@.len() == n,
            band.hi + band.offset <= u32::MAX,
            count_moved(before, band, HEADER_WORDS as int) <= n,
        ensures
            is_relocated(before, band, words@),
            moved == count_moved(before, band, HEADER_WORDS as int),
        decreases n - i,
    {
        let head: u32 = words[i];
        assert((head & 0xffff) <= 0xffff) by (bit_vector);
        let count: usize = (head >> 16) as usize;
        let op: u16 = (head & 0xffff) as u16;
        let overruns = count > n - i;
        if count == 0 || (band.whole && overruns) {
            proof {
                assert(!fits(before, i as int));
                assert(count_moved(before, band, i as int) == 0);
                assert forall|k: int| i <= k < n implies !is_moved_word(before, band, k) by {
                    if is_moved_word(before, band, k) {
                        if k - 3 < i {
                            lemma_moved_word_behind(before, band, i as int, k);
                        } else if k - 3 > i {
                            lemma_no_inner(before, HEADER_WORDS as int, i as int, k - 3);
                        }
                    }
                }
            }
            break ;
        }
        let ghost at = i as int;
        if op == OP_DECORATE && count >= 4 && 3 < n - i {
            if words[i + 2] == DECORATION_BINDING && band.lo <= words[i + 3] && words[i + 3]
                < band.hi {
                assert(moves_at(before, band, at));
                words[i + 3] = words[i + 3] + band.offset;
                moved = moved + 1;
            }
        }
        proof {
            // Within this instruction only its fourth word can be a moved one.
            assert forall|k: int| at <= k < n && k != at + 3 && (fits(before, at) ==> k < at
                + count) implies !is_moved_word(before, band, k) by {
                if is_moved_word(before, band, k) {
                    if k - 3 < at {
                        lemma_moved_word_behind(before, band, at, k);
                    } else if k - 3 > at {
                        lemma_no_inner(before, HEADER_WORDS as int, at, k - 3);
                    }
                }
            }
        }
        if overruns {
            proof {
                assert(!fits(before, at));
                assert forall|k: int| 0 <= k < n implies #[trigger] words@[k] == if is_moved_word(
                    before,
                    band,
                    k,
                ) {
                    before[k] + band.offset
                } else {
                    before[k] as int
                } by {
                    if k == at + 3 {
                        assert(is_moved_word(before, band, k) == moves_at(before, band, at));
                    }
                }
            }
            break ;
        }
        proof {
            assert(fits(before, at));
            lemma_reaches_step(before, HEADER_WORDS as int, at);
            assert forall|k: int| 0 <= k < at + count && k < n implies #[trigger] words@[k]
                == if is_moved_word(before, band, k) {
                before[k] + band.offset
            } else {
                before[k] as int
            } by {
                if k == at + 3 {
                    assert(is_moved_word(before, band, k) == moves_at(before, band, at));
                }
            }
        }
        i = i + count;
    }
    moved
}

/// Move fragment buffer bindings `[0,32)` to `[104,136)`; returns how many moved.
pub fn offset_fragment_buffer_bindings(words: &mut [u32]) -> (rewritten: usize)
    ensures
        is_relocated(old(words)@, buffer_band(), final(words)@),
        rewritten == count_moved(old(words)@, buffer_band(), HEADER_WORDS as int),
{
    relocate(
        words,
        Band { lo: 0, hi: BUFFER_BINDING_LIMIT, offset: FRAG_BUFFER_BINDING_OFFSET, whole: false },
    )
}

/// Move fragment sampled bindings `[32,96)` to `[160,224)`; returns how many moved.
///
/// The color-input band stays: the engine binds the framebuffer-fetch attachment
/// by its own number.
pub fn offset_fragment_sampled_resource_bindings(words: &mut [u32]) -> (rewritten: usize)
    ensures
        is_relocated(old(words)@, sampled_band(), final(words)@),
        rewritten == count_moved(old(words)@, sampled_band(), HEADER_WORDS as int),
{
    relocate(
        words,
        Band {
            lo: SAMPLED_RESOURCE_BINDING_BASE,
            hi: SAMPLED_RESOURCE_BINDING_LIMIT,
            offset: FRAG_SAMPLED_RESOURCE_BINDING_OFFSET,
            whole: true,
        },
    )
}

/// Where a binding number goes under a relocation.
pub open spec fn moved_binding(band: Band, binding: u32) -> int {
    if band.lo <= binding < band.hi {
        binding + band.offset
    } else {
        binding as int
    }
}

/// Where a fragment binding goes under both relocations.
pub open spec fn fragment_binding(binding: u32) -> int {
    if binding < BUFFER_BINDING_LIMIT {
        moved_binding(buffer_band(), binding)
    } else {
        moved_binding(sampled_band(), binding)
    }
}

/// Both relocations leave the color-input band where it is, keep distinct
/// bindings of the bands below 104 distinct, land outside every unmoved band,
/// and land where neither relocation would move them again.
pub proof fn law_relocated_bands_stay_apart(a: u32, b: u32)
    requires
        a < COLOR_INPUT_BINDING_LIMIT,
        b < COLOR_INPUT_BINDING_LIMIT,
    ensures
        COLOR_INPUT_BINDING_BASE <= a ==> fragment_binding(a) == a,
        a != b ==> fragment_binding(a) != fragment_binding(b),
        a < COLOR_INPUT_BINDING_BASE ==> fragment_binding(a) >= COLOR_INPUT_BINDING_LIMIT,
        fragment_binding(a) >= COLOR_INPUT_BINDING_BASE,
{
}

proof fn lemma_relocated_walk(before: Seq<u32>, band: Band, after: Seq<u32>, x: int, y: int)
    requires
        is_relocated(before, band, after),
        reaches(before, HEADER_WORDS as int, x),
        reaches(before, x, y) || reaches(after, x, y),
    ensures
        reaches(before, x, y),
        reaches(after, x, y),
    decreases before.len() - x,
{
    if x != y {
        lemma_reaches_ge(before, HEADER_WORDS as int, x);
        lemma_head_unmoved(before, band, x);
        if x < before.len() {
            assert(after[x] == before[x]);
        }
        lemma_reaches_step(before, HEADER_WORDS as int, x);
        lemma_relocated_walk(before, band, after, x + word_count(before[x]), y);
    }
}

proof fn lemma_head_unmoved(words: Seq<u32>, band: Band, at: int)
    requires
        reaches(words, HEADER_WORDS as int, at),
    ensures
        !is_moved_word(words, band, at),
{
    if is_moved_word(words, band, at) {
        lemma_no_inner(words, HEADER_WORDS as int, at - 3, at);
    }
}

/// The opcode, decoration and length of an instruction survive a relocation.
proof fn lemma_operands_unmoved(words: Seq<u32>, band: Band, at: int, j: int)
    requires
        reaches(words, HEADER_WORDS as int, at),
        0 <= j < 3,
        word_count(words[at]) >= 4,
        at + 3 < words.len(),
    ensures
        !is_moved_word(words, band, at + j),
{
    lemma_reaches_ge(words, HEADER_WORDS as int, at);
    if is_moved_word(words, band, at + j) {
        lemma_no_inner(words, HEADER_WORDS as int, at + j - 3, at);
    }
}

/// A relocation takes every binding out of its band: a second run moves nothing.
pub proof fn law_relocation_is_idempotent(
    before: Seq<u32>,
    band: Band,
    after: Seq<u32>,
    again: Seq<u32>,
)
    requires
        band.hi <= band.lo + band.offset,
        is_relocated(before, band, after),
        is_relocated(after, band, again),
    ensures
        again == after,
        count_moved(after, band, HEADER_WORDS as int) == 0,
{
    assert forall|at: int| reaches(before, HEADER_WORDS as int, at) implies !#[trigger] moves_at(
        after,
        band,
        at,
    ) by {
        if moves_at(after, band, at) {
            lemma_head_unmoved(before, band, at);
            assert(after[at] == before[at]);
            lemma_operands_unmoved(before, band, at, 2);
            assert(after[at + 2] == before[at + 2]);
            if moves_at(before, band, at) {
                assert(is_moved_word(before, band, at + 3));
                assert(after[at + 3] == before[at + 3] + band.offset);
            } else {
                assert(after[at + 3] == before[at + 3]);
            }
        }
    }
    assert forall|k: int| 0 <= k < after.len() implies again[k] == after[k] by {
        if is_moved_word(after, band, k) {
            lemma_relocated_walk(before, band, after, HEADER_WORDS as int, k - 3);
        }
    }
    assert(again =~= after);
    lemma_none_moved(before, band, after, HEADER_WORDS as int);
}

proof fn lemma_none_moved(before: Seq<u32>, band: Band, after: Seq<u32>, i: int)
    requires
        is_relocated(before, band, after),
        reaches(before, HEADER_WORDS as int, i),
        forall|at: int|
            reaches(before, HEADER_WORDS as int, at) ==> !#[trigger] moves_at(after, band, at),
    ensures
        count_moved(after, band, i) == 0,
    decreases after.len() - i,
{
    if fits(after, i) {
        lemma_head_unmoved(before, band, i);
        assert(after[i] == before[i]);
        lemma_reaches_step(before, HEADER_WORDS as int, i);
        lemma_none_moved(before, band, after, i + word_count(after[i]));
    }
}

/// The number lies in the band.
pub open spec fn in_band(band: Band, n: int) -> bool {
    band.lo <= n < band.hi
}

/// The bands do not touch: what one moves the other would not have moved, and does
/// not move afterwards.
pub open spec fn bands_apart(a: Band, b: Band) -> bool {
    forall|n: int| #[trigger]
        in_band(a, n) ==> !in_band(b, n) && !in_band(b, n + a.offset)
}

/// A relocation does not change what another band moves.
proof fn lemma_other_band(before: Seq<u32>, band: Band, after: Seq<u32>, other: Band, k: int)
    requires
        is_relocated(before, band, after),
        bands_apart(band, other),
        0 <= k,
    ensures
        is_moved_word(after, other, k) == is_moved_word(before, other, k),
{
    let at = k - 3;
    let h = HEADER_WORDS as int;
    if reaches(before, h, at) || reaches(after, h, at) {
        lemma_relocated_walk(before, band, after, h, at);
        lemma_reaches_ge(before, h, at);
        lemma_head_unmoved(before, band, at);
        if k < before.len() {
            assert(after[at] == before[at]);
            assert(fits(after, at) == fits(before, at));
            if word_count(before[at]) >= 4 {
                lemma_operands_unmoved(before, band, at, 2);
                assert(after[at + 2] == before[at + 2]);
            }
            let number = before[k] as int;
            assert(after[k] == number || (in_band(band, number) && after[k] == number
                + band.offset));
        }
    }
}

/// The two fragment relocations commute: it makes no difference which goes first.
pub proof fn law_relocations_commute(
    before: Seq<u32>,
    buffers: Seq<u32>,
    buffers_first: Seq<u32>,
    sampled: Seq<u32>,
    sampled_first: Seq<u32>,
)
    requires
        is_relocated(before, buffer_band(), buffers),
        is_relocated(buffers, sampled_band(), buffers_first),
        is_relocated(before, sampled_band(), sampled),
        is_relocated(sampled, buffer_band(), sampled_first),
    ensures
        buffers_first == sampled_first,
{
    assert forall|k: int| 0 <= k < before.len() implies buffers_first[k] == sampled_first[k] by {
        lemma_other_band(before, buffer_band(), buffers, sampled_band(), k);
        lemma_other_band(before, sampled_band(), sampled, buffer_band(), k);
        assert(buffers[k] == if is_moved_word(before, buffer_band(), k) {
            before[k] + FRAG_BUFFER_BINDING_OFFSET
        } else {
            before[k] as int
        });
        assert(sampled[k] == if is_moved_word(before, sampled_band(), k) {
            before[k] + FRAG_SAMPLED_RESOURCE_BINDING_OFFSET
        } else {
            before[k] as int
        });
    }
    assert(buffers_first =~= sampled_first);
}

/// The word at `k` is the number of a whole binding decoration of the module.
pub open spec fn is_binding_word(words: Seq<u32>, k: int) -> bool {
    let at = k - 3;
    &&& reaches(words, HEADER_WORDS as int, at)
    &&& 0 <= at
    &&& fits(words, at)
    &&& k < words.len()
    &&& opcode(words[at]) == OP_DECORATE
    &&& word_count(words[at]) >= 4
    &&& words[at + 2] == DECORATION_BINDING
}

/// Both relocations together take each binding of the module to the place that its
/// number has, and keep distinct bindings below the end of the color-input band
/// distinct.
pub proof fn law_relocations_keep_bindings_apart(
    before: Seq<u32>,
    buffers: Seq<u32>,
    after: Seq<u32>,
    j: int,
    k: int,
)
    requires
        is_relocated(before, buffer_band(), buffers),
        is_relocated(buffers, sampled_band(), after),
        is_binding_word(before, j),
        is_binding_word(before, k),
        before[j] < COLOR_INPUT_BINDING_LIMIT,
        before[k] < COLOR_INPUT_BINDING_LIMIT,
    ensures
        after[j] == fragment_binding(before[j]),
        after[k] == fragment_binding(before[k]),
        before[j] != before[k] ==> after[j] != after[k],
{
    lemma_binding_goes(before, buffers, after, j);
    lemma_binding_goes(before, buffers, after, k);
    law_relocated_bands_stay_apart(before[j], before[k]);
}

proof fn lemma_binding_goes(before: Seq<u32>, buffers: Seq<u32>, after: Seq<u32>, k: int)
    requires
        is_relocated(before, buffer_band(), buffers),
        is_relocated(buffers, sampled_band(), after),
        is_binding_word(before, k),
    ensures
        after[k] == fragment_binding(before[k]),
{
    lemma_reaches_ge(before, HEADER_WORDS as int, k - 3);
    lemma_other_band(before, buffer_band(), buffers, sampled_band(), k);
    assert(is_moved_word(before, buffer_band(), k) == (before[k] < BUFFER_BINDING_LIMIT));
    assert(buffers[k] == if is_moved_word(before, buffer_band(), k) {
        before[k] + FRAG_BUFFER_BINDING_OFFSET
    } else {
        before[k] as int
    });
}

} // verus!
