//! Declaring the capability that format-less storage writes need.

use vstd::prelude::*;
use crate::spirv_bind::edit::{block_ok, lemma_splice, spliced};
use crate::spirv_bind::stream::{
    HEADER_WORDS, fits, opcode, reaches, stream_ok, word_count,
};

verus! {

pub const OP_CAPABILITY: u16 = 17;
/// `Capability StorageImageWriteWithoutFormat`, 56 in SPIR-V's enumeration: writes to
/// an image of unknown format.
pub const CAPABILITY_STORAGE_IMAGE_WRITE_WITHOUT_FORMAT: u32 = 56;
/// First word of a two-word `OpCapability`.
pub const CAPABILITY_HEAD: u32 = 0x0002_0011;

/// An `OpCapability` stands at `i`.
pub open spec fn is_capability(words: Seq<u32>, i: int) -> bool {
    fits(words, i) && opcode(words[i]) == OP_CAPABILITY
}

/// The end of the run of capabilities that starts at `i`.
pub open spec fn capabilities_end(words: Seq<u32>, i: int) -> int
    decreases words.len() - i,
{
    if is_capability(words, i) {
        capabilities_end(words, i + word_count(words[i]))
    } else {
        i
    }
}

/// The run of capabilities from `i` on declares the wanted one.
pub open spec fn declares_capability(words: Seq<u32>, i: int) -> bool
    decreases words.len() - i,
{
    &&& is_capability(words, i)
    &&& (word_count(words[i]) >= 2 && words[i + 1]
        == CAPABILITY_STORAGE_IMAGE_WRITE_WITHOUT_FORMAT) || declares_capability(
        words,
        i + word_count(words[i]),
    )
}

/// The instruction that declares the capability.
pub open spec fn capability_words() -> Seq<u32> {
    seq![CAPABILITY_HEAD, CAPABILITY_STORAGE_IMAGE_WRITE_WITHOUT_FORMAT]
}

/// The words with the capability declared behind the last one that is there.
pub open spec fn with_capability(words: Seq<u32>) -> Seq<u32> {
    spliced(words, capabilities_end(words, HEADER_WORDS as int), capability_words())
}

proof fn lemma_capability_head()
    ensures
        word_count(CAPABILITY_HEAD) == 2,
        opcode(CAPABILITY_HEAD) == OP_CAPABILITY,
{
    assert(0x0002_0011u32 >> 16 == 2) by (bit_vector);
    assert(0x0002_0011u32 & 0xffff == 17) by (bit_vector);
}

proof fn lemma_end_on_walk(words: Seq<u32>, i: int)
    requires
        0 <= i <= words.len(),
    ensures
        i <= capabilities_end(words, i) <= words.len(),
        reaches(words, i, capabilities_end(words, i)),
    decreases words.len() - i,
{
    if is_capability(words, i) {
        lemma_end_on_walk(words, i + word_count(words[i]));
    }
}

proof fn lemma_declared_at_end(words: Seq<u32>, i: int)
    requires
        HEADER_WORDS <= i <= capabilities_end(words, HEADER_WORDS as int) <= words.len(),
        capabilities_end(words, i) == capabilities_end(words, HEADER_WORDS as int),
    ensures
        declares_capability(with_capability(words), i),
    decreases words.len() - i,
{
    let e = capabilities_end(words, HEADER_WORDS as int);
    let out = with_capability(words);
    lemma_capability_head();
    if is_capability(words, i) {
        lemma_end_on_walk(words, i + word_count(words[i]));
        lemma_declared_at_end(words, i + word_count(words[i]));
        assert(out[i] == words[i]);
    } else {
        assert(i == e);
        assert(out[e] == CAPABILITY_HEAD);
        assert(out[e + 1] == CAPABILITY_STORAGE_IMAGE_WRITE_WITHOUT_FORMAT);
    }
}

/// Once declared, the capability is found: a second call inserts nothing. The
/// stream stays whole.
pub proof fn law_capability_is_declared_once(words: Seq<u32>)
    requires
        words.len() >= HEADER_WORDS,
    ensures
        declares_capability(with_capability(words), HEADER_WORDS as int),
        stream_ok(words) ==> stream_ok(with_capability(words)),
{
    let e = capabilities_end(words, HEADER_WORDS as int);
    lemma_end_on_walk(words, HEADER_WORDS as int);
    lemma_declared_at_end(words, HEADER_WORDS as int);
    if stream_ok(words) {
        lemma_capability_head();
        let block = capability_words();
        assert(fits(block, 0));
        assert(reaches(block, 2, 2));
        assert(block_ok(block));
        lemma_splice(words, e, block);
    }
}

/// Ensure the module declares `StorageImageWriteWithoutFormat`.
///
/// A storage image of unknown format may only be written under this capability.
/// Capabilities are the module's first section, so the instruction goes right
/// behind the last of them. Returns whether it was inserted.
pub fn ensure_storage_write_without_format_capability(words: &mut Vec<u32>) -> (inserted: bool)
    ensures
        inserted == (old(words).len() >= HEADER_WORDS && !declares_capability(
            old(words)@,
            HEADER_WORDS as int,
        )),
        final(words)@ == if inserted {
            with_capability(old(words)@)
        } else {
            old(words)@
        },
{
    if words.len() < HEADER_WORDS {
        return false;
    }
    let mut i: usize = HEADER_WORDS;
    let mut more = true;
    while more
        invariant
            words@ == old(words)@,
            HEADER_WORDS <= i <= words.len(),
            capabilities_end(words@, HEADER_WORDS as int) == capabilities_end(words@, i as int),
            declares_capability(words@, HEADER_WORDS as int) == declares_capability(
                words@,
                i as int,
            ),
            !more ==> !is_capability(words@, i as int),
        decreases words.len() - i, more as int,
    {
        more = false;
        if i < words.len() {
            let head: u32 = words[i];
            assert((head & 0xffff) <= 0xffff) by (bit_vector);
            let count: usize = (head >> 16) as usize;
            if count != 0 && count <= words.len() - i && (head & 0xffff) as u16 == OP_CAPABILITY {
                if count >= 2 && words[i + 1] == CAPABILITY_STORAGE_IMAGE_WRITE_WITHOUT_FORMAT {
                    return false;
                }
                i = i + count;
                more = true;
            }
        }
    }
    words.insert(i, CAPABILITY_STORAGE_IMAGE_WRITE_WITHOUT_FORMAT);
    words.insert(i, CAPABILITY_HEAD);
    assert(words@ =~= with_capability(old(words)@));
    true
}

} // verus!
