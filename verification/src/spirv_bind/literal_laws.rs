//! Which words of an instruction are ids that could be a pointer, by the numbers of the
//! instructions.

use vstd::prelude::*;
use crate::spirv_bind::access::{first_operand, is_inert};
use crate::spirv_bind::literals::{gives_result, is_literal, literal_at};
use crate::spirv_bind::stream::{opcode, word_count};

verus! {

/// The number lies in the range, both ends included.
pub open spec fn within(op: int, low: int, high: int) -> bool {
    low <= op && op <= high
}

/// Word `k` of an image instruction is its operand mask: behind the operands it has to have.
pub open spec fn is_image_mask(op: int, k: int) -> bool {
    ||| op == 99 && k == 4
    ||| (op == 87 || op == 88 || op == 91 || op == 92 || op == 95 || op == 98) && k == 5
    ||| (op == 305 || op == 306 || op == 309 || op == 310 || op == 313 || op == 320) && k == 5
    ||| (op == 89 || op == 90 || op == 93 || op == 94 || op == 96 || op == 97) && k == 6
    ||| (op == 307 || op == 308 || op == 311 || op == 312 || op == 314 || op == 315) && k == 6
}

/// From word `k` on the instruction holds literals alone: memory operands, indices,
/// components or formats.
pub open spec fn ends_in_literals(op: int, k: int) -> bool {
    ||| (op == 256 || op == 257) && k >= 2
    ||| (op == 62 || op == 63 || op == 323) && k >= 3
    ||| (op == 64 || op == 68 || op == 81) && k >= 4
    ||| (op == 79 || op == 82 || op == 4450 || op == 4451 || op == 4452 || op == 4458) && k >= 5
    ||| (op == 4453 || op == 4454 || op == 4455 || op == 4457 || op == 4459) && k >= 6
}

/// Word 4 of the instruction numbers what it does: an extended instruction, or the
/// operation of a group.
pub open spec fn has_a_number(op: int) -> bool {
    ||| op == 12 || op == 4433
    ||| within(op, 264, 271)
    ||| op == 342
    ||| within(op, 349, 364)
    ||| within(op, 5000, 5007)
    ||| within(op, 6401, 6408)
}

/// A word of an instruction is a literal where it is a number, an image mask, or behind the
/// ids of an instruction that ends in literals.
pub proof fn law_literal_words(op: int, k: int)
    ensures
        is_literal(op, k) <==> (has_a_number(op) && k == 4) || is_image_mask(op, k)
            || ends_in_literals(op, k),
{
}

/// A specialized operation has the operation's number as word 3, and then the operation's
/// own words one word on.
pub proof fn law_literals_of_specialized_operations(words: Seq<u32>, at: int, k: int)
    ensures
        opcode(words[at]) == 52 && k == 3 ==> literal_at(words, at, k),
        opcode(words[at]) == 52 && k != 3 && word_count(words[at]) > 3 ==> (literal_at(words, at, k)
            <==> is_literal(words[at + 3] as int, k - 1)),
        opcode(words[at]) != 52 ==> (literal_at(words, at, k) <==> is_literal(
            opcode(words[at]),
            k,
        )),
{
}

/// Instructions with a result have its type and its id as words 1 and 2.
pub proof fn law_instructions_with_a_result(op: int)
    ensures
        gives_result(op) <==> {
            ||| op == 12 || op == 44 || op == 51 || op == 52 || op == 57 || op == 60
            ||| within(op, 65, 70)
            ||| within(op, 77, 98)
            ||| within(op, 100, 215)
            ||| op == 227 || within(op, 229, 242)
            ||| op == 245 || op == 259
            ||| within(op, 261, 271)
            ||| within(op, 305, 316)
            ||| op == 318 || op == 320 || op == 321
            ||| within(op, 333, 403)
            ||| op == 4433 || within(op, 4450, 4455) || op == 4457 || op == 4459
        },
        op == 59 ==> first_operand(op) == 4,
        op != 59 && gives_result(op) ==> first_operand(op) == 3,
        op != 59 && !gives_result(op) ==> first_operand(op) == 1,
{
}

/// No operand of these instructions could be a pointer: they name, decorate and declare, or
/// branch between labels.
pub proof fn law_inert_instructions(op: int)
    ensures
        is_inert(op) <==> {
            ||| op <= 8 || op == 10 || op == 11
            ||| within(op, 14, 17)
            ||| within(op, 19, 43)
            ||| within(op, 45, 50)
            ||| within(op, 54, 56)
            ||| within(op, 71, 75)
            ||| within(op, 246, 253) || op == 255
            ||| op == 317 || within(op, 330, 332)
            ||| op == 5632 || op == 5633
        },
{
}

} // verus!
