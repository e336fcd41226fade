//! Which words of an instruction can be operands: not its result with the result's
//! type, and not the literals, which are numbers and masks.

use vstd::prelude::*;
use crate::spirv_bind::access::{
    OP_ACCESS_CHAIN, OP_ATOMIC_EXCHANGE, OP_ATOMIC_FLAG_TEST_AND_SET, OP_ATOMIC_XOR,
    OP_FUNCTION_CALL, OP_IN_BOUNDS_PTR_ACCESS_CHAIN, OP_PHI,
};
use crate::spirv_bind::stream::{fits, opcode, word_count};

verus! {

pub const OP_EXT_INST: u16 = 12;
pub const OP_CONSTANT_COMPOSITE: u16 = 44;
pub const OP_SPEC_CONSTANT_COMPOSITE: u16 = 51;
pub const OP_SPEC_CONSTANT_OP: u16 = 52;
pub const OP_IMAGE_TEXEL_POINTER: u16 = 60;
pub const OP_STORE: u16 = 62;
pub const OP_COPY_MEMORY: u16 = 63;
pub const OP_COPY_MEMORY_SIZED: u16 = 64;
pub const OP_ARRAY_LENGTH: u16 = 68;
pub const OP_VECTOR_EXTRACT_DYNAMIC: u16 = 77;
pub const OP_VECTOR_SHUFFLE: u16 = 79;
pub const OP_COMPOSITE_EXTRACT: u16 = 81;
pub const OP_COMPOSITE_INSERT: u16 = 82;
pub const OP_IMAGE_SAMPLE_IMPLICIT_LOD: u16 = 87;
pub const OP_IMAGE_SAMPLE_EXPLICIT_LOD: u16 = 88;
pub const OP_IMAGE_SAMPLE_DREF_IMPLICIT_LOD: u16 = 89;
pub const OP_IMAGE_SAMPLE_DREF_EXPLICIT_LOD: u16 = 90;
pub const OP_IMAGE_SAMPLE_PROJ_IMPLICIT_LOD: u16 = 91;
pub const OP_IMAGE_SAMPLE_PROJ_EXPLICIT_LOD: u16 = 92;
pub const OP_IMAGE_SAMPLE_PROJ_DREF_IMPLICIT_LOD: u16 = 93;
pub const OP_IMAGE_SAMPLE_PROJ_DREF_EXPLICIT_LOD: u16 = 94;
pub const OP_IMAGE_FETCH: u16 = 95;
pub const OP_IMAGE_GATHER: u16 = 96;
pub const OP_IMAGE_DREF_GATHER: u16 = 97;
pub const OP_IMAGE_READ: u16 = 98;
pub const OP_IMAGE_WRITE: u16 = 99;
pub const OP_IMAGE: u16 = 100;
pub const OP_FWIDTH_COARSE: u16 = 215;
pub const OP_ATOMIC_LOAD: u16 = 227;
pub const OP_LIFETIME_START: u16 = 256;
pub const OP_LIFETIME_STOP: u16 = 257;
pub const OP_GROUP_ASYNC_COPY: u16 = 259;
pub const OP_GROUP_ALL: u16 = 261;
pub const OP_GROUP_I_ADD: u16 = 264;
pub const OP_GROUP_S_MAX: u16 = 271;
pub const OP_IMAGE_SPARSE_SAMPLE_IMPLICIT_LOD: u16 = 305;
pub const OP_IMAGE_SPARSE_SAMPLE_EXPLICIT_LOD: u16 = 306;
pub const OP_IMAGE_SPARSE_SAMPLE_DREF_IMPLICIT_LOD: u16 = 307;
pub const OP_IMAGE_SPARSE_SAMPLE_DREF_EXPLICIT_LOD: u16 = 308;
pub const OP_IMAGE_SPARSE_SAMPLE_PROJ_IMPLICIT_LOD: u16 = 309;
pub const OP_IMAGE_SPARSE_SAMPLE_PROJ_EXPLICIT_LOD: u16 = 310;
pub const OP_IMAGE_SPARSE_SAMPLE_PROJ_DREF_IMPLICIT_LOD: u16 = 311;
pub const OP_IMAGE_SPARSE_SAMPLE_PROJ_DREF_EXPLICIT_LOD: u16 = 312;
pub const OP_IMAGE_SPARSE_FETCH: u16 = 313;
pub const OP_IMAGE_SPARSE_GATHER: u16 = 314;
pub const OP_IMAGE_SPARSE_DREF_GATHER: u16 = 315;
pub const OP_IMAGE_SPARSE_TEXELS_RESIDENT: u16 = 316;
pub const OP_IMAGE_SPARSE_READ: u16 = 320;
pub const OP_SIZE_OF: u16 = 321;
pub const OP_CONSTANT_PIPE_STORAGE: u16 = 323;
pub const OP_GROUP_NON_UNIFORM_ELECT: u16 = 333;
pub const OP_GROUP_NON_UNIFORM_BALLOT_BIT_COUNT: u16 = 342;
pub const OP_GROUP_NON_UNIFORM_I_ADD: u16 = 349;
pub const OP_GROUP_NON_UNIFORM_LOGICAL_XOR: u16 = 364;
pub const OP_PTR_DIFF: u16 = 403;
pub const OP_EXT_INST_WITH_FORWARD_REFS: u16 = 4433;
pub const OP_S_DOT: u16 = 4450;
pub const OP_S_U_DOT: u16 = 4452;
pub const OP_S_DOT_ACC_SAT: u16 = 4453;
pub const OP_S_U_DOT_ACC_SAT: u16 = 4455;
pub const OP_COOPERATIVE_MATRIX_LOAD: u16 = 4457;
pub const OP_COOPERATIVE_MATRIX_STORE: u16 = 4458;
pub const OP_COOPERATIVE_MATRIX_MUL_ADD: u16 = 4459;
pub const OP_GROUP_I_ADD_NON_UNIFORM: u16 = 5000;
pub const OP_GROUP_S_MAX_NON_UNIFORM: u16 = 5007;
pub const OP_GROUP_I_MUL: u16 = 6401;
pub const OP_GROUP_LOGICAL_XOR: u16 = 6408;

/// The instruction starts with the type of its result and the result: its operands
/// are behind them.
pub open spec fn gives_result(op: int) -> bool {
    ||| op == OP_EXT_INST || op == OP_EXT_INST_WITH_FORWARD_REFS
    ||| op == OP_CONSTANT_COMPOSITE
    ||| OP_SPEC_CONSTANT_COMPOSITE <= op <= OP_SPEC_CONSTANT_OP
    ||| op == OP_FUNCTION_CALL || op == OP_IMAGE_TEXEL_POINTER
    ||| OP_ACCESS_CHAIN <= op <= OP_IN_BOUNDS_PTR_ACCESS_CHAIN
    ||| OP_VECTOR_EXTRACT_DYNAMIC <= op <= OP_IMAGE_READ
    ||| OP_IMAGE <= op <= OP_FWIDTH_COARSE
    ||| op == OP_ATOMIC_LOAD || OP_ATOMIC_EXCHANGE <= op <= OP_ATOMIC_XOR
    ||| op == OP_PHI || op == OP_GROUP_ASYNC_COPY
    ||| OP_GROUP_ALL <= op <= OP_GROUP_S_MAX
    ||| OP_IMAGE_SPARSE_SAMPLE_IMPLICIT_LOD <= op <= OP_IMAGE_SPARSE_TEXELS_RESIDENT
    ||| op == OP_ATOMIC_FLAG_TEST_AND_SET
    ||| OP_IMAGE_SPARSE_READ <= op <= OP_SIZE_OF
    ||| OP_GROUP_NON_UNIFORM_ELECT <= op <= OP_PTR_DIFF
    ||| OP_S_DOT <= op <= OP_S_U_DOT_ACC_SAT
    ||| op == OP_COOPERATIVE_MATRIX_LOAD || op == OP_COOPERATIVE_MATRIX_MUL_ADD
}

pub(crate) fn has_result(op: u16) -> (r: bool)
    ensures
        r == gives_result(op as int),
{
    op == OP_EXT_INST || op == OP_EXT_INST_WITH_FORWARD_REFS || op == OP_CONSTANT_COMPOSITE || (
    OP_SPEC_CONSTANT_COMPOSITE <= op && op <= OP_SPEC_CONSTANT_OP) || op == OP_FUNCTION_CALL || op
        == OP_IMAGE_TEXEL_POINTER || (OP_ACCESS_CHAIN <= op && op <= OP_IN_BOUNDS_PTR_ACCESS_CHAIN)
        || (OP_VECTOR_EXTRACT_DYNAMIC <= op && op <= OP_IMAGE_READ) || (OP_IMAGE <= op && op
        <= OP_FWIDTH_COARSE) || op == OP_ATOMIC_LOAD || (OP_ATOMIC_EXCHANGE <= op && op
        <= OP_ATOMIC_XOR) || op == OP_PHI || op == OP_GROUP_ASYNC_COPY || (OP_GROUP_ALL <= op && op
        <= OP_GROUP_S_MAX) || (OP_IMAGE_SPARSE_SAMPLE_IMPLICIT_LOD <= op && op
        <= OP_IMAGE_SPARSE_TEXELS_RESIDENT) || op == OP_ATOMIC_FLAG_TEST_AND_SET || (
    OP_IMAGE_SPARSE_READ <= op && op <= OP_SIZE_OF) || (OP_GROUP_NON_UNIFORM_ELECT <= op && op
        <= OP_PTR_DIFF) || (OP_S_DOT <= op && op <= OP_S_U_DOT_ACC_SAT) || op
        == OP_COOPERATIVE_MATRIX_LOAD || op == OP_COOPERATIVE_MATRIX_MUL_ADD
}

/// The instruction's fifth word is a literal: the number of an extended
/// instruction, or the operation of a group.
pub open spec fn numbered(op: int) -> bool {
    ||| op == OP_EXT_INST || op == OP_EXT_INST_WITH_FORWARD_REFS
    ||| OP_GROUP_I_ADD <= op <= OP_GROUP_S_MAX
    ||| op == OP_GROUP_NON_UNIFORM_BALLOT_BIT_COUNT
    ||| OP_GROUP_NON_UNIFORM_I_ADD <= op <= OP_GROUP_NON_UNIFORM_LOGICAL_XOR
    ||| OP_GROUP_I_ADD_NON_UNIFORM <= op <= OP_GROUP_S_MAX_NON_UNIFORM
    ||| OP_GROUP_I_MUL <= op <= OP_GROUP_LOGICAL_XOR
}

/// Where the mask of a texel access stands, if the instruction is one. Ids follow it.
pub open spec fn image_mask(op: int) -> Option<int> {
    if op == OP_IMAGE_WRITE {
        Some(4)
    } else if OP_IMAGE_SAMPLE_IMPLICIT_LOD <= op <= OP_IMAGE_SAMPLE_EXPLICIT_LOD
        || OP_IMAGE_SAMPLE_PROJ_IMPLICIT_LOD <= op <= OP_IMAGE_SAMPLE_PROJ_EXPLICIT_LOD || op
        == OP_IMAGE_FETCH || op == OP_IMAGE_READ || OP_IMAGE_SPARSE_SAMPLE_IMPLICIT_LOD <= op
        <= OP_IMAGE_SPARSE_SAMPLE_EXPLICIT_LOD || OP_IMAGE_SPARSE_SAMPLE_PROJ_IMPLICIT_LOD <= op
        <= OP_IMAGE_SPARSE_SAMPLE_PROJ_EXPLICIT_LOD || op == OP_IMAGE_SPARSE_FETCH || op
        == OP_IMAGE_SPARSE_READ {
        Some(5)
    } else if OP_IMAGE_SAMPLE_DREF_IMPLICIT_LOD <= op <= OP_IMAGE_SAMPLE_DREF_EXPLICIT_LOD
        || OP_IMAGE_SAMPLE_PROJ_DREF_IMPLICIT_LOD <= op <= OP_IMAGE_SAMPLE_PROJ_DREF_EXPLICIT_LOD
        || OP_IMAGE_GATHER <= op <= OP_IMAGE_DREF_GATHER
        || OP_IMAGE_SPARSE_SAMPLE_DREF_IMPLICIT_LOD <= op
        <= OP_IMAGE_SPARSE_SAMPLE_DREF_EXPLICIT_LOD
        || OP_IMAGE_SPARSE_SAMPLE_PROJ_DREF_IMPLICIT_LOD <= op
        <= OP_IMAGE_SPARSE_SAMPLE_PROJ_DREF_EXPLICIT_LOD || OP_IMAGE_SPARSE_GATHER <= op
        <= OP_IMAGE_SPARSE_DREF_GATHER {
        Some(6)
    } else {
        None
    }
}

/// The first word of the instruction behind which all are literals: indices of a
/// composite, or a memory access with what belongs to it. No id among those of a
/// memory access is a pointer.
pub open spec fn literal_tail(op: int) -> Option<int> {
    if op == OP_LIFETIME_START || op == OP_LIFETIME_STOP {
        Some(2)
    } else if op == OP_STORE || op == OP_COPY_MEMORY || op == OP_CONSTANT_PIPE_STORAGE {
        Some(3)
    } else if op == OP_COPY_MEMORY_SIZED || op == OP_ARRAY_LENGTH || op == OP_COMPOSITE_EXTRACT {
        Some(4)
    } else if op == OP_COMPOSITE_INSERT || op == OP_VECTOR_SHUFFLE || OP_S_DOT <= op <= OP_S_U_DOT
        || op == OP_COOPERATIVE_MATRIX_STORE {
        Some(5)
    } else if OP_S_DOT_ACC_SAT <= op <= OP_S_U_DOT_ACC_SAT || op == OP_COOPERATIVE_MATRIX_LOAD
        || op == OP_COOPERATIVE_MATRIX_MUL_ADD {
        Some(6)
    } else {
        None
    }
}

/// Word `k` of an instruction `op` is a literal.
pub open spec fn is_literal(op: int, k: int) -> bool {
    ||| numbered(op) && k == 4
    ||| image_mask(op) == Some(k)
    ||| literal_tail(op) is Some && literal_tail(op)->0 <= k
}

/// Word `k` of the instruction at `at` is a literal. A constant that is computed
/// names an instruction and goes on with its operands, without the two words for
/// its result.
pub open spec fn literal_at(words: Seq<u32>, at: int, k: int) -> bool {
    let op = opcode(words[at]);
    if op == OP_SPEC_CONSTANT_OP {
        k == 3 || (word_count(words[at]) > 3 && is_literal(words[at + 3] as int, k - 1))
    } else {
        is_literal(op, k)
    }
}

fn is_numbered(op: u32) -> (r: bool)
    ensures
        r == numbered(op as int),
{
    op == OP_EXT_INST as u32 || op == OP_EXT_INST_WITH_FORWARD_REFS as u32 || (
    OP_GROUP_I_ADD as u32 <= op && op <= OP_GROUP_S_MAX as u32) || op
        == OP_GROUP_NON_UNIFORM_BALLOT_BIT_COUNT as u32 || (OP_GROUP_NON_UNIFORM_I_ADD as u32 <= op
        && op <= OP_GROUP_NON_UNIFORM_LOGICAL_XOR as u32) || (OP_GROUP_I_ADD_NON_UNIFORM as u32
        <= op && op <= OP_GROUP_S_MAX_NON_UNIFORM as u32) || (OP_GROUP_I_MUL as u32 <= op && op
        <= OP_GROUP_LOGICAL_XOR as u32)
}

fn mask_of(op: u32) -> (mask: Option<usize>)
    ensures
        match mask {
            Some(k) => image_mask(op as int) == Some(k as int),
            None => image_mask(op as int) is None,
        },
{
    if op > 0xffff {
        return None;
    }
    match op as u16 {
        OP_IMAGE_WRITE => Some(4),
        OP_IMAGE_SAMPLE_IMPLICIT_LOD
        | OP_IMAGE_SAMPLE_EXPLICIT_LOD
        | OP_IMAGE_SAMPLE_PROJ_IMPLICIT_LOD
        | OP_IMAGE_SAMPLE_PROJ_EXPLICIT_LOD
        | OP_IMAGE_FETCH
        | OP_IMAGE_READ
        | OP_IMAGE_SPARSE_SAMPLE_IMPLICIT_LOD
        | OP_IMAGE_SPARSE_SAMPLE_EXPLICIT_LOD
        | OP_IMAGE_SPARSE_SAMPLE_PROJ_IMPLICIT_LOD
        | OP_IMAGE_SPARSE_SAMPLE_PROJ_EXPLICIT_LOD
        | OP_IMAGE_SPARSE_FETCH
        | OP_IMAGE_SPARSE_READ => Some(5),
        OP_IMAGE_SAMPLE_DREF_IMPLICIT_LOD
        | OP_IMAGE_SAMPLE_DREF_EXPLICIT_LOD
        | OP_IMAGE_SAMPLE_PROJ_DREF_IMPLICIT_LOD
        | OP_IMAGE_SAMPLE_PROJ_DREF_EXPLICIT_LOD
        | OP_IMAGE_GATHER
        | OP_IMAGE_DREF_GATHER
        | OP_IMAGE_SPARSE_SAMPLE_DREF_IMPLICIT_LOD
        | OP_IMAGE_SPARSE_SAMPLE_DREF_EXPLICIT_LOD
        | OP_IMAGE_SPARSE_SAMPLE_PROJ_DREF_IMPLICIT_LOD
        | OP_IMAGE_SPARSE_SAMPLE_PROJ_DREF_EXPLICIT_LOD
        | OP_IMAGE_SPARSE_GATHER
        | OP_IMAGE_SPARSE_DREF_GATHER => Some(6),
        _ => None,
    }
}

fn tail_of(op: u32) -> (tail: Option<usize>)
    ensures
        match tail {
            Some(k) => literal_tail(op as int) == Some(k as int),
            None => literal_tail(op as int) is None,
        },
{
    if op > 0xffff {
        return None;
    }
    match op as u16 {
        OP_LIFETIME_START | OP_LIFETIME_STOP => Some(2),
        OP_STORE | OP_COPY_MEMORY | OP_CONSTANT_PIPE_STORAGE => Some(3),
        OP_COPY_MEMORY_SIZED | OP_ARRAY_LENGTH | OP_COMPOSITE_EXTRACT => Some(4),
        OP_COMPOSITE_INSERT | OP_VECTOR_SHUFFLE | OP_COOPERATIVE_MATRIX_STORE => Some(5),
        OP_COOPERATIVE_MATRIX_LOAD | OP_COOPERATIVE_MATRIX_MUL_ADD => Some(6),
        other => if OP_S_DOT <= other && other <= OP_S_U_DOT {
            Some(5)
        } else if OP_S_DOT_ACC_SAT <= other && other <= OP_S_U_DOT_ACC_SAT {
            Some(6)
        } else {
            None
        },
    }
}

fn literal_word(op: u32, k: usize) -> (r: bool)
    ensures
        r == is_literal(op as int, k as int),
{
    let masked = match mask_of(op) {
        Some(at) => at == k,
        None => false,
    };
    let in_tail = match tail_of(op) {
        Some(from) => from <= k,
        None => false,
    };
    (is_numbered(op) && k == 4) || masked || in_tail
}

/// Whether word `k` of the instruction at `at` is a literal.
pub(crate) fn find_literal(words: &[u32], at: usize, k: usize) -> (r: bool)
    requires
        fits(words@, at as int),
        1 <= k,
    ensures
        r == literal_at(words@, at as int, k as int),
{
    let head: u32 = words[at];
    assert((head & 0xffff) <= 0xffff) by (bit_vector);
    let op: u32 = head & 0xffff;
    if op == OP_SPEC_CONSTANT_OP as u32 {
        k == 3 || ((head >> 16) > 3 && literal_word(words[at + 3], k - 1))
    } else {
        literal_word(op, k)
    }
}

} // verus!
