//! What a module does with the contents behind a storage descriptor.
//!
//! Provenance follows the operations that preserve a buffer pointer or an image
//! object. A store, a copy destination or an atomic makes a buffer writable; an
//! image read or write says how an image's texels are used. Whatever leaves the
//! reach of the walk is answered fail-closed.

use vstd::prelude::*;
use crate::spirv_bind::capability::OP_CAPABILITY;
use crate::spirv_bind::index::{
    ModuleIndex, OP_DECORATE, OP_FUNCTION, OP_VARIABLE, Site, binding_of, index_module,
    lemma_site_within, storage_class_of,
};
use crate::spirv_bind::literals::{
    OP_COPY_MEMORY, OP_COPY_MEMORY_SIZED, OP_IMAGE_READ, OP_IMAGE_WRITE, OP_STORE, find_literal,
    gives_result, has_result, literal_at,
};
use crate::spirv_bind::stream::{
    HEADER_WORDS, fits, id_bound, is_inst, lemma_inst_past_header, lemma_inst_split, lemma_on_walk,
    module_ok, opcode, reaches, word_count,
};

verus! {

pub const OP_FUNCTION_CALL: u16 = 57;
pub const OP_LOAD: u16 = 61;
pub const OP_ACCESS_CHAIN: u16 = 65;
pub const OP_IN_BOUNDS_ACCESS_CHAIN: u16 = 66;
pub const OP_PTR_ACCESS_CHAIN: u16 = 67;
pub const OP_IN_BOUNDS_PTR_ACCESS_CHAIN: u16 = 70;
pub const OP_COPY_OBJECT: u16 = 83;
pub const OP_IMAGE_QUERY_FORMAT: u16 = 101;
pub const OP_IMAGE_QUERY_SAMPLES: u16 = 107;
pub const OP_CONVERT_PTR_TO_U: u16 = 117;
pub const OP_PTR_CAST_TO_GENERIC: u16 = 121;
pub const OP_GENERIC_CAST_TO_PTR: u16 = 122;
pub const OP_GENERIC_CAST_TO_PTR_EXPLICIT: u16 = 123;
pub const OP_SELECT: u16 = 169;
pub const OP_ATOMIC_STORE: u16 = 228;
pub const OP_ATOMIC_EXCHANGE: u16 = 229;
pub const OP_ATOMIC_XOR: u16 = 242;
pub const OP_PHI: u16 = 245;
pub const OP_RETURN_VALUE: u16 = 254;
pub const OP_ATOMIC_FLAG_TEST_AND_SET: u16 = 318;
pub const OP_ATOMIC_FLAG_CLEAR: u16 = 319;

pub const OP_LINE: u16 = 8;
pub const OP_EXTENSION: u16 = 10;
pub const OP_EXT_INST_IMPORT: u16 = 11;
pub const OP_MEMORY_MODEL: u16 = 14;
pub const OP_TYPE_VOID: u16 = 19;
pub const OP_CONSTANT: u16 = 43;
pub const OP_CONSTANT_SAMPLER: u16 = 45;
pub const OP_SPEC_CONSTANT: u16 = 50;
pub const OP_FUNCTION_END: u16 = 56;
pub const OP_GROUP_MEMBER_DECORATE: u16 = 75;
pub const OP_LOOP_MERGE: u16 = 246;
pub const OP_RETURN: u16 = 253;
pub const OP_UNREACHABLE: u16 = 255;
pub const OP_NO_LINE: u16 = 317;
pub const OP_MODULE_PROCESSED: u16 = 330;
pub const OP_DECORATE_ID: u16 = 332;
pub const OP_DECORATE_STRING: u16 = 5632;
pub const OP_MEMBER_DECORATE_STRING: u16 = 5633;

pub const STORAGE_CLASS_UNIFORM_CONSTANT: u32 = 0;
pub const STORAGE_CLASS_STORAGE_BUFFER: u32 = 12;

/// Write access proven from the pointer-use graph for one storage buffer.
#[derive(Clone, Copy, Debug, PartialEq, Eq, Structural)]
pub enum BufferAccess {
    ReadOnly,
    Writable,
    /// A pointer escapes through a call, a return or an integer conversion, so
    /// local provenance cannot prove whether it is written.
    PointerEscape,
    /// More than one storage-buffer variable declares the same binding.
    AmbiguousBinding,
}

/// Content access proven from the use graph for one storage image.
#[derive(Clone, Copy, Debug, PartialEq, Eq, Structural)]
pub enum StorageImageAccess {
    ReadOnly,
    WriteOnly,
    ReadWrite,
    /// The image object escaped, took part in an operation whose content access
    /// cannot be classified, or is never read nor written.
    Unknown,
    /// More than one image variable declares the same binding.
    AmbiguousBinding,
}

/// Which values are followed from a descriptor variable.
#[derive(Clone, Copy, PartialEq, Eq, Structural)]
pub enum Flow {
    /// The variable's own pointer and every pointer made from it.
    BufferPointer,
    /// The image objects loaded from the variable.
    ImageObject,
}

/// `id` is a variable at `binding` in the storage class.
pub open spec fn is_root(words: Seq<u32>, binding: u32, class: u32, id: int) -> bool {
    &&& 0 <= id < id_bound(words)
    &&& binding_of(words, id) == Some(binding)
    &&& storage_class_of(words, id) == Some(class)
}

/// The result of the instruction at `at` is a followed value, given those in `s`.
pub open spec fn yields(words: Seq<u32>, flow: Flow, root: int, at: int, s: Set<int>) -> bool {
    let op = opcode(words[at]);
    let count = word_count(words[at]);
    if op == OP_COPY_OBJECT {
        count >= 4 && s.contains(words[at + 3] as int)
    } else if op == OP_SELECT {
        count >= 6 && (s.contains(words[at + 4] as int) || s.contains(words[at + 5] as int))
    } else if op == OP_PHI {
        count >= 5 && exists|k: int|
            0 <= k && 3 + 2 * k < count && s.contains(#[trigger] words[at + 3 + 2 * k] as int)
    } else {
        match flow {
            Flow::BufferPointer => {
                &&& (op == OP_ACCESS_CHAIN || op == OP_IN_BOUNDS_ACCESS_CHAIN || op
                    == OP_PTR_ACCESS_CHAIN || op == OP_IN_BOUNDS_PTR_ACCESS_CHAIN || op
                    == OP_PTR_CAST_TO_GENERIC || op == OP_GENERIC_CAST_TO_PTR || op
                    == OP_GENERIC_CAST_TO_PTR_EXPLICIT)
                &&& count >= 4
                &&& s.contains(words[at + 3] as int)
            },
            Flow::ImageObject => op == OP_LOAD && count >= 4 && words[at + 3] == root,
        }
    }
}

/// `s` holds the start of the flow and every result below the id bound that it yields.
pub open spec fn closed_under(words: Seq<u32>, flow: Flow, root: int, s: Set<int>) -> bool {
    &&& flow == Flow::BufferPointer ==> s.contains(root)
    &&& forall|at: int|
        #[trigger] is_inst(words, at) && yields(words, flow, root, at, s) && words[at + 2]
            < id_bound(words) ==> s.contains(words[at + 2] as int)
}

/// `id` is a followed value: it lies in every closed set.
pub open spec fn carries(words: Seq<u32>, flow: Flow, root: int, id: int) -> bool {
    forall|s: Set<int>| #[trigger] closed_under(words, flow, root, s) ==> s.contains(id)
}

/// All the values followed from `root`.
pub open spec fn carried(words: Seq<u32>, flow: Flow, root: int) -> Set<int> {
    Set::new(|id: int| carries(words, flow, root, id))
}

/// The ids marked in a table.
pub open spec fn marked(table: Seq<bool>) -> Set<int> {
    Set::new(|id: int| 0 <= id < table.len() && table[id])
}

/// The instruction at `at` writes through a pointer in `s`.
pub open spec fn writes_through(words: Seq<u32>, at: int, s: Set<int>) -> bool {
    let op = opcode(words[at]);
    let count = word_count(words[at]);
    if op == OP_STORE || op == OP_COPY_MEMORY || op == OP_COPY_MEMORY_SIZED || op
        == OP_ATOMIC_STORE || op == OP_ATOMIC_FLAG_CLEAR {
        count >= 2 && s.contains(words[at + 1] as int)
    } else if OP_ATOMIC_EXCHANGE <= op <= OP_ATOMIC_XOR || op == OP_ATOMIC_FLAG_TEST_AND_SET {
        count >= 4 && s.contains(words[at + 3] as int)
    } else {
        false
    }
}

/// One of the instruction's words from the `first` on is an id in `s`.
pub open spec fn mentions(words: Seq<u32>, at: int, first: int, s: Set<int>) -> bool {
    exists|k: int|
        first <= k < word_count(words[at]) && s.contains(#[trigger] words[at + k] as int)
}

/// The instruction at `at` lets a pointer in `s` out of sight.
pub open spec fn lets_pointer_out(words: Seq<u32>, at: int, s: Set<int>) -> bool {
    let op = opcode(words[at]);
    let count = word_count(words[at]);
    ||| op == OP_FUNCTION_CALL && mentions(words, at, 4, s)
    ||| op == OP_RETURN_VALUE && count >= 2 && s.contains(words[at + 1] as int)
    ||| op == OP_CONVERT_PTR_TO_U && count >= 4 && s.contains(words[at + 3] as int)
}

/// How the module uses the storage buffer at `binding`.
pub open spec fn buffer_access_spec(words: Seq<u32>, binding: u32) -> Option<BufferAccess> {
    if !module_ok(words) || forall|id: int|
        !is_root(words, binding, STORAGE_CLASS_STORAGE_BUFFER, id) {
        None
    } else {
        let root = choose|id: int| is_root(words, binding, STORAGE_CLASS_STORAGE_BUFFER, id);
        let s = carried(words, Flow::BufferPointer, root);
        if exists|id: int| is_root(words, binding, STORAGE_CLASS_STORAGE_BUFFER, id) && id != root {
            Some(BufferAccess::AmbiguousBinding)
        } else if exists|at: int| #[trigger] is_inst(words, at) && writes_through(words, at, s) {
            Some(BufferAccess::Writable)
        } else if exists|at: int| #[trigger] is_inst(words, at) && lets_pointer_out(words, at, s) {
            Some(BufferAccess::PointerEscape)
        } else {
            Some(BufferAccess::ReadOnly)
        }
    }
}

/// The instruction at `at` reads texels of an image in `s`.
pub open spec fn reads_image(words: Seq<u32>, at: int, s: Set<int>) -> bool {
    opcode(words[at]) == OP_IMAGE_READ && word_count(words[at]) >= 5 && s.contains(
        words[at + 3] as int,
    )
}

/// The instruction at `at` writes texels of an image in `s`.
pub open spec fn writes_image(words: Seq<u32>, at: int, s: Set<int>) -> bool {
    opcode(words[at]) == OP_IMAGE_WRITE && word_count(words[at]) >= 4 && s.contains(
        words[at + 1] as int,
    )
}

/// The instruction at `at` touches an image in `s` in a way that is neither a
/// texel access, nor a shape query, nor one of the operations that are followed.
pub open spec fn lets_image_out(words: Seq<u32>, at: int, s: Set<int>) -> bool {
    let op = opcode(words[at]);
    &&& !reads_image(words, at, s)
    &&& !writes_image(words, at, s)
    &&& !(OP_IMAGE_QUERY_FORMAT <= op <= OP_IMAGE_QUERY_SAMPLES)
    &&& op != OP_LOAD && op != OP_COPY_OBJECT && op != OP_SELECT && op != OP_PHI
    &&& mentions(words, at, 1, s)
}

/// The instruction holds no operand that could be a pointer: it names, decorates or
/// declares, or its ids are those of types and labels.
pub open spec fn is_inert(op: int) -> bool {
    ||| op <= OP_LINE
    ||| op == OP_EXTENSION || op == OP_EXT_INST_IMPORT
    ||| OP_MEMORY_MODEL <= op <= OP_CAPABILITY
    ||| OP_TYPE_VOID <= op <= OP_CONSTANT
    ||| OP_CONSTANT_SAMPLER <= op <= OP_SPEC_CONSTANT
    ||| OP_FUNCTION <= op <= OP_FUNCTION_END
    ||| OP_DECORATE <= op <= OP_GROUP_MEMBER_DECORATE
    ||| OP_LOOP_MERGE <= op <= OP_RETURN || op == OP_UNREACHABLE
    ||| op == OP_NO_LINE || OP_MODULE_PROCESSED <= op <= OP_DECORATE_ID
    ||| op == OP_DECORATE_STRING || op == OP_MEMBER_DECORATE_STRING
}

/// The first word of the instruction that may be a pointer operand: behind the result,
/// where it has one, and of a variable its initializer.
pub open spec fn first_operand(op: int) -> int {
    if op == OP_VARIABLE {
        4
    } else if gives_result(op) {
        3
    } else {
        1
    }
}

/// The instruction at `at` uses the descriptor pointer `root` other than to load
/// from it: where the pointer goes from there is not followed.
pub open spec fn lets_root_out(words: Seq<u32>, at: int, root: int) -> bool {
    let op = opcode(words[at]);
    &&& !is_inert(op)
    &&& op != OP_LOAD
    &&& exists|k: int|
        first_operand(op) <= k < word_count(words[at]) && #[trigger] words[at + k] == root
            && !literal_at(words, at, k)
}

/// How the module uses the texels of the storage image at `binding`. Where the image
/// or its descriptor's pointer gets out of sight, nothing is known.
pub open spec fn storage_image_access_spec(
    words: Seq<u32>,
    binding: u32,
) -> Option<StorageImageAccess> {
    if !module_ok(words) || forall|id: int|
        !is_root(words, binding, STORAGE_CLASS_UNIFORM_CONSTANT, id) {
        None
    } else {
        let root = choose|id: int| is_root(words, binding, STORAGE_CLASS_UNIFORM_CONSTANT, id);
        let s = carried(words, Flow::ImageObject, root);
        let reads = exists|at: int| #[trigger] is_inst(words, at) && reads_image(words, at, s);
        let writes = exists|at: int| #[trigger] is_inst(words, at) && writes_image(words, at, s);
        let out = exists|at: int| #[trigger]
            is_inst(words, at) && (lets_image_out(words, at, s) || lets_root_out(words, at, root));
        if exists|id: int|
            is_root(words, binding, STORAGE_CLASS_UNIFORM_CONSTANT, id) && id != root {
            Some(StorageImageAccess::AmbiguousBinding)
        } else if out || (!reads && !writes) {
            Some(StorageImageAccess::Unknown)
        } else if reads && writes {
            Some(StorageImageAccess::ReadWrite)
        } else if reads {
            Some(StorageImageAccess::ReadOnly)
        } else {
            Some(StorageImageAccess::WriteOnly)
        }
    }
}

/// Outcome of looking for the one variable at a binding.
enum Roots {
    Absent,
    One(usize),
    Several,
}

fn find_root(words: &[u32], index: &ModuleIndex, binding: u32, class: u32) -> (r: Roots)
    requires
        module_ok(words@),
        index.describes(words@),
    ensures
        match r {
            Roots::Absent => forall|id: int| !is_root(words@, binding, class, id),
            Roots::One(root) => {
                &&& is_root(words@, binding, class, root as int)
                &&& forall|id: int| is_root(words@, binding, class, id) ==> id == root
            },
            Roots::Several => exists|a: int, b: int|
                a != b && is_root(words@, binding, class, a) && is_root(words@, binding, class, b),
        },
{
    let n: usize = index.bindings.len();
    let mut found: Option<usize> = None;
    let mut id: usize = 0;
    while id < n
        invariant
            n == id_bound(words@),
            id <= n,
            index.describes(words@),
            match found {
                None => forall|k: int| k < id ==> !is_root(words@, binding, class, k),
                Some(root) => root < id && is_root(words@, binding, class, root as int) && forall|
                    k: int,
                |
                    k < id && is_root(words@, binding, class, k) ==> k == root,
            },
        decreases n - id,
    {
        proof {
            lemma_site_within(words@, Site::Binding, id as int);
            lemma_site_within(words@, Site::Variable, id as int);
        }
        assert(words@.len() == words.len());
        let here = match (index.bindings[id], index.variables[id]) {
            (Some(b), Some(v)) => words[b + 3] == binding && words[v + 3] == class,
            _ => false,
        };
        assert(here == is_root(words@, binding, class, id as int));
        if here {
            match found {
                Some(root) => {
                    assert(is_root(words@, binding, class, root as int));
                    return Roots::Several;
                },
                None => {
                    found = Some(id);
                },
            }
        }
        id = id + 1;
    }
    match found {
        Some(root) => Roots::One(root),
        None => Roots::Absent,
    }
}

fn is_marked(table: &Vec<bool>, id: u32) -> (r: bool)
    ensures
        r == marked(table@).contains(id as int),
{
    (id as usize) < table.len() && table[id as usize]
}

fn mentions_marked(words: &[u32], at: usize, first: usize, table: &Vec<bool>) -> (r: bool)
    requires
        fits(words@, at as int),
    ensures
        r == mentions(words@, at as int, first as int, marked(table@)),
{
    let count: usize = (words[at] >> 16) as usize;
    let mut k: usize = first;
    while k < count
        invariant
            fits(words@, at as int),
            count == word_count(words@[at as int]),
            first <= k,
            forall|j: int|
                first <= j < k && j < count ==> !marked(table@).contains(
                    #[trigger] words@[at + j] as int,
                ),
        decreases count - k,
    {
        assert(words@.len() == words.len());
        if is_marked(table, words[at + k]) {
            assert(marked(table@).contains(words@[at + k] as int));
            return true;
        }
        k = k + 1;
    }
    false
}

fn phi_yields(words: &[u32], at: usize, table: &Vec<bool>) -> (r: bool)
    requires
        fits(words@, at as int),
    ensures
        r == exists|k: int|
            0 <= k && 3 + 2 * k < word_count(words@[at as int]) && marked(table@).contains(
                #[trigger] words@[at + 3 + 2 * k] as int,
            ),
{
    let count: usize = (words[at] >> 16) as usize;
    let head: u32 = words[at];
    assert((head >> 16) <= 0xffff) by (bit_vector);
    let mut k: usize = 0;
    while 3 + 2 * k < count
        invariant
            fits(words@, at as int),
            count == word_count(words@[at as int]),
            count <= 0xffff,
            k <= count,
            forall|j: int|
                0 <= j < k ==> !marked(table@).contains(#[trigger] words@[at + 3 + 2 * j] as int),
        decreases count - k,
    {
        assert(words@.len() == words.len());
        if is_marked(table, words[at + (3 + 2 * k)]) {
            assert(marked(table@).contains(words@[at + 3 + 2 * k] as int));
            return true;
        }
        k = k + 1;
    }
    false
}

fn yields_marked(words: &[u32], flow: Flow, root: usize, at: usize, table: &Vec<bool>) -> (r: bool)
    requires
        fits(words@, at as int),
    ensures
        r == yields(words@, flow, root as int, at as int, marked(table@)),
{
    let count: usize = (words[at] >> 16) as usize;
    let head: u32 = words[at];
    assert((head & 0xffff) <= 0xffff) by (bit_vector);
    let op: u16 = (words[at] & 0xffff) as u16;
    if op == OP_COPY_OBJECT {
        count >= 4 && is_marked(table, words[at + 3])
    } else if op == OP_SELECT {
        count >= 6 && (is_marked(table, words[at + 4]) || is_marked(table, words[at + 5]))
    } else if op == OP_PHI {
        count >= 5 && phi_yields(words, at, table)
    } else {
        match flow {
            Flow::BufferPointer => {
                (op == OP_ACCESS_CHAIN || op == OP_IN_BOUNDS_ACCESS_CHAIN || op
                    == OP_PTR_ACCESS_CHAIN || op == OP_IN_BOUNDS_PTR_ACCESS_CHAIN || op
                    == OP_PTR_CAST_TO_GENERIC || op == OP_GENERIC_CAST_TO_PTR || op
                    == OP_GENERIC_CAST_TO_PTR_EXPLICIT) && count >= 4 && is_marked(
                    table,
                    words[at + 3],
                )
            },
            Flow::ImageObject => op == OP_LOAD && count >= 4 && words[at + 3] as usize == root,
        }
    }
}

/// Number of ids not yet marked.
pub open spec fn unmarked(table: Seq<bool>) -> nat
    decreases table.len(),
{
    if table.len() == 0 {
        0
    } else {
        unmarked(table.drop_last()) + if table.last() {
            0nat
        } else {
            1nat
        }
    }
}

proof fn lemma_unmarked_update(table: Seq<bool>, id: int)
    requires
        0 <= id < table.len(),
        !table[id],
    ensures
        unmarked(table.update(id, true)) + 1 == unmarked(table),
    decreases table.len(),
{
    let after = table.update(id, true);
    if id == table.len() - 1 {
        assert(after.drop_last() == table.drop_last());
    } else {
        assert(after.drop_last() == table.drop_last().update(id, true));
        lemma_unmarked_update(table.drop_last(), id);
    }
}

/// Following more values yields no less.
pub proof fn lemma_yields_monotone(
    words: Seq<u32>,
    flow: Flow,
    root: int,
    at: int,
    s: Set<int>,
    t: Set<int>,
)
    requires
        yields(words, flow, root, at, s),
        forall|id: int| s.contains(id) ==> t.contains(id),
    ensures
        yields(words, flow, root, at, t),
{
    if opcode(words[at]) == OP_PHI {
        let k = choose|k: int|
            0 <= k && 3 + 2 * k < word_count(words[at]) && s.contains(
                #[trigger] words[at + 3 + 2 * k] as int,
            );
        assert(t.contains(words[at + 3 + 2 * k] as int));
    }
}

/// Mark every value followed from `root`, by passes over the module until
/// nothing new is found.
fn trace(words: &[u32], flow: Flow, root: usize) -> (table: Vec<bool>)
    requires
        module_ok(words@),
        root < id_bound(words@),
    ensures
        marked(table@) == carried(words@, flow, root as int),
{
    let bound: usize = words[3] as usize;
    let mut table: Vec<bool> = Vec::new();
    while table.len() < bound
        invariant
            table.len() <= bound,
            forall|i: int| 0 <= i < table.len() ==> !#[trigger] table[i],
        decreases bound - table.len(),
    {
        table.push(false);
    }
    match flow {
        Flow::BufferPointer => {
            table[root] = true;
        },
        Flow::ImageObject => {},
    }
    proof {
        lemma_inst_past_header(words@);
    }
    let mut changed = true;
    while changed
        invariant
            module_ok(words@),
            forall|at: int| #[trigger] is_inst(words@, at) ==> HEADER_WORDS <= at < words@.len(),
            bound == id_bound(words@),
            root < bound,
            table.len() == bound,
            flow == Flow::BufferPointer ==> table[root as int],
            forall|id: int|
                #[trigger] marked(table@).contains(id) ==> carries(words@, flow, root as int, id),
            !changed ==> closed_under(words@, flow, root as int, marked(table@)),
        decreases unmarked(table@), changed as int,
    {
        changed = false;
        let ghost start = table@;
        let mut i: usize = HEADER_WORDS;
        while i < words.len()
            invariant
                module_ok(words@),
                HEADER_WORDS <= i <= words.len(),
                reaches(words@, HEADER_WORDS as int, i as int),
                bound == id_bound(words@),
                root < bound,
                table.len() == bound,
                flow == Flow::BufferPointer ==> table[root as int],
                forall|id: int|
                    #[trigger] marked(table@).contains(id) ==> carries(
                        words@,
                        flow,
                        root as int,
                        id,
                    ),
                !changed ==> table@ == start,
                changed ==> unmarked(table@) < unmarked(start),
                !changed ==> forall|at: int|
                    #[trigger] is_inst(words@, at) && at < i && yields(
                        words@,
                        flow,
                        root as int,
                        at,
                        marked(table@),
                    ) && words@[at + 2] < bound ==> marked(table@).contains(words@[at + 2] as int),
            decreases words.len() - i,
        {
            proof {
                lemma_on_walk(words@, i as int);
                lemma_inst_split(words@, i as int);
            }
            let count: usize = (words[i] >> 16) as usize;
            if yields_marked(words, flow, root, i, &table) {
                let result: usize = words[i + 2] as usize;
                if result < bound && !table[result] {
                    let ghost before = table@;
                    table[result] = true;
                    proof {
                        lemma_unmarked_update(before, result as int);
                        assert forall|id: int| #[trigger]
                            marked(table@).contains(id) implies carries(
                            words@,
                            flow,
                            root as int,
                            id,
                        ) by {
                            if id == result {
                                assert forall|s: Set<int>| #[trigger]
                                    closed_under(words@, flow, root as int, s) implies s.contains(
                                    id,
                                ) by {
                                    assert forall|k: int| marked(before).contains(k) implies
                                        s.contains(k) by {
                                        assert(carries(words@, flow, root as int, k));
                                    }
                                    lemma_yields_monotone(
                                        words@,
                                        flow,
                                        root as int,
                                        i as int,
                                        marked(before),
                                        s,
                                    );
                                }
                            } else {
                                assert(marked(before).contains(id));
                            }
                        }
                    }
                    changed = true;
                }
            }
            i = i + count;
        }
    }
    proof {
        assert forall|id: int| carries(words@, flow, root as int, id) implies marked(
            table@,
        ).contains(id) by {}
        assert(marked(table@) =~= carried(words@, flow, root as int));
    }
    table
}

fn writes_marked(words: &[u32], at: usize, table: &Vec<bool>) -> (r: bool)
    requires
        fits(words@, at as int),
    ensures
        r == writes_through(words@, at as int, marked(table@)),
{
    let count: usize = (words[at] >> 16) as usize;
    let head: u32 = words[at];
    assert((head & 0xffff) <= 0xffff) by (bit_vector);
    let op: u16 = (words[at] & 0xffff) as u16;
    if op == OP_STORE || op == OP_COPY_MEMORY || op == OP_COPY_MEMORY_SIZED || op
        == OP_ATOMIC_STORE || op == OP_ATOMIC_FLAG_CLEAR {
        count >= 2 && is_marked(table, words[at + 1])
    } else if (OP_ATOMIC_EXCHANGE <= op && op <= OP_ATOMIC_XOR) || op
        == OP_ATOMIC_FLAG_TEST_AND_SET {
        count >= 4 && is_marked(table, words[at + 3])
    } else {
        false
    }
}

fn lets_marked_pointer_out(words: &[u32], at: usize, table: &Vec<bool>) -> (r: bool)
    requires
        fits(words@, at as int),
    ensures
        r == lets_pointer_out(words@, at as int, marked(table@)),
{
    let count: usize = (words[at] >> 16) as usize;
    let head: u32 = words[at];
    assert((head & 0xffff) <= 0xffff) by (bit_vector);
    let op: u16 = (words[at] & 0xffff) as u16;
    if op == OP_FUNCTION_CALL {
        mentions_marked(words, at, 4, table)
    } else if op == OP_RETURN_VALUE {
        count >= 2 && is_marked(table, words[at + 1])
    } else if op == OP_CONVERT_PTR_TO_U {
        count >= 4 && is_marked(table, words[at + 3])
    } else {
        false
    }
}

/// Whether a storage-buffer descriptor can be written by the module.
///
/// Pointer provenance follows access chains, copies, casts, selects and phis.
/// Stores, copy destinations and atomics make the binding writable. A pointer
/// that is passed, returned or turned into an integer fails closed. `None` where
/// the module cannot be analysed or declares no storage buffer at the binding.
pub fn buffer_access(words: &[u32], wanted_binding: u32) -> (access: Option<BufferAccess>)
    ensures
        access == buffer_access_spec(words@, wanted_binding),
{
    let index = match index_module(words) {
        Some(index) => index,
        None => {
            return None;
        },
    };
    let root: usize = match find_root(words, &index, wanted_binding, STORAGE_CLASS_STORAGE_BUFFER) {
        Roots::Absent => {
            return None;
        },
        Roots::Several => {
            return Some(BufferAccess::AmbiguousBinding);
        },
        Roots::One(root) => root,
    };
    let table = trace(words, Flow::BufferPointer, root);
    proof {
        lemma_inst_past_header(words@);
    }
    let mut escapes = false;
    let mut i: usize = HEADER_WORDS;
    while i < words.len()
        invariant
            module_ok(words@),
            HEADER_WORDS <= i <= words.len(),
            reaches(words@, HEADER_WORDS as int, i as int),
            marked(table@) == carried(words@, Flow::BufferPointer, root as int),
            is_root(words@, wanted_binding, STORAGE_CLASS_STORAGE_BUFFER, root as int),
            forall|id: int|
                is_root(words@, wanted_binding, STORAGE_CLASS_STORAGE_BUFFER, id) ==> id == root,
            forall|at: int|
                #[trigger] is_inst(words@, at) && at < i ==> !writes_through(
                    words@,
                    at,
                    marked(table@),
                ),
            escapes == exists|at: int| #[trigger]
                is_inst(words@, at) && at < i && lets_pointer_out(words@, at, marked(table@)),
        decreases words.len() - i,
    {
        proof {
            lemma_on_walk(words@, i as int);
            lemma_inst_split(words@, i as int);
        }
        let count: usize = (words[i] >> 16) as usize;
        if writes_marked(words, i, &table) {
            return Some(BufferAccess::Writable);
        }
        if lets_marked_pointer_out(words, i, &table) {
            escapes = true;
        }
        i = i + count;
    }
    if escapes {
        Some(BufferAccess::PointerEscape)
    } else {
        Some(BufferAccess::ReadOnly)
    }
}

fn reads_marked_image(words: &[u32], at: usize, table: &Vec<bool>) -> (r: bool)
    requires
        fits(words@, at as int),
    ensures
        r == reads_image(words@, at as int, marked(table@)),
{
    let head: u32 = words[at];
    assert((head & 0xffff) <= 0xffff) by (bit_vector);
    (head & 0xffff) as u16 == OP_IMAGE_READ && (head >> 16) >= 5 && is_marked(table, words[at + 3])
}

fn writes_marked_image(words: &[u32], at: usize, table: &Vec<bool>) -> (r: bool)
    requires
        fits(words@, at as int),
    ensures
        r == writes_image(words@, at as int, marked(table@)),
{
    let head: u32 = words[at];
    assert((head & 0xffff) <= 0xffff) by (bit_vector);
    (head & 0xffff) as u16 == OP_IMAGE_WRITE && (head >> 16) >= 4 && is_marked(table, words[at + 1])
}

fn lets_marked_image_out(words: &[u32], at: usize, table: &Vec<bool>) -> (r: bool)
    requires
        fits(words@, at as int),
    ensures
        r == lets_image_out(words@, at as int, marked(table@)),
{
    let head: u32 = words[at];
    assert((head & 0xffff) <= 0xffff) by (bit_vector);
    let op: u16 = (head & 0xffff) as u16;
    !reads_marked_image(words, at, table) && !writes_marked_image(words, at, table) && !(
    OP_IMAGE_QUERY_FORMAT <= op && op <= OP_IMAGE_QUERY_SAMPLES) && op != OP_LOAD && op
        != OP_COPY_OBJECT && op != OP_SELECT && op != OP_PHI && mentions_marked(words, at, 1, table)
}

fn inert(op: u16) -> (r: bool)
    ensures
        r == is_inert(op as int),
{
    op <= OP_LINE || op == OP_EXTENSION || op == OP_EXT_INST_IMPORT || (OP_MEMORY_MODEL <= op && op
        <= OP_CAPABILITY) || (OP_TYPE_VOID <= op && op <= OP_CONSTANT) || (OP_CONSTANT_SAMPLER
        <= op && op <= OP_SPEC_CONSTANT) || (OP_FUNCTION <= op && op <= OP_FUNCTION_END) || (
    OP_DECORATE <= op && op <= OP_GROUP_MEMBER_DECORATE) || (OP_LOOP_MERGE <= op && op <= OP_RETURN)
        || op == OP_UNREACHABLE || op == OP_NO_LINE || (OP_MODULE_PROCESSED <= op && op
        <= OP_DECORATE_ID) || op == OP_DECORATE_STRING || op == OP_MEMBER_DECORATE_STRING
}

fn uses_root(words: &[u32], at: usize, root: usize) -> (r: bool)
    requires
        fits(words@, at as int),
    ensures
        r == lets_root_out(words@, at as int, root as int),
{
    let head: u32 = words[at];
    assert((head & 0xffff) <= 0xffff) by (bit_vector);
    let op: u16 = (head & 0xffff) as u16;
    let count: usize = (head >> 16) as usize;
    if inert(op) || op == OP_LOAD {
        return false;
    }
    let mut k: usize = if op == OP_VARIABLE {
        4
    } else if has_result(op) {
        3
    } else {
        1
    };
    while k < count
        invariant
            fits(words@, at as int),
            op == opcode(words@[at as int]),
            !is_inert(op as int),
            op != OP_LOAD,
            count == word_count(words@[at as int]),
            1 <= first_operand(op as int) <= k,
            forall|j: int|
                first_operand(op as int) <= j < k ==> #[trigger] words@[at + j] != root
                    || literal_at(words@, at as int, j),
        decreases count - k,
    {
        assert(words@.len() == words.len());
        if words[at + k] as usize == root && !find_literal(words, at, k) {
            assert(words@[at + k] == root);
            return true;
        }
        k = k + 1;
    }
    false
}

/// Whether a storage image consumes its contents from before the dispatch.
///
/// The image is followed from the loads of its variable through the operations
/// that preserve its identity. Texel reads and writes give the access; queries
/// consume no texels; anything else, of the image or of the variable's pointer,
/// fails closed as [`StorageImageAccess::Unknown`].
pub fn storage_image_access(words: &[u32], wanted_binding: u32) -> (access: Option<
    StorageImageAccess,
>)
    ensures
        access == storage_image_access_spec(words@, wanted_binding),
{
    let index = match index_module(words) {
        Some(index) => index,
        None => {
            return None;
        },
    };
    let root: usize = match find_root(
        words,
        &index,
        wanted_binding,
        STORAGE_CLASS_UNIFORM_CONSTANT,
    ) {
        Roots::Absent => {
            return None;
        },
        Roots::Several => {
            return Some(StorageImageAccess::AmbiguousBinding);
        },
        Roots::One(root) => root,
    };
    let table = trace(words, Flow::ImageObject, root);
    proof {
        lemma_inst_past_header(words@);
    }
    let mut read = false;
    let mut write = false;
    let mut unknown = false;
    let mut i: usize = HEADER_WORDS;
    while i < words.len()
        invariant
            module_ok(words@),
            HEADER_WORDS <= i <= words.len(),
            reaches(words@, HEADER_WORDS as int, i as int),
            read == exists|at: int| #[trigger]
                is_inst(words@, at) && at < i && reads_image(words@, at, marked(table@)),
            write == exists|at: int| #[trigger]
                is_inst(words@, at) && at < i && writes_image(words@, at, marked(table@)),
            unknown == exists|at: int| #[trigger]
                is_inst(words@, at) && at < i && (lets_image_out(words@, at, marked(table@))
                    || lets_root_out(words@, at, root as int)),
        decreases words.len() - i,
    {
        proof {
            lemma_on_walk(words@, i as int);
            lemma_inst_split(words@, i as int);
        }
        let count: usize = (words[i] >> 16) as usize;
        if reads_marked_image(words, i, &table) {
            read = true;
        }
        if writes_marked_image(words, i, &table) {
            write = true;
        }
        if lets_marked_image_out(words, i, &table) || uses_root(words, i, root) {
            unknown = true;
        }
        i = i + count;
    }
    if unknown || (!read && !write) {
        Some(StorageImageAccess::Unknown)
    } else if read && write {
        Some(StorageImageAccess::ReadWrite)
    } else if read {
        Some(StorageImageAccess::ReadOnly)
    } else {
        Some(StorageImageAccess::WriteOnly)
    }
}

} // verus!
