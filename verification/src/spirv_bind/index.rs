//! Where a module decorates, types and declares its ids.

use vstd::prelude::*;
use crate::spirv_bind::stream::{
    HEADER_WORDS, fits, id_bound, is_inst, lemma_inst_past_header, lemma_inst_split, lemma_on_walk,
    lemma_reaches_ge, module_ok, opcode, reaches, stream_ok, word_count,
};

verus! {

pub const OP_TYPE_IMAGE: u16 = 25;
pub const OP_TYPE_POINTER: u16 = 32;
pub const OP_FUNCTION: u16 = 54;
pub const OP_VARIABLE: u16 = 59;
pub const OP_DECORATE: u16 = 71;
/// SPIR-V `Decoration Binding`.
pub const DECORATION_BINDING: u32 = 33;

/// What an instruction can say of an id, as far as binding analysis goes.
pub enum Site {
    /// `OpDecorate id Binding n`.
    Binding,
    /// `OpTypeImage` with its format operand.
    Image,
    /// `OpTypePointer`.
    Pointer,
    /// `OpVariable`.
    Variable,
}

/// The instruction at `at` is of the kind `site`, whatever id it speaks of.
pub open spec fn is_site(words: Seq<u32>, at: int, site: Site) -> bool {
    let op = opcode(words[at]);
    let count = word_count(words[at]);
    match site {
        Site::Binding => op == OP_DECORATE && count >= 4 && words[at + 2] == DECORATION_BINDING,
        Site::Image => op == OP_TYPE_IMAGE && count >= 9,
        Site::Pointer => op == OP_TYPE_POINTER && count >= 4,
        Site::Variable => op == OP_VARIABLE && count >= 4,
    }
}

/// The id that the instruction at `at` speaks of.
pub open spec fn site_id(words: Seq<u32>, at: int, site: Site) -> int {
    match site {
        Site::Variable => words[at + 2] as int,
        _ => words[at + 1] as int,
    }
}

/// The instruction at `at` says `site` of `id`.
pub open spec fn declares(words: Seq<u32>, at: int, site: Site, id: int) -> bool {
    is_inst(words, at) && is_site(words, at, site) && site_id(words, at, site) == id
}

/// `at` is the last instruction before `end` that says `site` of `id`.
pub open spec fn is_last_before(
    words: Seq<u32>,
    site: Site,
    id: int,
    end: int,
    at: int,
) -> bool {
    &&& declares(words, at, site, id)
    &&& at < end
    &&& forall|k: int| #[trigger] declares(words, k, site, id) && k < end ==> k <= at
}

/// The last instruction that says `site` of `id`: a later one replaces an earlier one.
pub open spec fn site_of(words: Seq<u32>, site: Site, id: int) -> Option<int> {
    if exists|at: int| is_last_before(words, site, id, words.len() as int, at) {
        Some(choose|at: int| is_last_before(words, site, id, words.len() as int, at))
    } else {
        None
    }
}

/// The binding number decorated on `id`.
pub open spec fn binding_of(words: Seq<u32>, id: int) -> Option<u32> {
    match site_of(words, Site::Binding, id) {
        Some(at) => Some(words[at + 3]),
        None => None,
    }
}

/// The storage class of variable `id`.
pub open spec fn storage_class_of(words: Seq<u32>, id: int) -> Option<u32> {
    match site_of(words, Site::Variable, id) {
        Some(at) => Some(words[at + 3]),
        None => None,
    }
}

/// The type id of variable `id`.
pub open spec fn type_of_variable(words: Seq<u32>, id: int) -> Option<u32> {
    match site_of(words, Site::Variable, id) {
        Some(at) => Some(words[at + 1]),
        None => None,
    }
}

/// The type id that pointer type `id` points to.
pub open spec fn pointee_of(words: Seq<u32>, id: int) -> Option<u32> {
    match site_of(words, Site::Pointer, id) {
        Some(at) => Some(words[at + 3]),
        None => None,
    }
}

/// What a table cell holds once the walk has passed every instruction before `end`.
pub open spec fn cell_ok(
    words: Seq<u32>,
    site: Site,
    id: int,
    end: int,
    cell: Option<usize>,
) -> bool {
    match cell {
        Some(at) => is_last_before(words, site, id, end, at as int),
        None => forall|k: int| #[trigger] declares(words, k, site, id) ==> k >= end,
    }
}

/// Every cell of a table is right up to `end`.
pub open spec fn table_ok(
    words: Seq<u32>,
    site: Site,
    end: int,
    table: Seq<Option<usize>>,
) -> bool {
    forall|id: int| 0 <= id < table.len() ==> cell_ok(words, site, id, end, #[trigger] table[id])
}

/// The declaring instruction of every id below the module's bound, per kind.
pub struct ModuleIndex {
    pub bindings: Vec<Option<usize>>,
    pub images: Vec<Option<usize>>,
    pub pointers: Vec<Option<usize>>,
    pub variables: Vec<Option<usize>>,
}

/// A table cell as a mathematical option.
pub open spec fn cell(c: Option<usize>) -> Option<int> {
    match c {
        Some(at) => Some(at as int),
        None => None,
    }
}

impl ModuleIndex {
    /// Each table gives, for every id below the bound, the module's declaring instruction.
    pub open spec fn describes(&self, words: Seq<u32>) -> bool {
        let n = id_bound(words);
        &&& self.bindings.len() == n
        &&& self.images.len() == n
        &&& self.pointers.len() == n
        &&& self.variables.len() == n
        &&& forall|id: int|
            0 <= id < n ==> cell(#[trigger] self.bindings[id]) == site_of(words, Site::Binding, id)
        &&& forall|id: int|
            0 <= id < n ==> cell(#[trigger] self.images[id]) == site_of(words, Site::Image, id)
        &&& forall|id: int|
            0 <= id < n ==> cell(#[trigger] self.pointers[id]) == site_of(words, Site::Pointer, id)
        &&& forall|id: int|
            0 <= id < n ==> cell(#[trigger] self.variables[id]) == site_of(
                words,
                Site::Variable,
                id,
            )
    }
}

pub proof fn lemma_site_of_is_last(words: Seq<u32>, site: Site, id: int, at: int)
    requires
        is_last_before(words, site, id, words.len() as int, at),
    ensures
        site_of(words, site, id) == Some(at),
{
    let chosen = choose|k: int| is_last_before(words, site, id, words.len() as int, k);
    assert(is_last_before(words, site, id, words.len() as int, chosen));
    assert(declares(words, chosen, site, id));
    assert(declares(words, at, site, id));
}

/// A found site is an instruction that lies within the words.
pub proof fn lemma_site_within(words: Seq<u32>, site: Site, id: int)
    ensures
        match site_of(words, site, id) {
            Some(at) => {
                &&& declares(words, at, site, id)
                &&& HEADER_WORDS <= at
                &&& at + word_count(words[at]) <= words.len()
                &&& forall|k: int| #[trigger] declares(words, k, site, id) ==> k <= at
            },
            None => forall|k: int| !#[trigger] declares(words, k, site, id),
        },
{
    match site_of(words, site, id) {
        Some(at) => {
            assert(is_last_before(words, site, id, words.len() as int, at));
            lemma_reaches_ge(words, HEADER_WORDS as int, at);
        },
        None => {
            if exists|k: int| declares(words, k, site, id) {
                let k = choose|k: int| declares(words, k, site, id);
                lemma_some_last(words, site, id, k);
            }
        },
    }
}

/// Where some instruction declares `id`, one of them is last.
proof fn lemma_some_last(words: Seq<u32>, site: Site, id: int, k: int)
    requires
        declares(words, k, site, id),
    ensures
        exists|at: int| is_last_before(words, site, id, words.len() as int, at),
    decreases words.len() - k,
{
    if exists|m: int| declares(words, m, site, id) && m > k {
        let m = choose|m: int| declares(words, m, site, id) && m > k;
        lemma_some_last(words, site, id, m);
    } else {
        assert(is_last_before(words, site, id, words.len() as int, k));
    }
}

proof fn lemma_full_table(words: Seq<u32>, site: Site, table: Seq<Option<usize>>)
    requires
        table_ok(words, site, words.len() as int, table),
    ensures
        forall|id: int|
            0 <= id < table.len() ==> cell(#[trigger] table[id]) == site_of(words, site, id),
{
    assert forall|id: int| 0 <= id < table.len() implies cell(#[trigger] table[id]) == site_of(
        words,
        site,
        id,
    ) by {
        assert(cell_ok(words, site, id, words.len() as int, table[id]));
        match table[id] {
            Some(at) => lemma_site_of_is_last(words, site, id, at as int),
            None => lemma_site_within(words, site, id),
        }
    }
}

/// Passing one instruction carries a table on: its own cell is replaced if it declares.
proof fn lemma_table_step(
    words: Seq<u32>,
    site: Site,
    at: int,
    before: Seq<Option<usize>>,
    after: Seq<Option<usize>>,
)
    requires
        is_inst(words, at),
        at <= usize::MAX,
        table_ok(words, site, at, before),
        after == (if is_site(words, at, site) && site_id(words, at, site) < before.len() {
            before.update(site_id(words, at, site), Some(at as usize))
        } else {
            before
        }),
    ensures
        table_ok(words, site, at + word_count(words[at]), after),
{
    lemma_inst_split(words, at);
    let end = at + word_count(words[at]);
    assert forall|id: int| 0 <= id < after.len() implies cell_ok(
        words,
        site,
        id,
        end,
        #[trigger] after[id],
    ) by {
        assert(cell_ok(words, site, id, at, before[id]));
        if is_site(words, at, site) && site_id(words, at, site) == id {
            assert(declares(words, at, site, id));
            assert(is_last_before(words, site, id, end, at));
        } else {
            assert(!declares(words, at, site, id));
            match before[id] {
                Some(k) => {
                    assert(is_last_before(words, site, id, end, k as int));
                },
                None => {},
            }
        }
    }
}

fn record(table: &mut Vec<Option<usize>>, id: u32, at: usize)
    ensures
        final(table)@ == if id < old(table).len() {
            old(table)@.update(id as int, Some(at))
        } else {
            old(table)@
        },
{
    let i: usize = id as usize;
    if i < table.len() {
        table[i] = Some(at);
    }
}

fn empty_table(n: usize) -> (table: Vec<Option<usize>>)
    ensures
        table.len() == n,
        forall|i: int| 0 <= i < n ==> #[trigger] table[i] == None::<usize>,
{
    let mut table: Vec<Option<usize>> = Vec::new();
    while table.len() < n
        invariant
            table.len() <= n,
            forall|i: int| 0 <= i < table.len() ==> #[trigger] table[i] == None::<usize>,
        decreases n - table.len(),
    {
        table.push(None);
    }
    table
}

/// Index the module, or `None` where it cannot be analysed.
pub fn index_module(words: &[u32]) -> (index: Option<ModuleIndex>)
    ensures
        index is Some <==> module_ok(words@),
        index matches Some(index) ==> index.describes(words@),
{
    if words.len() < HEADER_WORDS {
        return None;
    }
    let bound: usize = words[3] as usize;
    if bound == 0 {
        return None;
    }
    let mut bindings = empty_table(bound);
    let mut images = empty_table(bound);
    let mut pointers = empty_table(bound);
    let mut variables = empty_table(bound);
    let mut i: usize = HEADER_WORDS;
    proof {
        lemma_inst_past_header(words@);
    }
    while i < words.len()
        invariant
            HEADER_WORDS <= i <= words.len(),
            bound == id_bound(words@),
            reaches(words@, HEADER_WORDS as int, i as int),
            bindings.len() == bound,
            images.len() == bound,
            pointers.len() == bound,
            variables.len() == bound,
            table_ok(words@, Site::Binding, i as int, bindings@),
            table_ok(words@, Site::Image, i as int, images@),
            table_ok(words@, Site::Pointer, i as int, pointers@),
            table_ok(words@, Site::Variable, i as int, variables@),
        decreases words.len() - i,
    {
        let count: usize = (words[i] >> 16) as usize;
        let op: u16 = (words[i] & 0xffff) as u16;
        if count == 0 || count > words.len() - i {
            proof {
                assert(!fits(words@, i as int));
                if stream_ok(words@) {
                    lemma_on_walk(words@, i as int);
                }
            }
            return None;
        }
        let ghost (b0, i0, p0, v0) = (bindings@, images@, pointers@, variables@);
        let head: u32 = words[i];
        assert((head & 0xffff) <= 0xffff) by (bit_vector);
        assert(is_inst(words@, i as int));
        if op == OP_DECORATE && count >= 4 && words[i + 2] == DECORATION_BINDING {
            record(&mut bindings, words[i + 1], i);
        } else if op == OP_TYPE_IMAGE && count >= 9 {
            record(&mut images, words[i + 1], i);
        } else if op == OP_TYPE_POINTER && count >= 4 {
            record(&mut pointers, words[i + 1], i);
        } else if op == OP_VARIABLE && count >= 4 {
            record(&mut variables, words[i + 2], i);
        }
        proof {
            lemma_inst_split(words@, i as int);
            lemma_table_step(words@, Site::Binding, i as int, b0, bindings@);
            lemma_table_step(words@, Site::Image, i as int, i0, images@);
            lemma_table_step(words@, Site::Pointer, i as int, p0, pointers@);
            lemma_table_step(words@, Site::Variable, i as int, v0, variables@);
        }
        i = i + count;
    }
    proof {
        lemma_full_table(words@, Site::Binding, bindings@);
        lemma_full_table(words@, Site::Image, images@);
        lemma_full_table(words@, Site::Pointer, pointers@);
        lemma_full_table(words@, Site::Variable, variables@);
    }
    Some(ModuleIndex { bindings, images, pointers, variables })
}

} // verus!
