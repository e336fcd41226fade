//! Specializing storage-image formats from the bound resources, by binding.
//!
//! Metal carries the concrete pixel format on the bound texture rather than in
//! the function type, while SPIR-V wants it in `OpTypeImage`. Only that operand is
//! patched. Where several bindings share one image type but resolve to different
//! formats, the image and pointer types are cloned and the variables retargeted.

use vstd::prelude::*;
use vstd::slice::slice_to_vec;
use crate::spirv_bind::format::{
    ImageFormat, find_image, image_format, image_type_of_variable,
};
use crate::spirv_bind::index::{
    ModuleIndex, OP_FUNCTION, OP_VARIABLE, Site, binding_of, index_module, is_site,
    lemma_site_within, site_of, type_of_variable,
};
use crate::spirv_bind::edit::{editable, spliced};
use crate::spirv_bind::retype::{Rewrite, patched, ready, retype};
use crate::spirv_bind::specialize_laws::{law_consistent_requests_succeed, lemma_insertion_point};
use crate::spirv_bind::specialize_model::{
    ImageFormatSpecializeError, bound_at, cloned_variables, count_changed, first_request_error,
    first_unread, fresh_ids, ids_within, insertion_point, is_anchor, is_changed, is_cloned,
    is_first_anchor, is_retyped, is_rewritten, keep_format, points_to_clone, request_error, requested_format,
    requests_consistent, wanted_format,
};
use crate::spirv_bind::stream::{
    HEADER_WORDS, id_bound, is_inst, lemma_inst_past_header, lemma_inst_split, lemma_on_walk,
    module_ok, reaches,
};

verus! {

/// The variable that a request for `binding` is about, or why there is none.
fn resolve_request(words: &[u32], index: &ModuleIndex, binding: u32) -> (r: Result<
    usize,
    ImageFormatSpecializeError,
>)
    requires
        module_ok(words@),
        index.describes(words@),
    ensures
        match r {
            Ok(v) => {
                &&& request_error(words@, binding) is None
                &&& bound_at(words@, binding, v as int)
                &&& forall|k: int| bound_at(words@, binding, k) ==> k == v
                &&& image_type_of_variable(words@, v as int) is Some
            },
            Err(error) => request_error(words@, binding) == Some(error),
        },
{
    let n: usize = index.bindings.len();
    let mut found: Option<usize> = None;
    let mut id: usize = 0;
    while id < n
        invariant
            module_ok(words@),
            index.describes(words@),
            n == id_bound(words@),
            id <= n,
            match found {
                None => forall|k: int| k < id ==> !bound_at(words@, binding, k),
                Some(v) => v < id && bound_at(words@, binding, v as int) && forall|k: int|
                    k < id && bound_at(words@, binding, k) ==> k == v,
            },
        decreases n - id,
    {
        proof {
            lemma_site_within(words@, Site::Binding, id as int);
        }
        assert(words@.len() == words.len());
        let here = match index.bindings[id] {
            Some(at) => words[at + 3] == binding,
            None => false,
        };
        assert(here == bound_at(words@, binding, id as int));
        if here {
            match found {
                Some(v) => {
                    assert(bound_at(words@, binding, v as int));
                    return Err(ImageFormatSpecializeError::AmbiguousBinding(binding));
                },
                None => {
                    found = Some(id);
                },
            }
        }
        id = id + 1;
    }
    match found {
        None => Err(ImageFormatSpecializeError::MissingBinding(binding)),
        Some(v) => match find_image(words, index, v) {
            Some(_) => Ok(v),
            None => Err(ImageFormatSpecializeError::MissingBinding(binding)),
        },
    }
}

/// The format asked for each id, or the first request's reason not to go ahead.
fn resolve_requests(
    words: &[u32],
    index: &ModuleIndex,
    requested: &[(u32, ImageFormat)],
) -> (r: Result<Vec<Option<ImageFormat>>, ImageFormatSpecializeError>)
    requires
        module_ok(words@),
        index.describes(words@),
    ensures
        match r {
            Ok(plan) => {
                &&& first_request_error(words@, requested@) is None
                &&& plan.len() == id_bound(words@)
                &&& forall|v: int|
                    0 <= v < plan.len() ==> #[trigger] plan[v] == requested_format(
                        words@,
                        requested@,
                        v,
                    )
                &&& forall|v: int|
                    0 <= v < plan.len() && #[trigger] plan[v] is Some ==> image_type_of_variable(
                        words@,
                        v,
                    ) is Some
            },
            Err(error) => first_request_error(words@, requested@) == Some(error),
        },
{
    let n: usize = index.bindings.len();
    let mut plan: Vec<Option<ImageFormat>> = Vec::new();
    while plan.len() < n
        invariant
            plan.len() <= n,
            forall|i: int| 0 <= i < plan.len() ==> #[trigger] plan[i] == None::<ImageFormat>,
        decreases n - plan.len(),
    {
        plan.push(None);
    }
    let mut r: usize = 0;
    assert(requested@.take(0) == Seq::<(u32, ImageFormat)>::empty());
    while r < requested.len()
        invariant
            module_ok(words@),
            index.describes(words@),
            n == id_bound(words@),
            plan.len() == n,
            r <= requested.len(),
            first_request_error(words@, requested@.take(r as int)) is None,
            forall|v: int|
                0 <= v < plan.len() ==> #[trigger] plan[v] == requested_format(
                    words@,
                    requested@.take(r as int),
                    v,
                ),
            forall|v: int|
                0 <= v < plan.len() && #[trigger] plan[v] is Some ==> image_type_of_variable(
                    words@,
                    v,
                ) is Some,
        decreases requested.len() - r,
    {
        let (binding, format) = requested[r];
        let ghost done = requested@.take(r as int);
        let ghost next = requested@.take(r + 1);
        assert(next.drop_last() == done);
        assert(next.last() == requested@[r as int]);
        match resolve_request(words, index, binding) {
            Ok(v) => {
                let ghost before = plan@;
                plan[v] = Some(format);
                proof {
                    assert forall|k: int| 0 <= k < plan.len() implies #[trigger] plan[k]
                        == requested_format(words@, next, k) by {
                        assert(before[k] == requested_format(words@, done, k));
                        if k == v {
                            assert(binding_of(words@, k) == Some(binding));
                        } else {
                            assert(!bound_at(words@, binding, k));
                        }
                    }
                }
            },
            Err(error) => {
                proof {
                    lemma_error_stays(words@, requested@, r + 1);
                }
                return Err(error);
            },
        }
        r = r + 1;
    }
    assert(requested@.take(r as int) == requested@);
    Ok(plan)
}

/// A prefix's error is the whole list's.
proof fn lemma_error_stays(words: Seq<u32>, requested: Seq<(u32, ImageFormat)>, r: int)
    requires
        0 <= r <= requested.len(),
        first_request_error(words, requested.take(r)) is Some,
    ensures
        first_request_error(words, requested) == first_request_error(words, requested.take(r)),
    decreases requested.len() - r,
{
    if r == requested.len() {
        assert(requested.take(r) == requested);
    } else {
        assert(requested.take(r + 1).drop_last() == requested.take(r));
        lemma_error_stays(words, requested, r + 1);
    }
}

/// The image type behind each id that is an image variable.
fn image_types(words: &[u32], index: &ModuleIndex) -> (types: Vec<Option<usize>>)
    requires
        module_ok(words@),
        index.describes(words@),
    ensures
        types.len() == id_bound(words@),
        types_ok(words@, types@),
{
    let n: usize = index.bindings.len();
    let mut types: Vec<Option<usize>> = Vec::new();
    while types.len() < n
        invariant
            module_ok(words@),
            index.describes(words@),
            n == id_bound(words@),
            types.len() <= n,
            types_ok(words@, types@),
        decreases n - types.len(),
    {
        let v: usize = types.len();
        let image = find_image(words, index, v);
        types.push(image);
    }
    types
}

/// The table holds each variable's image type.
pub open spec fn types_ok(words: Seq<u32>, types: Seq<Option<usize>>) -> bool {
    forall|v: int|
        0 <= v < types.len() ==> match #[trigger] types[v] {
            Some(t) => t < id_bound(words) && image_type_of_variable(words, v) is Some
                && image_type_of_variable(words, v)->0 == t,
            None => image_type_of_variable(words, v) is None,
        }
}

/// The table holds each id's requested format.
pub open spec fn plan_ok(
    words: Seq<u32>,
    requested: Seq<(u32, ImageFormat)>,
    plan: Seq<Option<ImageFormat>>,
) -> bool {
    forall|v: int|
        0 <= v < plan.len() ==> #[trigger] plan[v] == requested_format(words, requested, v)
}

/// How many variables are asked a format other than their own.
fn changed_count(
    words: &[u32],
    index: &ModuleIndex,
    types: &Vec<Option<usize>>,
    plan: &Vec<Option<ImageFormat>>,
    requested: &[(u32, ImageFormat)],
) -> (changed: usize)
    requires
        module_ok(words@),
        index.describes(words@),
        types.len() == id_bound(words@),
        plan.len() == id_bound(words@),
        types_ok(words@, types@),
        plan_ok(words@, requested@, plan@),
    ensures
        changed == count_changed(words@, requested@, id_bound(words@)),
{
    let n: usize = plan.len();
    let mut changed: usize = 0;
    let mut v: usize = 0;
    while v < n
        invariant
            module_ok(words@),
            index.describes(words@),
            n == id_bound(words@),
            types.len() == n,
            plan.len() == n,
            types_ok(words@, types@),
            plan_ok(words@, requested@, plan@),
            v <= n,
            changed <= v,
            changed == count_changed(words@, requested@, v as int),
        decreases n - v,
    {
        assert(words@.len() == words.len());
        let differs = match (plan[v], types[v]) {
            (Some(format), Some(t)) => {
                proof {
                    lemma_site_within(words@, Site::Image, t as int);
                }
                match index.images[t] {
                    Some(at) => format != ImageFormat::from_raw(words[at + 8]),
                    None => false,
                }
            },
            _ => false,
        };
        assert(plan[v as int] == requested_format(words@, requested@, v as int));
        assert(differs == is_changed(words@, requested@, v as int));
        if differs {
            changed = changed + 1;
        }
        v = v + 1;
    }
    changed
}

/// The first variable or function, or the end.
fn find_insertion_point(words: &[u32]) -> (p: usize)
    requires
        module_ok(words@),
    ensures
        p == insertion_point(words@),
        HEADER_WORDS <= p <= words.len(),
        reaches(words@, HEADER_WORDS as int, p as int),
{
    proof {
        lemma_inst_past_header(words@);
    }
    let mut i: usize = HEADER_WORDS;
    while i < words.len()
        invariant
            module_ok(words@),
            HEADER_WORDS <= i <= words.len(),
            reaches(words@, HEADER_WORDS as int, i as int),
            forall|k: int| is_anchor(words@, k) ==> k >= i,
        decreases words.len() - i,
    {
        proof {
            lemma_on_walk(words@, i as int);
            lemma_inst_split(words@, i as int);
        }
        let head: u32 = words[i];
        assert((head & 0xffff) <= 0xffff) by (bit_vector);
        let count: usize = (head >> 16) as usize;
        let op: u16 = (head & 0xffff) as u16;
        if (op == OP_VARIABLE && count >= 4) || op == OP_FUNCTION {
            assert(is_first_anchor(words@, i as int));
            return i;
        }
        assert(!is_anchor(words@, i as int));
        i = i + count;
    }
    proof {
        if exists|at: int| is_first_anchor(words@, at) {
            let at = choose|at: int| is_first_anchor(words@, at);
            assert(is_anchor(words@, at));
        }
    }
    i
}

/// `words` with `block` put in before position `p`.
fn splice(words: &Vec<u32>, p: usize, block: &Vec<u32>) -> (out: Vec<u32>)
    requires
        p <= words.len(),
    ensures
        out@ == spliced(words@, p as int, block@),
{
    let mut out: Vec<u32> = Vec::new();
    let mut i: usize = 0;
    while i < p
        invariant
            i <= p <= words.len(),
            out@ == words@.subrange(0, i as int),
        decreases p - i,
    {
        out.push(words[i]);
        i = i + 1;
        assert(out@ =~= words@.subrange(0, i as int));
    }
    let mut j: usize = 0;
    while j < block.len()
        invariant
            p <= words.len(),
            j <= block.len(),
            out@ == words@.subrange(0, p as int) + block@.subrange(0, j as int),
        decreases block.len() - j,
    {
        out.push(block[j]);
        j = j + 1;
        assert(out@ =~= words@.subrange(0, p as int) + block@.subrange(0, j as int));
    }
    assert(block@.subrange(0, j as int) =~= block@);
    while i < words.len()
        invariant
            p <= i <= words.len(),
            out@ == words@.subrange(0, p as int) + block@ + words@.subrange(p as int, i as int),
        decreases words.len() - i,
    {
        out.push(words[i]);
        i = i + 1;
        assert(out@ =~= words@.subrange(0, p as int) + block@ + words@.subrange(
            p as int,
            i as int,
        ));
    }
    out
}

/// The rewritten and spliced words are what specialization asks for.
proof fn lemma_spliced_is_retyped(
    origin: Seq<u32>,
    requested: Seq<(u32, ImageFormat)>,
    rewrite: Rewrite,
    after: Seq<u32>,
)
    requires
        ready(origin, requested),
        rewrite.inv(origin, requested),
        patched(rewrite.words@, origin, requested, id_bound(origin)),
        rewrite.done@ == cloned_variables(origin, requested),
        rewrite.next == id_bound(origin) + fresh_ids(origin, requested),
        after == spliced(rewrite.words@, insertion_point(origin), rewrite.block@).update(
            3,
            rewrite.next,
        ),
    ensures
        is_retyped(origin, requested, after),
{
    let p = insertion_point(origin);
    lemma_insertion_point(origin);
    lemma_inst_past_header(origin);
    let grown = after.len() - origin.len();
    let block = after.subrange(p, p + grown);
    let kept = after.subrange(0, p) + after.subrange(p + grown, after.len() as int);
    assert(grown == rewrite.block@.len());
    assert(block =~= rewrite.block@);
    assert(!editable(origin, 3)) by {
        if editable(origin, 3) {
            let a = choose|a: int| #[trigger]
                is_inst(origin, a) && ((is_site(origin, a, Site::Image) && 3 == a + 8) || (is_site(
                    origin,
                    a,
                    Site::Variable,
                ) && 3 == a + 1));
        }
    }
    assert(kept =~= rewrite.words@.update(3, rewrite.next));
    assert(kept.update(3, origin[3]) =~= rewrite.words@);
    assert forall|k: int|
        0 <= k < origin.len() && k != 3 && !#[trigger] is_rewritten(origin, requested, k) implies
        kept[k] == origin[k] by {
        assert(rewrite.words@[k] == origin[k]);
    }
    assert forall|t: int|
        #![trigger site_of(origin, Site::Image, t)]
        0 <= t < id_bound(origin) && site_of(origin, Site::Image, t) is Some implies kept[site_of(
        origin,
        Site::Image,
        t,
    )->0 + 8] == keep_format(origin, requested, t).to_raw() by {
        lemma_site_within(origin, Site::Image, t);
    }
    assert forall|v: int|
        #![trigger site_of(origin, Site::Variable, v)]
        site_of(origin, Site::Variable, v) is Some implies kept[site_of(
        origin,
        Site::Variable,
        v,
    )->0 + 1] == rewrite.words@[site_of(origin, Site::Variable, v)->0 + 1] by {
        lemma_site_within(origin, Site::Variable, v);
    }
    assert forall|v: int|
        #![trigger site_of(origin, Site::Variable, v)]
        is_cloned(origin, requested, v) implies points_to_clone(
        block,
        origin,
        kept[site_of(origin, Site::Variable, v)->0 + 1] as int,
        type_of_variable(origin, v)->0 as int,
        image_type_of_variable(origin, v)->0 as int,
        wanted_format(origin, requested, v).to_raw() as int,
    ) by {
        assert(rewrite.done@.contains(v));
        assert(site_of(origin, Site::Variable, v) is Some);
    }
}

/// A prefix's unread binding is the whole list's.
proof fn lemma_unread_stays(after: Seq<u32>, requested: Seq<(u32, ImageFormat)>, r: int)
    requires
        0 <= r <= requested.len(),
        first_unread(after, requested.take(r)) is Some,
    ensures
        first_unread(after, requested) == first_unread(after, requested.take(r)),
    decreases requested.len() - r,
{
    if r == requested.len() {
        assert(requested.take(r) == requested);
    } else {
        assert(requested.take(r + 1).drop_last() == requested.take(r));
        lemma_unread_stays(after, requested, r + 1);
    }
}

/// The first request that does not read back.
fn find_unread(words: &[u32], requested: &[(u32, ImageFormat)]) -> (r: Option<u32>)
    ensures
        r == first_unread(words@, requested@),
{
    let mut r: usize = 0;
    assert(requested@.take(0) == Seq::<(u32, ImageFormat)>::empty());
    while r < requested.len()
        invariant
            r <= requested.len(),
            first_unread(words@, requested@.take(r as int)) is None,
        decreases requested.len() - r,
    {
        let (binding, format) = requested[r];
        proof {
            let next = requested@.take(r + 1);
            assert(next.drop_last() == requested@.take(r as int));
            assert(next.last() == requested@[r as int]);
        }
        let unread = match image_format(words, binding) {
            Some(found) => found != format,
            None => true,
        };
        if unread {
            proof {
                lemma_unread_stays(words@, requested@, r + 1);
            }
            return Some(binding);
        }
        r = r + 1;
    }
    assert(requested@.take(r as int) == requested@);
    None
}

/// Specialize storage-image formats from the bound resources, by binding.
///
/// Returns how many variables got a format other than the one they had. A
/// module that cannot be analysed, or a request whose binding is missing or
/// ambiguous, is refused with the words untouched. Afterwards each request is
/// read back; one that does not give its format is refused as missing.
pub fn specialize_image_formats(
    words: &mut Vec<u32>,
    requested: &[(u32, ImageFormat)],
) -> (changed: Result<usize, ImageFormatSpecializeError>)
    requires
        module_ok(old(words)@) && first_request_error(old(words)@, requested@) is None ==> id_bound(
            old(words)@,
        ) + fresh_ids(old(words)@, requested@) <= u32::MAX,
    ensures
        !module_ok(old(words)@) ==> changed == Err::<usize, ImageFormatSpecializeError>(
            ImageFormatSpecializeError::MalformedModule,
        ) && final(words)@ == old(words)@,
        module_ok(old(words)@) ==> match first_request_error(old(words)@, requested@) {
            Some(error) => changed == Err::<usize, ImageFormatSpecializeError>(error) && final(words)@ == old(words)@,
            None => {
                &&& is_retyped(old(words)@, requested@, final(words)@)
                &&& changed == match first_unread(final(words)@, requested@) {
                    Some(binding) => Err::<usize, ImageFormatSpecializeError>(
                        ImageFormatSpecializeError::MissingBinding(binding),
                    ),
                    None => Ok(
                        count_changed(
                            old(words)@,
                            requested@,
                            id_bound(old(words)@),
                        ) as usize,
                    ),
                }
                &&& ids_within(old(words)@) && requests_consistent(requested@) ==> changed is Ok
            },
        },
{
    let index = match index_module(words.as_slice()) {
        Some(index) => index,
        None => {
            return Err(ImageFormatSpecializeError::MalformedModule);
        },
    };
    let plan = match resolve_requests(words.as_slice(), &index, requested) {
        Ok(plan) => plan,
        Err(error) => {
            return Err(error);
        },
    };
    let types = image_types(words.as_slice(), &index);
    let changed: usize = changed_count(words.as_slice(), &index, &types, &plan, requested);
    let at: usize = find_insertion_point(words.as_slice());
    let copy = slice_to_vec(words.as_slice());
    assert(copy@ == words@);
    let rewrite = retype(copy, &index, &types, &plan, Ghost(requested@));
    let mut out = splice(&rewrite.words, at, &rewrite.block);
    out.set(3, rewrite.next);
    proof {
        lemma_spliced_is_retyped(old(words)@, requested@, rewrite, out@);
        if ids_within(old(words)@) && requests_consistent(requested@) {
            law_consistent_requests_succeed(old(words)@, requested@, out@);
        }
    }
    *words = out;
    match find_unread(words.as_slice(), requested) {
        Some(binding) => Err(ImageFormatSpecializeError::MissingBinding(binding)),
        None => Ok(changed),
    }
}

} // verus!
