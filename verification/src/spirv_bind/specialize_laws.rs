//! What holds of a module after its image formats were specialized.

use vstd::prelude::*;
use vstd::set_lib::{lemma_len_subset, lemma_map_size, lemma_map_size_bound};
use crate::spirv_bind::edit::{
    block_declares, block_inst, lemma_edited, lemma_inst_ends, lemma_operand_kept, lemma_splice,
    lemma_window, operands_edited, spliced,
};
use crate::spirv_bind::format::{
    ImageFormat, image_format_spec, image_raw_of, image_type_of_variable, is_first_image_at,
    is_image_at, variable_format,
};
use crate::spirv_bind::index::{
    Site, binding_of, declares, is_last_before, is_site, lemma_site_of_is_last, lemma_site_within,
    site_of, type_of_variable,
};
use crate::spirv_bind::retype::lemma_clones_finite;
use crate::spirv_bind::specialize_model::{
    all_users_requested, bound_at, cloned_variables, count_changed, declared_format,
    first_request_error, first_unread, fresh_ids, ids_within, image_clones, image_key,
    insertion_point, is_anchor, is_changed, is_clone_of, is_cloned, is_first_anchor, is_lowest_user,
    is_retyped, is_rewritten, is_user, keep_format, last_request, pointer_clones, pointer_key,
    points_to_clone, reads_back, request_error, requested_format, requests_consistent,
    wanted_format,
};
use crate::spirv_bind::stream::{
    HEADER_WORDS, id_bound, is_inst, lemma_inst_past_header, lemma_on_walk, lemma_reaches_ge,
    module_ok, reaches, stream_ok, word_count,
};

verus! {

/// A change to the header alone leaves every instruction as it is.
pub proof fn lemma_header_edit(a: Seq<u32>, b: Seq<u32>)
    requires
        stream_ok(a),
        a.len() == b.len(),
        forall|k: int| HEADER_WORDS <= k < a.len() ==> #[trigger] a[k] == b[k],
    ensures
        stream_ok(b),
        forall|k: int| #[trigger] is_inst(b, k) <==> is_inst(a, k),
        forall|k: int|
            reaches(a, HEADER_WORDS as int, k) && k <= a.len() ==> #[trigger] reaches(
                b,
                HEADER_WORDS as int,
                k,
            ),
{
    let h = HEADER_WORDS as int;
    let n = a.len() as int;
    assert forall|k: int| h <= k < n implies #[trigger] a[k] == b[k + 0] by {}
    assert forall|k: int| h <= k < n implies #[trigger] b[k] == a[k + 0] by {}
    lemma_window(a, b, 0, n, h, n);
    assert forall|k: int| reaches(a, h, k) && k <= n implies #[trigger] reaches(b, h, k) by {
        lemma_window(a, b, 0, n, h, k);
    }
    lemma_inst_past_header(a);
    lemma_inst_past_header(b);
    assert forall|k: int| #[trigger] is_inst(b, k) <==> is_inst(a, k) by {
        if is_inst(a, k) {
            lemma_window(a, b, 0, n, h, k);
        }
        if is_inst(b, k) {
            lemma_window(b, a, 0, n, h, k);
        }
    }
}

/// The insertion point stands between two instructions.
pub proof fn lemma_insertion_point(words: Seq<u32>)
    requires
        stream_ok(words),
    ensures
        HEADER_WORDS <= insertion_point(words) <= words.len(),
        reaches(words, HEADER_WORDS as int, insertion_point(words)),
{
    lemma_inst_past_header(words);
    if exists|at: int| is_first_anchor(words, at) {
        let at = choose|at: int| is_first_anchor(words, at);
        assert(is_anchor(words, at));
    }
}

/// Where the word at `at` of the old module stands in the new one.
pub open spec fn moved(at: int, p: int, grown: int) -> int {
    if at < p {
        at
    } else {
        at + grown
    }
}

/// The instructions of the old module stand in the new one, shifted past the
/// block, with their words as `kept` has them; the only others are the block's.
proof fn lemma_retyped_shape(
    before: Seq<u32>,
    requested: Seq<(u32, ImageFormat)>,
    after: Seq<u32>,
)
    requires
        module_ok(before),
        is_retyped(before, requested, after),
    ensures
        ({
            let p = insertion_point(before);
            let grown = after.len() - before.len();
            let block = after.subrange(p, p + grown);
            let kept = after.subrange(0, p) + after.subrange(p + grown, after.len() as int);
            &&& stream_ok(after)
            &&& forall|k: int|
                #![trigger is_inst(after, k)]
                is_inst(after, k) <==> {
                    ||| k < p && is_inst(before, k)
                    ||| p <= k < p + grown && block_inst(block, k - p)
                    ||| p + grown <= k && is_inst(before, k - grown)
                }
            &&& forall|k: int, j: int|
                #![trigger is_inst(before, k), kept[k + j]]
                is_inst(before, k) && 0 <= j < word_count(before[k]) ==> after[moved(k, p, grown)
                    + j] == kept[k + j]
            &&& forall|k: int| #[trigger] is_inst(before, k) ==> kept[k] == before[k]
        }),
{
    let p = insertion_point(before);
    let grown = after.len() - before.len();
    let block = after.subrange(p, p + grown);
    let kept = after.subrange(0, p) + after.subrange(p + grown, after.len() as int);
    let edited = kept.update(3, before[3]);
    lemma_insertion_point(before);
    lemma_edited(before, edited);
    lemma_header_edit(edited, kept);
    lemma_inst_past_header(before);
    assert(stream_ok(kept));
    // p is on the walk of kept
    lemma_walk_kept(before, edited, p);
    assert(reaches(kept, HEADER_WORDS as int, p));
    lemma_splice(kept, p, block);
    assert(kept.subrange(0, p) =~= after.subrange(0, p));
    assert(kept.subrange(p, kept.len() as int) =~= after.subrange(p + grown, after.len() as int));
    assert(spliced(kept, p, block) =~= after);
    assert forall|k: int, j: int|
        #![trigger is_inst(before, k), kept[k + j]]
        is_inst(before, k) && 0 <= j < word_count(before[k]) implies after[moved(k, p, grown) + j]
        == kept[k + j] by {
        if k < p {
            lemma_inst_ends(before, p, k);
        }
    }
    assert forall|k: int| #[trigger] is_inst(before, k) implies kept[k] == before[k] by {
        assert(edited[k] == kept[k]);
    }
}

proof fn lemma_walk_kept(before: Seq<u32>, edited: Seq<u32>, p: int)
    requires
        stream_ok(before),
        operands_edited(before, edited),
        reaches(before, HEADER_WORDS as int, p),
        p <= before.len(),
    ensures
        reaches(edited, HEADER_WORDS as int, p),
{
    lemma_edited(before, edited);
    if p < before.len() {
        lemma_on_walk(before, p);
        assert(is_inst(edited, p));
    }
}

/// What each id is declared by in the new module: an old id by its old
/// instruction, a new one by the block.
proof fn lemma_retyped_sites(
    before: Seq<u32>,
    requested: Seq<(u32, ImageFormat)>,
    after: Seq<u32>,
    site: Site,
    id: int,
)
    requires
        module_ok(before),
        is_retyped(before, requested, after),
        ids_within(before),
    ensures
        ({
            let n = id_bound(before);
            let p = insertion_point(before);
            let grown = after.len() - before.len();
            let block = after.subrange(p, p + grown);
            &&& id < n ==> match site_of(before, site, id) {
                Some(at) => site_of(after, site, id) == Some(moved(at, p, grown)),
                None => site_of(after, site, id) is None,
            }
            &&& id >= n ==> forall|b: int| #[trigger]
                block_declares(block, b, site, id) ==> site_of(after, site, id) == Some(p + b)
            &&& id >= n && (site is Binding || site is Variable) ==> site_of(
                after,
                site,
                id,
            ) is None
        }),
{
    let n = id_bound(before);
    let p = insertion_point(before);
    let grown = after.len() - before.len();
    let block = after.subrange(p, p + grown);
    let kept = after.subrange(0, p) + after.subrange(p + grown, after.len() as int);
    let edited = kept.update(3, before[3]);
    lemma_retyped_shape(before, requested, after);
    lemma_edited(before, edited);
    lemma_insertion_point(before);
    lemma_inst_past_header(before);
    lemma_inst_past_header(after);
    // An old instruction declares in the new module what it did.
    assert forall|k: int| #[trigger] is_inst(before, k) implies {
        &&& declares(after, moved(k, p, grown), site, id) == declares(before, k, site, id)
    } by {
        let m = moved(k, p, grown);
        assert(is_inst(after, m));
        assert(kept[k + 0] == before[k]);
        assert(after[m + 0] == kept[k + 0]);
        assert(edited[k] == before[k]);
        if word_count(before[k]) >= 4 {
            assert(after[m + 1] == kept[k + 1]);
            assert(after[m + 2] == kept[k + 2]);
            assert(edited[k + 1] == kept[k + 1]);
            assert(edited[k + 2] == kept[k + 2]);
            if !is_site(before, k, Site::Variable) {
                lemma_operand_kept(before, edited, k, 1);
            }
            lemma_operand_kept(before, edited, k, 2);
        }
    }
    // A block instruction declares an image or pointer type under a new id.
    assert forall|b: int| #[trigger] block_inst(block, b) implies {
        &&& declares(after, p + b, site, id) == block_declares(block, b, site, id)
        &&& declares(after, p + b, site, id) ==> id >= n && !(site is Binding) && !(
        site is Variable) && id == block[b + 1]
    } by {
        lemma_reaches_ge(block, 0, b);
        let a = choose|a: int| is_clone_of(block, b, before, a);
        assert(is_clone_of(block, b, before, a));
        assert(is_inst(after, p + b));
        assert(after[p + b] == block[b]);
        assert(after[p + b + 1] == block[b + 1]);
        assert(after[p + b + 2] == block[b + 2]);
    }
    if id < n {
        lemma_site_within(before, site, id);
        match site_of(before, site, id) {
            Some(at) => {
                let m = moved(at, p, grown);
                assert(is_inst(before, at));
                assert(declares(after, m, site, id));
                assert forall|k: int| #[trigger] declares(after, k, site, id) implies k <= m by {
                    assert(is_inst(after, k));
                    if k < p {
                        assert(is_inst(before, k));
                        assert(moved(k, p, grown) == k);
                        assert(declares(before, k, site, id));
                    } else if k < p + grown {
                        assert(block_inst(block, k - p));
                    } else {
                        assert(is_inst(before, k - grown));
                        assert(moved(k - grown, p, grown) == k);
                        assert(declares(before, k - grown, site, id));
                    }
                }
                assert(is_last_before(after, site, id, after.len() as int, m));
                lemma_site_of_is_last(after, site, id, m);
            },
            None => {
                lemma_site_within(after, site, id);
                assert forall|k: int| !#[trigger] declares(after, k, site, id) by {
                    if declares(after, k, site, id) {
                        assert(is_inst(after, k));
                        if k < p {
                            assert(is_inst(before, k));
                            assert(moved(k, p, grown) == k);
                            assert(declares(before, k, site, id));
                        } else if k < p + grown {
                            assert(block_inst(block, k - p));
                        } else {
                            assert(is_inst(before, k - grown));
                            assert(moved(k - grown, p, grown) == k);
                            assert(declares(before, k - grown, site, id));
                        }
                    }
                }
            },
        }
    } else {
        // Only the block can declare it.
        assert forall|k: int| #[trigger] declares(after, k, site, id) implies p <= k < p + grown
            && block_declares(block, k - p, site, id) by {
            assert(is_inst(after, k));
            if k < p {
                assert(is_inst(before, k));
                assert(moved(k, p, grown) == k);
                assert(declares(before, k, site, id));
            } else if k < p + grown {
                assert(block_inst(block, k - p));
            } else {
                assert(is_inst(before, k - grown));
                assert(moved(k - grown, p, grown) == k);
                assert(declares(before, k - grown, site, id));
            }
        }
        assert forall|b: int| #[trigger] block_declares(block, b, site, id) implies site_of(
            after,
            site,
            id,
        ) == Some(p + b) by {
            assert(block_inst(block, b));
            assert(declares(after, p + b, site, id));
            assert forall|k: int| #[trigger] declares(after, k, site, id) implies k <= p + b by {
                assert(block_inst(block, k - p));
                assert(block[k - p + 1] == id && block[b + 1] == id);
            }
            assert(is_last_before(after, site, id, after.len() as int, p + b));
            lemma_site_of_is_last(after, site, id, p + b);
        }
        lemma_site_within(after, site, id);
        if (site is Binding || site is Variable) && site_of(after, site, id) is Some {
            let k = site_of(after, site, id)->0;
            assert(declares(after, k, site, id));
            assert(block_inst(block, k - p));
        }
    }
}

/// The format that variable `v` has after specialization.
pub open spec fn specialized_format(
    words: Seq<u32>,
    requested: Seq<(u32, ImageFormat)>,
    v: int,
) -> Option<ImageFormat> {
    if image_type_of_variable(words, v) is Some {
        Some(ImageFormat::of_raw(wanted_format(words, requested, v).to_raw()))
    } else {
        None
    }
}

/// Every variable keeps its binding through specialization, and its image has the
/// requested format afterwards, or its own where none was requested.
pub proof fn law_specialization_sets_every_format(
    before: Seq<u32>,
    requested: Seq<(u32, ImageFormat)>,
    after: Seq<u32>,
    v: int,
)
    requires
        module_ok(before),
        ids_within(before),
        is_retyped(before, requested, after),
        0 <= v < id_bound(after),
    ensures
        module_ok(after),
        v < id_bound(before) ==> binding_of(after, v) == binding_of(before, v),
        v < id_bound(before) ==> variable_format(after, v) == specialized_format(
            before,
            requested,
            v,
        ),
        v >= id_bound(before) ==> binding_of(after, v) is None,
{
    let n = id_bound(before);
    let p = insertion_point(before);
    let grown = after.len() - before.len();
    let block = after.subrange(p, p + grown);
    let kept = after.subrange(0, p) + after.subrange(p + grown, after.len() as int);
    let edited = kept.update(3, before[3]);
    lemma_retyped_shape(before, requested, after);
    lemma_insertion_point(before);
    lemma_inst_past_header(before);
    lemma_retyped_sites(before, requested, after, Site::Binding, v);
    lemma_retyped_sites(before, requested, after, Site::Variable, v);
    lemma_site_within(before, Site::Binding, v);
    lemma_site_within(before, Site::Variable, v);
    if v < n {
        match site_of(before, Site::Binding, v) {
            Some(at) => {
                assert(after[moved(at, p, grown) + 3] == kept[at + 3]);
                lemma_operand_kept(before, edited, at, 3);
            },
            None => {},
        }
        match site_of(before, Site::Variable, v) {
            Some(at) => {
                assert(after[moved(at, p, grown) + 1] == kept[at + 1]);
                assert(declares(before, at, Site::Variable, v));
                if is_cloned(before, requested, v) {
                    lemma_cloned_format(before, requested, after, v, at);
                } else {
                    lemma_kept_format(before, requested, after, v, at);
                }
            },
            None => {},
        }
    }
}

/// The two declarations behind a cloned pointer.
proof fn lemma_clone_pair(
    block: Seq<u32>,
    words: Seq<u32>,
    pointer: int,
    pt: int,
    it: int,
    raw: int,
) -> (r: (int, int))
    requires
        points_to_clone(block, words, pointer, pt, it, raw),
    ensures
        block_declares(block, r.0, Site::Pointer, pointer),
        block_declares(block, r.1, Site::Image, block[r.0 + 3] as int),
        block[r.1 + 8] == raw,
{
    let (pb, ib) = choose|pb: int, ib: int|
        {
            &&& #[trigger] block_declares(block, pb, Site::Pointer, pointer)
            &&& is_clone_of(block, pb, words, site_of(words, Site::Pointer, pt)->0)
            &&& #[trigger] block_declares(block, ib, Site::Image, block[pb + 3] as int)
            &&& is_clone_of(block, ib, words, site_of(words, Site::Image, it)->0)
            &&& block[ib + 8] == raw
        };
    (pb, ib)
}

proof fn lemma_cloned_format(
    before: Seq<u32>,
    requested: Seq<(u32, ImageFormat)>,
    after: Seq<u32>,
    v: int,
    at: int,
)
    requires
        module_ok(before),
        ids_within(before),
        is_retyped(before, requested, after),
        is_cloned(before, requested, v),
        site_of(before, Site::Variable, v) == Some(at),
        site_of(after, Site::Variable, v) == Some(
            moved(at, insertion_point(before), after.len() - before.len()),
        ),
    ensures
        variable_format(after, v) == specialized_format(before, requested, v),
{
    let p = insertion_point(before);
    let grown = after.len() - before.len();
    let block = after.subrange(p, p + grown);
    let kept = after.subrange(0, p) + after.subrange(p + grown, after.len() as int);
    let raw = wanted_format(before, requested, v).to_raw() as int;
    lemma_retyped_shape(before, requested, after);
    lemma_site_within(before, Site::Variable, v);
    assert(after[moved(at, p, grown) + 1] == kept[at + 1]);
    let pointer = kept[at + 1] as int;
    let pt = type_of_variable(before, v)->0 as int;
    let it = image_type_of_variable(before, v)->0 as int;
    assert(points_to_clone(block, before, pointer, pt, it, raw));
    let (pb, ib) = lemma_clone_pair(block, before, pointer, pt, it, raw);
    let image = block[pb + 3] as int;
    assert(block_inst(block, pb) && block_inst(block, ib));
    lemma_reaches_ge(block, 0, pb);
    lemma_reaches_ge(block, 0, ib);
    lemma_retyped_sites(before, requested, after, Site::Pointer, pointer);
    lemma_retyped_sites(before, requested, after, Site::Image, image);
    assert(site_of(after, Site::Pointer, pointer) == Some(p + pb));
    assert(site_of(after, Site::Image, image) == Some(p + ib));
    assert(after[p + pb + 3] == block[pb + 3]);
    assert(after[p + ib + 8] == block[ib + 8]);
}

proof fn lemma_kept_format(
    before: Seq<u32>,
    requested: Seq<(u32, ImageFormat)>,
    after: Seq<u32>,
    v: int,
    at: int,
)
    requires
        module_ok(before),
        ids_within(before),
        is_retyped(before, requested, after),
        0 <= v < id_bound(before),
        !is_cloned(before, requested, v),
        site_of(before, Site::Variable, v) == Some(at),
        site_of(after, Site::Variable, v) == Some(
            moved(at, insertion_point(before), after.len() - before.len()),
        ),
    ensures
        variable_format(after, v) == specialized_format(before, requested, v),
{
    let n = id_bound(before);
    let p = insertion_point(before);
    let grown = after.len() - before.len();
    let kept = after.subrange(0, p) + after.subrange(p + grown, after.len() as int);
    let edited = kept.update(3, before[3]);
    lemma_retyped_shape(before, requested, after);
    lemma_site_within(before, Site::Variable, v);
    lemma_inst_past_header(before);
    assert(after[moved(at, p, grown) + 1] == kept[at + 1]);
    let pointer = before[at + 1] as int;
    assert(declares(before, at, Site::Variable, v));
    assert(pointer < n);
    lemma_retyped_sites(before, requested, after, Site::Pointer, pointer);
    lemma_site_within(before, Site::Pointer, pointer);
    match site_of(before, Site::Pointer, pointer) {
        Some(pat) => {
            assert(declares(before, pat, Site::Pointer, pointer));
            assert(after[moved(pat, p, grown) + 3] == kept[pat + 3]);
            lemma_operand_kept(before, edited, pat, 3);
            let image = before[pat + 3] as int;
            assert(image < n);
            lemma_retyped_sites(before, requested, after, Site::Image, image);
            lemma_site_within(before, Site::Image, image);
            match site_of(before, Site::Image, image) {
                Some(iat) => {
                    assert(after[moved(iat, p, grown) + 8] == kept[iat + 8]);
                },
                None => {},
            }
        },
        None => {},
    }
}

/// A request without an error is about one variable, an image, at its binding.
proof fn lemma_request_variable(words: Seq<u32>, binding: u32) -> (v: int)
    requires
        request_error(words, binding) is None,
    ensures
        bound_at(words, binding, v),
        forall|k: int| bound_at(words, binding, k) ==> k == v,
        image_type_of_variable(words, v) is Some,
{
    choose|v: int| bound_at(words, binding, v)
}

proof fn lemma_no_error_at(words: Seq<u32>, requested: Seq<(u32, ImageFormat)>, i: int)
    requires
        first_request_error(words, requested) is None,
        0 <= i < requested.len(),
    ensures
        request_error(words, requested[i].0) is None,
    decreases requested.len(),
{
    if i < requested.len() - 1 {
        lemma_no_error_at(words, requested.drop_last(), i);
    }
}

proof fn lemma_last_request_some(requested: Seq<(u32, ImageFormat)>, i: int)
    requires
        0 <= i < requested.len(),
    ensures
        last_request(requested, requested[i].0) is Some,
    decreases requested.len(),
{
    if i < requested.len() - 1 {
        lemma_last_request_some(requested.drop_last(), i);
    }
}

/// A requested binding reads back the format last asked of it.
pub proof fn law_requested_binding_reads_back(
    before: Seq<u32>,
    requested: Seq<(u32, ImageFormat)>,
    after: Seq<u32>,
    i: int,
)
    requires
        module_ok(before),
        ids_within(before),
        first_request_error(before, requested) is None,
        is_retyped(before, requested, after),
        0 <= i < requested.len(),
    ensures
        image_format_spec(after, requested[i].0) == Some(
            ImageFormat::of_raw(last_request(requested, requested[i].0)->0.to_raw()),
        ),
{
    let binding = requested[i].0;
    lemma_no_error_at(before, requested, i);
    lemma_last_request_some(requested, i);
    let v = lemma_request_variable(before, binding);
    law_specialization_sets_every_format(before, requested, after, v);
    assert(is_image_at(after, binding, v));
    assert forall|k: int| is_image_at(after, binding, k) implies k == v by {
        law_specialization_sets_every_format(before, requested, after, k);
        if k < id_bound(before) {
            assert(bound_at(before, binding, k));
        }
    }
    assert(is_first_image_at(after, binding, v));
    let chosen = choose|k: int| is_first_image_at(after, binding, k);
    assert(is_first_image_at(after, binding, chosen));
    assert(is_image_at(after, binding, chosen));
    assert(chosen == v);
}

/// A binding that was not requested reads the format that it read before.
pub proof fn law_other_bindings_keep_their_format(
    before: Seq<u32>,
    requested: Seq<(u32, ImageFormat)>,
    after: Seq<u32>,
    binding: u32,
)
    requires
        module_ok(before),
        ids_within(before),
        is_retyped(before, requested, after),
        last_request(requested, binding) is None,
    ensures
        image_format_spec(after, binding) == image_format_spec(before, binding),
{
    assert forall|k: int|
        #![trigger is_image_at(after, binding, k)]
        #![trigger is_image_at(before, binding, k)]
        is_image_at(after, binding, k) <==> is_image_at(before, binding, k) by {
        if 0 <= k < id_bound(after) {
            law_specialization_sets_every_format(before, requested, after, k);
        }
    }
    assert forall|k: int|
        #![trigger is_first_image_at(after, binding, k)]
        #![trigger is_first_image_at(before, binding, k)]
        is_first_image_at(after, binding, k) <==> is_first_image_at(before, binding, k) by {
        if is_first_image_at(before, binding, k) {
            assert(is_image_at(after, binding, k));
        }
        if is_first_image_at(after, binding, k) {
            assert(is_image_at(before, binding, k));
        }
    }
    if exists|id: int| is_first_image_at(before, binding, id) {
        let a = choose|id: int| is_first_image_at(before, binding, id);
        let b = choose|id: int| is_first_image_at(after, binding, id);
        assert(is_first_image_at(after, binding, a));
        assert(is_first_image_at(after, binding, b));
        assert(is_image_at(after, binding, a) && is_image_at(after, binding, b));
        assert(a == b);
        law_specialization_sets_every_format(before, requested, after, a);
        crate::spirv_bind::format::law_image_format_round_trip(
            image_raw_of(before, image_type_of_variable(before, a)->0 as int)->0,
            ImageFormat::Unknown,
        );
    } else {
        if exists|id: int| is_first_image_at(after, binding, id) {
            let b = choose|id: int| is_first_image_at(after, binding, id);
            assert(is_first_image_at(before, binding, b));
        }
        law_specialization_sets_every_format(before, requested, after, 0);
    }
}

proof fn lemma_all_read_back(after: Seq<u32>, requested: Seq<(u32, ImageFormat)>)
    requires
        forall|i: int| 0 <= i < requested.len() ==> reads_back(after, #[trigger] requested[i]),
    ensures
        first_unread(after, requested) is None,
    decreases requested.len(),
{
    if requested.len() > 0 {
        let rest = requested.drop_last();
        assert forall|i: int| 0 <= i < rest.len() implies reads_back(after, #[trigger] rest[i]) by {
            assert(rest[i] == requested[i]);
        }
        lemma_all_read_back(after, rest);
        assert(requested.last() == requested[requested.len() - 1]);
    }
}

/// On a module whose ids keep to its bound, consistent requests all read back.
pub proof fn law_consistent_requests_succeed(
    before: Seq<u32>,
    requested: Seq<(u32, ImageFormat)>,
    after: Seq<u32>,
)
    requires
        module_ok(before),
        ids_within(before),
        first_request_error(before, requested) is None,
        requests_consistent(requested),
        is_retyped(before, requested, after),
    ensures
        first_unread(after, requested) is None,
{
    assert forall|i: int| 0 <= i < requested.len() implies reads_back(
        after,
        #[trigger] requested[i],
    ) by {
        law_requested_binding_reads_back(before, requested, after, i);
    }
    lemma_all_read_back(after, requested);
}

proof fn lemma_requested_index(requested: Seq<(u32, ImageFormat)>, binding: u32) -> (i: int)
    requires
        last_request(requested, binding) is Some,
    ensures
        0 <= i < requested.len(),
        requested[i].0 == binding,
    decreases requested.len(),
{
    if requested.last().0 == binding {
        requested.len() - 1
    } else {
        lemma_requested_index(requested.drop_last(), binding)
    }
}

/// Specialization takes at most two new ids per request, so requests that leave
/// that much room under the id limit can always be carried out.
pub proof fn law_fresh_ids_bounded(words: Seq<u32>, requested: Seq<(u32, ImageFormat)>)
    requires
        module_ok(words),
        first_request_error(words, requested) is None,
    ensures
        fresh_ids(words, requested) <= 2 * requested.len(),
{
    let vars = cloned_variables(words, requested);
    let names = requested.map_values(|r: (u32, ImageFormat)| r.0);
    let binding = |v: int| binding_of(words, v)->0;
    lemma_clones_finite(words, requested);
    vars.lemma_map_finite(binding);
    assert forall|v: int| vars.contains(v) implies exists|i: int|
        0 <= i < requested.len() && #[trigger] requested[i].0 == binding_of(words, v)->0
            && binding_of(words, v) is Some by {
        assert(is_cloned(words, requested, v));
        if requested_format(words, requested, v) is None {
            let t = image_type_of_variable(words, v)->0 as int;
            assert(is_user(words, t, v));
        }
        let i = lemma_requested_index(requested, binding_of(words, v)->0);
        assert(requested[i].0 == binding_of(words, v)->0);
    }
    // One variable per requested binding.
    assert forall|a: int, b: int| #[trigger] vars.contains(a) && #[trigger] vars.contains(b)
        && binding(a) == binding(b) implies a == b by {
        let i = choose|i: int|
            0 <= i < requested.len() && #[trigger] requested[i].0 == binding_of(words, a)->0
                && binding_of(words, a) is Some;
        lemma_no_error_at(words, requested, i);
        let v = lemma_request_variable(words, requested[i].0);
        assert(bound_at(words, requested[i].0, a));
        assert(bound_at(words, requested[i].0, b));
    }
    lemma_map_size(vars, vars.map(binding), binding);
    assert(vars.map(binding).subset_of(names.to_set())) by {
        assert forall|b: u32| vars.map(binding).contains(b) implies names.to_set().contains(b) by {
            let v = choose|v: int| vars.contains(v) && binding(v) == b;
            let i = choose|i: int|
                0 <= i < requested.len() && #[trigger] requested[i].0 == binding_of(words, v)->0
                    && binding_of(words, v) is Some;
            assert(names[i] == b);
        }
    }
    names.lemma_cardinality_of_set();
    vstd::seq_lib::seq_to_set_is_finite(names);
    lemma_len_subset(vars.map(binding), names.to_set());
    lemma_map_size_bound(
        vars,
        image_clones(words, requested),
        |v: int| image_key(words, requested, v),
    );
    lemma_map_size_bound(
        vars,
        pointer_clones(words, requested),
        |v: int| pointer_key(words, requested, v),
    );
}

/// The last request for a binding is one of the requests.
proof fn lemma_last_request_index(requested: Seq<(u32, ImageFormat)>, binding: u32) -> (i: int)
    requires
        last_request(requested, binding) is Some,
    ensures
        0 <= i < requested.len(),
        requested[i] == (binding, last_request(requested, binding)->0),
    decreases requested.len(),
{
    if requested.last().0 == binding {
        requested.len() - 1
    } else {
        lemma_last_request_index(requested.drop_last(), binding)
    }
}

proof fn lemma_read_back_at(after: Seq<u32>, requested: Seq<(u32, ImageFormat)>, i: int)
    requires
        first_unread(after, requested) is None,
        0 <= i < requested.len(),
    ensures
        reads_back(after, requested[i]),
    decreases requested.len(),
{
    if i < requested.len() - 1 {
        lemma_read_back_at(after, requested.drop_last(), i);
    }
}

proof fn lemma_no_errors(words: Seq<u32>, requested: Seq<(u32, ImageFormat)>)
    requires
        forall|i: int|
            0 <= i < requested.len() ==> request_error(words, (#[trigger] requested[i]).0) is None,
    ensures
        first_request_error(words, requested) is None,
    decreases requested.len(),
{
    if requested.len() > 0 {
        let rest = requested.drop_last();
        assert forall|i: int| 0 <= i < rest.len() implies request_error(
            words,
            (#[trigger] rest[i]).0,
        ) is None by {
            assert(rest[i] == requested[i]);
        }
        lemma_no_errors(words, rest);
        assert(requested.last() == requested[requested.len() - 1]);
    }
}

/// An image type with a user has a lowest one.
proof fn lemma_lowest_user(words: Seq<u32>, t: int, v: int)
    requires
        is_user(words, t, v),
    ensures
        exists|low: int| is_lowest_user(words, t, low),
    decreases v,
{
    if forall|k: int| is_user(words, t, k) ==> v <= k {
        assert(is_lowest_user(words, t, v));
    } else {
        let k = choose|k: int| is_user(words, t, k) && k < v;
        lemma_lowest_user(words, t, k);
    }
}

/// After a specialization that read back, every image variable has what is asked of it.
proof fn lemma_settled(
    before: Seq<u32>,
    requested: Seq<(u32, ImageFormat)>,
    after: Seq<u32>,
    v: int,
)
    requires
        module_ok(before),
        ids_within(before),
        first_request_error(before, requested) is None,
        is_retyped(before, requested, after),
        first_unread(after, requested) is None,
        0 <= v < id_bound(after),
        image_type_of_variable(after, v) is Some,
    ensures
        wanted_format(after, requested, v) == declared_format(
            after,
            image_type_of_variable(after, v)->0 as int,
        ),
{
    law_specialization_sets_every_format(before, requested, after, v);
    if v < id_bound(before) {
        match requested_format(after, requested, v) {
            Some(f) => {
                let binding = binding_of(after, v)->0;
                let i = lemma_last_request_index(requested, binding);
                lemma_read_back_at(after, requested, i);
                law_requested_binding_reads_back(before, requested, after, i);
            },
            None => {},
        }
    }
}

/// A module that was specialized asks for nothing the next time: every type has the
/// format it is to have, nothing is cloned, and no new id is taken. So the same
/// requests can be made again, whatever ids are left.
pub proof fn law_second_specialization_needs_no_ids(
    before: Seq<u32>,
    requested: Seq<(u32, ImageFormat)>,
    after: Seq<u32>,
)
    requires
        module_ok(before),
        ids_within(before),
        first_request_error(before, requested) is None,
        is_retyped(before, requested, after),
        first_unread(after, requested) is None,
    ensures
        module_ok(after),
        first_request_error(after, requested) is None,
        fresh_ids(after, requested) == 0,
        id_bound(after) + fresh_ids(after, requested) <= u32::MAX,
        count_changed(after, requested, id_bound(after)) == 0,
        forall|v: int| !#[trigger] is_cloned(after, requested, v),
        forall|t: int| #[trigger]
            keep_format(after, requested, t) == declared_format(after, t),
{
    law_specialization_sets_every_format(before, requested, after, 0);
    assert forall|v: int|
        0 <= v < id_bound(after) && #[trigger] image_type_of_variable(after, v) is Some implies
        wanted_format(after, requested, v) == declared_format(
        after,
        image_type_of_variable(after, v)->0 as int,
    ) by {
        lemma_settled(before, requested, after, v);
    }
    assert forall|t: int| #[trigger] keep_format(after, requested, t) == declared_format(
        after,
        t,
    ) by {
        if all_users_requested(after, requested, t) {
            let u = choose|u: int| is_user(after, t, u);
            lemma_lowest_user(after, t, u);
            let low = choose|low: int| is_lowest_user(after, t, low);
            assert(is_lowest_user(after, t, low));
            assert(is_user(after, t, low));
            assert(image_type_of_variable(after, low) is Some);
        }
    }
    assert forall|v: int| !#[trigger] is_cloned(after, requested, v) by {
        if 0 <= v < id_bound(after) && image_type_of_variable(after, v) is Some {
            let t = image_type_of_variable(after, v)->0 as int;
            assert(keep_format(after, requested, t) == declared_format(after, t));
        }
    }
    assert(cloned_variables(after, requested) =~= Set::<int>::empty());
    assert(image_clones(after, requested) =~= Set::<(int, int)>::empty());
    assert(pointer_clones(after, requested) =~= Set::<(int, int)>::empty());
    lemma_none_changed(after, requested, id_bound(after));
    assert forall|i: int| 0 <= i < requested.len() implies request_error(
        after,
        (#[trigger] requested[i]).0,
    ) is None by {
        let binding = requested[i].0;
        lemma_no_error_at(before, requested, i);
        let v = lemma_request_variable(before, binding);
        law_specialization_sets_every_format(before, requested, after, v);
        assert(after[3] >= before[3]);
        assert(bound_at(after, binding, v));
        assert forall|k: int| bound_at(after, binding, k) implies k == v by {
            law_specialization_sets_every_format(before, requested, after, k);
            if k < id_bound(before) {
                assert(bound_at(before, binding, k));
            }
        }
        let chosen = choose|k: int| bound_at(after, binding, k);
        assert(bound_at(after, binding, chosen));
        assert(chosen == v);
        assert(image_type_of_variable(after, v) is Some);
    }
    lemma_no_errors(after, requested);
}

/// Specializing a module a second time with the same requests changes nothing: it
/// succeeds, no type is cloned again, and no format is counted as changed.
pub proof fn law_second_specialization_changes_nothing(
    before: Seq<u32>,
    requested: Seq<(u32, ImageFormat)>,
    after: Seq<u32>,
    again: Seq<u32>,
)
    requires
        module_ok(before),
        ids_within(before),
        first_request_error(before, requested) is None,
        is_retyped(before, requested, after),
        first_unread(after, requested) is None,
        is_retyped(after, requested, again),
    ensures
        module_ok(after),
        first_request_error(after, requested) is None,
        fresh_ids(after, requested) == 0,
        again == after,
        first_unread(again, requested) is None,
        count_changed(after, requested, id_bound(after)) == 0,
{
    law_second_specialization_needs_no_ids(before, requested, after);
    lemma_again_is_same(after, requested, again);
}

/// The bindings whose image has another format in `after` than in `before`.
pub open spec fn reformatted(before: Seq<u32>, after: Seq<u32>) -> Set<u32> {
    Set::new(|binding: u32| image_format_spec(after, binding) != image_format_spec(before, binding))
}

/// The ids below `n` that change their format.
spec fn changed_ids(words: Seq<u32>, requested: Seq<(u32, ImageFormat)>, n: int) -> Set<int> {
    Set::new(|v: int| 0 <= v < n && is_changed(words, requested, v))
}

proof fn lemma_count_is_size(words: Seq<u32>, requested: Seq<(u32, ImageFormat)>, n: int)
    requires
        0 <= n,
    ensures
        changed_ids(words, requested, n).finite(),
        changed_ids(words, requested, n).len() == count_changed(words, requested, n),
    decreases n,
{
    let ids = changed_ids(words, requested, n);
    if n == 0 {
        assert(ids =~= Set::<int>::empty());
    } else {
        lemma_count_is_size(words, requested, n - 1);
        let rest = changed_ids(words, requested, n - 1);
        if is_changed(words, requested, n - 1) {
            assert(ids =~= rest.insert(n - 1));
        } else {
            assert(ids =~= rest);
        }
    }
}

/// The image at a requested binding is the one variable there, before and after.
proof fn lemma_requested_formats(
    before: Seq<u32>,
    requested: Seq<(u32, ImageFormat)>,
    after: Seq<u32>,
    binding: u32,
) -> (v: int)
    requires
        module_ok(before),
        first_request_error(before, requested) is None,
        first_unread(after, requested) is None,
        last_request(requested, binding) is Some,
    ensures
        bound_at(before, binding, v),
        forall|k: int| bound_at(before, binding, k) ==> k == v,
        image_type_of_variable(before, v) is Some,
        image_format_spec(before, binding) == Some(
            declared_format(before, image_type_of_variable(before, v)->0 as int),
        ),
        image_format_spec(after, binding) == last_request(requested, binding),
{
    let i = lemma_last_request_index(requested, binding);
    lemma_no_error_at(before, requested, i);
    let v = lemma_request_variable(before, binding);
    assert(is_image_at(before, binding, v));
    assert forall|k: int| is_image_at(before, binding, k) implies k == v by {
        assert(bound_at(before, binding, k));
    }
    assert(is_first_image_at(before, binding, v));
    let chosen = choose|k: int| is_first_image_at(before, binding, k);
    assert(is_first_image_at(before, binding, chosen));
    lemma_read_back_at(after, requested, i);
    v
}

/// The count that a specialization returns is the number of bindings whose image has
/// another format afterwards.
pub proof fn law_count_is_of_reformatted_bindings(
    before: Seq<u32>,
    requested: Seq<(u32, ImageFormat)>,
    after: Seq<u32>,
)
    requires
        module_ok(before),
        ids_within(before),
        first_request_error(before, requested) is None,
        is_retyped(before, requested, after),
        first_unread(after, requested) is None,
    ensures
        reformatted(before, after).finite(),
        count_changed(before, requested, id_bound(before)) == reformatted(before, after).len(),
{
    let n = id_bound(before);
    let ids = changed_ids(before, requested, n);
    let found = reformatted(before, after);
    let name = |v: int| binding_of(before, v)->0;
    lemma_count_is_size(before, requested, n);
    assert forall|v: int| #[trigger] ids.contains(v) implies found.contains(name(v)) by {
        let u = lemma_requested_formats(before, requested, after, name(v));
        assert(bound_at(before, name(v), v));
    }
    assert forall|a: int, b: int| #[trigger] ids.contains(a) && #[trigger] ids.contains(b)
        && name(a) == name(b) implies a == b by {
        let u = lemma_requested_formats(before, requested, after, name(a));
        assert(bound_at(before, name(a), a) && bound_at(before, name(a), b));
    }
    assert forall|binding: u32| #[trigger] found.contains(binding) implies exists|v: int|
        ids.contains(v) && name(v) == binding by {
        if last_request(requested, binding) is None {
            law_other_bindings_keep_their_format(before, requested, after, binding);
        } else {
            let v = lemma_requested_formats(before, requested, after, binding);
            assert(ids.contains(v) && name(v) == binding);
        }
    }
    ids.lemma_map_finite(name);
    assert(ids.map(name) =~= found);
    lemma_map_size(ids, found, name);
}

/// Without clones and with every type in the format it has, the words stay.
proof fn lemma_again_is_same(
    words: Seq<u32>,
    requested: Seq<(u32, ImageFormat)>,
    again: Seq<u32>,
)
    requires
        module_ok(words),
        is_retyped(words, requested, again),
        fresh_ids(words, requested) == 0,
        forall|v: int| !#[trigger] is_cloned(words, requested, v),
        forall|t: int| #[trigger]
            keep_format(words, requested, t) == declared_format(words, t),
    ensures
        again == words,
{
    let n = id_bound(words);
    let p = insertion_point(words);
    let grown = again.len() - words.len();
    let block = again.subrange(p, p + grown);
    let kept = again.subrange(0, p) + again.subrange(p + grown, again.len() as int);
    if grown > 0 {
        assert(block_inst(block, 0));
        assert(false);
    }
    assert(kept =~= again);
    assert forall|k: int| 0 <= k < words.len() implies again[k] == words[k] by {
        let rewritten = is_rewritten(words, requested, k);
        if k != 3 && rewritten {
            let t = choose|t: int|
                0 <= t < id_bound(words) && #[trigger] site_of(words, Site::Image, t) == Some(
                    k - 8,
                );
            assert(site_of(words, Site::Image, t) is Some);
            assert(kept[k] == keep_format(words, requested, t).to_raw());
            crate::spirv_bind::format::law_image_format_round_trip(
                image_raw_of(words, t)->0,
                ImageFormat::Unknown,
            );
        }
    }
    assert(again =~= words);
}

proof fn lemma_none_changed(words: Seq<u32>, requested: Seq<(u32, ImageFormat)>, n: int)
    requires
        n <= id_bound(words),
        forall|v: int|
            0 <= v < id_bound(words) && #[trigger] image_type_of_variable(words, v) is Some
                ==> wanted_format(words, requested, v) == declared_format(
                words,
                image_type_of_variable(words, v)->0 as int,
            ),
    ensures
        count_changed(words, requested, n) == 0,
    decreases n,
{
    if n > 0 {
        lemma_none_changed(words, requested, n - 1);
        if image_type_of_variable(words, n - 1) is Some {
            assert(!is_changed(words, requested, n - 1));
        }
    }
}

} // verus!
