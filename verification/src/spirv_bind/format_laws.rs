//! What the format operand of an image is, by the words of the module.

use vstd::prelude::*;
use crate::spirv_bind::access_laws::{decorated, length, lemma_head, number};
use crate::spirv_bind::format::{
    ImageFormat, image_format_spec, image_raw_of, image_type_of_variable, is_first_image_at,
    is_image_at, variable_format,
};
use crate::spirv_bind::index::{
    Site, binding_of, declares, lemma_site_of_is_last, lemma_site_within, pointee_of, site_of,
    type_of_variable,
};
use crate::spirv_bind::specialize_model::{
    ImageFormatSpecializeError, bound_at, first_request_error, first_unread, insertion_point,
    is_cloned, is_retyped, is_rewritten, reads_back, request_error,
};
use crate::spirv_bind::stream::{
    id_bound, is_inst, lemma_inst_past_header, module_ok, opcode, word_count,
};

verus! {

/// The number of a format in the enumeration of image formats; a format without a name
/// here has the number that it carries.
pub open spec fn numbered(format: ImageFormat, raw: u32) -> bool {
    match format {
        ImageFormat::Unknown => raw == 0,
        ImageFormat::Rgba32Float => raw == 1,
        ImageFormat::Rgba16Float => raw == 2,
        ImageFormat::R32Float => raw == 3,
        ImageFormat::Rgba8Unorm => raw == 4,
        ImageFormat::Rg16Float => raw == 7,
        ImageFormat::R16Float => raw == 9,
        ImageFormat::Rg8Unorm => raw == 13,
        ImageFormat::R8Unorm => raw == 15,
        ImageFormat::Rgba8Sint => raw == 23,
        ImageFormat::Rgba32Uint => raw == 30,
        ImageFormat::Rgba16Uint => raw == 31,
        ImageFormat::Rgba8Uint => raw == 32,
        ImageFormat::R32ui => raw == 33,
        ImageFormat::Unsupported(own) => raw == own,
    }
}

/// A format is written as its number, and a number is read as the format that has it;
/// only a number that no other format has is read as one without a name.
pub proof fn law_formats_have_their_numbers(format: ImageFormat, raw: u32)
    ensures
        numbered(format, format.to_raw()),
        numbered(ImageFormat::of_raw(raw), raw),
        ImageFormat::of_raw(raw) is Unsupported ==> raw != 0 && raw != 1 && raw != 2 && raw != 3
            && raw != 4 && raw != 7 && raw != 9 && raw != 13 && raw != 15 && raw != 23 && raw != 30
            && raw != 31 && raw != 32 && raw != 33,
        numbered(format, raw) ==> format.to_raw() == raw && (!(format is Unsupported)
            ==> ImageFormat::of_raw(raw) == format),
{
}

/// The instruction at `at` is the last of its number, and of at least so many words,
/// with `id` at the place where it names what it declares.
pub open spec fn last_declared(
    words: Seq<u32>,
    at: int,
    op: int,
    least: int,
    place: int,
    id: int,
) -> bool {
    &&& is_inst(words, at)
    &&& number(words[at]) == op
    &&& length(words[at]) >= least
    &&& words[at + place] == id
    &&& forall|k: int|
        #![trigger is_inst(words, k)]
        k > at && is_inst(words, k) && number(words[k]) == op && length(words[k]) >= least
            ==> words[k + place] != id
}

/// At the binding stands variable `v`, whose pointer type `p` points to image type `t`,
/// which the instruction at `at` declares.
pub open spec fn image_behind(
    words: Seq<u32>,
    binding: u32,
    v: int,
    p: int,
    t: int,
    at: int,
) -> bool {
    &&& 0 <= v < words[3] && 0 <= p < words[3] && 0 <= t < words[3]
    &&& exists|d: int| decorated(words, d, v, binding)
    &&& exists|d: int| #[trigger] last_declared(words, d, 59, 4, 2, v) && words[d + 1] == p
    &&& exists|d: int| #[trigger] last_declared(words, d, 32, 4, 1, p) && words[d + 3] == t
    &&& last_declared(words, at, 25, 9, 1, t)
}

proof fn lemma_heads(words: Seq<u32>)
    ensures
        forall|k: int| #[trigger]
            is_inst(words, k) ==> opcode(words[k]) == number(words[k]) && word_count(words[k])
                == length(words[k]) && 5 <= k < words.len(),
{
    lemma_inst_past_header(words);
    assert forall|k: int| #[trigger] is_inst(words, k) implies opcode(words[k]) == number(words[k])
        && word_count(words[k]) == length(words[k]) by {
        lemma_head(words[k]);
    }
}

proof fn lemma_bound(words: Seq<u32>, id: int, binding: u32)
    ensures
        binding_of(words, id) == Some(binding) <==> exists|d: int|
            decorated(words, d, id, binding),
{
    lemma_heads(words);
    lemma_site_within(words, Site::Binding, id);
    if binding_of(words, id) == Some(binding) {
        let at = site_of(words, Site::Binding, id)->0;
        assert forall|k: int|
            #![trigger is_inst(words, k)]
            k > at && is_inst(words, k) && number(words[k]) == 71 && length(words[k])
                >= 4 implies !(words[k + 1] == id && words[k + 2] == 33) by {
            if words[k + 1] == id && words[k + 2] == 33 {
                assert(declares(words, k, Site::Binding, id));
            }
        }
        assert(decorated(words, at, id, binding));
    }
    if exists|d: int| decorated(words, d, id, binding) {
        let d = choose|d: int| decorated(words, d, id, binding);
        assert(declares(words, d, Site::Binding, id));
        let last = site_of(words, Site::Binding, id)->0;
        assert(declares(words, last, Site::Binding, id));
        assert(last == d);
    }
}

proof fn lemma_site(words: Seq<u32>, site: Site, op: int, least: int, place: int, id: int, at: int)
    requires
        (site == Site::Variable && op == 59 && least == 4 && place == 2) || (site == Site::Pointer
            && op == 32 && least == 4 && place == 1) || (site == Site::Image && op == 25 && least
            == 9 && place == 1),
    ensures
        site_of(words, site, id) == Some(at) <==> last_declared(words, at, op, least, place, id),
{
    lemma_heads(words);
    lemma_site_within(words, site, id);
    if site_of(words, site, id) == Some(at) {
        assert forall|k: int|
            #![trigger is_inst(words, k)]
            k > at && is_inst(words, k) && number(words[k]) == op && length(words[k])
                >= least implies words[k + place] != id by {
            if words[k + place] == id {
                assert(declares(words, k, site, id));
            }
        }
    }
    if last_declared(words, at, op, least, place, id) {
        assert(declares(words, at, site, id));
        assert forall|k: int| #[trigger] declares(words, k, site, id) && k
            < words.len() implies k <= at by {
            assert(is_inst(words, k));
        }
        lemma_site_of_is_last(words, site, id, at);
    }
}

proof fn lemma_image_behind(words: Seq<u32>, binding: u32, v: int)
    ensures
        is_image_at(words, binding, v) <==> exists|p: int, t: int, at: int|
            image_behind(words, binding, v, p, t, at),
        forall|p: int, t: int, at: int| #[trigger]
            image_behind(words, binding, v, p, t, at) ==> image_type_of_variable(words, v) == Some(
                t as u32,
            ) && image_raw_of(words, t) == Some(words[at + 8]),
{
    lemma_bound(words, v, binding);
    assert forall|p: int, t: int, at: int| #[trigger]
        image_behind(words, binding, v, p, t, at) implies is_image_at(words, binding, v)
        && image_type_of_variable(words, v) == Some(t as u32) && image_raw_of(words, t) == Some(
        words[at + 8],
    ) by {
        let d = choose|d: int| #[trigger]
            last_declared(words, d, 59, 4, 2, v) && words[d + 1] == p;
        lemma_site(words, Site::Variable, 59, 4, 2, v, d);
        let e = choose|e: int| #[trigger]
            last_declared(words, e, 32, 4, 1, p) && words[e + 3] == t;
        lemma_site(words, Site::Pointer, 32, 4, 1, p, e);
        lemma_site(words, Site::Image, 25, 9, 1, t, at);
        assert(type_of_variable(words, v) == Some(p as u32));
        assert(pointee_of(words, p) == Some(t as u32));
    }
    if is_image_at(words, binding, v) {
        let t = image_type_of_variable(words, v)->0 as int;
        let p = type_of_variable(words, v)->0 as int;
        let d = site_of(words, Site::Variable, v)->0;
        let e = site_of(words, Site::Pointer, p)->0;
        let at = site_of(words, Site::Image, t)->0;
        lemma_site(words, Site::Variable, 59, 4, 2, v, d);
        lemma_site(words, Site::Pointer, 32, 4, 1, p, e);
        lemma_site(words, Site::Image, 25, 9, 1, t, at);
        assert(last_declared(words, d, 59, 4, 2, v) && words[d + 1] == p);
        assert(last_declared(words, e, 32, 4, 1, p) && words[e + 3] == t);
        assert(image_behind(words, binding, v, p, t, at));
    }
}

/// The format of the image at a binding is the one whose number stands in the ninth
/// word of the image type behind it. Of several image variables there, the lowest
/// counts. A module without any there has no format.
pub proof fn law_image_format_is_the_operand(words: Seq<u32>, binding: u32)
    requires
        module_ok(words),
    ensures
        image_format_spec(words, binding) is None <==> forall|v: int, p: int, t: int, at: int|
            !#[trigger] image_behind(words, binding, v, p, t, at),
        forall|v: int, p: int, t: int, at: int| #[trigger]
            image_behind(words, binding, v, p, t, at) && (forall|u: int, q: int, s: int, b: int|
                #[trigger] image_behind(words, binding, u, q, s, b) ==> v <= u) ==> {
                &&& image_format_spec(words, binding) is Some
                &&& numbered(image_format_spec(words, binding)->0, words[at + 8])
            },
{
    assert forall|v: int| is_image_at(words, binding, v) implies exists|low: int|
        is_first_image_at(words, binding, low) by {
        lemma_lowest(words, binding, v);
    }
    assert forall|v: int| is_image_at(words, binding, v) <==> exists|p: int, t: int, at: int|
        #[trigger] image_behind(words, binding, v, p, t, at) by {
        lemma_image_behind(words, binding, v);
    }
    if image_format_spec(words, binding) is Some {
        let v = choose|id: int| is_first_image_at(words, binding, id);
        assert(is_image_at(words, binding, v));
    } else {
        assert forall|v: int, p: int, t: int, at: int| !#[trigger] image_behind(
            words,
            binding,
            v,
            p,
            t,
            at,
        ) by {
            if image_behind(words, binding, v, p, t, at) {
                assert(is_image_at(words, binding, v));
                let low = choose|low: int| is_first_image_at(words, binding, low);
                assert(is_first_image_at(words, binding, low));
                let chosen = choose|id: int| is_first_image_at(words, binding, id);
                assert(is_image_at(words, binding, chosen));
            }
        }
    }
    assert forall|v: int, p: int, t: int, at: int| #[trigger]
        image_behind(words, binding, v, p, t, at) && (forall|u: int, q: int, s: int, b: int|
            #[trigger] image_behind(words, binding, u, q, s, b) ==> v <= u) implies {
        &&& image_format_spec(words, binding) is Some
        &&& numbered(image_format_spec(words, binding)->0, words[at + 8])
    } by {
        lemma_image_behind(words, binding, v);
        assert(is_image_at(words, binding, v));
        assert forall|k: int| is_image_at(words, binding, k) implies v <= k by {
            let (q, s, b) = choose|q: int, s: int, b: int| #[trigger]
                image_behind(words, binding, k, q, s, b);
            assert(image_behind(words, binding, k, q, s, b));
        }
        assert(is_first_image_at(words, binding, v));
        let chosen = choose|id: int| is_first_image_at(words, binding, id);
        assert(is_first_image_at(words, binding, chosen));
        assert(chosen == v);
        law_formats_have_their_numbers(ImageFormat::Unknown, words[at + 8]);
    }
}

proof fn lemma_lowest(words: Seq<u32>, binding: u32, v: int)
    requires
        is_image_at(words, binding, v),
    ensures
        exists|low: int| is_first_image_at(words, binding, low),
    decreases v,
{
    if exists|k: int| is_image_at(words, binding, k) && k < v {
        let k = choose|k: int| is_image_at(words, binding, k) && k < v;
        lemma_lowest(words, binding, k);
    } else {
        assert(is_first_image_at(words, binding, v));
    }
}

/// After a specialization that succeeds, the image type behind each requested binding
/// holds the number of the format that was asked for it.
pub proof fn law_specialization_writes_the_number(
    after: Seq<u32>,
    requested: Seq<(u32, ImageFormat)>,
    i: int,
)
    requires
        first_unread(after, requested) is None,
        0 <= i < requested.len(),
    ensures
        exists|v: int, p: int, t: int, at: int| #[trigger]
            image_behind(after, requested[i].0, v, p, t, at) && numbered(
                requested[i].1,
                after[at + 8],
            ),
{
    lemma_read_back(after, requested, i);
    let binding = requested[i].0;
    let v = choose|id: int| is_first_image_at(after, binding, id);
    assert(is_image_at(after, binding, v));
    lemma_image_behind(after, binding, v);
    let (p, t, at) = choose|p: int, t: int, at: int| image_behind(after, binding, v, p, t, at);
    assert(variable_format(after, v) == Some(ImageFormat::of_raw(after[at + 8])));
    law_formats_have_their_numbers(ImageFormat::Unknown, after[at + 8]);
}

proof fn lemma_read_back(after: Seq<u32>, requested: Seq<(u32, ImageFormat)>, i: int)
    requires
        first_unread(after, requested) is None,
        0 <= i < requested.len(),
    ensures
        reads_back(after, requested[i]),
    decreases requested.len(),
{
    if i < requested.len() - 1 {
        lemma_read_back(after, requested.drop_last(), i);
    }
}

/// A specialization puts a block of words in and changes nothing else but the id bound,
/// the ninth words of image types, and the type words of variables. Up to the block the
/// words keep their places, and behind it they move on by its length.
pub proof fn law_specialization_keeps_the_rest(
    before: Seq<u32>,
    requested: Seq<(u32, ImageFormat)>,
    after: Seq<u32>,
    k: int,
)
    requires
        is_retyped(before, requested, after),
        0 <= k < before.len(),
        k != 3,
        !(is_inst(before, k - 8) && number(before[k - 8]) == 25),
        !(is_inst(before, k - 1) && number(before[k - 1]) == 59),
    ensures
        after.len() >= before.len(),
        ({
            let p = insertion_point(before);
            let grown = after.len() - before.len();
            &&& k < p ==> after[k] == before[k]
            &&& k >= p ==> after[k + grown] == before[k]
        }),
{
    lemma_heads(before);
    let p = insertion_point(before);
    let grown = after.len() - before.len();
    let kept = after.subrange(0, p) + after.subrange(p + grown, after.len() as int);
    if is_rewritten(before, requested, k) {
        if exists|t: int|
            0 <= t < id_bound(before) && #[trigger] site_of(before, Site::Image, t) == Some(
                k - 8,
            ) {
            let t = choose|t: int|
                0 <= t < id_bound(before) && #[trigger] site_of(before, Site::Image, t) == Some(
                    k - 8,
                );
            lemma_site(before, Site::Image, 25, 9, 1, t, k - 8);
        } else {
            let v = choose|v: int| #[trigger]
                is_cloned(before, requested, v) && site_of(before, Site::Variable, v) == Some(
                    k - 1,
                );
            lemma_site(before, Site::Variable, 59, 4, 2, v, k - 1);
        }
    }
    assert(kept[k] == before[k]);
}

/// A block of clones goes in before the first variable (59) or function (54), or last
/// where there is neither.
pub proof fn law_clones_go_before_the_first_use(words: Seq<u32>, at: int)
    requires
        is_inst(words, at),
        (number(words[at]) == 59 && length(words[at]) >= 4) || number(words[at]) == 54,
    ensures
        insertion_point(words) <= at,
        ({
            let p = insertion_point(words);
            is_inst(words, p) && ((number(words[p]) == 59 && length(words[p]) >= 4) || number(
                words[p],
            ) == 54)
        }),
{
    lemma_heads(words);
    lemma_first_anchor(words, at);
    let p = insertion_point(words);
    assert(crate::spirv_bind::specialize_model::is_first_anchor(words, p));
    assert(crate::spirv_bind::specialize_model::is_anchor(words, at));
}

proof fn lemma_first_anchor(words: Seq<u32>, at: int)
    requires
        crate::spirv_bind::specialize_model::is_anchor(words, at),
    ensures
        exists|p: int| crate::spirv_bind::specialize_model::is_first_anchor(words, p),
    decreases at,
{
    lemma_inst_past_header(words);
    if exists|k: int| crate::spirv_bind::specialize_model::is_anchor(words, k) && k < at {
        let k = choose|k: int| crate::spirv_bind::specialize_model::is_anchor(words, k) && k < at;
        assert(is_inst(words, k));
        lemma_first_anchor(words, k);
    } else {
        assert(crate::spirv_bind::specialize_model::is_first_anchor(words, at));
    }
}

/// Id `v` is decorated with the binding.
pub open spec fn decorated_with(words: Seq<u32>, binding: u32, v: int) -> bool {
    0 <= v < words[3] && exists|d: int| decorated(words, d, v, binding)
}

/// Some image type stands behind variable `v` at the binding.
pub open spec fn is_image_variable(words: Seq<u32>, binding: u32, v: int) -> bool {
    exists|p: int, t: int, at: int| image_behind(words, binding, v, p, t, at)
}

/// A request is met by the one id that is decorated with its binding, where that is an
/// image variable. Else it is missing, or ambiguous where several ids are decorated.
pub proof fn law_request_errors(words: Seq<u32>, binding: u32, v: int)
    requires
        decorated_with(words, binding, v),
    ensures
        ({
            let error = request_error(words, binding);
            let several = exists|u: int| #[trigger] decorated_with(words, binding, u) && u != v;
            &&& several <==> error == Some(ImageFormatSpecializeError::AmbiguousBinding(binding))
            &&& !several && is_image_variable(words, binding, v) <==> error is None
            &&& !several && !is_image_variable(words, binding, v) <==> error == Some(
                ImageFormatSpecializeError::MissingBinding(binding),
            )
        }),
{
    assert forall|u: int| bound_at(words, binding, u) <==> #[trigger] decorated_with(
        words,
        binding,
        u,
    ) by {
        lemma_bound(words, u, binding);
    }
    assert(bound_at(words, binding, v));
    let several = exists|u: int| #[trigger] decorated_with(words, binding, u) && u != v;
    if several {
        let u = choose|u: int| #[trigger] decorated_with(words, binding, u) && u != v;
        assert(bound_at(words, binding, u));
    } else {
        assert forall|u: int| bound_at(words, binding, u) implies u == v by {
            assert(decorated_with(words, binding, u));
        }
        let chosen = choose|u: int| bound_at(words, binding, u);
        assert(bound_at(words, binding, chosen));
        assert(chosen == v);
        lemma_image_behind(words, binding, v);
        if image_type_of_variable(words, v) is Some {
            lemma_site_within(words, Site::Image, image_type_of_variable(words, v)->0 as int);
        }
    }
}

/// A request for a binding that no id is decorated with is missing.
pub proof fn law_unbound_request_is_missing(words: Seq<u32>, binding: u32)
    requires
        forall|v: int| !#[trigger] decorated_with(words, binding, v),
    ensures
        request_error(words, binding) == Some(ImageFormatSpecializeError::MissingBinding(binding)),
{
    assert forall|v: int| !bound_at(words, binding, v) by {
        lemma_bound(words, v, binding);
        assert(!decorated_with(words, binding, v));
    }
}

/// A list of requests fails with the error of the first one that cannot be met, and
/// goes ahead where all can.
pub proof fn law_first_error_counts(words: Seq<u32>, requested: Seq<(u32, ImageFormat)>)
    ensures
        match first_request_error(words, requested) {
            Some(error) => exists|i: int|
                0 <= i < requested.len() && request_error(words, (#[trigger] requested[i]).0)
                    == Some(error) && forall|k: int|
                    0 <= k < i ==> request_error(words, (#[trigger] requested[k]).0) is None,
            None => forall|k: int|
                0 <= k < requested.len() ==> request_error(words, (#[trigger] requested[k]).0)
                    is None,
        },
    decreases requested.len(),
{
    if requested.len() > 0 {
        let rest = requested.drop_last();
        law_first_error_counts(words, rest);
        assert forall|k: int| 0 <= k < rest.len() implies rest[k] == #[trigger] requested[k] by {}
        match first_request_error(words, rest) {
            Some(error) => {
                let i = choose|i: int|
                    0 <= i < rest.len() && request_error(words, (#[trigger] rest[i]).0) == Some(
                        error,
                    ) && forall|k: int|
                        0 <= k < i ==> request_error(words, (#[trigger] rest[k]).0) is None;
                assert(requested[i] == rest[i]);
                assert forall|k: int| 0 <= k < i implies request_error(
                    words,
                    (#[trigger] requested[k]).0,
                ) is None by {
                    assert(rest[k] == requested[k]);
                }
            },
            None => {
                let last = requested.len() - 1;
                assert forall|k: int| 0 <= k < last implies request_error(
                    words,
                    (#[trigger] requested[k]).0,
                ) is None by {
                    assert(rest[k] == requested[k]);
                }
                assert(requested[last] == requested.last());
            },
        }
    }
}

} // verus!
