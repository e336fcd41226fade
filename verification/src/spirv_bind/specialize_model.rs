//! What specializing image formats asks of a module, as mathematics.

use vstd::prelude::*;
use crate::spirv_bind::edit::{block_declares, block_inst, block_ok, operands_edited};
use crate::spirv_bind::format::{
    ImageFormat, image_format_spec, image_raw_of, image_type_of_variable,
};
use crate::spirv_bind::index::{
    OP_FUNCTION, Site, binding_of, declares, is_site, site_of, type_of_variable,
};
use crate::text::{decimal, decimal_text, fields_view};
use crate::spirv_bind::stream::{HEADER_WORDS, id_bound, is_inst, opcode, word_count};

verus! {

#[derive(Clone, Copy, Debug, PartialEq, Eq, Structural)]
pub enum ImageFormatSpecializeError {
    MalformedModule,
    MissingBinding(u32),
    AmbiguousBinding(u32),
}

impl ImageFormatSpecializeError {
    /// The name of the check that refused.
    pub fn slug(&self) -> (slug: &'static str)
        ensures
            slug == match self {
                ImageFormatSpecializeError::MalformedModule => "spirv_format_specialize_malformed",
                ImageFormatSpecializeError::MissingBinding(_)
                    => "spirv_format_specialize_missing_binding",
                ImageFormatSpecializeError::AmbiguousBinding(_)
                    => "spirv_format_specialize_ambiguous_binding",
            },
    {
        match self {
            ImageFormatSpecializeError::MalformedModule => "spirv_format_specialize_malformed",
            ImageFormatSpecializeError::MissingBinding(_)
                => "spirv_format_specialize_missing_binding",
            ImageFormatSpecializeError::AmbiguousBinding(_)
                => "spirv_format_specialize_ambiguous_binding",
        }
    }

    /// The binding that was refused, where one was.
    pub fn fields(&self) -> (fields: Vec<(&'static str, String)>)
        ensures
            fields_view(fields@) == match self {
                ImageFormatSpecializeError::MalformedModule => seq![],
                ImageFormatSpecializeError::MissingBinding(b) => seq![
                    ("binding"@, decimal(*b as nat)),
                ],
                ImageFormatSpecializeError::AmbiguousBinding(b) => seq![
                    ("binding"@, decimal(*b as nat)),
                ],
            },
    {
        let mut fields: Vec<(&'static str, String)> = Vec::new();
        match self {
            ImageFormatSpecializeError::MalformedModule => {
                assert(fields_view(fields@) =~= seq![]);
            },
            ImageFormatSpecializeError::MissingBinding(b) => {
                fields.push(("binding", decimal_text(*b as u64)));
                assert(fields_view(fields@) =~= seq![("binding"@, decimal(*b as nat))]);
            },
            ImageFormatSpecializeError::AmbiguousBinding(b) => {
                fields.push(("binding", decimal_text(*b as u64)));
                assert(fields_view(fields@) =~= seq![("binding"@, decimal(*b as nat))]);
            },
        }
        fields
    }
}

/// The format asked for `binding`: a later request replaces an earlier one.
pub open spec fn last_request(
    requested: Seq<(u32, ImageFormat)>,
    binding: u32,
) -> Option<ImageFormat>
    decreases requested.len(),
{
    if requested.len() == 0 {
        None
    } else if requested.last().0 == binding {
        Some(requested.last().1)
    } else {
        last_request(requested.drop_last(), binding)
    }
}

/// The format asked for variable `v`, through its binding.
pub open spec fn requested_format(
    words: Seq<u32>,
    requested: Seq<(u32, ImageFormat)>,
    v: int,
) -> Option<ImageFormat> {
    match binding_of(words, v) {
        Some(binding) => last_request(requested, binding),
        None => None,
    }
}

/// Id `v` is decorated with `binding`.
pub open spec fn bound_at(words: Seq<u32>, binding: u32, v: int) -> bool {
    0 <= v < id_bound(words) && binding_of(words, v) == Some(binding)
}

/// Why a request for `binding` cannot be met, if it cannot: nothing is bound
/// there, more than one id is, or what is bound is no image variable.
pub open spec fn request_error(
    words: Seq<u32>,
    binding: u32,
) -> Option<ImageFormatSpecializeError> {
    if forall|v: int| !bound_at(words, binding, v) {
        Some(ImageFormatSpecializeError::MissingBinding(binding))
    } else if exists|a: int, b: int|
        a != b && #[trigger] bound_at(words, binding, a) && #[trigger] bound_at(words, binding, b) {
        Some(ImageFormatSpecializeError::AmbiguousBinding(binding))
    } else if image_type_of_variable(
        words,
        choose|v: int| bound_at(words, binding, v),
    ) is None {
        Some(ImageFormatSpecializeError::MissingBinding(binding))
    } else {
        None
    }
}

/// The first request's reason not to go ahead.
pub open spec fn first_request_error(
    words: Seq<u32>,
    requested: Seq<(u32, ImageFormat)>,
) -> Option<ImageFormatSpecializeError>
    decreases requested.len(),
{
    if requested.len() == 0 {
        None
    } else {
        match first_request_error(words, requested.drop_last()) {
            Some(error) => Some(error),
            None => request_error(words, requested.last().0),
        }
    }
}

/// Variable `v` points to image type `t`.
pub open spec fn is_user(words: Seq<u32>, t: int, v: int) -> bool {
    &&& 0 <= v < id_bound(words)
    &&& image_type_of_variable(words, v) is Some
    &&& image_type_of_variable(words, v)->0 == t
}

/// The format that image type `t` declares.
pub open spec fn declared_format(words: Seq<u32>, t: int) -> ImageFormat {
    ImageFormat::of_raw(image_raw_of(words, t)->0)
}

/// The format that image variable `v` is to have: the requested one, else its own.
pub open spec fn wanted_format(
    words: Seq<u32>,
    requested: Seq<(u32, ImageFormat)>,
    v: int,
) -> ImageFormat {
    match requested_format(words, requested, v) {
        Some(format) => format,
        None => declared_format(words, image_type_of_variable(words, v)->0 as int),
    }
}

/// `v` is the lowest variable that points to image type `t`.
pub open spec fn is_lowest_user(words: Seq<u32>, t: int, v: int) -> bool {
    is_user(words, t, v) && forall|k: int| is_user(words, t, k) ==> v <= k
}

/// Image type `t` has a user, and every one of them was asked a format.
pub open spec fn all_users_requested(
    words: Seq<u32>,
    requested: Seq<(u32, ImageFormat)>,
    t: int,
) -> bool {
    &&& exists|v: int| is_user(words, t, v)
    &&& forall|v: int| is_user(words, t, v) ==> requested_format(words, requested, v) is Some
}

/// The format that image type `t` itself is given: its own while a variable
/// still needs it, else that of its lowest user.
pub open spec fn keep_format(
    words: Seq<u32>,
    requested: Seq<(u32, ImageFormat)>,
    t: int,
) -> ImageFormat {
    if all_users_requested(words, requested, t) {
        wanted_format(words, requested, choose|v: int| is_lowest_user(words, t, v))
    } else {
        declared_format(words, t)
    }
}

/// Variable `v` needs a clone of its image type.
pub open spec fn is_cloned(words: Seq<u32>, requested: Seq<(u32, ImageFormat)>, v: int) -> bool {
    &&& 0 <= v < id_bound(words)
    &&& image_type_of_variable(words, v) is Some
    &&& wanted_format(words, requested, v) != keep_format(
        words,
        requested,
        image_type_of_variable(words, v)->0 as int,
    )
}

/// The image clone that variable `v` takes: its image type in the wanted format.
pub open spec fn image_key(
    words: Seq<u32>,
    requested: Seq<(u32, ImageFormat)>,
    v: int,
) -> (int, int) {
    (
        image_type_of_variable(words, v)->0 as int,
        wanted_format(words, requested, v).to_raw() as int,
    )
}

/// The pointer clone that variable `v` takes: its pointer type in the wanted format.
pub open spec fn pointer_key(
    words: Seq<u32>,
    requested: Seq<(u32, ImageFormat)>,
    v: int,
) -> (int, int) {
    (
        type_of_variable(words, v)->0 as int,
        wanted_format(words, requested, v).to_raw() as int,
    )
}

pub open spec fn cloned_variables(words: Seq<u32>, requested: Seq<(u32, ImageFormat)>) -> Set<int> {
    Set::new(|v: int| is_cloned(words, requested, v))
}

/// The distinct image clones.
pub open spec fn image_clones(words: Seq<u32>, requested: Seq<(u32, ImageFormat)>) -> Set<
    (int, int),
> {
    cloned_variables(words, requested).map(|v: int| image_key(words, requested, v))
}

/// The distinct pointer clones.
pub open spec fn pointer_clones(words: Seq<u32>, requested: Seq<(u32, ImageFormat)>) -> Set<
    (int, int),
> {
    cloned_variables(words, requested).map(|v: int| pointer_key(words, requested, v))
}

/// How many ids the clones take.
pub open spec fn fresh_ids(words: Seq<u32>, requested: Seq<(u32, ImageFormat)>) -> nat {
    image_clones(words, requested).len() + pointer_clones(words, requested).len()
}

/// Variable `v` was asked a format other than the one it has.
pub open spec fn is_changed(words: Seq<u32>, requested: Seq<(u32, ImageFormat)>, v: int) -> bool {
    &&& requested_format(words, requested, v) is Some
    &&& image_type_of_variable(words, v) is Some
    &&& requested_format(words, requested, v)->0 != declared_format(
        words,
        image_type_of_variable(words, v)->0 as int,
    )
}

/// How many of the ids below `n` change their format.
pub open spec fn count_changed(
    words: Seq<u32>,
    requested: Seq<(u32, ImageFormat)>,
    n: int,
) -> nat
    decreases n,
{
    if n <= 0 {
        0
    } else {
        count_changed(words, requested, n - 1) + if is_changed(words, requested, n - 1) {
            1nat
        } else {
            0nat
        }
    }
}

/// A variable declaration or a function starts at `at`.
pub open spec fn is_anchor(words: Seq<u32>, at: int) -> bool {
    is_inst(words, at) && (is_site(words, at, Site::Variable) || opcode(words[at]) == OP_FUNCTION)
}

/// `at` is the first such instruction.
pub open spec fn is_first_anchor(words: Seq<u32>, at: int) -> bool {
    is_anchor(words, at) && forall|k: int| is_anchor(words, k) ==> at <= k
}

/// Where cloned types go: before the first variable or function.
pub open spec fn insertion_point(words: Seq<u32>) -> int {
    if exists|at: int| is_first_anchor(words, at) {
        choose|at: int| is_first_anchor(words, at)
    } else {
        words.len() as int
    }
}

/// Every id that a module declares or types a variable by is below its bound.
pub open spec fn ids_within(words: Seq<u32>) -> bool {
    &&& forall|at: int, site: Site, id: int| #[trigger]
        declares(words, at, site, id) ==> id < id_bound(words)
    &&& forall|at: int, id: int| #[trigger]
        declares(words, at, Site::Variable, id) ==> words[at + 1] < id_bound(words)
    &&& forall|at: int, id: int| #[trigger]
        declares(words, at, Site::Pointer, id) ==> words[at + 3] < id_bound(words)
}

/// The block's instruction at `b` repeats the module's at `a`, but for its id and
/// the operand that the clone is made for.
pub open spec fn is_clone_of(block: Seq<u32>, b: int, words: Seq<u32>, a: int) -> bool {
    &&& is_inst(words, a)
    &&& is_site(words, a, Site::Image) || is_site(words, a, Site::Pointer)
    &&& block[b] == words[a]
    &&& forall|j: int|
        #![trigger block[b + j]]
        0 <= j < word_count(words[a]) && j != 1 && !(is_site(words, a, Site::Image) && j == 8) && !(
        is_site(words, a, Site::Pointer) && j == 3) ==> block[b + j] == words[a + j]
}

/// The block holds clones of the module's types, under ids from `n` up to `next`,
/// each id once and in order.
pub open spec fn is_clone_block(block: Seq<u32>, words: Seq<u32>, n: int, next: int) -> bool {
    &&& block_ok(block)
    &&& forall|b: int| #[trigger] block_inst(block, b) ==> n <= block[b + 1] < next
    &&& forall|b: int, c: int| #[trigger]
        block_inst(block, b) && #[trigger] block_inst(block, c) && b < c ==> block[b + 1] < block[c
            + 1]
    &&& forall|b: int| #[trigger]
        block_inst(block, b) ==> exists|a: int| is_clone_of(block, b, words, a)
}

/// In the block, `pointer` is a clone of pointer type `pointer_type`, and it points to
/// a clone of image type `image_type` in format `raw`.
pub open spec fn points_to_clone(
    block: Seq<u32>,
    words: Seq<u32>,
    pointer: int,
    pointer_type: int,
    image_type: int,
    raw: int,
) -> bool {
    exists|p: int, i: int|
        {
            &&& #[trigger] block_declares(block, p, Site::Pointer, pointer)
            &&& is_clone_of(block, p, words, site_of(words, Site::Pointer, pointer_type)->0)
            &&& #[trigger] block_declares(block, i, Site::Image, block[p + 3] as int)
            &&& is_clone_of(block, i, words, site_of(words, Site::Image, image_type)->0)
            &&& block[i + 8] == raw
        }
}

/// The word at `k` is one that specialization may change: the format in the
/// declaration of an image type, or the type in that of a variable that takes a
/// clone. A declaration that a later one of the same id replaces is neither.
pub open spec fn is_rewritten(
    words: Seq<u32>,
    requested: Seq<(u32, ImageFormat)>,
    k: int,
) -> bool {
    ||| exists|t: int|
        0 <= t < id_bound(words) && #[trigger] site_of(words, Site::Image, t) == Some(k - 8)
    ||| exists|v: int| #[trigger]
        is_cloned(words, requested, v) && site_of(words, Site::Variable, v) == Some(k - 1)
}

/// `after` is `before` with the requested formats put in: the words outside the
/// inserted block differ from `before` only in image formats and in the types of
/// the variables that need a clone, and the block holds the clones. A variable that
/// needs a clone points to one of its own image type, through one of its own pointer
/// type.
pub open spec fn is_retyped(
    before: Seq<u32>,
    requested: Seq<(u32, ImageFormat)>,
    after: Seq<u32>,
) -> bool {
    let n = id_bound(before);
    let next = n + fresh_ids(before, requested);
    let p = insertion_point(before);
    let grown = after.len() - before.len();
    let block = after.subrange(p, p + grown);
    let kept = after.subrange(0, p) + after.subrange(p + grown, after.len() as int);
    &&& grown >= 0
    &&& HEADER_WORDS <= p <= before.len()
    &&& after[3] == next
    &&& operands_edited(before, kept.update(3, before[3]))
    &&& forall|k: int|
        0 <= k < before.len() && k != 3 && !#[trigger] is_rewritten(before, requested, k)
            ==> kept[k] == before[k]
    &&& forall|t: int|
        #![trigger site_of(before, Site::Image, t)]
        0 <= t < n && site_of(before, Site::Image, t) is Some ==> kept[site_of(
            before,
            Site::Image,
            t,
        )->0 + 8] == keep_format(before, requested, t).to_raw()
    &&& forall|v: int|
        #![trigger site_of(before, Site::Variable, v)]
        0 <= v < n && site_of(before, Site::Variable, v) is Some && !is_cloned(
            before,
            requested,
            v,
        ) ==> kept[site_of(before, Site::Variable, v)->0 + 1] == before[site_of(
            before,
            Site::Variable,
            v,
        )->0 + 1]
    &&& forall|v: int|
        #![trigger site_of(before, Site::Variable, v)]
        is_cloned(before, requested, v) ==> points_to_clone(
            block,
            before,
            kept[site_of(before, Site::Variable, v)->0 + 1] as int,
            type_of_variable(before, v)->0 as int,
            image_type_of_variable(before, v)->0 as int,
            wanted_format(before, requested, v).to_raw() as int,
        )
    &&& is_clone_block(block, before, n, next)
}

/// The image at `binding` now reads the requested format.
pub open spec fn reads_back(after: Seq<u32>, request: (u32, ImageFormat)) -> bool {
    image_format_spec(after, request.0) == Some(request.1)
}

/// The binding of the first request that does not read back.
pub open spec fn first_unread(after: Seq<u32>, requested: Seq<(u32, ImageFormat)>) -> Option<u32>
    decreases requested.len(),
{
    if requested.len() == 0 {
        None
    } else {
        match first_unread(after, requested.drop_last()) {
            Some(binding) => Some(binding),
            None => if reads_back(after, requested.last()) {
                None
            } else {
                Some(requested.last().0)
            },
        }
    }
}

/// The requests name no binding with two formats and no format twice over.
pub open spec fn requests_consistent(requested: Seq<(u32, ImageFormat)>) -> bool {
    forall|i: int| #![trigger requested[i]]
        0 <= i < requested.len() ==> requested[i].1.is_canonical() && last_request(
            requested,
            requested[i].0,
        ) == Some(requested[i].1)
}

} // verus!
