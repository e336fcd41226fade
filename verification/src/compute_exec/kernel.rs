//! What a translated kernel does with the binds, and its specialization to them.

use vstd::prelude::*;
use crate::compute_exec::accum::{ComputeSamplerBind, ComputeTextureBind};
use crate::compute_exec::buffers::StagedBuffer;
use crate::compute_exec::format::{
    SPIRV_HEADER_LEN, SPIRV_WORD_ALIGNMENT, StorageImageFormat, specialized_format,
    specialized_storage_image_format, spirv_words_le, words_of,
};
use crate::compute_exec::status::ComputeStatus;
use crate::compute_exec::texture::StagedTexture;
use crate::spirv_bind::access::{buffer_access_spec, storage_image_access_spec};
use crate::spirv_bind::capability::{declares_capability, with_capability};
use crate::spirv_bind::format::image_format_spec;
use crate::spirv_bind::reflection::shape_at;
use crate::spirv_bind::samplers::{ascending, is_sampler_binding};
use crate::spirv_bind::specialize_model::{first_request_error, first_unread, fresh_ids, is_retyped};
use crate::spirv_bind::stream::{HEADER_WORDS, id_bound, module_ok};
use crate::spirv_bind::{
    BufferAccess, ImageAccess, ImageFormat, SAMPLER_BINDING_BASE, ShaderReflection,
    StorageImageAccess, TEXTURE_BINDING_BASE, buffer_access,
    ensure_storage_write_without_format_capability, image_access_from_reflection, image_format,
    sampler_bindings, specialize_image_formats, storage_image_access,
};

verus! {

/// How far a kernel came on its way from the pipeline's function.
#[derive(Clone, Debug, PartialEq, Eq)]
pub enum KernelSource {
    /// The function's container could not be loaded.
    NoContainer,
    /// The container holds no bitcode.
    NoBitcode,
    /// The translator refused the bitcode.
    Untranslated,
    /// The translated module.
    Translated(Vec<u8>),
}

/// The kernel's words, or why there are none.
pub open spec fn words_or_refusal(source: KernelSource) -> Result<Seq<u32>, ComputeStatus> {
    match source {
        KernelSource::NoContainer => Err(ComputeStatus::MissingMtlb("compute_vk_mtlb_load")),
        KernelSource::NoBitcode => Err(ComputeStatus::MetalFailed("compute_vk_air_extract")),
        KernelSource::Untranslated => Err(ComputeStatus::MetalFailed("compute_vk_translate")),
        KernelSource::Translated(bytes) => if bytes.len() >= SPIRV_HEADER_LEN && bytes.len()
            % SPIRV_WORD_ALIGNMENT == 0 {
            Ok(words_of(bytes@))
        } else {
            Err(ComputeStatus::MetalFailed("compute_vk_spirv_parse"))
        },
    }
}

/// The kernel's words.
pub fn kernel_words(source: &KernelSource) -> (words: Result<Vec<u32>, ComputeStatus>)
    ensures
        match (words, words_or_refusal(*source)) {
            (Ok(w), Ok(v)) => w@ == v,
            (Err(a), Err(b)) => a == b,
            _ => false,
        },
{
    match source {
        KernelSource::NoContainer => Err(ComputeStatus::MissingMtlb("compute_vk_mtlb_load")),
        KernelSource::NoBitcode => Err(ComputeStatus::MetalFailed("compute_vk_air_extract")),
        KernelSource::Untranslated => Err(ComputeStatus::MetalFailed("compute_vk_translate")),
        KernelSource::Translated(bytes) => match spirv_words_le(bytes.as_slice()) {
            Ok(words) => Ok(words),
            Err(_) => Err(ComputeStatus::MetalFailed("compute_vk_spirv_parse")),
        },
    }
}

/// What the kernel does with a bound buffer.
#[derive(Clone, Copy, Debug, PartialEq, Eq, Structural)]
pub enum BufferUse {
    Unused,
    ReadOnly,
    Writable,
}

/// The use of the buffer bound at `index`. One whose writes cannot be told is
/// refused: it could neither be left unwritten nor be written back.
pub open spec fn use_of_buffer(words: Seq<u32>, index: u32) -> Result<BufferUse, ComputeStatus> {
    match buffer_access_spec(words, index) {
        Some(BufferAccess::ReadOnly) => Ok(BufferUse::ReadOnly),
        Some(BufferAccess::Writable) => Ok(BufferUse::Writable),
        Some(BufferAccess::PointerEscape) => Err(
            ComputeStatus::Unsupported("buffer_spirv_pointer_escape"),
        ),
        Some(BufferAccess::AmbiguousBinding) => Err(
            ComputeStatus::Unsupported("buffer_spirv_ambiguous_binding"),
        ),
        None => Ok(BufferUse::Unused),
    }
}

/// The uses of the first `n` buffers, or the first refusal.
pub open spec fn uses_of_buffers(words: Seq<u32>, staged: Seq<StagedBuffer>, n: int) -> Result<
    Seq<BufferUse>,
    ComputeStatus,
>
    decreases n,
{
    if n <= 0 {
        Ok(Seq::empty())
    } else {
        match uses_of_buffers(words, staged, n - 1) {
            Err(status) => Err(status),
            Ok(uses) => match use_of_buffer(words, staged[n - 1].bind.index) {
                Err(status) => Err(status),
                Ok(u) => Ok(uses.push(u)),
            },
        }
    }
}

/// There is a use for each buffer.
pub proof fn lemma_uses_len(words: Seq<u32>, staged: Seq<StagedBuffer>, n: int)
    requires
        0 <= n,
    ensures
        uses_of_buffers(words, staged, n) is Ok ==> uses_of_buffers(words, staged, n)->Ok_0.len()
            == n,
    decreases n,
{
    if n > 0 {
        lemma_uses_len(words, staged, n - 1);
    }
}

proof fn lemma_uses_refused(words: Seq<u32>, staged: Seq<StagedBuffer>, i: int, n: int)
    requires
        i <= n,
        uses_of_buffers(words, staged, i) is Err,
    ensures
        uses_of_buffers(words, staged, n) == uses_of_buffers(words, staged, i),
    decreases n - i,
{
    if i < n {
        lemma_uses_refused(words, staged, i, n - 1);
    }
}

/// Tell what the kernel does with each staged buffer.
pub fn buffer_uses(words: &[u32], staged: &Vec<StagedBuffer>) -> (uses: Result<
    Vec<BufferUse>,
    ComputeStatus,
>)
    ensures
        match (uses, uses_of_buffers(words@, staged@, staged.len() as int)) {
            (Ok(u), Ok(v)) => u@ == v && v.len() == staged.len(),
            (Err(a), Err(b)) => a == b,
            _ => false,
        },
{
    let mut uses: Vec<BufferUse> = Vec::new();
    assert(uses@ =~= Seq::<BufferUse>::empty());
    let mut i: usize = 0;
    while i < staged.len()
        invariant
            i <= staged.len(),
            uses.len() == i,
            uses_of_buffers(words@, staged@, i as int) == Ok::<Seq<BufferUse>, ComputeStatus>(
                uses@,
            ),
        decreases staged.len() - i,
    {
        let refused = match buffer_access(words, staged[i].bind.index) {
            Some(BufferAccess::ReadOnly) => {
                uses.push(BufferUse::ReadOnly);
                None
            },
            Some(BufferAccess::Writable) => {
                uses.push(BufferUse::Writable);
                None
            },
            Some(BufferAccess::PointerEscape) => Some(
                ComputeStatus::Unsupported("buffer_spirv_pointer_escape"),
            ),
            Some(BufferAccess::AmbiguousBinding) => Some(
                ComputeStatus::Unsupported("buffer_spirv_ambiguous_binding"),
            ),
            None => {
                uses.push(BufferUse::Unused);
                None
            },
        };
        match refused {
            Some(status) => {
                proof {
                    lemma_uses_refused(words@, staged@, i + 1, staged.len() as int);
                }
                return Err(status);
            },
            None => {},
        }
        i = i + 1;
    }
    Ok(uses)
}

/// What the kernel does with a bound texture.
#[derive(Clone, Copy, Debug, PartialEq, Eq, Structural)]
pub struct TextureUse {
    pub binding: u32,
    pub texture_ref: u32,
    /// The content access of a storage image; none for a sampled one.
    pub storage: Option<StorageImageAccess>,
}

/// The use of a bound texture; none where the kernel declares no image there, for
/// a bind may go unused. Sampled or storage is what the translator reflected.
pub open spec fn use_of_texture(
    words: Seq<u32>,
    reflection: ShaderReflection,
    bind: ComputeTextureBind,
) -> Result<Option<TextureUse>, ComputeStatus> {
    let binding = (TEXTURE_BINDING_BASE + bind.index) as u32;
    match shape_at(reflection.bindings@, binding) {
        None => Ok(None),
        Some(shape) => if !shape.writable {
            Ok(Some(TextureUse { binding, texture_ref: bind.texture_ref, storage: None }))
        } else {
            match storage_image_access_spec(words, binding) {
                None => Err(ComputeStatus::Unsupported("texture_spirv_storage_access_missing")),
                Some(StorageImageAccess::AmbiguousBinding) => Err(
                    ComputeStatus::Unsupported("texture_spirv_storage_ambiguous_binding"),
                ),
                Some(access) => Ok(
                    Some(
                        TextureUse {
                            binding,
                            texture_ref: bind.texture_ref,
                            storage: Some(access),
                        },
                    ),
                ),
            }
        },
    }
}

/// Tell what the kernel does with a bound texture.
pub fn texture_use(
    words: &[u32],
    reflection: &ShaderReflection,
    bind: &ComputeTextureBind,
) -> (found: Result<Option<TextureUse>, ComputeStatus>)
    requires
        TEXTURE_BINDING_BASE + bind.index <= u32::MAX,
    ensures
        found == use_of_texture(words@, *reflection, *bind),
{
    let binding: u32 = TEXTURE_BINDING_BASE + bind.index;
    match image_access_from_reflection(reflection, binding) {
        None => Ok(None),
        Some(ImageAccess::Sampled) => Ok(
            Some(TextureUse { binding, texture_ref: bind.texture_ref, storage: None }),
        ),
        Some(ImageAccess::Storage) => match storage_image_access(words, binding) {
            None => Err(ComputeStatus::Unsupported("texture_spirv_storage_access_missing")),
            Some(StorageImageAccess::AmbiguousBinding) => Err(
                ComputeStatus::Unsupported("texture_spirv_storage_ambiguous_binding"),
            ),
            Some(access) => Ok(
                Some(
                    TextureUse { binding, texture_ref: bind.texture_ref, storage: Some(access) },
                ),
            ),
        },
    }
}

/// The format that a storage binding is specialized from and to.
#[derive(Clone, Copy, Debug, PartialEq, Eq, Structural)]
pub struct StorageFormat {
    pub binding: u32,
    /// The bound surface's own.
    pub guest: StorageImageFormat,
    /// The one that the kernel declares.
    pub declared: ImageFormat,
    pub specialized: ImageFormat,
}

/// The format of one storage image, or why it has none.
pub open spec fn format_of_texture(
    words: Seq<u32>,
    texture: StagedTexture,
    write_without_format: bool,
) -> Result<StorageFormat, ComputeStatus> {
    match texture.storage_selector {
        None => Err(ComputeStatus::Unsupported("storage_no_selector_specialize")),
        Some(guest) => match image_format_spec(words, texture.binding) {
            None => Err(ComputeStatus::Unsupported("storage_spirv_format_missing")),
            Some(declared) => match specialized_format(guest, declared, write_without_format) {
                Err(_) => Err(ComputeStatus::Unsupported("storage_format_specialize_mismatch")),
                Ok(specialized) => Ok(
                    StorageFormat { binding: texture.binding, guest, declared, specialized },
                ),
            },
        },
    }
}

/// The formats of the storage images among the first `n` textures, or the first
/// refusal.
pub open spec fn formats_of_textures(
    words: Seq<u32>,
    textures: Seq<StagedTexture>,
    write_without_format: bool,
    n: int,
) -> Result<Seq<StorageFormat>, ComputeStatus>
    decreases n,
{
    if n <= 0 {
        Ok(Seq::empty())
    } else {
        match formats_of_textures(words, textures, write_without_format, n - 1) {
            Err(status) => Err(status),
            Ok(formats) => if !textures[n - 1].is_storage {
                Ok(formats)
            } else {
                match format_of_texture(words, textures[n - 1], write_without_format) {
                    Err(status) => Err(status),
                    Ok(format) => Ok(formats.push(format)),
                }
            },
        }
    }
}

proof fn lemma_formats_refused(
    words: Seq<u32>,
    textures: Seq<StagedTexture>,
    write_without_format: bool,
    i: int,
    n: int,
)
    requires
        i <= n,
        formats_of_textures(words, textures, write_without_format, i) is Err,
    ensures
        formats_of_textures(words, textures, write_without_format, n) == formats_of_textures(
            words,
            textures,
            write_without_format,
            i,
        ),
    decreases n - i,
{
    if i < n {
        lemma_formats_refused(words, textures, write_without_format, i, n - 1);
    }
}

fn texture_format(words: &[u32], texture: &StagedTexture, write_without_format: bool) -> (format:
    Result<StorageFormat, ComputeStatus>)
    ensures
        format == format_of_texture(words@, *texture, write_without_format),
{
    let guest = match texture.storage_selector {
        Some(guest) => guest,
        None => {
            return Err(ComputeStatus::Unsupported("storage_no_selector_specialize"));
        },
    };
    let declared = match image_format(words, texture.binding) {
        Some(declared) => declared,
        None => {
            return Err(ComputeStatus::Unsupported("storage_spirv_format_missing"));
        },
    };
    match specialized_storage_image_format(guest, declared, write_without_format) {
        Ok(specialized) => Ok(
            StorageFormat { binding: texture.binding, guest, declared, specialized },
        ),
        Err(_) => Err(ComputeStatus::Unsupported("storage_format_specialize_mismatch")),
    }
}

/// Decide the format of each storage image.
pub fn storage_formats(
    words: &[u32],
    textures: &Vec<StagedTexture>,
    write_without_format: bool,
) -> (formats: Result<Vec<StorageFormat>, ComputeStatus>)
    ensures
        match (
            formats,
            formats_of_textures(words@, textures@, write_without_format, textures.len() as int),
        ) {
            (Ok(f), Ok(v)) => f@ == v,
            (Err(a), Err(b)) => a == b,
            _ => false,
        },
{
    let mut formats: Vec<StorageFormat> = Vec::new();
    assert(formats@ =~= Seq::<StorageFormat>::empty());
    let mut i: usize = 0;
    while i < textures.len()
        invariant
            i <= textures.len(),
            formats_of_textures(words@, textures@, write_without_format, i as int) == Ok::<
                Seq<StorageFormat>,
                ComputeStatus,
            >(formats@),
        decreases textures.len() - i,
    {
        if textures[i].is_storage {
            match texture_format(words, &textures[i], write_without_format) {
                Ok(format) => formats.push(format),
                Err(status) => {
                    proof {
                        lemma_formats_refused(
                            words@,
                            textures@,
                            write_without_format,
                            i + 1,
                            textures.len() as int,
                        );
                    }
                    return Err(status);
                },
            }
        }
        i = i + 1;
    }
    Ok(formats)
}

/// The formats as requests by binding.
pub open spec fn requests(formats: Seq<StorageFormat>) -> Seq<(u32, ImageFormat)> {
    Seq::new(formats.len(), |i: int| (formats[i].binding, formats[i].specialized))
}

/// Some image is written without a format.
pub open spec fn writes_unformatted(formats: Seq<StorageFormat>) -> bool {
    exists|i: int|
        0 <= i < formats.len() && (#[trigger] formats[i]).specialized == ImageFormat::Unknown
}

/// The module with the capability declared, whether or not it was.
pub open spec fn capable(words: Seq<u32>) -> Seq<u32> {
    if words.len() >= HEADER_WORDS && !declares_capability(words, HEADER_WORDS as int) {
        with_capability(words)
    } else {
        words
    }
}

/// `after` is the kernel specialized to the formats.
pub open spec fn is_specialized(
    before: Seq<u32>,
    formats: Seq<StorageFormat>,
    retyped: Seq<u32>,
    after: Seq<u32>,
) -> bool {
    &&& is_retyped(before, requests(formats), retyped)
    &&& first_unread(retyped, requests(formats)) is None
    &&& after == if writes_unformatted(formats) {
        capable(retyped)
    } else {
        retyped
    }
}

/// Specialize the kernel to the bound surfaces' formats. A format-less image needs
/// the module to declare that it writes one.
pub fn specialize_kernel(words: &mut Vec<u32>, formats: &Vec<StorageFormat>) -> (outcome: Result<
    (),
    ComputeStatus,
>)
    requires
        module_ok(old(words)@) && first_request_error(old(words)@, requests(formats@)) is None
            ==> id_bound(old(words)@) + fresh_ids(old(words)@, requests(formats@)) <= u32::MAX,
    ensures
        match outcome {
            Ok(_) => module_ok(old(words)@) && first_request_error(
                old(words)@,
                requests(formats@),
            ) is None && exists|retyped: Seq<u32>| #[trigger]
                is_specialized(old(words)@, formats@, retyped, final(words)@),
            Err(status) => {
                &&& status == ComputeStatus::Unsupported("storage_format_specialize_error")
                &&& if module_ok(old(words)@) && first_request_error(
                    old(words)@,
                    requests(formats@),
                ) is None {
                    is_retyped(old(words)@, requests(formats@), final(words)@) && first_unread(
                        final(words)@,
                        requests(formats@),
                    ) is Some
                } else {
                    final(words)@ == old(words)@
                }
            },
        },
{
    let mut requested: Vec<(u32, ImageFormat)> = Vec::new();
    let mut unformatted = false;
    let mut i: usize = 0;
    while i < formats.len()
        invariant
            i <= formats.len(),
            requested@ =~= requests(formats@).take(i as int),
            unformatted == exists|k: int|
                0 <= k < i && (#[trigger] formats[k]).specialized == ImageFormat::Unknown,
        decreases formats.len() - i,
    {
        let format = formats[i];
        requested.push((format.binding, format.specialized));
        let unknown = match format.specialized {
            ImageFormat::Unknown => true,
            _ => false,
        };
        if unknown {
            assert(formats[i as int].specialized == ImageFormat::Unknown);
            unformatted = true;
        }
        i = i + 1;
    }
    assert(requested@ =~= requests(formats@));
    assert(unformatted == writes_unformatted(formats@));
    let ghost before = words@;
    match specialize_image_formats(words, requested.as_slice()) {
        Ok(_) => {},
        Err(_) => {
            return Err(ComputeStatus::Unsupported("storage_format_specialize_error"));
        },
    }
    let ghost retyped = words@;
    if unformatted {
        ensure_storage_write_without_format_capability(words);
    }
    assert(is_specialized(before, formats@, retyped, words@));
    Ok(())
}

/// A sampler that the kernel declares, and what is bound there.
#[derive(Clone, Copy, Debug, PartialEq, Eq, Structural)]
pub struct SamplerUse {
    pub binding: u32,
    /// The bind; without one the sampler is the normalized default.
    pub bind: Option<ComputeSamplerBind>,
}

/// The declared samplers among the first `n` binds.
pub open spec fn bound_samplers(words: Seq<u32>, binds: Seq<ComputeSamplerBind>, n: int) -> Seq<
    SamplerUse,
>
    decreases n,
{
    if n <= 0 {
        Seq::empty()
    } else {
        let rest = bound_samplers(words, binds, n - 1);
        let binding = (SAMPLER_BINDING_BASE + binds[n - 1].index) as u32;
        if is_sampler_binding(words, binding) {
            rest.push(SamplerUse { binding, bind: Some(binds[n - 1]) })
        } else {
            rest
        }
    }
}

/// Some use is of `binding`.
pub open spec fn covers(uses: Seq<SamplerUse>, binding: u32) -> bool {
    exists|i: int| 0 <= i < uses.len() && (#[trigger] uses[i]).binding == binding
}

/// The bindings of the uses from `from` on.
pub open spec fn use_bindings(uses: Seq<SamplerUse>, from: int) -> Seq<u32> {
    Seq::new((uses.len() - from) as nat, |i: int| uses[from + i].binding)
}

/// The uses are the bound samplers, followed by a default for each declared sampler
/// that nothing is bound to, in ascending order.
pub open spec fn are_sampler_uses(
    words: Seq<u32>,
    binds: Seq<ComputeSamplerBind>,
    uses: Seq<SamplerUse>,
) -> bool {
    let bound = bound_samplers(words, binds, binds.len() as int);
    &&& bound.len() <= uses.len()
    &&& uses.take(bound.len() as int) == bound
    &&& ascending(use_bindings(uses, bound.len() as int))
    &&& forall|i: int| bound.len() <= i < uses.len() ==> (#[trigger] uses[i]).bind is None
    &&& forall|b: u32|
        #![trigger is_sampler_binding(words, b)]
        #![trigger covers(bound, b)]
        use_bindings(uses, bound.len() as int).contains(b) <==> is_sampler_binding(words, b)
            && !covers(bound, b)
}

fn find_binding(bindings: &Vec<u32>, binding: u32) -> (found: bool)
    ensures
        found == bindings@.contains(binding),
{
    let mut i: usize = 0;
    while i < bindings.len()
        invariant
            i <= bindings.len(),
            forall|k: int| 0 <= k < i ==> bindings[k] != binding,
        decreases bindings.len() - i,
    {
        if bindings[i] == binding {
            return true;
        }
        i = i + 1;
    }
    false
}

fn find_use(uses: &Vec<SamplerUse>, binding: u32) -> (found: bool)
    ensures
        found == covers(uses@, binding),
{
    let mut i: usize = 0;
    while i < uses.len()
        invariant
            i <= uses.len(),
            forall|k: int| 0 <= k < i ==> (#[trigger] uses[k]).binding != binding,
        decreases uses.len() - i,
    {
        if uses[i].binding == binding {
            return true;
        }
        i = i + 1;
    }
    false
}

/// Tell which samplers the kernel needs, and which binds they come from.
pub fn sampler_uses(words: &[u32], binds: &Vec<ComputeSamplerBind>) -> (uses: Vec<SamplerUse>)
    requires
        forall|i: int|
            0 <= i < binds.len() ==> SAMPLER_BINDING_BASE + (#[trigger] binds[i]).index <= u32::MAX,
    ensures
        are_sampler_uses(words@, binds@, uses@),
{
    let declared = sampler_bindings(words);
    let mut uses: Vec<SamplerUse> = Vec::new();
    assert(uses@ =~= bound_samplers(words@, binds@, 0));
    let mut i: usize = 0;
    while i < binds.len()
        invariant
            i <= binds.len(),
            forall|b: u32| #[trigger] declared@.contains(b) <==> is_sampler_binding(words@, b),
            forall|k: int|
                0 <= k < binds.len() ==> SAMPLER_BINDING_BASE + (#[trigger] binds[k]).index
                    <= u32::MAX,
            uses@ == bound_samplers(words@, binds@, i as int),
        decreases binds.len() - i,
    {
        let binding: u32 = SAMPLER_BINDING_BASE + binds[i].index;
        if find_binding(&declared, binding) {
            uses.push(SamplerUse { binding, bind: Some(binds[i]) });
        }
        i = i + 1;
    }
    let ghost bound = uses@;
    let ghost n = bound.len() as int;
    let mut j: usize = 0;
    while j < declared.len()
        invariant
            j <= declared.len(),
            ascending(declared@),
            n == bound.len() <= uses.len(),
            uses@.take(n) =~= bound,
            forall|k: int| n <= k < uses.len() ==> (#[trigger] uses[k]).bind is None,
            forall|k: int|
                n <= k < uses.len() ==> !covers(bound, (#[trigger] uses[k]).binding)
                    && declared@.take(j as int).contains(uses[k].binding),
            forall|k: int|
                0 <= k < j && !covers(bound, #[trigger] declared[k]) ==> use_bindings(
                    uses@,
                    n,
                ).contains(declared[k]),
            ascending(use_bindings(uses@, n)),
        decreases declared.len() - j,
    {
        let binding: u32 = declared[j];
        let ghost before = uses@;
        let fresh = !find_use(&uses, binding);
        proof {
            if covers(bound, binding) {
                let k = choose|k: int| 0 <= k < bound.len() && bound[k].binding == binding;
                assert(uses@.take(n)[k] == bound[k]);
                assert(uses@[k].binding == binding);
            }
            if covers(uses@, binding) && !covers(bound, binding) {
                let k = choose|k: int| 0 <= k < uses@.len() && uses@[k].binding == binding;
                if k < n {
                    assert(bound[k] == uses@.take(n)[k]);
                } else {
                    assert(declared@.take(j as int).contains(uses@[k].binding));
                    let p = choose|p: int| 0 <= p < j && declared@.take(j as int)[p] == binding;
                    assert(declared@[p] < declared@[j as int]);
                }
            }
            assert(fresh == !covers(bound, binding));
        }
        if fresh {
            uses.push(SamplerUse { binding, bind: None });
            proof {
                let names = use_bindings(before, n);
                let more = use_bindings(uses@, n);
                assert(more =~= names.push(binding));
                assert forall|a: int, b: int| 0 <= a < b < more.len() implies more[a] < more[b] by {
                    if b == more.len() - 1 {
                        assert(declared@.take(j as int).contains(uses[n + a].binding));
                        let p = choose|p: int|
                            0 <= p < j && declared@.take(j as int)[p] == uses[n + a].binding;
                        assert(declared@[p] < declared@[j as int]);
                    } else {
                        assert(names[a] < names[b]);
                    }
                }
                assert(more[more.len() - 1] == binding);
                assert forall|k: int|
                    0 <= k < j + 1 && !covers(bound, #[trigger] declared[k]) implies more.contains(
                    declared[k],
                ) by {
                    if k < j {
                        assert(names.contains(declared[k]));
                        let p = choose|p: int| 0 <= p < names.len() && names[p] == declared[k];
                        assert(more[p] == declared[k]);
                    }
                }
            }
        }
        proof {
            let seen = declared@.take(j + 1);
            assert(seen =~= declared@.take(j as int).push(binding));
            assert(seen[j as int] == binding);
            assert forall|k: int| n <= k < uses.len() implies seen.contains(
                (#[trigger] uses[k]).binding,
            ) by {
                if k < before.len() {
                    assert(uses[k] == before[k]);
                    assert(declared@.take(j as int).contains(before[k].binding));
                    let p = choose|p: int|
                        0 <= p < j && declared@.take(j as int)[p] == before[k].binding;
                    assert(seen[p] == before[k].binding);
                }
            }
        }
        j = j + 1;
    }
    proof {
        assert(declared@.take(j as int) =~= declared@);
        assert forall|b: u32| use_bindings(uses@, n).contains(b) <==> is_sampler_binding(words@, b)
            && !covers(bound, b) by {
            if use_bindings(uses@, n).contains(b) {
                let k = choose|k: int|
                    0 <= k < use_bindings(uses@, n).len() && use_bindings(uses@, n)[k] == b;
                assert(uses[n + k].binding == b);
            }
            if is_sampler_binding(words@, b) && !covers(bound, b) {
                assert(declared@.contains(b));
                let k = choose|k: int| 0 <= k < declared@.len() && declared@[k] == b;
                assert(!covers(bound, declared[k]));
            }
        }
    }
    uses
}

/// Every sampler that the kernel declares is there to be bound.
pub proof fn law_every_declared_sampler_is_served(
    words: Seq<u32>,
    binds: Seq<ComputeSamplerBind>,
    uses: Seq<SamplerUse>,
    binding: u32,
)
    requires
        are_sampler_uses(words, binds, uses),
        is_sampler_binding(words, binding),
    ensures
        covers(uses, binding),
{
    let bound = bound_samplers(words, binds, binds.len() as int);
    let n = bound.len() as int;
    if covers(bound, binding) {
        let k = choose|k: int| 0 <= k < bound.len() && bound[k].binding == binding;
        assert(uses.take(n)[k] == bound[k]);
        assert(uses[k].binding == binding);
    } else {
        let names = use_bindings(uses, n);
        assert(names.contains(binding));
        let k = choose|k: int| 0 <= k < names.len() && names[k] == binding;
        assert(uses[n + k].binding == binding);
    }
}

} // verus!
