//! What a dispatch loads, and what its kernel does with its binds.

use vstd::prelude::*;
use crate::compute_exec::accum::{ComputeBufferBind, ComputeSamplerBind, ComputeTextureBind};
use crate::compute_exec::buffers::{
    BufferDescriptor, FunctionDescriptor, LoadMiss, Lookup, PipelineDescriptor, StagedBuffer,
    buffer_backing, buffer_plan, mtlb_plan, pipeline_loaded, window_plan,
};
use crate::compute_exec::format::specialized_format;
use crate::compute_exec::kernel::{
    KernelSource, SamplerUse, StorageFormat, are_sampler_uses, bound_samplers, covers,
    formats_of_textures, is_specialized, requests, use_bindings, use_of_texture, uses_of_buffers,
    words_or_refusal, writes_unformatted,
};
use crate::compute_exec::status::ComputeStatus;
use crate::compute_exec::texture::StagedTexture;
use crate::spirv_bind::access::{
    BufferAccess, StorageImageAccess, buffer_access_spec, storage_image_access_spec,
};
use crate::spirv_bind::capability::declares_capability;
use crate::spirv_bind::format::{ImageFormat, image_format_spec};
use crate::spirv_bind::reflection::{ShaderReflection, shape_at};
use crate::spirv_bind::samplers::is_sampler_binding;

verus! {

/// A buffer lies at its handle's page, `2^shift` bytes each, and is as long as it was
/// allocated. Without a handle or a length it lies nowhere.
pub proof fn law_where_a_buffer_lies(
    reference: u32,
    desc: BufferDescriptor,
    page_shift: u32,
)
    requires
        page_shift < 32,
    ensures
        ({
            let found = buffer_backing(reference, Lookup::Decoded(desc), page_shift);
            &&& found is Some <==> reference > 0 && desc.handle > 0 && desc.allocation_size > 0
            &&& found is Some ==> (found->0).0 == desc.handle * crate::contract::page_bytes(
                page_shift,
            ) && (found->0).1 == desc.allocation_size
        }),
        forall|lookup: Lookup<BufferDescriptor>|
            !(lookup is Decoded) ==> #[trigger] buffer_backing(reference, lookup, page_shift)
                is None,
{
    crate::mapper::control_laws::lemma_frame(desc.handle, page_shift);
}

/// A bound buffer is staged from its offset to its end. It is refused where the offset is
/// not within it.
pub proof fn law_bound_buffer_is_staged_to_its_end(
    bind: ComputeBufferBind,
    desc: BufferDescriptor,
    page_shift: u32,
    other: u8,
)
    requires
        page_shift < 32,
    ensures
        ({
            let plan = buffer_plan(bind, Lookup::Decoded(desc), page_shift);
            let base = desc.handle * crate::contract::page_bytes(page_shift);
            let size = desc.allocation_size;
            let there = desc.handle > 0 && size > 0;
            &&& plan is Ok ==> there && bind.offset < size && (plan->Ok_0).0 == base + bind.offset
                && (plan->Ok_0).1 == size - bind.offset
            &&& there && bind.offset < size && base + bind.offset <= u64::MAX && size - bind.offset
                <= usize::MAX ==> plan is Ok
            &&& !there ==> plan == Err::<(u64, usize), ComputeStatus>(
                ComputeStatus::MissingBuffer("compute_stage_buf_no_backing"),
            )
            &&& there && bind.offset >= size ==> plan == Err::<(u64, usize), ComputeStatus>(
                ComputeStatus::MissingBuffer("compute_stage_buf_off_oob"),
            )
        }),
        buffer_plan(bind, Lookup::NoEntry, page_shift) == Err::<(u64, usize), ComputeStatus>(
            ComputeStatus::MissingBuffer("compute_stage_buf_no_entry"),
        ),
        buffer_plan(bind, Lookup::WrongType(other), page_shift) == Err::<
            (u64, usize),
            ComputeStatus,
        >(ComputeStatus::MissingBuffer("compute_stage_buf_wrong_type")),
        buffer_plan(bind, Lookup::NoDescriptor, page_shift) == Err::<(u64, usize), ComputeStatus>(
            ComputeStatus::MissingBuffer("compute_stage_buf_no_desc"),
        ),
        buffer_plan(bind, Lookup::Undecoded, page_shift) == Err::<(u64, usize), ComputeStatus>(
            ComputeStatus::MissingBuffer("compute_stage_buf_decode"),
        ),
{
    crate::mapper::control_laws::lemma_frame(desc.handle, page_shift);
}

/// A window of a buffer lies at its offset, and all of it within the buffer.
pub proof fn law_buffer_window_lies_within(
    reference: u32,
    desc: BufferDescriptor,
    page_shift: u32,
    offset: u64,
    len: usize,
)
    requires
        page_shift < 32,
    ensures
        ({
            let plan = window_plan(reference, Lookup::Decoded(desc), page_shift, offset, len);
            let base = desc.handle * crate::contract::page_bytes(page_shift);
            let there = reference > 0 && desc.handle > 0 && desc.allocation_size > 0;
            &&& plan is Ok <==> there && offset + len <= desc.allocation_size && base + offset
                <= u64::MAX
            &&& plan is Ok ==> plan->Ok_0 == base + offset
            &&& !there ==> plan == Err::<u64, ComputeStatus>(
                ComputeStatus::MissingBuffer("compute_buf_win_no_backing"),
            )
            &&& there && offset + len > desc.allocation_size ==> plan == Err::<u64, ComputeStatus>(
                ComputeStatus::MissingBuffer("compute_buf_win_oob"),
            )
        }),
{
    crate::mapper::control_laws::lemma_frame(desc.handle, page_shift);
}

/// A function's container is read where its descriptor says, whole. An empty reference, an
/// address of zero and fewer than four bytes are refused.
pub proof fn law_containers(reference: u32, f: FunctionDescriptor)
    ensures
        ({
            let plan = mtlb_plan(reference, Lookup::Decoded(f));
            &&& plan is Ok <==> reference > 0 && f.blob_gva > 0 && f.blob_size >= 4
            &&& plan is Ok ==> (plan->Ok_0).0 == f.blob_gva && (plan->Ok_0).1 == f.blob_size
            &&& reference == 0 ==> plan == Err::<(u64, usize), LoadMiss>(LoadMiss::Unbound)
            &&& reference > 0 && plan is Err ==> plan == Err::<(u64, usize), LoadMiss>(
                LoadMiss::BadBlob,
            )
        }),
        reference > 0 ==> mtlb_plan(reference, Lookup::NoEntry) == Err::<(u64, usize), LoadMiss>(
            LoadMiss::NoEntry,
        ) && mtlb_plan(reference, Lookup::NoDescriptor) == Err::<(u64, usize), LoadMiss>(
            LoadMiss::NoDescriptor,
        ) && mtlb_plan(reference, Lookup::Undecoded) == Err::<(u64, usize), LoadMiss>(
            LoadMiss::Undecoded,
        ),
{
}

/// A compute pipeline loads with its kernel, and with its stage input where that came
/// whole and holds anything.
pub proof fn law_pipelines(reference: u32, descriptor: PipelineDescriptor)
    ensures
        ({
            let loaded = pipeline_loaded(reference, Lookup::Decoded(descriptor));
            match descriptor {
                PipelineDescriptor::Compute { kernel_func_ref, stage_input } => {
                    &&& loaded is Ok <==> reference > 0 && kernel_func_ref > 0
                    &&& loaded is Ok ==> (loaded->Ok_0).kernel_func_ref == kernel_func_ref
                    &&& loaded is Ok ==> ((loaded->Ok_0).stage_input is Some <==> stage_input is Some
                        && (stage_input->0).dropped_attributes == 0 && (
                    stage_input->0).dropped_layouts == 0 && (stage_input->0).attributes.len() + (
                    stage_input->0).layouts.len() > 0)
                    &&& loaded is Ok && (loaded->Ok_0).stage_input is Some ==> (
                    loaded->Ok_0).stage_input == stage_input
                },
                PipelineDescriptor::Other => loaded is Err,
            }
        }),
        reference == 0 ==> pipeline_loaded(reference, Lookup::Decoded(descriptor)) is Err,
        pipeline_loaded(reference, Lookup::NoEntry) is Err,
        pipeline_loaded(reference, Lookup::NoDescriptor) is Err,
        pipeline_loaded(reference, Lookup::Undecoded) is Err,
{
}

/// A translated kernel is a module where it has 20 bytes at least and whole words.
pub proof fn law_translated_kernels(bytes: Vec<u8>, i: int)
    requires
        0 <= i < bytes.len() / 4,
    ensures
        ({
            let words = words_or_refusal(KernelSource::Translated(bytes));
            &&& words is Ok <==> bytes.len() >= 20 && bytes.len() % 4 == 0
            &&& words is Ok ==> (words->Ok_0).len() == bytes.len() / 4 && (words->Ok_0)[i]
                == crate::compute_exec::dims_laws::word_at(bytes@, 4 * i)
            &&& words is Err ==> words->Err_0 == ComputeStatus::MetalFailed(
                "compute_vk_spirv_parse",
            )
        }),
        words_or_refusal(KernelSource::NoContainer) == Err::<Seq<u32>, ComputeStatus>(
            ComputeStatus::MissingMtlb("compute_vk_mtlb_load"),
        ),
        words_or_refusal(KernelSource::NoBitcode) == Err::<Seq<u32>, ComputeStatus>(
            ComputeStatus::MetalFailed("compute_vk_air_extract"),
        ),
        words_or_refusal(KernelSource::Untranslated) == Err::<Seq<u32>, ComputeStatus>(
            ComputeStatus::MetalFailed("compute_vk_translate"),
        ),
{
    crate::compute_exec::format_laws::law_words_are_little_endian(bytes@, i);
}

/// Every staged buffer is used as the module uses the binding of its slot. The first one
/// whose use is open refuses the dispatch, by its name.
pub proof fn law_buffers_are_used_as_the_module_does(
    words: Seq<u32>,
    staged: Seq<StagedBuffer>,
    n: int,
)
    requires
        0 <= n <= staged.len(),
    ensures
        match uses_of_buffers(words, staged, n) {
            Ok(uses) => {
                &&& uses.len() == n
                &&& forall|i: int|
                    0 <= i < n ==> match buffer_access_spec(
                        words,
                        (#[trigger] staged[i]).bind.index,
                    ) {
                        Some(BufferAccess::ReadOnly) => uses[i] is ReadOnly,
                        Some(BufferAccess::Writable) => uses[i] is Writable,
                        None => uses[i] is Unused,
                        _ => false,
                    }
            },
            Err(status) => exists|i: int|
                {
                    &&& 0 <= i < n
                    &&& match buffer_access_spec(words, (#[trigger] staged[i]).bind.index) {
                        Some(BufferAccess::PointerEscape) => status == ComputeStatus::Unsupported(
                            "buffer_spirv_pointer_escape",
                        ),
                        Some(BufferAccess::AmbiguousBinding) => status
                            == ComputeStatus::Unsupported("buffer_spirv_ambiguous_binding"),
                        _ => false,
                    }
                },
        },
    decreases n,
{
    if n > 0 {
        law_buffers_are_used_as_the_module_does(words, staged, n - 1);
        if uses_of_buffers(words, staged, n - 1) is Ok && uses_of_buffers(words, staged, n) is Err {
            assert(staged[n - 1] == staged[n - 1]);
        }
    }
}

/// A bound texture is the kernel's argument at 32 and its slot. It is staged for storage
/// where the reflection calls it writable, with the access that the module shows, and for
/// sampling otherwise; one that the reflection does not know is not used.
pub proof fn law_textures_are_used_as_reflected(
    words: Seq<u32>,
    reflection: ShaderReflection,
    bind: ComputeTextureBind,
)
    requires
        bind.index < 0xffff_ffe0,
    ensures
        ({
            let found = use_of_texture(words, reflection, bind);
            let binding = (32 + bind.index) as u32;
            let shape = shape_at(reflection.bindings@, binding);
            let access = storage_image_access_spec(words, binding);
            &&& found == Ok::<
                Option<crate::compute_exec::kernel::TextureUse>,
                ComputeStatus,
            >(None) <==> shape is None
            &&& found is Ok && found->Ok_0 is Some ==> {
                let used = found->Ok_0->0;
                &&& used.binding == binding
                &&& used.texture_ref == bind.texture_ref
                &&& used.storage is Some <==> (shape->0).writable
                &&& used.storage is Some ==> used.storage == access
            }
            &&& found is Err <==> shape is Some && (shape->0).writable && (access is None || access
                == Some(StorageImageAccess::AmbiguousBinding))
            &&& found is Err && access is None ==> found->Err_0 == ComputeStatus::Unsupported(
                "texture_spirv_storage_access_missing",
            )
            &&& found is Err && access is Some ==> found->Err_0 == ComputeStatus::Unsupported(
                "texture_spirv_storage_ambiguous_binding",
            )
        }),
{
}

/// Some storage image among the first `n` textures has this format.
pub open spec fn of_some_texture(
    words: Seq<u32>,
    textures: Seq<StagedTexture>,
    without: bool,
    n: int,
    format: StorageFormat,
) -> bool {
    exists|i: int|
        0 <= i < n && textures[i].is_storage && #[trigger] is_format_of(
            words,
            textures[i],
            without,
            format,
        )
}

/// One of the formats is the storage image's.
pub open spec fn among_formats(
    words: Seq<u32>,
    texture: StagedTexture,
    without: bool,
    formats: Seq<StorageFormat>,
) -> bool {
    exists|f: int|
        0 <= f < formats.len() && #[trigger] is_format_of(words, texture, without, formats[f])
}

/// The storage images among the textures are given formats: each its own binding, its
/// surface's format, the one its kernel declares, and the one that it takes for that
/// surface. Sampled images are given none. One that cannot be given any refuses the
/// dispatch.
pub proof fn law_storage_images_are_given_formats(
    words: Seq<u32>,
    textures: Seq<StagedTexture>,
    without: bool,
    n: int,
)
    requires
        0 <= n <= textures.len(),
    ensures
        match formats_of_textures(words, textures, without, n) {
            Ok(formats) => {
                &&& forall|f: int|
                    0 <= f < formats.len() ==> of_some_texture(
                        words,
                        textures,
                        without,
                        n,
                        #[trigger] formats[f],
                    )
                &&& forall|i: int|
                    0 <= i < n && (#[trigger] textures[i]).is_storage ==> among_formats(
                        words,
                        textures[i],
                        without,
                        formats,
                    )
            },
            Err(status) => exists|i: int|
                0 <= i < n && (#[trigger] textures[i]).is_storage && refuses_format(
                    words,
                    textures[i],
                    without,
                    status,
                ),
        },
    decreases n,
{
    if n > 0 {
        law_storage_images_are_given_formats(words, textures, without, n - 1);
        let before = formats_of_textures(words, textures, without, n - 1);
        let t = textures[n - 1];
        match (before, formats_of_textures(words, textures, without, n)) {
            (Ok(rest), Ok(formats)) => {
                if t.is_storage {
                    assert(formats == rest.push(formats.last()));
                    assert(is_format_of(words, textures[n - 1], without, formats.last()));
                }
                assert forall|f: int| 0 <= f < formats.len() implies of_some_texture(
                    words,
                    textures,
                    without,
                    n,
                    #[trigger] formats[f],
                ) by {
                    if f < rest.len() {
                        assert(formats[f] == rest[f]);
                        let i = choose|i: int|
                            0 <= i < n - 1 && textures[i].is_storage && #[trigger] is_format_of(
                                words,
                                textures[i],
                                without,
                                rest[f],
                            );
                        assert(is_format_of(words, textures[i], without, formats[f]));
                    } else {
                        assert(formats[f] == formats.last());
                        assert(is_format_of(words, textures[n - 1], without, formats[f]));
                    }
                }
                assert forall|i: int| 0 <= i < n && (#[trigger] textures[i]).is_storage implies
                    among_formats(words, textures[i], without, formats) by {
                    if i < n - 1 {
                        let f = choose|f: int|
                            0 <= f < rest.len() && #[trigger] is_format_of(
                                words,
                                textures[i],
                                without,
                                rest[f],
                            );
                        assert(formats[f] == rest[f]);
                        assert(is_format_of(words, textures[i], without, formats[f]));
                    } else {
                        let f = formats.len() - 1;
                        assert(is_format_of(words, textures[i], without, formats[f]));
                    }
                }
            },
            (Ok(rest), Err(status)) => {
                assert(textures[n - 1].is_storage);
                assert(refuses_format(words, textures[n - 1], without, status));
            },
            (Err(status), _) => {
                let i = choose|i: int|
                    0 <= i < n - 1 && (#[trigger] textures[i]).is_storage && refuses_format(
                        words,
                        textures[i],
                        without,
                        status,
                    );
                assert(textures[i].is_storage);
            },
        }
    }
}

/// The format is the one of the storage image.
pub open spec fn is_format_of(
    words: Seq<u32>,
    texture: StagedTexture,
    without: bool,
    format: StorageFormat,
) -> bool {
    &&& format.binding == texture.binding
    &&& texture.storage_selector == Some(format.guest)
    &&& image_format_spec(words, texture.binding) == Some(format.declared)
    &&& specialized_format(format.guest, format.declared, without) == Ok::<
        ImageFormat,
        &'static str,
    >(format.specialized)
}

/// The storage image has no format, for this reason.
pub open spec fn refuses_format(
    words: Seq<u32>,
    texture: StagedTexture,
    without: bool,
    status: ComputeStatus,
) -> bool {
    let declared = image_format_spec(words, texture.binding);
    let guest = texture.storage_selector;
    ||| guest is None && status == ComputeStatus::Unsupported("storage_no_selector_specialize")
    ||| guest is Some && declared is None && status == ComputeStatus::Unsupported(
        "storage_spirv_format_missing",
    )
    ||| guest is Some && declared is Some && specialized_format(guest->0, declared->0, without)
        is Err && status == ComputeStatus::Unsupported("storage_format_specialize_mismatch")
}

/// Every sampler that the kernel declares is used once: from the bind of its slot where
/// there is one, at 64 and the slot, and with the default otherwise. No other is used.
pub proof fn law_samplers_are_used(
    words: Seq<u32>,
    binds: Seq<ComputeSamplerBind>,
    uses: Seq<SamplerUse>,
    binding: u32,
)
    requires
        are_sampler_uses(words, binds, uses),
        forall|i: int| 0 <= i < binds.len() ==> (#[trigger] binds[i]).index < 16,
    ensures
        (exists|i: int| 0 <= i < uses.len() && (#[trigger] uses[i]).binding == binding)
            <==> is_sampler_binding(words, binding),
        forall|i: int|
            0 <= i < uses.len() && (#[trigger] uses[i]).bind is Some ==> binds.contains(
                uses[i].bind->0,
            ) && uses[i].binding == 64 + (uses[i].bind->0).index,
        forall|i: int|
            0 <= i < uses.len() && (#[trigger] uses[i]).bind is None ==> forall|k: int|
                0 <= k < binds.len() ==> 64 + (#[trigger] binds[k]).index != uses[i].binding,
{
    let n = binds.len() as int;
    let bound = bound_samplers(words, binds, n);
    lemma_bound(words, binds, n);
    assert forall|i: int| 0 <= i < bound.len() implies uses[i] == bound[i] by {
        assert(uses.take(bound.len() as int)[i] == bound[i]);
    }
    let rest = use_bindings(uses, bound.len() as int);
    assert forall|i: int| bound.len() <= i < uses.len() implies rest.contains(
        (#[trigger] uses[i]).binding,
    ) by {
        assert(rest[i - bound.len()] == uses[i].binding);
    }
    if is_sampler_binding(words, binding) {
        if covers(bound, binding) {
            let i = choose|i: int| 0 <= i < bound.len() && (#[trigger] bound[i]).binding == binding;
            assert(uses[i].binding == binding);
        } else {
            assert(rest.contains(binding));
            let k = choose|k: int| 0 <= k < rest.len() && rest[k] == binding;
            assert(uses[bound.len() + k].binding == binding);
        }
    }
    if exists|i: int| 0 <= i < uses.len() && (#[trigger] uses[i]).binding == binding {
        let i = choose|i: int| 0 <= i < uses.len() && (#[trigger] uses[i]).binding == binding;
        if i < bound.len() {
            assert(uses[i] == bound[i]);
        } else {
            assert(rest.contains(uses[i].binding));
        }
    }
    assert forall|i: int|
        0 <= i < uses.len() && (#[trigger] uses[i]).bind is None implies forall|k: int|
        0 <= k < binds.len() ==> 64 + (#[trigger] binds[k]).index != uses[i].binding by {
        assert(i >= bound.len());
        let b = uses[i].binding;
        assert(rest.contains(b));
        assert(is_sampler_binding(words, b) && !covers(bound, b));
        assert forall|k: int| 0 <= k < binds.len() implies 64 + (#[trigger] binds[k]).index != b by {
            if 64 + binds[k].index == b {
                assert(covers(bound, b));
            }
        }
    }
}

proof fn lemma_bound(words: Seq<u32>, binds: Seq<ComputeSamplerBind>, n: int)
    requires
        0 <= n <= binds.len(),
        forall|i: int| 0 <= i < binds.len() ==> (#[trigger] binds[i]).index < 16,
    ensures
        ({
            let bound = bound_samplers(words, binds, n);
            &&& forall|i: int|
                0 <= i < bound.len() ==> (#[trigger] bound[i]).bind is Some && binds.contains(
                    bound[i].bind->0,
                ) && bound[i].binding == 64 + (bound[i].bind->0).index && is_sampler_binding(
                    words,
                    bound[i].binding,
                )
            &&& forall|k: int|
                0 <= k < n && is_sampler_binding(
                    words,
                    (64 + (#[trigger] binds[k]).index) as u32,
                ) ==> covers(bound, (64 + binds[k].index) as u32)
        }),
    decreases n,
{
    if n > 0 {
        lemma_bound(words, binds, n - 1);
        let rest = bound_samplers(words, binds, n - 1);
        let bound = bound_samplers(words, binds, n);
        let b = (64 + binds[n - 1].index) as u32;
        if is_sampler_binding(words, b) {
            assert(bound[rest.len() as int].binding == b);
            assert(binds.contains(binds[n - 1]));
        }
        assert forall|i: int| 0 <= i < rest.len() implies bound[i] == rest[i] by {}
        assert forall|k: int|
            0 <= k < n && is_sampler_binding(
                words,
                (64 + (#[trigger] binds[k]).index) as u32,
            ) implies covers(bound, (64 + binds[k].index) as u32) by {
            if k < n - 1 {
                let c = (64 + binds[k].index) as u32;
                let i = choose|i: int| 0 <= i < rest.len() && (#[trigger] rest[i]).binding == c;
                assert(bound[i].binding == c);
            }
        }
    }
}

/// A specialized kernel asks for each storage image's own format at its binding, and
/// declares that it writes without one where it does.
pub proof fn law_specialized_kernel(
    before: Seq<u32>,
    formats: Seq<StorageFormat>,
    retyped: Seq<u32>,
    after: Seq<u32>,
    i: int,
)
    requires
        is_specialized(before, formats, retyped, after),
        0 <= i < formats.len(),
        retyped.len() >= 5,
    ensures
        image_format_spec(retyped, formats[i].binding) == Some(formats[i].specialized),
        (exists|k: int|
            0 <= k < formats.len() && (#[trigger] formats[k]).specialized is Unknown)
            ==> declares_capability(after, 5),
        (forall|k: int|
            0 <= k < formats.len() ==> !((#[trigger] formats[k]).specialized is Unknown)) ==> after
            == retyped,
{
    let asked = requests(formats);
    lemma_asked(retyped, asked, i);
    crate::spirv_bind::capability::law_capability_is_declared_once(retyped);
    if exists|k: int|
        0 <= k < formats.len() && (#[trigger] formats[k]).specialized is Unknown {
        assert(writes_unformatted(formats));
    }
}

proof fn lemma_asked(after: Seq<u32>, requested: Seq<(u32, ImageFormat)>, i: int)
    requires
        crate::spirv_bind::specialize_model::first_unread(after, requested) is None,
        0 <= i < requested.len(),
    ensures
        image_format_spec(after, requested[i].0) == Some(requested[i].1),
    decreases requested.len(),
{
    if i < requested.len() - 1 {
        lemma_asked(after, requested.drop_last(), i);
    }
}

} // verus!
