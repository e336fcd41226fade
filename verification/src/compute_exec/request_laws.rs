//! What the engine is handed of the buffers and textures of a dispatch.

use vstd::prelude::*;
use crate::compute_exec::buffers::StagedBuffer;
use crate::compute_exec::format::{StorageImageFormat, engine_format};
use crate::compute_exec::kernel::{BufferUse, StorageFormat};
use crate::compute_exec::request::{
    DeviceAbilities, SampledImage, StorageImage, are_images, defers, direct_window,
    emptied, format_from, images_refusal, is_sampled_image, is_storage_image, storage_before,
    used_buffers, view_of, writable_uses,
};
use crate::compute_exec::status::ComputeStatus;
use crate::compute_exec::texture::{StagedView, TextureWriteback};

verus! {

/// The number of the first `n` uses that are uses at all.
pub open spec fn used(uses: Seq<BufferUse>, n: int) -> int {
    uses.take(n).filter(|u: BufferUse| !(u is Unused)).len() as int
}

proof fn lemma_used(uses: Seq<BufferUse>, n: int)
    requires
        0 <= n < uses.len(),
    ensures
        used(uses, n + 1) == used(uses, n) + if uses[n] is Unused {
            0int
        } else {
            1
        },
        used(uses, 0) == 0,
{
    let now = uses.take(n + 1);
    reveal(Seq::filter);
    assert(now.drop_last() =~= uses.take(n));
    assert(now.last() == uses[n]);
    assert(uses.take(0).len() == 0);
}

/// The engine gets the buffers that the kernel uses, in their order, each at its own index
/// with its own bytes; writable are those the kernel may write.
pub proof fn law_used_buffers_are_handed_over(
    staged: Seq<StagedBuffer>,
    uses: Seq<BufferUse>,
    n: int,
)
    requires
        0 <= n <= staged.len(),
        staged.len() == uses.len(),
    ensures
        used_buffers(staged, uses, n).len() == used(uses, n),
        forall|i: int|
            0 <= i < n && !(#[trigger] uses[i] is Unused) ==> {
                let handed = used_buffers(staged, uses, n)[used(uses, i)];
                &&& 0 <= used(uses, i) < used(uses, n)
                &&& handed.0 == staged[i].bind.index
                &&& handed.1 == staged[i].bytes@
                &&& (handed.2 <==> uses[i] is Writable)
            },
    decreases n,
{
    if n == 0 {
        assert(uses.take(0).len() == 0);
        reveal(Seq::filter);
    } else {
        law_used_buffers_are_handed_over(staged, uses, n - 1);
        lemma_used(uses, n - 1);
    }
}

/// The writable uses are counted.
pub proof fn law_writable_uses_are_counted(uses: Seq<BufferUse>)
    ensures
        writable_uses(uses) == uses.filter(|u: BufferUse| u is Writable).len(),
    decreases uses.len(),
{
    reveal(Seq::filter);
    if uses.len() > 0 {
        law_writable_uses_are_counted(uses.drop_last());
    }
}

/// An output stays in the engine where the device allows it, the texture has a window there
/// and somewhere to be written to later.
pub proof fn law_when_readback_waits(texture: StagedView, allowed: bool)
    ensures
        defers(texture, allowed) ==> allowed,
        defers(texture, allowed) ==> texture.residency is Some,
        defers(texture, allowed) ==> texture.writeback != TextureWriteback::Nowhere,
        allowed && texture.residency is Some && texture.writeback is Linear ==> defers(
            texture,
            allowed,
        ),
        allowed && texture.residency is Some && texture.writeback is Type11 ==> defers(
            texture,
            allowed,
        ),
{
}

/// The engine writes straight to the host only to the one range of a mapped surface, and
/// only where that range starts at a multiple of the alignment: at the surface's own offset
/// and stride.
pub proof fn law_direct_windows(
    texture: StagedView,
    align: Option<u64>,
    contig: Option<(u64, u64)>,
    k: int,
)
    ensures
        direct_window(texture, align, contig) is Some ==> {
            let w = direct_window(texture, align, contig)->0;
            &&& align is Some
            &&& contig == Some((w.ptr, w.len))
            &&& texture.writeback is Type11
            &&& w.buffer_offset == texture.writeback->surface_offset
            &&& w.row_bytes == texture.writeback->surface_bpr
            &&& align->0 > 0 ==> w.ptr as int % align->0 as int == 0
            &&& align->0 == 0 ==> w.ptr == 0
        },
        align is Some && contig is Some && texture.writeback is Type11 && (contig->0).0 == k
            * align->0 ==> direct_window(texture, align, contig) is Some,
{
    if align is Some && contig is Some {
        let d = align->0;
        let n = (contig->0).0;
        if n == k * d && d > 0 {
            assert(n as int % d as int == 0) by {
                vstd::arithmetic::div_mod::lemma_mod_multiples_basic(k, d as int);
            }
        }
        if d == 0 {
            assert(k * d == 0) by (nonlinear_arith)
                requires
                    d == 0,
            ;
        }
    }
}

/// The format of a binding is the first that stands under it.
pub proof fn law_first_format_of_a_binding(formats: Seq<StorageFormat>, i: int, binding: u32)
    requires
        0 <= i <= formats.len(),
    ensures
        match format_from(formats, i, binding) {
            Some(format) => exists|k: int|
                i <= k < formats.len() && #[trigger] formats[k] == format && format.binding
                    == binding && forall|j: int| i <= j < k ==> (#[trigger] formats[j]).binding != binding,
            None => forall|j: int|
                i <= j < formats.len() ==> (#[trigger] formats[j]).binding != binding,
        },
    decreases formats.len() - i,
{
    if i < formats.len() && formats[i].binding != binding {
        law_first_format_of_a_binding(formats, i + 1, binding);
        if let Some(format) = format_from(formats, i + 1, binding) {
            let k = choose|k: int|
                i + 1 <= k < formats.len() && #[trigger] formats[k] == format && format.binding
                    == binding && forall|j: int|
                    i + 1 <= j < k ==> (#[trigger] formats[j]).binding != binding;
            assert(formats[k] == format);
        }
    }
}

/// A storage image is seen in the format its kernel was specialized to, or in the guest's
/// own where it was left open; without either it is refused.
pub proof fn law_storage_views(texture: StagedView, formats: Seq<StorageFormat>, k: int)
    requires
        0 <= k < formats.len(),
        formats[k].binding == texture.binding,
        forall|j: int| 0 <= j < k ==> (#[trigger] formats[j]).binding != texture.binding,
    ensures
        texture.storage_selector is None ==> view_of(texture, formats) == Err::<
            StorageImageFormat,
            ComputeStatus,
        >(ComputeStatus::Unsupported("storage_no_selector_writeback")),
        texture.storage_selector is Some && formats[k].specialized is Unknown ==> view_of(
            texture,
            formats,
        ) == Ok::<StorageImageFormat, ComputeStatus>(texture.storage_selector->0),
        texture.storage_selector is Some && formats[k].specialized is Unsupported ==> view_of(
            texture,
            formats,
        ) == Err::<StorageImageFormat, ComputeStatus>(
            ComputeStatus::Unsupported("storage_spirv_format_unsupported"),
        ),
        texture.storage_selector is Some && !(formats[k].specialized is Unknown)
            && !(formats[k].specialized is Unsupported) ==> view_of(texture, formats) is Ok
            && engine_format(formats[k].specialized) == Some(view_of(texture, formats)->Ok_0),
{
    law_first_format_of_a_binding(formats, 0, texture.binding);
    assert(formats[k].binding == texture.binding);
}

/// A storage image is its staged texture: the same binding, extent and bytes, the same
/// window, one generation on, and a copy to the host only where nothing waits.
pub proof fn law_storage_image_is_its_texture(
    image: StorageImage,
    texture: StagedView,
    format: StorageImageFormat,
    waits: bool,
    align: Option<u64>,
    contig: Option<(u64, u64)>,
)
    requires
        is_storage_image(image, texture, format, waits, align, contig),
    ensures
        image.binding == texture.binding,
        (image.width, image.height) == (texture.width, texture.height),
        image.bytes@ == texture.bytes,
        image.format == format,
        image.seed_skipped <==> texture.seed_skipped,
        image.residency is Some <==> texture.residency is Some,
        texture.residency is Some ==> {
            let from = texture.residency->0;
            let to = image.residency->0;
            &&& to.identity == from.key
            &&& to.seed_generation == from.seed_generation
            &&& from.seed_generation < 0xffff_ffff ==> to.output_generation
                == from.seed_generation + 1
            &&& from.seed_generation == 0xffff_ffff ==> to.output_generation == 1
        },
        image.defer_readback ==> image.host_writeback is None,
        !image.defer_readback ==> image.host_writeback == direct_window(texture, align, contig),
        image.defer_readback <==> waits && texture.residency is Some && (texture.writeback is Linear
            || texture.writeback is Type11),
{
}

/// A sampled image is its staged texture.
pub proof fn law_sampled_image_is_its_texture(
    image: SampledImage,
    texture: StagedView,
    format: StorageImageFormat,
)
    requires
        is_sampled_image(image, texture, format),
    ensures
        image.binding == texture.binding,
        (image.width, image.height) == (texture.width, texture.height),
        image.bytes@ == texture.bytes,
        image.format == format,
        image.resident_bind == texture.sample_resident,
{
}

/// The storage textures among the first `n`.
pub proof fn law_storage_textures_are_counted(textures: Seq<StagedView>, n: int)
    requires
        0 <= n <= textures.len(),
    ensures
        storage_before(textures, n) == textures.take(n).filter(
            |t: StagedView| t.is_storage,
        ).len(),
        0 <= storage_before(textures, n) <= n,
    decreases n,
{
    reveal(Seq::filter);
    if n > 0 {
        law_storage_textures_are_counted(textures, n - 1);
        assert(textures.take(n).drop_last() =~= textures.take(n - 1));
        assert(textures.take(n).last() == textures[n - 1]);
    } else {
        assert(textures.take(0).len() == 0);
    }
}

proof fn lemma_storage_before_grows(textures: Seq<StagedView>, i: int, n: int)
    requires
        0 <= i <= n,
    ensures
        storage_before(textures, i) <= storage_before(textures, n),
        i - storage_before(textures, i) <= n - storage_before(textures, n),
    decreases n - i,
{
    if i < n {
        lemma_storage_before_grows(textures, i, n - 1);
    }
}

/// Every texture is handed over, at its own binding: among the storage images where the
/// kernel stores to it, else among the sampled ones; one image for each.
pub proof fn law_every_texture_becomes_an_image(
    textures: Seq<StagedView>,
    formats: Seq<StorageFormat>,
    abilities: DeviceAbilities,
    contigs: Seq<Option<(u64, u64)>>,
    storage: Seq<StorageImage>,
    sampled: Seq<SampledImage>,
    i: int,
)
    requires
        are_images(
            textures,
            formats,
            abilities,
            contigs,
            storage,
            sampled,
            textures.len() as int,
        ),
        0 <= i < textures.len(),
    ensures
        storage.len() + sampled.len() == textures.len(),
        textures[i].is_storage ==> exists|k: int|
            0 <= k < storage.len() && (#[trigger] storage[k]).binding == textures[i].binding
                && storage[k].bytes@ == textures[i].bytes && storage[k].width == textures[i].width
                && storage[k].height == textures[i].height,
        !textures[i].is_storage ==> exists|k: int|
            0 <= k < sampled.len() && (#[trigger] sampled[k]).binding == textures[i].binding
                && sampled[k].bytes@ == textures[i].bytes && sampled[k].width == textures[i].width
                && sampled[k].height == textures[i].height,
{
    let n = textures.len() as int;
    lemma_storage_before_grows(textures, i + 1, n);
    law_storage_textures_are_counted(textures, i);
    if textures[i].is_storage {
        assert(storage[storage_before(textures, i)].binding == textures[i].binding);
    } else {
        assert(sampled[i - storage_before(textures, i)].binding == textures[i].binding);
    }
}

/// What is left of the textures behind the images has no bytes and is otherwise the same.
pub proof fn law_only_the_bytes_are_taken(textures: Seq<StagedView>, i: int)
    requires
        0 <= i < textures.len(),
    ensures
        emptied(textures).len() == textures.len(),
        emptied(textures)[i].bytes.len() == 0,
        emptied(textures)[i].binding == textures[i].binding,
        emptied(textures)[i].pixel_format == textures[i].pixel_format,
        emptied(textures)[i].width == textures[i].width,
        emptied(textures)[i].height == textures[i].height,
        emptied(textures)[i].is_storage == textures[i].is_storage,
        emptied(textures)[i].residency == textures[i].residency,
        emptied(textures)[i].seed_skipped == textures[i].seed_skipped,
        emptied(textures)[i].sample_resident == textures[i].sample_resident,
        emptied(textures)[i].writeback == textures[i].writeback,
        emptied(textures)[i].storage_selector == textures[i].storage_selector,
{
}

/// The first texture that has no view decides: nothing is handed over of any of them.
pub proof fn law_first_refused_texture_counts(
    textures: Seq<StagedView>,
    formats: Seq<StorageFormat>,
    n: int,
    i: int,
)
    requires
        0 <= i < n <= textures.len(),
        images_refusal(textures, formats, i) is None,
        textures[i].is_storage,
        view_of(textures[i], formats) is Err,
    ensures
        images_refusal(textures, formats, n) == Some(view_of(textures[i], formats)->Err_0),
    decreases n,
{
    if n > i + 1 {
        law_first_refused_texture_counts(textures, formats, n - 1, i);
    }
}

} // verus!
