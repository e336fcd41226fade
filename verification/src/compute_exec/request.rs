//! The resources that a dispatch hands to the engine.

use vstd::prelude::*;
use crate::compute_exec::buffers::StagedBuffer;
use crate::compute_exec::format::{
    StorageImageFormat, engine_format, mtl_to_engine_sampled, sampled_format,
    spirv_image_format_to_engine_storage,
};
use crate::compute_exec::kernel::{BufferUse, StorageFormat};
use crate::compute_exec::outputs::compute_defer_readback_allowed;
use crate::compute_exec::status::ComputeStatus;
use crate::compute_exec::texture::{
    ComputeStorageResidencyCandidate, ResidentSample, StagedTexture, StagedView, TextureWriteback,
};
use crate::mapping::{bump_generation, next_generation};
use crate::residency::ComputeStorageResidencyKey;
use crate::spirv_bind::ImageFormat;

verus! {

/// A storage buffer for the engine.
#[derive(Clone, Debug, PartialEq, Eq)]
pub struct EngineBuffer {
    pub binding: u32,
    pub bytes: Vec<u8>,
    pub writable: bool,
}

/// A storage image's place among the engine's residents.
#[derive(Clone, Copy, Debug, PartialEq, Eq, Structural)]
pub struct EngineResidency {
    pub identity: ComputeStorageResidencyKey,
    pub seed_generation: u32,
    /// The generation that the engine registers the output at.
    pub output_generation: u32,
}

/// A host window that the engine copies an output into by itself.
#[derive(Clone, Copy, Debug, PartialEq, Eq, Structural)]
pub struct HostWriteback {
    pub ptr: u64,
    pub len: u64,
    pub buffer_offset: u64,
    pub row_bytes: u32,
}

/// A storage image for the engine: one layer, two dimensions.
#[derive(Clone, Debug, PartialEq, Eq)]
pub struct StorageImage {
    pub binding: u32,
    pub format: StorageImageFormat,
    pub width: u32,
    pub height: u32,
    pub bytes: Vec<u8>,
    pub residency: Option<EngineResidency>,
    /// The engine's resident seeds the image; the bytes are a placeholder.
    pub seed_skipped: bool,
    pub host_writeback: Option<HostWriteback>,
    /// The output stays in the engine.
    pub defer_readback: bool,
}

/// A sampled image for the engine: one layer, two dimensions.
#[derive(Clone, Debug, PartialEq, Eq)]
pub struct SampledImage {
    pub binding: u32,
    pub format: StorageImageFormat,
    pub width: u32,
    pub height: u32,
    pub bytes: Vec<u8>,
    /// The engine copies the image from its resident; the bytes are a placeholder.
    pub resident_bind: Option<ResidentSample>,
}

/// The buffers among the first `n` that the kernel uses.
pub open spec fn used_buffers(staged: Seq<StagedBuffer>, uses: Seq<BufferUse>, n: int) -> Seq<
    (u32, Seq<u8>, bool),
>
    decreases n,
{
    if n <= 0 {
        Seq::empty()
    } else {
        let rest = used_buffers(staged, uses, n - 1);
        let s = staged[n - 1];
        match uses[n - 1] {
            BufferUse::Unused => rest,
            BufferUse::ReadOnly => rest.push((s.bind.index, s.bytes@, false)),
            BufferUse::Writable => rest.push((s.bind.index, s.bytes@, true)),
        }
    }
}

/// Engine buffers as values.
pub open spec fn buffers_view(buffers: Seq<EngineBuffer>) -> Seq<(u32, Seq<u8>, bool)> {
    Seq::new(buffers.len(), |i: int| (buffers[i].binding, buffers[i].bytes@, buffers[i].writable))
}

/// Hand the buffers that the kernel uses to the engine. A bind that the kernel
/// does not declare is left out.
pub fn engine_buffers(staged: &Vec<StagedBuffer>, uses: &Vec<BufferUse>) -> (buffers: Vec<
    EngineBuffer,
>)
    requires
        uses.len() == staged.len(),
    ensures
        buffers_view(buffers@) == used_buffers(staged@, uses@, staged.len() as int),
{
    let mut buffers: Vec<EngineBuffer> = Vec::new();
    let mut i: usize = 0;
    assert(buffers_view(buffers@) =~= Seq::<(u32, Seq<u8>, bool)>::empty());
    while i < staged.len()
        invariant
            i <= staged.len(),
            uses.len() == staged.len(),
            buffers_view(buffers@) == used_buffers(staged@, uses@, i as int),
        decreases staged.len() - i,
    {
        let s = &staged[i];
        let ghost before = buffers@;
        let writable = match uses[i] {
            BufferUse::Writable => true,
            _ => false,
        };
        let used = match uses[i] {
            BufferUse::Unused => false,
            _ => true,
        };
        if used {
            let bytes = vstd::slice::slice_to_vec(s.bytes.as_slice());
            buffers.push(EngineBuffer { binding: s.bind.index, bytes, writable });
            assert(buffers_view(buffers@) =~= buffers_view(before).push(
                (s.bind.index, s.bytes@, writable),
            ));
        }
        i = i + 1;
    }
    buffers
}

/// How many of the uses write.
pub open spec fn writable_uses(uses: Seq<BufferUse>) -> int
    decreases uses.len(),
{
    if uses.len() == 0 {
        0
    } else {
        writable_uses(uses.drop_last()) + if uses.last() == BufferUse::Writable {
            1int
        } else {
            0
        }
    }
}

pub fn writable_count(uses: &Vec<BufferUse>) -> (count: usize)
    ensures
        count == writable_uses(uses@),
{
    let mut count: usize = 0;
    let mut i: usize = 0;
    assert(uses@.take(0) =~= Seq::<BufferUse>::empty());
    while i < uses.len()
        invariant
            i <= uses.len(),
            count <= i,
            count == writable_uses(uses@.take(i as int)),
        decreases uses.len() - i,
    {
        proof {
            let next = uses@.take(i + 1);
            assert(next.drop_last() =~= uses@.take(i as int));
            assert(next.last() == uses@[i as int]);
        }
        match uses[i] {
            BufferUse::Writable => {
                count = count + 1;
            },
            _ => {},
        }
        i = i + 1;
    }
    assert(uses@.take(i as int) =~= uses@);
    count
}

/// The output may stay in the engine.
pub open spec fn defers(texture: StagedView, deferred_gpu_only_content: bool) -> bool {
    deferred_gpu_only_content && texture.residency is Some && !(texture.writeback
        is Nowhere)
}

/// Decide whether an output stays in the engine.
pub fn defers_readback(texture: &StagedTexture, deferred_gpu_only_content: bool) -> (r: bool)
    ensures
        r == defers(texture@, deferred_gpu_only_content),
{
    let deferrable = match texture.writeback {
        TextureWriteback::Nowhere => false,
        _ => true,
    };
    compute_defer_readback_allowed(
        deferred_gpu_only_content,
        texture.residency.is_some(),
        deferrable,
    )
}

/// `n` is a multiple of `d`; of zero, only zero is.
pub open spec fn is_multiple(n: u64, d: u64) -> bool {
    if d == 0 {
        n == 0
    } else {
        n % d == 0
    }
}

/// The window that the engine copies a surface output into: its mapping's
/// contiguous host view, where there is one and it is aligned as the device asks.
pub open spec fn direct_window(
    texture: StagedView,
    align: Option<u64>,
    contig: Option<(u64, u64)>,
) -> Option<HostWriteback> {
    match (align, texture.writeback, contig) {
        (
            Some(align),
            TextureWriteback::Type11 { surface_offset, surface_bpr, .. },
            Some((ptr, len)),
        ) => if is_multiple(ptr, align) {
            Some(HostWriteback { ptr, len, buffer_offset: surface_offset, row_bytes: surface_bpr })
        } else {
            None
        },
        _ => None,
    }
}

/// Plan a copy by the engine straight into guest memory. Without one the host
/// writes the output back.
pub fn plan_direct_writeback(
    texture: &StagedTexture,
    align: Option<u64>,
    contig: Option<(u64, u64)>,
) -> (window: Option<HostWriteback>)
    ensures
        window == direct_window(texture@, align, contig),
{
    match (align, texture.writeback, contig) {
        (
            Some(align),
            TextureWriteback::Type11 { surface_offset, surface_bpr, .. },
            Some((ptr, len)),
        ) => {
            let aligned = if align == 0 {
                ptr == 0
            } else {
                ptr % align == 0
            };
            if aligned {
                Some(
                    HostWriteback { ptr, len, buffer_offset: surface_offset, row_bytes: surface_bpr },
                )
            } else {
                None
            }
        },
        _ => None,
    }
}

/// The first format of `binding` among those from `i` on.
pub open spec fn format_from(formats: Seq<StorageFormat>, i: int, binding: u32) -> Option<
    StorageFormat,
>
    decreases formats.len() - i,
{
    if i < 0 || i >= formats.len() {
        None
    } else if formats[i].binding == binding {
        Some(formats[i])
    } else {
        format_from(formats, i + 1, binding)
    }
}

fn find_format(formats: &Vec<StorageFormat>, binding: u32) -> (found: Option<StorageFormat>)
    ensures
        found == format_from(formats@, 0, binding),
{
    let mut i: usize = 0;
    while i < formats.len()
        invariant
            i <= formats.len(),
            format_from(formats@, 0, binding) == format_from(formats@, i as int, binding),
        decreases formats.len() - i,
    {
        if formats[i].binding == binding {
            return Some(formats[i]);
        }
        i = i + 1;
    }
    None
}

/// The format that the engine views a storage image as. A format-less image has
/// that of the bound surface, so that its channels land in the surface's order.
pub open spec fn view_of(texture: StagedView, formats: Seq<StorageFormat>) -> Result<
    StorageImageFormat,
    ComputeStatus,
> {
    match texture.storage_selector {
        None => Err(ComputeStatus::Unsupported("storage_no_selector_writeback")),
        Some(guest) => match format_from(formats, 0, texture.binding) {
            None => Err(ComputeStatus::Unsupported("storage_format_specialize_internal")),
            Some(format) => if format.specialized == ImageFormat::Unknown {
                Ok(guest)
            } else {
                match engine_format(format.specialized) {
                    None => Err(ComputeStatus::Unsupported("storage_spirv_format_unsupported")),
                    Some(engine) => Ok(engine),
                }
            },
        },
    }
}

fn storage_view(texture: &StagedTexture, formats: &Vec<StorageFormat>) -> (view: Result<
    StorageImageFormat,
    ComputeStatus,
>)
    ensures
        view == view_of(texture@, formats@),
{
    let guest = match texture.storage_selector {
        Some(guest) => guest,
        None => {
            return Err(ComputeStatus::Unsupported("storage_no_selector_writeback"));
        },
    };
    let format = match find_format(formats, texture.binding) {
        Some(format) => format,
        None => {
            return Err(ComputeStatus::Unsupported("storage_format_specialize_internal"));
        },
    };
    match format.specialized {
        ImageFormat::Unknown => Ok(guest),
        _ => match spirv_image_format_to_engine_storage(format.specialized) {
            Some(engine) => Ok(engine),
            None => Err(ComputeStatus::Unsupported("storage_spirv_format_unsupported")),
        },
    }
}

/// A candidate as the engine is told it.
pub open spec fn engine_residency(candidate: Option<ComputeStorageResidencyCandidate>) -> Option<
    EngineResidency,
> {
    match candidate {
        Some(c) => Some(
            EngineResidency {
                identity: c.key,
                seed_generation: c.seed_generation,
                output_generation: next_generation(c.seed_generation),
            },
        ),
        None => None,
    }
}

/// The image is the storage image of a staged texture.
pub open spec fn is_storage_image(
    image: StorageImage,
    texture: StagedView,
    format: StorageImageFormat,
    deferred_gpu_only_content: bool,
    align: Option<u64>,
    contig: Option<(u64, u64)>,
) -> bool {
    &&& image.binding == texture.binding
    &&& image.format == format
    &&& image.width == texture.width
    &&& image.height == texture.height
    &&& image.bytes@ == texture.bytes
    &&& image.residency == engine_residency(texture.residency)
    &&& image.seed_skipped == texture.seed_skipped
    &&& image.defer_readback == defers(texture, deferred_gpu_only_content)
    &&& image.host_writeback == if image.defer_readback {
        None
    } else {
        direct_window(texture, align, contig)
    }
}

/// Hand a staged storage texture to the engine; its bytes move along. `contig` is
/// the contiguous host view of the surface behind it, where there is one.
pub fn storage_image(
    texture: &mut StagedTexture,
    formats: &Vec<StorageFormat>,
    deferred_gpu_only_content: bool,
    align: Option<u64>,
    contig: Option<(u64, u64)>,
) -> (image: Result<StorageImage, ComputeStatus>)
    ensures
        match (image, view_of(old(texture)@, formats@)) {
            (Ok(image), Ok(format)) => is_storage_image(
                image,
                old(texture)@,
                format,
                deferred_gpu_only_content,
                align,
                contig,
            ) && final(texture)@ == (StagedView { bytes: Seq::empty(), ..old(texture)@ }),
            (Err(a), Err(b)) => a == b && final(texture)@ == old(texture)@,
            _ => false,
        },
{
    let format = match storage_view(texture, formats) {
        Ok(format) => format,
        Err(status) => {
            return Err(status);
        },
    };
    let defer_readback = defers_readback(texture, deferred_gpu_only_content);
    let host_writeback = if defer_readback {
        None
    } else {
        plan_direct_writeback(texture, align, contig)
    };
    let residency = match texture.residency {
        Some(candidate) => Some(
            EngineResidency {
                identity: candidate.key,
                seed_generation: candidate.seed_generation,
                output_generation: bump_generation(candidate.seed_generation),
            },
        ),
        None => None,
    };
    let mut bytes: Vec<u8> = Vec::new();
    core::mem::swap(&mut bytes, &mut texture.bytes);
    assert(texture@.bytes =~= Seq::<u8>::empty());
    Ok(
        StorageImage {
            binding: texture.binding,
            format,
            width: texture.width,
            height: texture.height,
            bytes,
            residency,
            seed_skipped: texture.seed_skipped,
            host_writeback,
            defer_readback,
        },
    )
}

/// The image is the sampled image of a staged texture.
pub open spec fn is_sampled_image(
    image: SampledImage,
    texture: StagedView,
    format: StorageImageFormat,
) -> bool {
    &&& image.binding == texture.binding
    &&& image.format == format
    &&& image.width == texture.width
    &&& image.height == texture.height
    &&& image.bytes@ == texture.bytes
    &&& image.resident_bind == texture.sample_resident
}

/// Hand a staged sampled texture to the engine; its bytes move along.
pub fn sampled_image(texture: &mut StagedTexture) -> (image: Result<SampledImage, ComputeStatus>)
    ensures
        match (image, sampled_format(old(texture).pixel_format)) {
            (Ok(image), Some(format)) => is_sampled_image(image, old(texture)@, format)
                && final(texture)@ == (StagedView { bytes: Seq::empty(), ..old(texture)@ }),
            (Err(status), None) => status == ComputeStatus::Unsupported(
                "sampled_format_unsupported",
            ) && final(texture)@ == old(texture)@,
            _ => false,
        },
{
    let format = match mtl_to_engine_sampled(texture.pixel_format) {
        Some(format) => format,
        None => {
            return Err(ComputeStatus::Unsupported("sampled_format_unsupported"));
        },
    };
    let mut bytes: Vec<u8> = Vec::new();
    core::mem::swap(&mut bytes, &mut texture.bytes);
    assert(texture@.bytes =~= Seq::<u8>::empty());
    Ok(
        SampledImage {
            binding: texture.binding,
            format,
            width: texture.width,
            height: texture.height,
            bytes,
            resident_bind: texture.sample_resident,
        },
    )
}

/// An output that stays in the engine is not copied to guest memory as well, and it
/// stays only where its window can be found again.
pub proof fn law_deferred_output_is_found_again(
    image: StorageImage,
    texture: StagedView,
    format: StorageImageFormat,
    deferred_gpu_only_content: bool,
    align: Option<u64>,
    contig: Option<(u64, u64)>,
)
    requires
        is_storage_image(image, texture, format, deferred_gpu_only_content, align, contig),
        image.defer_readback,
    ensures
        image.host_writeback is None,
        image.residency is Some,
        deferred_gpu_only_content,
{
}

/// Staged textures as values.
pub open spec fn texture_views(textures: Seq<StagedTexture>) -> Seq<StagedView> {
    Seq::new(textures.len(), |i: int| textures[i]@)
}

/// Why one of the first `n` textures cannot be handed to the engine: the first
/// refusal.
pub open spec fn images_refusal(textures: Seq<StagedView>, formats: Seq<StorageFormat>, n: int) -> Option<
    ComputeStatus,
>
    decreases n,
{
    if n <= 0 {
        None
    } else {
        match images_refusal(textures, formats, n - 1) {
            Some(status) => Some(status),
            None => {
                let t = textures[n - 1];
                if t.is_storage {
                    match view_of(t, formats) {
                        Err(status) => Some(status),
                        Ok(_) => None,
                    }
                } else if sampled_format(t.pixel_format) is None {
                    Some(ComputeStatus::Unsupported("sampled_format_unsupported"))
                } else {
                    None
                }
            },
        }
    }
}

proof fn lemma_refusal_stays(textures: Seq<StagedView>, formats: Seq<StorageFormat>, i: int, n: int)
    requires
        i <= n,
        images_refusal(textures, formats, i) is Some,
    ensures
        images_refusal(textures, formats, n) == images_refusal(textures, formats, i),
    decreases n - i,
{
    if i < n {
        lemma_refusal_stays(textures, formats, i, n - 1);
    }
}

/// How many of the first `n` textures are storage images.
pub open spec fn storage_before(textures: Seq<StagedView>, n: int) -> int
    decreases n,
{
    if n <= 0 {
        0
    } else {
        storage_before(textures, n - 1) + if textures[n - 1].is_storage {
            1int
        } else {
            0
        }
    }
}

proof fn lemma_storage_before(textures: Seq<StagedView>, i: int, n: int)
    requires
        0 <= i <= n,
    ensures
        0 <= storage_before(textures, i) <= storage_before(textures, n),
        0 <= i - storage_before(textures, i) <= n - storage_before(textures, n),
    decreases n,
{
    if i < n {
        lemma_storage_before(textures, i, n - 1);
    } else if n > 0 {
        lemma_storage_before(textures, n - 1, n - 1);
    }
}

/// What the device can do for a dispatch.
#[derive(Clone, Copy, Debug, PartialEq, Eq, Structural)]
pub struct DeviceAbilities {
    /// Storage images can be written without a format.
    pub write_without_format: bool,
    /// Outputs may stay in the engine alone.
    pub deferred_gpu_only_content: bool,
    /// The alignment of host windows that the engine can copy into, where it can.
    pub host_writeback_alignment: Option<u64>,
}

/// The images of a dispatch, and its textures without their bytes.
pub struct EngineImages {
    pub textures: Vec<StagedTexture>,
    pub storage: Vec<StorageImage>,
    pub sampled: Vec<SampledImage>,
}

/// The first `n` textures were handed over: each to the next image of its sort.
pub open spec fn are_images(
    textures: Seq<StagedView>,
    formats: Seq<StorageFormat>,
    abilities: DeviceAbilities,
    contigs: Seq<Option<(u64, u64)>>,
    storage: Seq<StorageImage>,
    sampled: Seq<SampledImage>,
    n: int,
) -> bool {
    &&& storage.len() == storage_before(textures, n)
    &&& sampled.len() == n - storage_before(textures, n)
    &&& forall|i: int|
        #![trigger textures[i]]
        0 <= i < n ==> if textures[i].is_storage {
            view_of(textures[i], formats) is Ok && is_storage_image(
                storage[storage_before(textures, i)],
                textures[i],
                view_of(textures[i], formats)->Ok_0,
                abilities.deferred_gpu_only_content,
                abilities.host_writeback_alignment,
                contigs[i],
            )
        } else {
            sampled_format(textures[i].pixel_format) is Some && is_sampled_image(
                sampled[i - storage_before(textures, i)],
                textures[i],
                sampled_format(textures[i].pixel_format)->0,
            )
        }
}

/// Hand all staged textures to the engine. `contigs` are the contiguous host views
/// of the surfaces behind them, where there are any.
pub fn engine_images(
    textures: Vec<StagedTexture>,
    formats: &Vec<StorageFormat>,
    abilities: &DeviceAbilities,
    contigs: &Vec<Option<(u64, u64)>>,
) -> (images: Result<EngineImages, ComputeStatus>)
    requires
        contigs.len() == textures.len(),
    ensures
        match (
            images,
            images_refusal(texture_views(textures@), formats@, textures.len() as int),
        ) {
            (Ok(out), None) => {
                &&& are_images(
                    texture_views(textures@),
                    formats@,
                    *abilities,
                    contigs@,
                    out.storage@,
                    out.sampled@,
                    textures.len() as int,
                )
                &&& texture_views(out.textures@) == emptied(texture_views(textures@))
            },
            (Err(a), Some(b)) => a == b,
            _ => false,
        },
{
    let ghost all = texture_views(textures@);
    let mut left = textures;
    let mut done: Vec<StagedTexture> = Vec::new();
    let mut storage: Vec<StorageImage> = Vec::new();
    let mut sampled: Vec<SampledImage> = Vec::new();
    let n: usize = left.len();
    let mut i: usize = 0;
    while i < n
        invariant
            i <= n,
            all == texture_views(textures@),
            n == all.len(),
            contigs.len() == n,
            left.len() == n - i,
            texture_views(left@) =~= all.subrange(i as int, n as int),
            texture_views(done@) =~= emptied(all).take(i as int),
            images_refusal(all, formats@, i as int) is None,
            are_images(all, formats@, *abilities, contigs@, storage@, sampled@, i as int),
        decreases n - i,
    {
        let ghost held = texture_views(left@);
        let mut t = left.remove(0);
        let ghost next = all[i as int];
        let ghost storage_was = storage@;
        let ghost sampled_was = sampled@;
        proof {
            assert(held[0] == all.subrange(i as int, n as int)[0]);
            assert(t@ == next);
            assert(texture_views(left@) =~= held.subrange(1, held.len() as int));
            lemma_storage_before(all, i as int, i as int);
            assert forall|k: int| 0 <= k < i implies #[trigger] storage_before(all, k)
                <= storage_before(all, i as int) && k - storage_before(all, k) <= i
                - storage_before(all, i as int) by {
                lemma_storage_before(all, k, i as int);
            }
        }
        if t.is_storage {
            match storage_image(
                &mut t,
                formats,
                abilities.deferred_gpu_only_content,
                abilities.host_writeback_alignment,
                contigs[i],
            ) {
                Ok(image) => storage.push(image),
                Err(status) => {
                    proof {
                        lemma_refusal_stays(all, formats@, i + 1, n as int);
                    }
                    return Err(status);
                },
            }
        } else {
            match sampled_image(&mut t) {
                Ok(image) => sampled.push(image),
                Err(status) => {
                    proof {
                        lemma_refusal_stays(all, formats@, i + 1, n as int);
                    }
                    return Err(status);
                },
            }
        }
        proof {
            assert forall|k: int|
                #![trigger all[k]]
                0 <= k < i + 1 implies if all[k].is_storage {
                view_of(all[k], formats@) is Ok && is_storage_image(
                    storage@[storage_before(all, k)],
                    all[k],
                    view_of(all[k], formats@)->Ok_0,
                    abilities.deferred_gpu_only_content,
                    abilities.host_writeback_alignment,
                    contigs@[k],
                )
            } else {
                sampled_format(all[k].pixel_format) is Some && is_sampled_image(
                    sampled@[k - storage_before(all, k)],
                    all[k],
                    sampled_format(all[k].pixel_format)->0,
                )
            } by {
                if k < i {
                    lemma_storage_before(all, k, i as int);
                    lemma_storage_before(all, k + 1, i as int);
                    if all[k].is_storage {
                        assert(storage_before(all, k) < storage_was.len());
                        assert(storage@[storage_before(all, k)] == storage_was[storage_before(
                            all,
                            k,
                        )]);
                    } else {
                        assert(k - storage_before(all, k) < sampled_was.len());
                        assert(sampled@[k - storage_before(all, k)] == sampled_was[k
                            - storage_before(all, k)]);
                    }
                }
            }
        }
        done.push(t);
        proof {
            assert(emptied(all).take(i + 1) =~= emptied(all).take(i as int).push(
                StagedView { bytes: Seq::empty(), ..next },
            ));
        }
        i = i + 1;
    }
    assert(emptied(all).take(n as int) =~= emptied(all));
    Ok(EngineImages { textures: done, storage, sampled })
}

/// The textures with their bytes handed over.
pub open spec fn emptied(textures: Seq<StagedView>) -> Seq<StagedView> {
    Seq::new(textures.len(), |i: int| StagedView { bytes: Seq::empty(), ..textures[i] })
}

} // verus!
