//! Where a bound texture comes from, and what a heap texture is staged as.

use vstd::prelude::*;
use crate::compute_exec::format::{sampled_format, storage_format};
use crate::compute_exec::status::ComputeStatus;
use crate::compute_exec::texture::{
    BoundObject, EngineResident, EngineResidents, HeapDescriptor, HeapObject, ResolvedView,
    StagedView, TexturePath, heap_staged, resident_from, samples_resident, texture_path,
};
use crate::contract::texel_bytes;
use crate::residency::{ComputeStorageResidencyKey, lookup};

verus! {

/// The resident of a window is the first of that window.
pub proof fn law_first_resident_of_a_window(
    windows: Seq<EngineResident>,
    i: int,
    key: ComputeStorageResidencyKey,
)
    requires
        0 <= i <= windows.len(),
    ensures
        match resident_from(windows, i, key) {
            Some(found) => exists|k: int|
                i <= k < windows.len() && #[trigger] windows[k] == found && found.key == key
                    && forall|j: int| i <= j < k ==> (#[trigger] windows[j]).key != key,
            None => forall|j: int| i <= j < windows.len() ==> (#[trigger] windows[j]).key != key,
        },
    decreases windows.len() - i,
{
    if i < windows.len() && windows[i].key != key {
        law_first_resident_of_a_window(windows, i + 1, key);
        if let Some(found) = resident_from(windows, i + 1, key) {
            let k = choose|k: int|
                i + 1 <= k < windows.len() && #[trigger] windows[k] == found && found.key == key
                    && forall|j: int| i + 1 <= j < k ==> (#[trigger] windows[j]).key != key;
            assert(windows[k] == found);
        }
    }
}

/// A resident seeds storage images in its generation where it can be stored to, and is
/// sampled in its generation and format where it can be sampled. One can do without the
/// other.
pub proof fn law_what_residents_serve(
    residents: EngineResidents,
    key: ComputeStorageResidencyKey,
    k: int,
)
    requires
        0 <= k < residents.windows.len(),
        residents.windows[k].key == key,
        forall|j: int| 0 <= j < k ==> (#[trigger] residents.windows@[j]).key != key,
    ensures
        residents.storage_generation_spec(key) is Some <==> residents.windows[k].storage,
        residents.windows[k].storage ==> residents.storage_generation_spec(key) == Some(
            residents.windows[k].generation,
        ),
        residents.sample_source_spec(key) is Some <==> residents.windows[k].sampled,
        residents.windows[k].sampled ==> residents.sample_source_spec(key) == Some(
            (residents.windows[k].generation, residents.windows[k].format),
        ),
{
    law_first_resident_of_a_window(residents.windows@, 0, key);
    assert(residents.windows@[k].key == key);
}

/// A window without a resident serves nothing.
pub proof fn law_absent_windows_serve_nothing(
    residents: EngineResidents,
    key: ComputeStorageResidencyKey,
)
    requires
        forall|j: int|
            0 <= j < residents.windows.len() ==> (#[trigger] residents.windows@[j]).key != key,
    ensures
        residents.storage_generation_spec(key) is None,
        residents.sample_source_spec(key) is None,
{
    law_first_resident_of_a_window(residents.windows@, 0, key);
}

/// A resident is sampled only in the very generation and in the format of the texture.
pub proof fn law_samples_match_generation_and_format(
    residents: EngineResidents,
    key: ComputeStorageResidencyKey,
    generation: u32,
    format: u16,
)
    ensures
        samples_resident(residents, key, generation, format) <==> {
            &&& residents.sample_source_spec(key) is Some
            &&& (residents.sample_source_spec(key)->0).0 == generation
            &&& sampled_format(format) == Some((residents.sample_source_spec(key)->0).1)
        },
{
}

/// An object that is no view is staged as itself; a view as its base, at the view's level
/// and in the view's format, as long as it leaves the channels as they are.
pub proof fn law_where_textures_come_from(texture_ref: u32, view: ResolvedView)
    ensures
        match texture_path(texture_ref, BoundObject::Plain) {
            Ok(TexturePath::Base(base)) => base.stage_ref == texture_ref && base.level == 0
                && base.pixel_format is None,
            _ => false,
        },
        match texture_path(texture_ref, BoundObject::View(view)) {
            Ok(TexturePath::Base(base)) => view.identity_swizzle && base.stage_ref
                == view.base_texture_ref && base.level == view.level && base.pixel_format
                == view.pixel_format,
            Ok(TexturePath::Heap(_)) => false,
            Err(status) => !view.identity_swizzle && status == ComputeStatus::Unsupported(
                "compute_view_swizzle_unsupported",
            ),
        },
        texture_path(texture_ref, BoundObject::ViewUnreadable) == Err::<TexturePath, ComputeStatus>(
            ComputeStatus::MissingTexture("compute_stage_tex_view_no_desc"),
        ),
        texture_path(texture_ref, BoundObject::ViewUnresolved) == Err::<TexturePath, ComputeStatus>(
            ComputeStatus::MissingTexture("compute_stage_tex_view_resolve"),
        ),
        texture_path(texture_ref, BoundObject::BufferTexture) == Err::<TexturePath, ComputeStatus>(
            ComputeStatus::Unsupported("compute_buffer_texture_unsupported"),
        ),
{
}

/// A heap object is staged by its own descriptor, as long as it is whole, names its heap,
/// and its offset is a flag.
pub proof fn law_where_heap_textures_come_from(texture_ref: u32, heap: HeapObject)
    ensures
        match texture_path(texture_ref, BoundObject::Heap(heap)) {
            Ok(TexturePath::Heap(d)) => heap.whole && heap.heap_ref > 0 && heap.use_offset <= 1
                && heap.descriptor == Some(d),
            Ok(TexturePath::Base(_)) => false,
            Err(status) => {
                ||| !heap.whole && status == ComputeStatus::MissingTexture(
                    "compute_stage_tex_heap_bad_len",
                )
                ||| heap.whole && heap.heap_ref == 0 && status == ComputeStatus::MissingTexture(
                    "compute_stage_tex_heap_zero_ref",
                )
                ||| heap.whole && heap.heap_ref > 0 && heap.use_offset >= 2 && status
                    == ComputeStatus::Unsupported("compute_heap_use_offset")
                ||| heap.whole && heap.heap_ref > 0 && heap.use_offset < 2 && heap.descriptor
                    is None && status == ComputeStatus::MissingTexture(
                    "compute_stage_tex_heap_desc_decode",
                )
            },
        },
{
}

/// The heap texture is one plane of one level, one sample and one layer.
pub open spec fn is_one_plane(d: HeapDescriptor) -> bool {
    &&& d.texture_type == 2
    &&& d.depth == 1
    &&& d.mipmap_level_count == 1
    &&& d.sample_count == 1
    &&& d.array_length == 1
}

/// What a heap texture is staged as: its own extent and format, as many zero bytes as it
/// has, nothing to write back, and, where it is stored to, its window.
pub proof fn law_staged_heap_textures(
    task_id: u32,
    texture_ref: u32,
    binding: u32,
    is_storage: bool,
    d: HeapDescriptor,
    mirror: Seq<(ComputeStorageResidencyKey, u32)>,
    residents: EngineResidents,
    staged: StagedView,
)
    requires
        heap_staged(task_id, texture_ref, binding, is_storage, d, mirror, residents) == Ok::<
            StagedView,
            ComputeStatus,
        >(staged),
    ensures
        is_one_plane(d),
        texel_bytes(d.pixel_format) is Some,
        staged.binding == binding,
        (staged.width, staged.height) == (d.width, d.height),
        staged.pixel_format == d.pixel_format,
        staged.storage_selector == storage_format(d.pixel_format),
        is_storage ==> staged.storage_selector is Some,
        staged.is_storage == is_storage,
        staged.bytes.len() == d.width * d.height * texel_bytes(d.pixel_format)->0,
        forall|i: int| 0 <= i < staged.bytes.len() ==> #[trigger] staged.bytes[i] == 0,
        staged.writeback is Nowhere,
        staged.residency is Some <==> is_storage,
        is_storage ==> {
            let key = staged.residency->0.key;
            &&& key.mapping_id == 0xffff_fffe
            &&& key.map_generation == task_id
            &&& key.texture_ref == texture_ref
            &&& (key.width, key.height) == (d.width, d.height)
            &&& key.pixel_format == d.pixel_format
            &&& (key.surface_offset, key.surface_bpr, key.span_end) == (0u64, 0u32, 0u64)
            &&& staged.seed_skipped ==> lookup(mirror, key) == Some(
                staged.residency->0.seed_generation,
            ) && residents.storage_generation_spec(key) == Some(
                staged.residency->0.seed_generation,
            )
            &&& !staged.seed_skipped ==> staged.residency->0.seed_generation == 0 && lookup(
                mirror,
                key,
            ) is None
            &&& staged.sample_resident is None
        },
        !is_storage ==> !staged.seed_skipped,
        staged.sample_resident is Some ==> {
            let sample = staged.sample_resident->0;
            &&& sample.key.mapping_id == 0xffff_fffe
            &&& sample.key.map_generation == task_id
            &&& sample.key.texture_ref == texture_ref
            &&& lookup(mirror, sample.key) == Some(sample.generation)
            &&& residents.sample_source_spec(sample.key) is Some
            &&& (residents.sample_source_spec(sample.key)->0).0 == sample.generation
        },
{
    vstd::arithmetic::mul::lemma_mul_nonnegative(d.width as int, d.height as int);
    vstd::arithmetic::mul::lemma_mul_nonnegative(
        d.width * d.height,
        texel_bytes(d.pixel_format)->0 as int,
    );
}

/// A heap texture of another shape is refused, and so is one without a texel size, one that
/// cannot be stored to and is, and one that is recorded but no longer there.
pub proof fn law_refused_heap_textures(
    task_id: u32,
    texture_ref: u32,
    binding: u32,
    is_storage: bool,
    d: HeapDescriptor,
    mirror: Seq<(ComputeStorageResidencyKey, u32)>,
    residents: EngineResidents,
    key: ComputeStorageResidencyKey,
)
    requires
        key.mapping_id == 0xffff_fffe,
        key.map_generation == task_id,
        key.texture_ref == texture_ref,
        key.width == d.width,
        key.height == d.height,
        key.pixel_format == d.pixel_format,
        key.surface_offset == 0,
        key.surface_bpr == 0,
        key.span_end == 0,
    ensures
        ({
            let staged = heap_staged(
                task_id,
                texture_ref,
                binding,
                is_storage,
                d,
                mirror,
                residents,
            );
            let fits = texel_bytes(d.pixel_format) is Some && d.width * d.height * texel_bytes(
                d.pixel_format,
            )->0 <= usize::MAX;
            let lost = lookup(mirror, key) is Some && if is_storage {
                residents.storage_generation_spec(key) != lookup(mirror, key)
            } else {
                !samples_resident(residents, key, lookup(mirror, key)->0, d.pixel_format)
            };
            &&& !is_one_plane(d) ==> staged == Err::<StagedView, ComputeStatus>(
                ComputeStatus::Unsupported("compute_heap_shape"),
            )
            &&& is_one_plane(d) && texel_bytes(d.pixel_format) is None ==> staged == Err::<
                StagedView,
                ComputeStatus,
            >(ComputeStatus::Unsupported("compute_heap_fmt_bytes"))
            &&& is_one_plane(d) && texel_bytes(d.pixel_format) is Some && !fits && (is_storage
                ==> storage_format(d.pixel_format) is Some) ==> staged == Err::<
                StagedView,
                ComputeStatus,
            >(ComputeStatus::Unsupported("compute_heap_host_len"))
            &&& is_one_plane(d) && fits && is_storage && storage_format(d.pixel_format) is None
                ==> staged == Err::<StagedView, ComputeStatus>(
                ComputeStatus::Unsupported("compute_heap_fmt_storage"),
            )
            &&& is_one_plane(d) && fits && (is_storage ==> storage_format(d.pixel_format) is Some)
                && lost ==> staged == Err::<StagedView, ComputeStatus>(
                ComputeStatus::MissingTexture("compute_stage_tex_heap_resident_lost"),
            )
            &&& is_one_plane(d) && fits && (is_storage ==> storage_format(d.pixel_format) is Some)
                && !lost ==> staged is Ok
        }),
{
    assert(key == ComputeStorageResidencyKey::spec_heap(
        task_id,
        texture_ref,
        d.width,
        d.height,
        d.pixel_format,
    ));
}

} // verus!
