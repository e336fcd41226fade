//! What a texture bind stages as.
//!
//! A bound reference may be a view, a heap texture, a surface handle or a linear
//! texture. The caller resolves objects, ensures surfaces and reads guest memory;
//! the order of the checks, what is read and what it stages as are decided here.

use vstd::prelude::*;
use crate::compute_exec::format::{
    StorageImageFormat, mtl_to_engine_sampled, sampled_format, storage_format, storage_selector,
};
use crate::compute_exec::status::ComputeStatus;
use crate::contract::{bytes_per_pixel, texel_bytes};
use crate::residency::{ComputeStorageResidencyKey, ResidencyMap, lookup};

verus! {

/// A window that may be kept GPU-resident, and the generation that it is seeded at.
#[derive(Clone, Copy, Debug, PartialEq, Eq, Structural)]
pub struct ComputeStorageResidencyCandidate {
    pub key: ComputeStorageResidencyKey,
    pub seed_generation: u32,
}

/// A resident window that a sampled image is copied from.
#[derive(Clone, Copy, Debug, PartialEq, Eq, Structural)]
pub struct ResidentSample {
    pub key: ComputeStorageResidencyKey,
    pub generation: u32,
}

/// Where a storage image's texels go after the dispatch.
#[derive(Clone, Copy, Debug, PartialEq, Eq, Structural)]
pub enum TextureWriteback {
    Nowhere,
    Linear {
        texture_ref: u32,
        gva: u64,
        pixel_format: u16,
        row_stride: u64,
        width: u32,
        height: u32,
        bpp: u32,
    },
    Type11 {
        mapping_id: u32,
        surface_offset: u64,
        surface_bpr: u32,
        span_end: u64,
        width: u32,
        height: u32,
        bpp: u32,
    },
}

/// A texture bind with tight raw texels.
#[derive(Clone, Debug, PartialEq, Eq)]
pub struct StagedTexture {
    pub binding: u32,
    /// The pixel format of the exact texture or view.
    pub pixel_format: u16,
    /// The storage format, where the pixel format can be stored to.
    pub storage_selector: Option<StorageImageFormat>,
    pub width: u32,
    pub height: u32,
    pub bytes: Vec<u8>,
    pub is_storage: bool,
    pub residency: Option<ComputeStorageResidencyCandidate>,
    /// The guest read was skipped because the engine holds these very texels;
    /// `bytes` is then a placeholder that must not be seeded.
    pub seed_skipped: bool,
    /// The engine copies the image from a resident; `bytes` is then a placeholder.
    pub sample_resident: Option<ResidentSample>,
    pub writeback: TextureWriteback,
}

/// A staged texture as values.
pub struct StagedView {
    pub binding: u32,
    pub pixel_format: u16,
    pub storage_selector: Option<StorageImageFormat>,
    pub width: u32,
    pub height: u32,
    pub bytes: Seq<u8>,
    pub is_storage: bool,
    pub residency: Option<ComputeStorageResidencyCandidate>,
    pub seed_skipped: bool,
    pub sample_resident: Option<ResidentSample>,
    pub writeback: TextureWriteback,
}

impl View for StagedTexture {
    type V = StagedView;

    open spec fn view(&self) -> StagedView {
        StagedView {
            binding: self.binding,
            pixel_format: self.pixel_format,
            storage_selector: self.storage_selector,
            width: self.width,
            height: self.height,
            bytes: self.bytes@,
            is_storage: self.is_storage,
            residency: self.residency,
            seed_skipped: self.seed_skipped,
            sample_resident: self.sample_resident,
            writeback: self.writeback,
        }
    }
}

/// A staging result is the described one.
pub open spec fn stages_as(
    staged: Result<StagedTexture, ComputeStatus>,
    described: Result<StagedView, ComputeStatus>,
) -> bool {
    match (staged, described) {
        (Ok(t), Ok(v)) => t@ == v,
        (Err(a), Err(b)) => a == b,
        _ => false,
    }
}

/// `n` zero bytes.
pub open spec fn zeros(n: int) -> Seq<u8> {
    Seq::new(n as nat, |i: int| 0u8)
}

pub(crate) fn zeroed(n: usize) -> (bytes: Vec<u8>)
    ensures
        bytes@ == zeros(n as int),
{
    let mut bytes: Vec<u8> = Vec::new();
    while bytes.len() < n
        invariant
            bytes.len() <= n,
            forall|i: int| 0 <= i < bytes.len() ==> bytes[i] == 0,
        decreases n - bytes.len(),
    {
        bytes.push(0);
    }
    assert(bytes@ =~= zeros(n as int));
    bytes
}

/// What the engine holds of one window.
#[derive(Clone, Copy, Debug, PartialEq, Eq, Structural)]
pub struct EngineResident {
    pub key: ComputeStorageResidencyKey,
    pub generation: u32,
    pub format: StorageImageFormat,
    /// It can seed a storage image.
    pub storage: bool,
    /// It can be copied to a sampled image.
    pub sampled: bool,
}

/// What the engine holds resident.
pub struct EngineResidents {
    pub windows: Vec<EngineResident>,
}

/// The first resident of `key` among those from `i` on.
pub open spec fn resident_from(
    windows: Seq<EngineResident>,
    i: int,
    key: ComputeStorageResidencyKey,
) -> Option<EngineResident>
    decreases windows.len() - i,
{
    if i < 0 || i >= windows.len() {
        None
    } else if windows[i].key == key {
        Some(windows[i])
    } else {
        resident_from(windows, i + 1, key)
    }
}

impl EngineResidents {
    /// The generation at which the engine can seed the window.
    pub open spec fn storage_generation_spec(&self, key: ComputeStorageResidencyKey) -> Option<
        u32,
    > {
        match resident_from(self.windows@, 0, key) {
            Some(r) => if r.storage {
                Some(r.generation)
            } else {
                None
            },
            None => None,
        }
    }

    /// The generation and format that the engine can copy the window from.
    pub open spec fn sample_source_spec(&self, key: ComputeStorageResidencyKey) -> Option<
        (u32, StorageImageFormat),
    > {
        match resident_from(self.windows@, 0, key) {
            Some(r) => if r.sampled {
                Some((r.generation, r.format))
            } else {
                None
            },
            None => None,
        }
    }

    fn find(&self, key: &ComputeStorageResidencyKey) -> (found: Option<EngineResident>)
        ensures
            found == resident_from(self.windows@, 0, *key),
    {
        let mut i: usize = 0;
        while i < self.windows.len()
            invariant
                i <= self.windows.len(),
                resident_from(self.windows@, 0, *key) == resident_from(
                    self.windows@,
                    i as int,
                    *key,
                ),
            decreases self.windows.len() - i,
        {
            if self.windows[i].key == *key {
                return Some(self.windows[i]);
            }
            i = i + 1;
        }
        None
    }

    pub fn storage_generation(&self, key: &ComputeStorageResidencyKey) -> (generation: Option<u32>)
        ensures
            generation == self.storage_generation_spec(*key),
    {
        match self.find(key) {
            Some(r) => if r.storage {
                Some(r.generation)
            } else {
                None
            },
            None => None,
        }
    }

    pub fn sample_source(&self, key: &ComputeStorageResidencyKey) -> (source: Option<
        (u32, StorageImageFormat),
    >)
        ensures
            source == self.sample_source_spec(*key),
    {
        match self.find(key) {
            Some(r) => if r.sampled {
                Some((r.generation, r.format))
            } else {
                None
            },
            None => None,
        }
    }
}

/// A heap texture's serialized descriptor.
#[derive(Clone, Copy, Debug, PartialEq, Eq, Structural)]
pub struct HeapDescriptor {
    pub texture_type: u32,
    pub width: u32,
    pub height: u32,
    pub depth: u32,
    pub mipmap_level_count: u32,
    pub sample_count: u32,
    pub array_length: u32,
    pub pixel_format: u16,
}

/// A heap texture object as read.
#[derive(Clone, Copy, Debug, PartialEq, Eq, Structural)]
pub struct HeapObject {
    /// The object has the length of a heap texture.
    pub whole: bool,
    pub heap_ref: u32,
    pub use_offset: u32,
    pub offset: u64,
    /// Its texture descriptor, where it decodes.
    pub descriptor: Option<HeapDescriptor>,
}

/// A texture view, resolved to its base.
#[derive(Clone, Copy, Debug, PartialEq, Eq, Structural)]
pub struct ResolvedView {
    pub base_texture_ref: u32,
    pub level: u32,
    pub pixel_format: Option<u16>,
    pub identity_swizzle: bool,
}

/// The object that a texture bind refers to.
#[derive(Clone, Copy, Debug, PartialEq, Eq, Structural)]
pub enum BoundObject {
    /// Not a view, or not in the object list.
    Plain,
    ViewUnreadable,
    Heap(HeapObject),
    BufferTexture,
    ViewUnresolved,
    View(ResolvedView),
}

/// The texture behind a bind.
#[derive(Clone, Copy, Debug, PartialEq, Eq, Structural)]
pub struct BaseTexture {
    pub stage_ref: u32,
    pub level: u32,
    pub pixel_format: Option<u16>,
}

/// Which way a bind is staged.
#[derive(Clone, Copy, Debug, PartialEq, Eq, Structural)]
pub enum TexturePath {
    Heap(HeapDescriptor),
    Base(BaseTexture),
}

/// The way a bind is staged, or why it is not.
pub open spec fn texture_path(texture_ref: u32, object: BoundObject) -> Result<
    TexturePath,
    ComputeStatus,
> {
    match object {
        BoundObject::Plain => Ok(
            TexturePath::Base(
                BaseTexture { stage_ref: texture_ref, level: 0, pixel_format: None },
            ),
        ),
        BoundObject::ViewUnreadable => Err(
            ComputeStatus::MissingTexture("compute_stage_tex_view_no_desc"),
        ),
        BoundObject::Heap(heap) => if !heap.whole {
            Err(ComputeStatus::MissingTexture("compute_stage_tex_heap_bad_len"))
        } else if heap.heap_ref == 0 {
            Err(ComputeStatus::MissingTexture("compute_stage_tex_heap_zero_ref"))
        } else if heap.use_offset > 1 {
            Err(ComputeStatus::Unsupported("compute_heap_use_offset"))
        } else {
            match heap.descriptor {
                Some(descriptor) => Ok(TexturePath::Heap(descriptor)),
                None => Err(ComputeStatus::MissingTexture("compute_stage_tex_heap_desc_decode")),
            }
        },
        BoundObject::BufferTexture => Err(
            ComputeStatus::Unsupported("compute_buffer_texture_unsupported"),
        ),
        BoundObject::ViewUnresolved => Err(
            ComputeStatus::MissingTexture("compute_stage_tex_view_resolve"),
        ),
        BoundObject::View(view) => if !view.identity_swizzle {
            Err(ComputeStatus::Unsupported("compute_view_swizzle_unsupported"))
        } else {
            Ok(
                TexturePath::Base(
                    BaseTexture {
                        stage_ref: view.base_texture_ref,
                        level: view.level,
                        pixel_format: view.pixel_format,
                    },
                ),
            )
        },
    }
}

/// Decide which way a bind is staged.
pub fn resolve_texture_path(texture_ref: u32, object: &BoundObject) -> (path: Result<
    TexturePath,
    ComputeStatus,
>)
    ensures
        path == texture_path(texture_ref, *object),
{
    match object {
        BoundObject::Plain => Ok(
            TexturePath::Base(
                BaseTexture { stage_ref: texture_ref, level: 0, pixel_format: None },
            ),
        ),
        BoundObject::ViewUnreadable => Err(
            ComputeStatus::MissingTexture("compute_stage_tex_view_no_desc"),
        ),
        BoundObject::Heap(heap) => {
            if !heap.whole {
                return Err(ComputeStatus::MissingTexture("compute_stage_tex_heap_bad_len"));
            }
            if heap.heap_ref == 0 {
                return Err(ComputeStatus::MissingTexture("compute_stage_tex_heap_zero_ref"));
            }
            if heap.use_offset > 1 {
                return Err(ComputeStatus::Unsupported("compute_heap_use_offset"));
            }
            match heap.descriptor {
                Some(descriptor) => Ok(TexturePath::Heap(descriptor)),
                None => Err(ComputeStatus::MissingTexture("compute_stage_tex_heap_desc_decode")),
            }
        },
        BoundObject::BufferTexture => Err(
            ComputeStatus::Unsupported("compute_buffer_texture_unsupported"),
        ),
        BoundObject::ViewUnresolved => Err(
            ComputeStatus::MissingTexture("compute_stage_tex_view_resolve"),
        ),
        BoundObject::View(view) => {
            if !view.identity_swizzle {
                return Err(ComputeStatus::Unsupported("compute_view_swizzle_unsupported"));
            }
            Ok(
                TexturePath::Base(
                    BaseTexture {
                        stage_ref: view.base_texture_ref,
                        level: view.level,
                        pixel_format: view.pixel_format,
                    },
                ),
            )
        },
    }
}

/// The engine can copy the window at this generation to an image of the format.
pub open spec fn samples_resident(
    residents: EngineResidents,
    key: ComputeStorageResidencyKey,
    generation: u32,
    format: u16,
) -> bool {
    match residents.sample_source_spec(key) {
        Some((g, resident_format)) => g == generation && sampled_format(format) == Some(
            resident_format,
        ),
        None => false,
    }
}

pub(crate) fn can_sample_resident(
    residents: &EngineResidents,
    key: &ComputeStorageResidencyKey,
    generation: u32,
    format: u16,
) -> (r: bool)
    ensures
        r == samples_resident(*residents, *key, generation, format),
{
    match residents.sample_source(key) {
        Some((g, resident_format)) => g == generation && match mtl_to_engine_sampled(format) {
            Some(f) => f == resident_format,
            None => false,
        },
        None => false,
    }
}

/// What a heap texture stages as. It has no guest memory: its contents are what
/// the engine holds for it, or zero where nothing was stored yet.
pub open spec fn heap_staged(
    task_id: u32,
    texture_ref: u32,
    binding: u32,
    is_storage: bool,
    d: HeapDescriptor,
    mirror: Seq<(ComputeStorageResidencyKey, u32)>,
    residents: EngineResidents,
) -> Result<StagedView, ComputeStatus> {
    let key = ComputeStorageResidencyKey::spec_heap(
        task_id,
        texture_ref,
        d.width,
        d.height,
        d.pixel_format,
    );
    let recorded = lookup(mirror, key);
    let seeds = is_storage && recorded is Some && residents.storage_generation_spec(key)
        == recorded;
    let samples = !is_storage && recorded is Some && samples_resident(
        residents,
        key,
        recorded->0,
        d.pixel_format,
    );
    if d.texture_type != 2 || d.depth != 1 || d.mipmap_level_count != 1 || d.sample_count != 1
        || d.array_length != 1 {
        Err(ComputeStatus::Unsupported("compute_heap_shape"))
    } else if texel_bytes(d.pixel_format) is None {
        Err(ComputeStatus::Unsupported("compute_heap_fmt_bytes"))
    } else if is_storage && storage_format(d.pixel_format) is None {
        Err(ComputeStatus::Unsupported("compute_heap_fmt_storage"))
    } else if d.width * d.height * texel_bytes(d.pixel_format)->0 > usize::MAX {
        Err(ComputeStatus::Unsupported("compute_heap_host_len"))
    } else if recorded is Some && !seeds && !samples {
        Err(ComputeStatus::MissingTexture("compute_stage_tex_heap_resident_lost"))
    } else {
        let seed_generation = if seeds {
            recorded->0
        } else {
            0
        };
        Ok(
            StagedView {
                binding,
                pixel_format: d.pixel_format,
                storage_selector: storage_format(d.pixel_format),
                width: d.width,
                height: d.height,
                bytes: zeros(d.width * d.height * texel_bytes(d.pixel_format)->0),
                is_storage,
                residency: if is_storage {
                    Some(ComputeStorageResidencyCandidate { key, seed_generation })
                } else {
                    None
                },
                seed_skipped: seeds,
                sample_resident: if samples {
                    Some(ResidentSample { key, generation: recorded->0 })
                } else {
                    None
                },
                writeback: TextureWriteback::Nowhere,
            },
        )
    }
}

/// Bytes of a tight image, where the host can address them.
fn image_bytes(width: u32, height: u32, bpp: u32) -> (need: Option<usize>)
    requires
        bpp <= 16,
    ensures
        need is Some <==> width * height * bpp <= usize::MAX,
        need is Some ==> need->0 == width * height * bpp,
{
    assert(width * height * bpp <= 0xffff_ffff * 0xffff_ffff * 16) by (nonlinear_arith)
        requires
            width <= 0xffff_ffff,
            height <= 0xffff_ffff,
            bpp <= 16,
    ;
    assert(width * height <= 0xffff_ffff * 0xffff_ffff) by (nonlinear_arith)
        requires
            width <= 0xffff_ffff,
            height <= 0xffff_ffff,
    ;
    let need: u128 = width as u128 * height as u128 * bpp as u128;
    if need <= usize::MAX as u128 {
        Some(need as usize)
    } else {
        None
    }
}

/// Stage a heap texture.
pub fn stage_heap_texture(
    task_id: u32,
    texture_ref: u32,
    binding: u32,
    is_storage: bool,
    d: &HeapDescriptor,
    mirror: &ResidencyMap,
    residents: &EngineResidents,
) -> (staged: Result<StagedTexture, ComputeStatus>)
    requires
        mirror.wf(),
    ensures
        stages_as(
            staged,
            heap_staged(task_id, texture_ref, binding, is_storage, *d, mirror@, *residents),
        ),
{
    if d.texture_type != 2 || d.depth != 1 || d.mipmap_level_count != 1 || d.sample_count != 1
        || d.array_length != 1 {
        return Err(ComputeStatus::Unsupported("compute_heap_shape"));
    }
    let bpp: u32 = match bytes_per_pixel(d.pixel_format) {
        Some(bpp) => bpp,
        None => {
            return Err(ComputeStatus::Unsupported("compute_heap_fmt_bytes"));
        },
    };
    let selector = storage_selector(d.pixel_format);
    if is_storage && selector.is_none() {
        return Err(ComputeStatus::Unsupported("compute_heap_fmt_storage"));
    }
    let need: usize = match image_bytes(d.width, d.height, bpp) {
        Some(need) => need,
        None => {
            return Err(ComputeStatus::Unsupported("compute_heap_host_len"));
        },
    };
    let key = ComputeStorageResidencyKey::heap(
        task_id,
        texture_ref,
        d.width,
        d.height,
        d.pixel_format,
    );
    let mut seed_generation: u32 = 0;
    let mut seed_skipped = false;
    let mut sample_resident: Option<ResidentSample> = None;
    match mirror.get(&key) {
        Some(generation) => {
            if is_storage {
                let held = match residents.storage_generation(&key) {
                    Some(g) => g == generation,
                    None => false,
                };
                if held {
                    seed_generation = generation;
                    seed_skipped = true;
                }
            } else if can_sample_resident(residents, &key, generation, d.pixel_format) {
                sample_resident = Some(ResidentSample { key, generation });
            }
            if !seed_skipped && sample_resident.is_none() {
                return Err(ComputeStatus::MissingTexture("compute_stage_tex_heap_resident_lost"));
            }
        },
        None => {},
    }
    Ok(
        StagedTexture {
            binding,
            pixel_format: d.pixel_format,
            storage_selector: selector,
            width: d.width,
            height: d.height,
            bytes: zeroed(need),
            is_storage,
            residency: if is_storage {
                Some(ComputeStorageResidencyCandidate { key, seed_generation })
            } else {
                None
            },
            seed_skipped,
            sample_resident,
            writeback: TextureWriteback::Nowhere,
        },
    )
}

} // verus!
