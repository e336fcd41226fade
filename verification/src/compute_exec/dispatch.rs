//! One dispatch on the engine, from its binds to its written outputs.
//!
//! A [`Dispatch`] waits for one thing at a time: an object, a read, the translator,
//! the engine, a write. The caller does the work that its phase names and hands the
//! result back; the dispatch decides what comes next, or that it is done.

use vstd::prelude::*;
use crate::compute_exec::accum::{
    AccumView, ComputeAccum, ComputeBufferBind, ComputeTextureBind, slots_ok,
};
use crate::compute_exec::buffers::{LoadedComputePipeline, StagedBuffer, writeback_buffer};
use crate::compute_exec::command::ComputeCommand;
use crate::compute_exec::dims::{
    DispatchDims, argument_bytes, arguments_view, dispatch_dims, law_resolved_dims_are_nonzero,
    nonzero_dims, resolve_dispatch_dims,
};
use crate::compute_exec::kernel::{
    BufferUse, KernelSource, SamplerUse, StorageFormat, TextureUse, are_sampler_uses, buffer_uses,
    formats_of_textures, is_specialized, kernel_words, lemma_uses_len, requests, sampler_uses,
    specialize_kernel, storage_formats, texture_use, use_of_texture, uses_of_buffers,
    words_or_refusal,
};
use crate::compute_exec::request::{
    DeviceAbilities, SampledImage, StorageImage, are_images, emptied, engine_images,
    images_refusal, storage_before, texture_views, writable_count, writable_uses,
};
use crate::compute_exec::restage::{
    WindowRead, begin_restage_sampled, begin_restage_storage, sampled_restage, still_owed,
    storage_restage, window_len,
};
use crate::compute_exec::status::ComputeStatus;
use crate::compute_exec::texture::{StagedTexture, StagedView};
use crate::model::{DeviceState, DeviceView};
use crate::residency::ComputeStorageResidencyKey;
use crate::spirv_bind::ShaderReflection;
use crate::spirv_bind::specialize_laws::law_fresh_ids_bounded;
use crate::spirv_bind::specialize_model::{first_request_error, first_unread, fresh_ids, is_retyped};
use crate::spirv_bind::stream::{id_bound, module_ok};

verus! {

/// How an output image came out of the engine.
#[derive(Clone, Copy, Debug, PartialEq, Eq, Structural)]
pub enum OutputKind {
    /// It stays in the engine.
    Deferred,
    /// The engine copied it into guest memory.
    Direct,
    /// Its bytes were read back.
    Bytes,
}

/// An image that is restaged.
#[derive(Clone, Copy, Debug, PartialEq, Eq, Structural)]
pub enum RestageImage {
    Storage(usize),
    Sampled(usize),
}

/// What a dispatch waits for.
#[derive(Clone, Copy, Debug, PartialEq, Eq)]
pub enum Phase {
    /// The pipeline object.
    Pipeline,
    /// The write target's size and the indirect arguments.
    Geometry,
    /// The bytes of a bound buffer.
    Buffer { index: usize },
    /// The translated kernel.
    Kernel,
    /// The texels of a bound texture.
    Texture { index: usize, texture: TextureUse },
    /// What the device can do, and the host views of the surfaces.
    Device,
    /// The samplers.
    Samplers,
    /// The engine's run.
    Engine { retried: bool },
    /// Fresh bytes for an image whose resident the engine lost. `some` tells that
    /// another image was restaged before.
    Restage { image: RestageImage, read: WindowRead, some: bool },
    /// The engine's outputs.
    Outputs,
    /// The write of an output buffer.
    BufferWrite { output: usize, slot: usize },
    /// The write of an output image.
    ImageWrite { index: usize, output: usize, kind: OutputKind },
    /// Nothing.
    Done(ComputeStatus),
}

/// What the engine handed back.
#[derive(Clone, Debug, PartialEq, Eq)]
pub struct EngineOutput {
    pub buffers: Vec<(u32, Vec<u8>)>,
    pub images: Vec<Vec<u8>>,
    pub direct: Vec<bool>,
    pub deferred: Vec<bool>,
}

/// A dispatch under way.
pub struct Dispatch {
    pub phase: Phase,
    pub kernel_func_ref: u32,
    pub dims: DispatchDims,
    pub words: Vec<u32>,
    pub buffers: Vec<StagedBuffer>,
    pub uses: Vec<BufferUse>,
    /// What the kernel does with each bound texture.
    pub plan: Vec<Result<Option<TextureUse>, ComputeStatus>>,
    pub textures: Vec<StagedTexture>,
    pub storage: Vec<StorageImage>,
    pub sampled: Vec<SampledImage>,
    pub samplers: Vec<SamplerUse>,
    pub output: EngineOutput,
}

/// A staged buffer as values.
pub struct BufferView {
    pub bind: ComputeBufferBind,
    pub gva: u64,
    pub bytes: Seq<u8>,
}

pub open spec fn buffer_views(buffers: Seq<StagedBuffer>) -> Seq<BufferView> {
    Seq::new(
        buffers.len(),
        |i: int|
            BufferView { bind: buffers[i].bind, gva: buffers[i].gva, bytes: buffers[i].bytes@ },
    )
}

/// The engine's outputs as values.
pub struct OutputView {
    pub buffers: Seq<(u32, Seq<u8>)>,
    pub images: Seq<Seq<u8>>,
    pub direct: Seq<bool>,
    pub deferred: Seq<bool>,
}

impl View for EngineOutput {
    type V = OutputView;

    open spec fn view(&self) -> OutputView {
        OutputView {
            buffers: Seq::new(
                self.buffers@.len(),
                |i: int| (self.buffers@[i].0, self.buffers@[i].1@),
            ),
            images: Seq::new(self.images@.len(), |i: int| self.images@[i]@),
            direct: self.direct@,
            deferred: self.deferred@,
        }
    }
}

/// A dispatch as values.
pub struct DispatchView {
    pub phase: Phase,
    pub kernel_func_ref: u32,
    pub dims: DispatchDims,
    pub words: Seq<u32>,
    pub buffers: Seq<BufferView>,
    pub uses: Seq<BufferUse>,
    pub plan: Seq<Result<Option<TextureUse>, ComputeStatus>>,
    pub textures: Seq<StagedView>,
    pub storage: Seq<StorageImage>,
    pub sampled: Seq<SampledImage>,
    pub samplers: Seq<SamplerUse>,
    pub output: OutputView,
}

impl View for Dispatch {
    type V = DispatchView;

    open spec fn view(&self) -> DispatchView {
        DispatchView {
            phase: self.phase,
            kernel_func_ref: self.kernel_func_ref,
            dims: self.dims,
            words: self.words@,
            buffers: buffer_views(self.buffers@),
            uses: self.uses@,
            plan: self.plan@,
            textures: texture_views(self.textures@),
            storage: self.storage@,
            sampled: self.sampled@,
            samplers: self.samplers@,
            output: self.output@,
        }
    }
}

impl DispatchView {
    /// The dispatch with another phase.
    pub open spec fn at(self, phase: Phase) -> DispatchView {
        DispatchView { phase, ..self }
    }
}

/// The binds ask for stage-in or imageblocks, which the engine does not have. An
/// indirect stage-in region asks for it as a direct one does.
pub open spec fn stages_in(accum: AccumView) -> bool {
    accum.imageblock is Some || accum.stage_in_region is Some || accum.stage_in_region_indirect
        is Some
}

/// The phase in which the buffer at `index` is awaited, if there is one.
pub open spec fn buffer_phase(accum: AccumView, index: int) -> Phase {
    if index < accum.buffers.len() {
        Phase::Buffer { index: index as usize }
    } else {
        Phase::Kernel
    }
}

/// The phase in which the next texture that the kernel uses is awaited, looking
/// from `index` on. A bind that the kernel does not declare is passed over.
pub open spec fn texture_phase(
    plan: Seq<Result<Option<TextureUse>, ComputeStatus>>,
    index: int,
) -> Phase
    decreases plan.len() - index,
{
    if index < 0 || index >= plan.len() {
        Phase::Device
    } else {
        match plan[index] {
            Err(status) => Phase::Done(status),
            Ok(Some(texture)) => Phase::Texture { index: index as usize, texture },
            Ok(None) => texture_phase(plan, index + 1),
        }
    }
}

/// A texture is staged for what the kernel does with it.
pub open spec fn serves(texture: StagedView, wanted: TextureUse) -> bool {
    texture.binding == wanted.binding && texture.is_storage == wanted.storage is Some
}

/// The uses among the first `n` binds, in order.
pub open spec fn uses_before(
    plan: Seq<Result<Option<TextureUse>, ComputeStatus>>,
    n: int,
) -> Seq<TextureUse>
    decreases n,
{
    if n <= 0 {
        Seq::empty()
    } else {
        match plan[n - 1] {
            Ok(Some(texture)) => uses_before(plan, n - 1).push(texture),
            _ => uses_before(plan, n - 1),
        }
    }
}

/// There is one staged texture for each use among the first `n` binds.
pub open spec fn all_served(
    textures: Seq<StagedView>,
    plan: Seq<Result<Option<TextureUse>, ComputeStatus>>,
    n: int,
) -> bool {
    let uses = uses_before(plan, n);
    &&& textures.len() == uses.len()
    &&& forall|i: int| 0 <= i < uses.len() ==> serves(#[trigger] textures[i], uses[i])
}

/// What the kernel does with each bound texture.
pub open spec fn texture_plan(
    words: Seq<u32>,
    reflection: ShaderReflection,
    binds: Seq<ComputeTextureBind>,
) -> Seq<Result<Option<TextureUse>, ComputeStatus>> {
    Seq::new(binds.len(), |i: int| use_of_texture(words, reflection, binds[i]))
}

/// How a run of the engine ended.
#[derive(Clone, Copy, Debug, PartialEq, Eq, Structural)]
pub enum EngineRun {
    Finished,
    Failed {
        /// The engine does not support the request.
        unsupported: bool,
        /// A resident that an image relied on is gone.
        resident_lost: bool,
    },
}

/// The run is followed by a restage: a resident was lost, and this was the first run.
pub open spec fn restages(run: EngineRun, retried: bool) -> bool {
    !retried && run is Failed && run->Failed_resident_lost
}

/// The phase after a run that is not followed by a restage.
pub open spec fn run_phase(run: EngineRun) -> Phase {
    match run {
        EngineRun::Finished => Phase::Outputs,
        EngineRun::Failed { unsupported, .. } => if unsupported {
            Phase::Done(ComputeStatus::Unsupported("engine_run_unsupported"))
        } else {
            Phase::Done(ComputeStatus::MetalFailed("compute_vk_engine_run"))
        },
    }
}

/// The phase in which the next sampled image that relied on a resident is restaged,
/// from `i` on. The run is retried once all are; that some image relied on one is
/// what the engine's loss says.
pub open spec fn sampled_phase(sampled: Seq<SampledImage>, i: int, some: bool) -> Phase
    decreases sampled.len() - i,
{
    if i < 0 || i >= sampled.len() {
        if some {
            Phase::Engine { retried: true }
        } else {
            Phase::Done(ComputeStatus::MetalFailed("compute_restage_no_skipped_resource"))
        }
    } else {
        match sampled_restage(sampled[i]) {
            Err(status) => Phase::Done(status),
            Ok(Some(read)) => Phase::Restage {
                image: RestageImage::Sampled(i as usize),
                read,
                some,
            },
            Ok(None) => sampled_phase(sampled, i + 1, some),
        }
    }
}

/// The phase in which the next storage image that was seeded by a resident is
/// restaged, from `i` on, and what is still owed to the guest then.
pub open spec fn storage_phase(
    storage: Seq<StorageImage>,
    sampled: Seq<SampledImage>,
    owed: Seq<(ComputeStorageResidencyKey, u32)>,
    i: int,
    some: bool,
) -> (Phase, Seq<(ComputeStorageResidencyKey, u32)>)
    decreases storage.len() - i,
{
    if i < 0 || i >= storage.len() {
        (sampled_phase(sampled, 0, some), owed)
    } else {
        let left = still_owed(owed, storage[i]);
        match storage_restage(storage[i]) {
            Err(status) => (Phase::Done(status), left),
            Ok(Some(read)) => (
                Phase::Restage { image: RestageImage::Storage(i as usize), read, some },
                left,
            ),
            Ok(None) => storage_phase(storage, sampled, left, i + 1, some),
        }
    }
}

/// The first staged buffer bound at `binding`, from `i` on.
pub open spec fn slot_from(buffers: Seq<BufferView>, i: int, binding: u32) -> Option<int>
    decreases buffers.len() - i,
{
    if i < 0 || i >= buffers.len() {
        None
    } else if buffers[i].bind.index == binding {
        Some(i)
    } else {
        slot_from(buffers, i + 1, binding)
    }
}

/// The first storage image from `i` on.
pub open spec fn storage_from(textures: Seq<StagedView>, i: int) -> Option<int>
    decreases textures.len() - i,
{
    if i < 0 || i >= textures.len() {
        None
    } else if textures[i].is_storage {
        Some(i)
    } else {
        storage_from(textures, i + 1)
    }
}

/// How an output came, by the engine's marks.
pub open spec fn kind_of(output: OutputView, k: int) -> OutputKind {
    if output.deferred[k] {
        OutputKind::Deferred
    } else if output.direct[k] {
        OutputKind::Direct
    } else {
        OutputKind::Bytes
    }
}

impl DispatchView {
    /// On to the output image `k`, which is that of the first storage image from
    /// `from` on; done, where there is none.
    pub open spec fn to_image(self, from: int, k: int) -> DispatchView {
        match storage_from(self.textures, from) {
            None => self.at(Phase::Done(ComputeStatus::Completed)),
            Some(i) => {
                let kind = kind_of(self.output, k);
                DispatchView {
                    phase: Phase::ImageWrite { index: i as usize, output: k as usize, kind },
                    textures: if kind == OutputKind::Bytes {
                        self.textures.update(
                            i,
                            StagedView { bytes: self.output.images[k], ..self.textures[i] },
                        )
                    } else {
                        self.textures
                    },
                    ..self
                }
            },
        }
    }

    /// On to the output buffer `k`, or to the images behind the last one.
    pub open spec fn to_buffer(self, k: int) -> DispatchView {
        if k >= self.output.buffers.len() {
            self.to_image(0, 0)
        } else {
            match slot_from(self.buffers, 0, self.output.buffers[k].0) {
                None => self.at(
                    Phase::Done(ComputeStatus::MetalFailed("compute_vk_readback_binding")),
                ),
                Some(slot) => DispatchView {
                    phase: Phase::BufferWrite { output: k as usize, slot: slot as usize },
                    buffers: self.buffers.update(
                        slot,
                        BufferView { bytes: self.output.buffers[k].1, ..self.buffers[slot] },
                    ),
                    ..self
                },
            }
        }
    }

    /// The engine handed back one output for each writable buffer and each storage
    /// image.
    pub open spec fn answers(self, output: OutputView) -> bool {
        let images = storage_before(self.textures, self.textures.len() as int);
        &&& output.buffers.len() == writable_uses(self.uses)
        &&& output.images.len() == images
        &&& output.direct.len() == images
        &&& output.deferred.len() == images
    }

    /// The dimensions are known, and none is zero.
    pub open spec fn sized(self) -> bool {
        match self.phase {
            Phase::Pipeline | Phase::Geometry | Phase::Done(_) => true,
            _ => nonzero_dims(self.dims),
        }
    }

    /// The use of every staged buffer is known, once the kernel is.
    pub open spec fn uses_known(self) -> bool {
        match self.phase {
            Phase::Pipeline | Phase::Geometry | Phase::Buffer { .. } | Phase::Kernel
            | Phase::Done(_) => true,
            _ => self.uses.len() == self.buffers.len(),
        }
    }

    /// What holds of a dispatch between its steps.
    pub open spec fn consistent(self) -> bool {
        self.sized() && self.uses_known() && self.phase_fits()
    }

    /// What the phase speaks of is there.
    pub open spec fn phase_fits(self) -> bool {
        let images = storage_before(self.textures, self.textures.len() as int);
        match self.phase {
            Phase::Pipeline | Phase::Geometry => self.buffers.len() == 0 && self.textures.len() == 0,
            Phase::Buffer { index } => self.buffers.len() == index && self.textures.len() == 0,
            Phase::Kernel => self.textures.len() == 0,
            Phase::Texture { index, texture } => index < self.plan.len() && self.plan[index as int]
                == Ok::<Option<TextureUse>, ComputeStatus>(Some(texture)) && all_served(
                self.textures,
                self.plan,
                index as int,
            ),
            Phase::Device => all_served(self.textures, self.plan, self.plan.len() as int),
            Phase::Restage { image: RestageImage::Storage(index), .. } => index
                < self.storage.len(),
            Phase::Restage { image: RestageImage::Sampled(index), .. } => index
                < self.sampled.len(),
            Phase::BufferWrite { output, slot } => output < self.output.buffers.len() && slot
                < self.buffers.len() && self.output.images.len() == images
                && self.output.direct.len() == images && self.output.deferred.len() == images,
            Phase::ImageWrite { index, output, kind } => index < self.textures.len()
                && self.textures[index as int].is_storage && output == storage_before(
                self.textures,
                index as int,
            ) && self.output.images.len() == images && self.output.direct.len() == images
                && self.output.deferred.len() == images,
            _ => true,
        }
    }
}

/// The new ids that a specialization takes are ids.
pub open spec fn has_room(words: Seq<u32>, formats: Seq<StorageFormat>) -> bool {
    module_ok(words) && first_request_error(words, requests(formats)) is None ==> id_bound(words)
        + fresh_ids(words, requests(formats)) <= u32::MAX
}

/// The kernel could not be specialized: the dispatch is done.
pub open spec fn specialize_refused(
    before: DispatchView,
    formats: Seq<StorageFormat>,
    after: DispatchView,
) -> bool {
    &&& after == (DispatchView {
        phase: Phase::Done(ComputeStatus::Unsupported("storage_format_specialize_error")),
        words: after.words,
        ..before
    })
    &&& if module_ok(before.words) && first_request_error(before.words, requests(formats)) is None {
        is_retyped(before.words, requests(formats), after.words) && first_unread(
            after.words,
            requests(formats),
        ) is Some
    } else {
        after.words == before.words
    }
}

/// The kernel was specialized, and the textures were handed over or refused.
pub open spec fn request_built(
    before: DispatchView,
    formats: Seq<StorageFormat>,
    abilities: DeviceAbilities,
    contigs: Seq<Option<(u64, u64)>>,
    accum: AccumView,
    after: DispatchView,
) -> bool {
    let n = before.textures.len() as int;
    &&& module_ok(before.words)
    &&& first_request_error(before.words, requests(formats)) is None
    &&& exists|retyped: Seq<u32>| #[trigger]
        is_specialized(before.words, formats, retyped, after.words)
    &&& match images_refusal(before.textures, formats, n) {
        Some(status) => after == (DispatchView {
            phase: Phase::Done(status),
            words: after.words,
            textures: Seq::empty(),
            ..before
        }),
        None => {
            &&& after == (DispatchView {
                phase: Phase::Samplers,
                words: after.words,
                textures: emptied(before.textures),
                storage: after.storage,
                sampled: after.sampled,
                samplers: after.samplers,
                ..before
            })
            &&& are_images(
                before.textures,
                formats,
                abilities,
                contigs,
                after.storage,
                after.sampled,
                n,
            )
            &&& are_sampler_uses(after.words, accum.samplers, after.samplers)
        },
    }
}

/// There are ids left for the specialization of `images` storage images: two for
/// each, above the module's bound. Where this holds, any formats for so many images
/// have room. A module too short to have a bound is refused without any.
pub fn ids_left(words: &[u32], images: usize) -> (left: bool)
    ensures
        left == (words.len() <= 3 || words[3] + 2 * images <= u32::MAX),
        left ==> forall|formats: Seq<StorageFormat>|
            formats.len() <= images ==> #[trigger] has_room(words@, formats),
{
    if words.len() <= 3 {
        assert forall|formats: Seq<StorageFormat>|
            formats.len() <= images implies #[trigger] has_room(words@, formats) by {
            assert(!module_ok(words@));
        }
        return true;
    }
    let left = images as u64 <= 0x7fff_ffff && words[3] as u64 + 2 * images as u64 <= 0xffff_ffff;
    proof {
        if left {
            assert forall|formats: Seq<StorageFormat>|
                formats.len() <= images implies #[trigger] has_room(words@, formats) by {
                if module_ok(words@) && first_request_error(words@, requests(formats)) is None {
                    law_fresh_ids_bounded(words@, requests(formats));
                }
            }
        }
    }
    left
}

/// Open a dispatch on the binds in force.
pub fn execute_dispatch(accum: &ComputeAccum) -> (dispatch: Dispatch)
    ensures
        dispatch@.consistent(),
        dispatch.phase == if accum.pipeline_ref == 0 {
            Phase::Done(ComputeStatus::MissingPipeline("compute_vk_pipeline_ref_zero"))
        } else {
            Phase::Pipeline
        },
        dispatch.words.len() == 0,
        dispatch.buffers.len() == 0,
        dispatch.uses.len() == 0,
        dispatch.plan.len() == 0,
        dispatch.textures.len() == 0,
        dispatch.storage.len() == 0,
        dispatch.sampled.len() == 0,
        dispatch.samplers.len() == 0,
        accum.pipeline_ref == 0 <==> dispatch.phase is Done,
{
    let phase = if accum.pipeline_ref == 0 {
        Phase::Done(ComputeStatus::MissingPipeline("compute_vk_pipeline_ref_zero"))
    } else {
        Phase::Pipeline
    };
    Dispatch {
        phase,
        kernel_func_ref: 0,
        dims: DispatchDims {
            grid_x: 0,
            grid_y: 0,
            grid_z: 0,
            tg_x: 0,
            tg_y: 0,
            tg_z: 0,
            threads: false,
        },
        words: Vec::new(),
        buffers: Vec::new(),
        uses: Vec::new(),
        plan: Vec::new(),
        textures: Vec::new(),
        storage: Vec::new(),
        sampled: Vec::new(),
        samplers: Vec::new(),
        output: EngineOutput {
            buffers: Vec::new(),
            images: Vec::new(),
            direct: Vec::new(),
            deferred: Vec::new(),
        },
    }
}

/// Open a dispatch on an encoder that is shared with others. The engine has none.
pub fn execute_dispatch_nested() -> (status: ComputeStatus)
    ensures
        status == ComputeStatus::NoMetal("compute_nested_no_vulkan_path"),
{
    ComputeStatus::NoMetal("compute_nested_no_vulkan_path")
}

impl Dispatch {
    /// The pipeline object was looked up.
    pub fn pipeline_loaded(&mut self, accum: &ComputeAccum, loaded: Option<&LoadedComputePipeline>)
        requires
            old(self)@.consistent(),
            old(self).phase == Phase::Pipeline,
        ensures
            final(self)@.consistent(),
            final(self)@ == match loaded {
                None => old(self)@.at(
                    Phase::Done(ComputeStatus::MissingPipeline("compute_vk_pipeline_load")),
                ),
                Some(pipeline) => if pipeline.stage_input is Some || stages_in(accum@) {
                    old(self)@.at(
                        Phase::Done(ComputeStatus::Unsupported("linux_stage_in_imageblock")),
                    )
                } else {
                    DispatchView {
                        phase: Phase::Geometry,
                        kernel_func_ref: pipeline.kernel_func_ref,
                        ..old(self)@
                    }
                },
            },
            loaded is None ==> final(self).phase is Done,
            final(self).phase is Geometry ==> loaded is Some && final(self).kernel_func_ref
                == loaded->0.kernel_func_ref && loaded->0.stage_input is None,
            loaded is Some && loaded->0.stage_input is Some ==> final(self).phase is Done,
    {
        match loaded {
            None => {
                self.phase = Phase::Done(
                    ComputeStatus::MissingPipeline("compute_vk_pipeline_load"),
                );
            },
            Some(pipeline) => {
                if pipeline.stage_input.is_some() || accum.imageblock.is_some()
                    || accum.stage_in_region.is_some()
                    || accum.stage_in_region_indirect.is_some() {
                    self.phase = Phase::Done(
                        ComputeStatus::Unsupported("linux_stage_in_imageblock"),
                    );
                } else {
                    self.kernel_func_ref = pipeline.kernel_func_ref;
                    self.phase = Phase::Geometry;
                }
            },
        }
    }

    /// The write target was sized and the indirect arguments were read.
    pub fn geometry_read(
        &mut self,
        accum: &ComputeAccum,
        command: &ComputeCommand,
        target: Option<(u32, u32)>,
        arguments: &Result<Vec<u8>, ComputeStatus>,
    )
        requires
            old(self)@.consistent(),
            old(self).phase == Phase::Geometry,
            match (argument_bytes(command.kind), *arguments) {
                (Some(len), Ok(raw)) => raw.len() == len,
                _ => true,
            },
        ensures
            final(self)@.consistent(),
            final(self)@ == match dispatch_dims(*command, target, arguments_view(*arguments)) {
                Err(status) => old(self)@.at(Phase::Done(status)),
                Ok(dims) => DispatchView {
                    phase: buffer_phase(accum@, 0),
                    dims,
                    ..old(self)@
                },
            },
    {
        match resolve_dispatch_dims(command, target, arguments) {
            Err(status) => {
                self.phase = Phase::Done(status);
            },
            Ok(dims) => {
                proof {
                    law_resolved_dims_are_nonzero(*command, target, arguments_view(*arguments));
                }
                self.dims = dims;
                self.phase = if accum.buffers.len() > 0 {
                    Phase::Buffer { index: 0 }
                } else {
                    Phase::Kernel
                };
            },
        }
    }

    /// The awaited buffer was staged for its bind, or refused.
    pub fn buffer_staged(&mut self, accum: &ComputeAccum, staged: Result<StagedBuffer, ComputeStatus>)
        requires
            old(self)@.consistent(),
            old(self).phase is Buffer,
            old(self).phase->Buffer_index < accum.buffers.len(),
            staged is Ok ==> staged->Ok_0.bind == accum@.buffers[old(self).phase->Buffer_index as int],
        ensures
            final(self)@.consistent(),
            final(self)@ == match staged {
                Err(status) => old(self)@.at(Phase::Done(status)),
                Ok(buffer) => DispatchView {
                    phase: buffer_phase(accum@, old(self).phase->Buffer_index + 1),
                    buffers: old(self)@.buffers.push(
                        BufferView { bind: buffer.bind, gva: buffer.gva, bytes: buffer.bytes@ },
                    ),
                    ..old(self)@
                },
            },
            staged is Err ==> final(self).phase == Phase::Done(staged->Err_0),
            staged is Ok ==> final(self)@.buffers.len() == old(self)@.buffers.len() + 1
                && final(self)@.buffers.last().bytes == staged->Ok_0.bytes@
                && final(self)@.buffers.last().gva == staged->Ok_0.gva,
    {
        match staged {
            Err(status) => {
                self.phase = Phase::Done(status);
            },
            Ok(buffer) => {
                let ghost view = BufferView {
                    bind: buffer.bind,
                    gva: buffer.gva,
                    bytes: buffer.bytes@,
                };
                let index: usize = self.buffers.len();
                self.buffers.push(buffer);
                assert(buffer_views(self.buffers@) =~= old(self)@.buffers.push(view));
                self.phase = if index + 1 < accum.buffers.len() {
                    Phase::Buffer { index: index + 1 }
                } else {
                    Phase::Kernel
                };
            },
        }
    }

    /// The kernel was translated, or was not. Its module tells what it does with
    /// the buffers; its reflection tells which textures it samples and which it
    /// stores to.
    pub fn kernel_translated(
        &mut self,
        accum: &ComputeAccum,
        source: &KernelSource,
        reflection: &ShaderReflection,
    )
        requires
            old(self)@.consistent(),
            old(self).phase == Phase::Kernel,
            accum.slots_in_order(),
        ensures
            final(self)@.consistent(),
            match words_or_refusal(*source) {
                Err(status) => final(self)@ == old(self)@.at(Phase::Done(status)),
                Ok(words) => match uses_of_buffers(
                    words,
                    old(self).buffers@,
                    old(self).buffers.len() as int,
                ) {
                    Err(status) => final(self)@ == (DispatchView {
                        phase: Phase::Done(status),
                        words,
                        ..old(self)@
                    }),
                    Ok(uses) => {
                        let plan = texture_plan(words, *reflection, accum@.textures);
                        final(self)@ == (DispatchView {
                            phase: texture_phase(plan, 0),
                            words,
                            uses,
                            plan,
                            ..old(self)@
                        })
                    },
                },
            },
    {
        match kernel_words(source) {
            Err(status) => {
                self.phase = Phase::Done(status);
                return ;
            },
            Ok(words) => {
                self.words = words;
            },
        }
        match buffer_uses(self.words.as_slice(), &self.buffers) {
            Err(status) => {
                self.phase = Phase::Done(status);
                return ;
            },
            Ok(uses) => {
                proof {
                    lemma_uses_len(self.words@, self.buffers@, self.buffers.len() as int);
                }
                self.uses = uses;
            },
        }
        let mut plan: Vec<Result<Option<TextureUse>, ComputeStatus>> = Vec::new();
        let mut i: usize = 0;
        while i < accum.textures.len()
            invariant
                i <= accum.textures.len(),
                slots_ok(accum.textures@, crate::compute_exec::accum::MAX_COMPUTE_TEXTURE_SLOTS),
                plan@ =~= texture_plan(self.words@, *reflection, accum.textures@).take(i as int),
            decreases accum.textures.len() - i,
        {
            let ghost bind = accum.textures@[i as int];
            assert(crate::compute_exec::accum::Slotted::slot_index(&bind) == bind.index);
            plan.push(texture_use(self.words.as_slice(), reflection, &accum.textures[i]));
            i = i + 1;
        }
        assert(plan@ =~= texture_plan(self.words@, *reflection, accum@.textures));
        self.plan = plan;
        self.await_texture(0);
    }

    /// Await the next texture that the kernel uses.
    fn await_texture(&mut self, from: usize)
        requires
            nonzero_dims(old(self).dims),
            old(self)@.uses.len() == old(self)@.buffers.len(),
            from <= old(self).plan.len(),
            all_served(old(self)@.textures, old(self)@.plan, from as int),
        ensures
            final(self)@.consistent(),
            final(self)@ == old(self)@.at(texture_phase(old(self)@.plan, from as int)),
    {
        let mut i: usize = from;
        while i < self.plan.len()
            invariant
                from <= i <= self.plan.len(),
                all_served(self@.textures, self@.plan, i as int),
                nonzero_dims(self.dims),
                self@.uses.len() == self@.buffers.len(),
                *self == *old(self),
                texture_phase(self.plan@, from as int) == texture_phase(self.plan@, i as int),
            decreases self.plan.len() - i,
        {
            match self.plan[i] {
                Err(status) => {
                    self.phase = Phase::Done(status);
                    return ;
                },
                Ok(Some(texture)) => {
                    self.phase = Phase::Texture { index: i, texture };
                    return ;
                },
                Ok(None) => {},
            }
            i = i + 1;
        }
        self.phase = Phase::Device;
    }

    /// The awaited texture was staged for its use, or refused.
    pub fn texture_staged(&mut self, staged: Result<StagedTexture, ComputeStatus>)
        requires
            old(self)@.consistent(),
            old(self).phase is Texture,
            staged is Ok ==> serves(staged->Ok_0@, old(self).phase->Texture_texture),
        ensures
            final(self)@.consistent(),
            final(self)@ == match staged {
                Err(status) => old(self)@.at(Phase::Done(status)),
                Ok(texture) => DispatchView {
                    phase: texture_phase(old(self)@.plan, old(self).phase->Texture_index + 1),
                    textures: old(self)@.textures.push(texture@),
                    ..old(self)@
                },
            },
            staged is Err ==> final(self).phase == Phase::Done(staged->Err_0),
            staged is Ok ==> final(self)@.textures.len() == old(self)@.textures.len() + 1
                && final(self)@.textures.last() == staged->Ok_0@,
    {
        let index: usize = match self.phase {
            Phase::Texture { index, .. } => index,
            _ => 0,
        };
        match staged {
            Err(status) => {
                self.phase = Phase::Done(status);
            },
            Ok(texture) => {
                let ghost view = texture@;
                self.textures.push(texture);
                assert(texture_views(self.textures@) =~= old(self)@.textures.push(view));
                assert(self.plan@.len() == self.plan.len());
                self.await_texture(index + 1);
            },
        }
    }

    /// The device told what it can do, and the host views of the surfaces were
    /// built. The kernel is specialized to the bound surfaces and the images are
    /// handed over.
    pub fn device_ready(
        &mut self,
        accum: &ComputeAccum,
        abilities: &DeviceAbilities,
        contigs: &Vec<Option<(u64, u64)>>,
    )
        requires
            old(self)@.consistent(),
            old(self).phase == Phase::Device,
            accum.slots_in_order(),
            contigs.len() == old(self).textures.len(),
            match formats_of_textures(
                old(self).words@,
                old(self).textures@,
                abilities.write_without_format,
                old(self).textures.len() as int,
            ) {
                Ok(formats) => has_room(old(self).words@, formats),
                Err(_) => true,
            },
        ensures
            final(self)@.consistent(),
            match formats_of_textures(
                old(self).words@,
                old(self).textures@,
                abilities.write_without_format,
                old(self).textures.len() as int,
            ) {
                Err(status) => final(self)@ == old(self)@.at(Phase::Done(status)),
                Ok(formats) => specialize_refused(
                    old(self)@,
                    formats,
                    final(self)@,
                ) || request_built(
                    old(self)@,
                    formats,
                    *abilities,
                    contigs@,
                    accum@,
                    final(self)@,
                ),
            },
    {
        let formats = match storage_formats(
            self.words.as_slice(),
            &self.textures,
            abilities.write_without_format,
        ) {
            Err(status) => {
                self.phase = Phase::Done(status);
                return ;
            },
            Ok(formats) => formats,
        };
        match specialize_kernel(&mut self.words, &formats) {
            Err(status) => {
                self.phase = Phase::Done(status);
                return ;
            },
            Ok(_) => {},
        }
        let mut textures: Vec<StagedTexture> = Vec::new();
        core::mem::swap(&mut textures, &mut self.textures);
        match engine_images(textures, &formats, abilities, contigs) {
            Err(status) => {
                assert(texture_views(self.textures@) =~= Seq::<StagedView>::empty());
                self.phase = Phase::Done(status);
                return ;
            },
            Ok(images) => {
                self.textures = images.textures;
                self.storage = images.storage;
                self.sampled = images.sampled;
            },
        }
        assert forall|i: int| 0 <= i < accum.samplers.len() implies
            crate::spirv_bind::SAMPLER_BINDING_BASE + (#[trigger] accum.samplers[i]).index
            <= u32::MAX by {
            let bind = accum.samplers@[i];
            assert(crate::compute_exec::accum::Slotted::slot_index(&bind) == bind.index);
        }
        self.samplers = sampler_uses(self.words.as_slice(), &accum.samplers);
        self.phase = Phase::Samplers;
    }

    /// The samplers were loaded, or one was not.
    pub fn samplers_loaded(&mut self, loaded: bool)
        requires
            old(self)@.consistent(),
            old(self).phase == Phase::Samplers,
        ensures
            final(self)@.consistent(),
            final(self)@ == old(self)@.at(
                if loaded {
                    Phase::Engine { retried: false }
                } else {
                    Phase::Done(ComputeStatus::MissingSampler("compute_vk_sampler_load"))
                },
            ),
            loaded ==> final(self).phase == (Phase::Engine { retried: false }),
            !loaded ==> final(self).phase is Done,
    {
        self.phase = if loaded {
            Phase::Engine { retried: false }
        } else {
            Phase::Done(ComputeStatus::MissingSampler("compute_vk_sampler_load"))
        };
    }

    /// The engine ran.
    pub fn engine_ran(&mut self, state: &mut DeviceState, run: EngineRun)
        requires
            old(self)@.consistent(),
            old(self).phase is Engine,
            old(state).wf(),
        ensures
            final(self)@.consistent(),
            final(state).wf(),
            if restages(run, old(self).phase->Engine_retried) {
                let (phase, owed) = storage_phase(
                    old(self).storage@,
                    old(self).sampled@,
                    old(state)@.compute_deferred_flush,
                    0,
                    false,
                );
                &&& final(self)@ == old(self)@.at(phase)
                &&& final(state)@ == (DeviceView {
                    compute_deferred_flush: owed,
                    ..old(state)@
                })
            } else {
                &&& final(self)@ == old(self)@.at(run_phase(run))
                &&& final(state)@ == old(state)@
            },
    {
        let retried = match self.phase {
            Phase::Engine { retried } => retried,
            _ => true,
        };
        match run {
            EngineRun::Finished => {
                self.phase = Phase::Outputs;
            },
            EngineRun::Failed { unsupported, resident_lost } => {
                if resident_lost && !retried {
                    self.restage_lost_residents(state, 0, false);
                } else if unsupported {
                    self.phase = Phase::Done(ComputeStatus::Unsupported("engine_run_unsupported"));
                } else {
                    self.phase = Phase::Done(ComputeStatus::MetalFailed("compute_vk_engine_run"));
                }
            },
        }
    }

    /// Await the bytes of the next image that relied on a lost resident.
    fn restage_lost_residents(&mut self, state: &mut DeviceState, from: usize, some: bool)
        requires
            nonzero_dims(old(self).dims),
            old(self)@.uses.len() == old(self)@.buffers.len(),
            from <= old(self).storage.len(),
            old(state).wf(),
        ensures
            final(self)@.consistent(),
            final(state).wf(),
            ({
                let (phase, owed) = storage_phase(
                    old(self).storage@,
                    old(self).sampled@,
                    old(state)@.compute_deferred_flush,
                    from as int,
                    some,
                );
                &&& final(self)@ == old(self)@.at(phase)
                &&& final(state)@ == (DeviceView {
                    compute_deferred_flush: owed,
                    ..old(state)@
                })
            }),
    {
        let mut i: usize = from;
        while i < self.storage.len()
            invariant
                from <= i <= self.storage.len(),
                nonzero_dims(self.dims),
                self@.uses.len() == self@.buffers.len(),
                *self == *old(self),
                state.wf(),
                state@ == (DeviceView {
                    compute_deferred_flush: state@.compute_deferred_flush,
                    ..old(state)@
                }),
                storage_phase(
                    self.storage@,
                    self.sampled@,
                    old(state)@.compute_deferred_flush,
                    from as int,
                    some,
                ) == storage_phase(
                    self.storage@,
                    self.sampled@,
                    state@.compute_deferred_flush,
                    i as int,
                    some,
                ),
            decreases self.storage.len() - i,
        {
            match begin_restage_storage(state, &self.storage[i]) {
                Err(status) => {
                    self.phase = Phase::Done(status);
                    return ;
                },
                Ok(Some(read)) => {
                    self.phase = Phase::Restage { image: RestageImage::Storage(i), read, some };
                    return ;
                },
                Ok(None) => {},
            }
            i = i + 1;
        }
        self.restage_sampled(0, some);
    }

    fn restage_sampled(&mut self, from: usize, some: bool)
        requires
            nonzero_dims(old(self).dims),
            old(self)@.uses.len() == old(self)@.buffers.len(),
            from <= old(self).sampled.len(),
        ensures
            final(self)@.consistent(),
            final(self)@ == old(self)@.at(sampled_phase(old(self).sampled@, from as int, some)),
    {
        let mut i: usize = from;
        while i < self.sampled.len()
            invariant
                from <= i <= self.sampled.len(),
                nonzero_dims(self.dims),
                self@.uses.len() == self@.buffers.len(),
                *self == *old(self),
                sampled_phase(self.sampled@, from as int, some) == sampled_phase(
                    self.sampled@,
                    i as int,
                    some,
                ),
            decreases self.sampled.len() - i,
        {
            match begin_restage_sampled(&self.sampled[i]) {
                Err(status) => {
                    self.phase = Phase::Done(status);
                    return ;
                },
                Ok(Some(read)) => {
                    self.phase = Phase::Restage { image: RestageImage::Sampled(i), read, some };
                    return ;
                },
                Ok(None) => {},
            }
            i = i + 1;
        }
        self.phase = if some {
            Phase::Engine { retried: true }
        } else {
            Phase::Done(ComputeStatus::MetalFailed("compute_restage_no_skipped_resource"))
        };
    }

    /// The awaited window was read again whole, or could not be.
    pub fn window_restaged(&mut self, state: &mut DeviceState, read: Option<Vec<u8>>)
        requires
            old(self)@.consistent(),
            old(self).phase is Restage,
            read is Some ==> read->0.len() == window_len(old(self).phase->Restage_read),
            old(state).wf(),
        ensures
            final(self)@.consistent(),
            final(state).wf(),
            match (old(self).phase->Restage_image, read) {
                (RestageImage::Storage(i), Some(bytes)) => {
                    let storage = old(self).storage@.update(
                        i as int,
                        StorageImage { bytes, seed_skipped: false, ..old(self).storage@[i as int] },
                    );
                    let (phase, owed) = storage_phase(
                        storage,
                        old(self).sampled@,
                        old(state)@.compute_deferred_flush,
                        i + 1,
                        true,
                    );
                    &&& final(self)@ == (DispatchView { phase, storage, ..old(self)@ })
                    &&& final(state)@ == (DeviceView {
                        compute_deferred_flush: owed,
                        ..old(state)@
                    })
                },
                (RestageImage::Sampled(i), Some(bytes)) => {
                    let sampled = old(self).sampled@.update(
                        i as int,
                        SampledImage { bytes, resident_bind: None, ..old(self).sampled@[i as int] },
                    );
                    &&& final(self)@ == (DispatchView {
                        phase: sampled_phase(sampled, i + 1, true),
                        sampled,
                        ..old(self)@
                    })
                    &&& final(state)@ == old(state)@
                },
                (RestageImage::Storage(_), None) => final(self)@ == old(self)@.at(
                    Phase::Done(ComputeStatus::GuestIo("compute_restage_read")),
                ) && final(state)@ == old(state)@,
                (RestageImage::Sampled(_), None) => final(self)@ == old(self)@.at(
                    Phase::Done(ComputeStatus::GuestIo("compute_restage_sampled_read")),
                ) && final(state)@ == old(state)@,
            },
            read is None ==> final(self).phase is Done && final(state)@ == old(state)@,
            read is Some && old(self).phase->Restage_image is Storage ==> {
                let i = old(self).phase->Restage_image->Storage_0 as int;
                final(self).storage[i].bytes == read->0 && !final(self).storage[i].seed_skipped
            },
            read is Some && old(self).phase->Restage_image is Sampled ==> {
                let i = old(self).phase->Restage_image->Sampled_0 as int;
                final(self).sampled[i].bytes == read->0 && final(self).sampled[i].resident_bind
                    is None
            },
    {
        let image = match self.phase {
            Phase::Restage { image, .. } => image,
            _ => {
                return ;
            },
        };
        match image {
            RestageImage::Storage(i) => match read {
                None => {
                    self.phase = Phase::Done(ComputeStatus::GuestIo("compute_restage_read"));
                },
                Some(bytes) => {
                    assert(self.storage@.len() == self.storage.len());
                    let was = &self.storage[i];
                    let fresh = StorageImage {
                        binding: was.binding,
                        format: was.format,
                        width: was.width,
                        height: was.height,
                        bytes,
                        residency: was.residency,
                        seed_skipped: false,
                        host_writeback: was.host_writeback,
                        defer_readback: was.defer_readback,
                    };
                    self.storage.set(i, fresh);
                    self.restage_lost_residents(state, i + 1, true);
                },
            },
            RestageImage::Sampled(i) => match read {
                None => {
                    self.phase = Phase::Done(
                        ComputeStatus::GuestIo("compute_restage_sampled_read"),
                    );
                },
                Some(bytes) => {
                    assert(self.sampled@.len() == self.sampled.len());
                    let was = &self.sampled[i];
                    let fresh = SampledImage {
                        binding: was.binding,
                        format: was.format,
                        width: was.width,
                        height: was.height,
                        bytes,
                        resident_bind: None,
                    };
                    self.sampled.set(i, fresh);
                    self.restage_sampled(i + 1, true);
                },
            },
        }
    }

    /// The engine's outputs came in.
    pub fn outputs_read(&mut self, output: EngineOutput)
        requires
            old(self)@.consistent(),
            old(self).phase == Phase::Outputs,
        ensures
            final(self)@.consistent(),
            final(self)@ == if old(self)@.answers(output@) {
                (DispatchView { output: output@, ..old(self)@ }).to_buffer(0)
            } else {
                old(self)@.at(Phase::Done(ComputeStatus::MetalFailed("compute_vk_readback_count")))
            },
            !old(self)@.answers(output@) ==> final(self).phase is Done,
    {
        let images: usize = self.storage_count();
        if output.buffers.len() != writable_count(&self.uses) || output.images.len() != images
            || output.direct.len() != images || output.deferred.len() != images {
            self.phase = Phase::Done(ComputeStatus::MetalFailed("compute_vk_readback_count"));
            return ;
        }
        self.output = output;
        self.await_buffer_write(0);
    }

    fn storage_count(&self) -> (count: usize)
        ensures
            count == storage_before(self@.textures, self@.textures.len() as int),
    {
        let mut count: usize = 0;
        let mut i: usize = 0;
        while i < self.textures.len()
            invariant
                i <= self.textures.len(),
                count <= i,
                count == storage_before(self@.textures, i as int),
            decreases self.textures.len() - i,
        {
            if self.textures[i].is_storage {
                count = count + 1;
            }
            i = i + 1;
        }
        count
    }

    fn find_slot(&self, binding: u32) -> (slot: Option<usize>)
        ensures
            match slot {
                Some(i) => i < self.buffers.len() && slot_from(self@.buffers, 0, binding) == Some(
                    i as int,
                ),
                None => slot_from(self@.buffers, 0, binding) is None,
            },
    {
        let mut i: usize = 0;
        while i < self.buffers.len()
            invariant
                i <= self.buffers.len(),
                slot_from(self@.buffers, 0, binding) == slot_from(
                    self@.buffers,
                    i as int,
                    binding,
                ),
            decreases self.buffers.len() - i,
        {
            if self.buffers[i].bind.index == binding {
                return Some(i);
            }
            i = i + 1;
        }
        None
    }

    /// The outputs number as the storage images do.
    spec fn images_answered(self) -> bool {
        let images = storage_before(self@.textures, self@.textures.len() as int);
        &&& self@.output.images.len() == images
        &&& self@.output.direct.len() == images
        &&& self@.output.deferred.len() == images
    }

    fn await_buffer_write(&mut self, k: usize)
        requires
            nonzero_dims(old(self).dims),
            old(self)@.uses.len() == old(self)@.buffers.len(),
            old(self).images_answered(),
            k <= old(self)@.output.buffers.len(),
        ensures
            final(self)@.consistent(),
            final(self)@ == old(self)@.to_buffer(k as int),
    {
        if k >= self.output.buffers.len() {
            self.await_image_write(0, 0);
            return ;
        }
        let binding: u32 = self.output.buffers[k].0;
        match self.find_slot(binding) {
            None => {
                self.phase = Phase::Done(
                    ComputeStatus::MetalFailed("compute_vk_readback_binding"),
                );
            },
            Some(slot) => {
                let bind = self.buffers[slot].bind;
                let gva: u64 = self.buffers[slot].gva;
                let bytes = vstd::slice::slice_to_vec(self.output.buffers[k].1.as_slice());
                self.buffers.set(slot, StagedBuffer { bind, gva, bytes });
                proof {
                    let was = old(self)@.buffers;
                    assert(old(self)@.output.buffers[k as int].1 == bytes@);
                    assert(buffer_views(self.buffers@) =~= was.update(
                        slot as int,
                        BufferView { bytes: bytes@, ..was[slot as int] },
                    ));
                }
                self.phase = Phase::BufferWrite { output: k, slot };
            },
        }
    }

    /// The awaited output buffer was written to the guest, or was not.
    pub fn buffer_written(&mut self, wrote: bool)
        requires
            old(self)@.consistent(),
            old(self).phase is BufferWrite,
        ensures
            final(self)@.consistent(),
            final(self)@ == if wrote {
                old(self)@.to_buffer(old(self).phase->BufferWrite_output + 1)
            } else {
                old(self)@.at(
                    Phase::Done(ComputeStatus::GuestIo("compute_wb_buf_task_gva_write")),
                )
            },
            !wrote ==> final(self).phase == Phase::Done(
                ComputeStatus::GuestIo("compute_wb_buf_task_gva_write"),
            ),
    {
        let output: usize = match self.phase {
            Phase::BufferWrite { output, .. } => output,
            _ => 0,
        };
        assert(self.output.buffers@.len() == self.output.buffers.len());
        match writeback_buffer(wrote) {
            Ok(_) => self.await_buffer_write(output + 1),
            Err(status) => {
                self.phase = Phase::Done(status);
            },
        }
    }

    fn await_image_write(&mut self, from: usize, k: usize)
        requires
            nonzero_dims(old(self).dims),
            old(self)@.uses.len() == old(self)@.buffers.len(),
            old(self).images_answered(),
            from <= old(self).textures.len(),
            k == storage_before(old(self)@.textures, from as int),
        ensures
            final(self)@.consistent(),
            final(self)@ == old(self)@.to_image(from as int, k as int),
    {
        let mut i: usize = from;
        while i < self.textures.len() && !self.textures[i].is_storage
            invariant
                from <= i <= self.textures.len(),
                *self == *old(self),
                k == storage_before(self@.textures, i as int),
                storage_from(self@.textures, from as int) == storage_from(
                    self@.textures,
                    i as int,
                ),
            decreases self.textures.len() - i,
        {
            i = i + 1;
        }
        if i >= self.textures.len() {
            self.phase = Phase::Done(ComputeStatus::Completed);
            return ;
        }
        proof {
            lemma_storage_grows(self@.textures, i + 1, self@.textures.len() as int);
        }
        let kind = if self.output.deferred[k] {
            OutputKind::Deferred
        } else if self.output.direct[k] {
            OutputKind::Direct
        } else {
            OutputKind::Bytes
        };
        match kind {
            OutputKind::Bytes => {
                let bytes = vstd::slice::slice_to_vec(self.output.images[k].as_slice());
                let was = &self.textures[i];
                let t = StagedTexture {
                    binding: was.binding,
                    pixel_format: was.pixel_format,
                    storage_selector: was.storage_selector,
                    width: was.width,
                    height: was.height,
                    bytes,
                    is_storage: was.is_storage,
                    residency: was.residency,
                    seed_skipped: was.seed_skipped,
                    sample_resident: was.sample_resident,
                    writeback: was.writeback,
                };
                let ghost view = t@;
                self.textures.set(i, t);
                assert(texture_views(self.textures@) =~= old(self)@.textures.update(
                    i as int,
                    view,
                ));
            },
            _ => {},
        }
        self.phase = Phase::ImageWrite { index: i, output: k, kind };
        proof {
            lemma_same_storage(old(self)@.textures, self@.textures, i as int);
            lemma_same_storage(
                old(self)@.textures,
                self@.textures,
                self@.textures.len() as int,
            );
        }
    }

    /// The awaited output image was written, or could not be.
    pub fn image_finished(&mut self, outcome: Result<(), ComputeStatus>)
        requires
            old(self)@.consistent(),
            old(self).phase is ImageWrite,
        ensures
            final(self)@.consistent(),
            final(self)@ == match outcome {
                Ok(_) => old(self)@.to_image(
                    old(self).phase->ImageWrite_index + 1,
                    old(self).phase->ImageWrite_output + 1,
                ),
                Err(status) => old(self)@.at(Phase::Done(status)),
            },
            outcome is Err ==> final(self).phase == Phase::Done(outcome->Err_0),
    {
        let (index, output) = match self.phase {
            Phase::ImageWrite { index, output, .. } => (index, output),
            _ => (0, 0),
        };
        match outcome {
            Ok(_) => {
                proof {
                    assert(self.textures@.len() == self.textures.len());
                    lemma_storage_grows(
                        self@.textures,
                        index + 1,
                        self@.textures.len() as int,
                    );
                }
                self.await_image_write(index + 1, output + 1);
            },
            Err(status) => {
                self.phase = Phase::Done(status);
            },
        }
    }
}

proof fn lemma_storage_grows(textures: Seq<StagedView>, i: int, n: int)
    requires
        0 <= i <= n,
    ensures
        0 <= storage_before(textures, i) <= storage_before(textures, n) <= n,
    decreases n,
{
    if i < n {
        lemma_storage_grows(textures, i, n - 1);
    } else if n > 0 {
        lemma_storage_grows(textures, n - 1, n - 1);
    }
}

proof fn lemma_same_storage(a: Seq<StagedView>, b: Seq<StagedView>, n: int)
    requires
        n <= a.len() == b.len(),
        forall|i: int| 0 <= i < a.len() ==> (#[trigger] a[i]).is_storage == b[i].is_storage,
    ensures
        storage_before(a, n) == storage_before(b, n),
    decreases n,
{
    if n > 0 {
        assert(a[n - 1].is_storage == b[n - 1].is_storage);
        lemma_same_storage(a, b, n - 1);
    }
}

/// The engine is run at most twice: only the first run is followed by a restage,
/// and a restage is followed by the second run or by the end.
pub proof fn law_one_retry(run: EngineRun)
    ensures
        !restages(run, true),
        !(run_phase(run) is Engine) && !(run_phase(run) is Restage),
{
}

/// Restaging goes on to an image, to the second run, or to the end. It never goes
/// back to the first run.
pub proof fn law_restage_leads_to_the_second_run(
    storage: Seq<StorageImage>,
    sampled: Seq<SampledImage>,
    owed: Seq<(ComputeStorageResidencyKey, u32)>,
    i: int,
    some: bool,
)
    requires
        0 <= i,
    ensures
        match storage_phase(storage, sampled, owed, i, some).0 {
            Phase::Restage { image: RestageImage::Storage(k), read, .. } => storage.len()
                <= usize::MAX ==> i <= k < storage.len() && storage[k as int].seed_skipped,
            Phase::Restage { image: RestageImage::Sampled(k), read, .. } => sampled.len()
                <= usize::MAX ==> k < sampled.len() && sampled[k as int].resident_bind is Some,
            Phase::Engine { retried } => retried && some,
            Phase::Done(_) => true,
            _ => false,
        },
    decreases storage.len() - i,
{
    if i < storage.len() {
        if storage_restage(storage[i]) == Ok::<Option<WindowRead>, ComputeStatus>(None) {
            law_restage_leads_to_the_second_run(
                storage,
                sampled,
                still_owed(owed, storage[i]),
                i + 1,
                some,
            );
        }
    } else {
        lemma_sampled_phase(sampled, 0, some);
    }
}

proof fn lemma_sampled_phase(sampled: Seq<SampledImage>, i: int, some: bool)
    requires
        0 <= i,
    ensures
        match sampled_phase(sampled, i, some) {
            Phase::Restage { image: RestageImage::Sampled(k), .. } => sampled.len() <= usize::MAX
                ==> i <= k < sampled.len() && sampled[k as int].resident_bind is Some,
            Phase::Engine { retried } => retried && some,
            Phase::Done(_) => true,
            _ => false,
        },
    decreases sampled.len() - i,
{
    if i < sampled.len() {
        lemma_sampled_phase(sampled, i + 1, some);
    }
}

/// A dispatch gets to the device only if no bind was refused, and no texture that
/// the kernel uses is passed over on the way.
pub proof fn law_no_declared_texture_is_skipped(
    plan: Seq<Result<Option<TextureUse>, ComputeStatus>>,
    from: int,
)
    requires
        0 <= from,
    ensures
        match texture_phase(plan, from) {
            Phase::Device => forall|i: int|
                from <= i < plan.len() ==> #[trigger] plan[i] == Ok::<
                    Option<TextureUse>,
                    ComputeStatus,
                >(None),
            Phase::Texture { index, texture } => plan.len() <= usize::MAX ==> from <= index
                < plan.len() && plan[index as int] == Ok::<Option<TextureUse>, ComputeStatus>(
                Some(texture),
            ) && forall|i: int|
                from <= i < index ==> #[trigger] plan[i] == Ok::<
                    Option<TextureUse>,
                    ComputeStatus,
                >(None),
            Phase::Done(status) => exists|i: int|
                from <= i < plan.len() && #[trigger] plan[i] == Err::<
                    Option<TextureUse>,
                    ComputeStatus,
                >(status),
            _ => false,
        },
    decreases plan.len() - from,
{
    if from < plan.len() {
        match plan[from] {
            Ok(None) => {
                law_no_declared_texture_is_skipped(plan, from + 1);
            },
            _ => {},
        }
    }
}

} // verus!
