//! One dispatch on a Metal device, from its binds to its written outputs.
//!
//! A [`MetalDispatch`] waits for one thing at a time, as a dispatch on the engine
//! does. The backend takes the container as it is, so no kernel is translated; it
//! writes its results over the staged bytes.

use vstd::prelude::*;
use crate::compute_exec::accum::{
    AccumView, ComputeAccum, ComputeTextureBind, MAX_COMPUTE_SAMPLER_SLOTS,
    MAX_COMPUTE_TEXTURE_SLOTS, Slotted, StageInRegionIndirect,
};
use crate::compute_exec::buffers::{
    ComputeStageInputDescriptor, LoadedComputePipeline, StageInputAttribute, StageInputLayout,
    StagedBuffer, writeback_buffer,
};
use crate::compute_exec::command::ComputeCommand;
use crate::compute_exec::dims::{
    DispatchDims, STAGE_IN_INDIRECT_ARGS_LEN, argument, argument_bytes, arguments_view,
    dispatch_dims, law_resolved_dims_are_nonzero, nonzero_dims, resolve_dispatch_dims,
};
use crate::compute_exec::dispatch::{BufferView, buffer_views};
use crate::compute_exec::format::StorageImageFormat;
use crate::compute_exec::metal::{
    DISPATCH_TYPE_CONCURRENT, DISPATCH_TYPE_SERIAL, MetalSampler, NestedDispatchJob,
    STAGE_INPUT_MAX_ATTRIBUTES, STAGE_INPUT_MAX_LAYOUTS, SamplerLookup, StageInArguments,
    StageInputTables, TextureAccess, attribute_row, binds_storage, encoder_dispatch_type,
    layout_row, metal_format, metal_sampler, nested_job, reflected_access, sampler_of,
    stage_in_arguments, stage_input_to_apv, storage_only,
};
use crate::compute_exec::request::texture_views;
use crate::compute_exec::status::{ComputeStatus, MetalStatus};
use crate::compute_exec::texture::{StagedTexture, StagedView};
use crate::spirv_bind::TEXTURE_BINDING_BASE;

verus! {

/// What a dispatch on a Metal device waits for.
#[derive(Clone, Copy, Debug, PartialEq, Eq)]
pub enum MetalPhase {
    /// The pipeline object.
    Pipeline,
    /// The kernel's container.
    Container,
    /// The write target's size and the indirect arguments.
    Geometry,
    /// The arguments of the indirect stage-in region.
    StageIn(StageInRegionIndirect),
    /// The bytes of a bound buffer.
    Buffer { index: usize },
    /// What the backend reflects of the container's textures.
    Reflection,
    /// The texels of a bound texture.
    Texture { index: usize, bind: ComputeTextureBind, binding: u32, is_storage: bool },
    /// The object of a bound sampler.
    Sampler { index: usize },
    /// The backend's run, or its encoding on a shared encoder.
    Encode,
    /// The write of a buffer.
    BufferWrite { index: usize },
    /// The write of a texture.
    TextureWrite { index: usize },
    /// Nothing.
    Done(ComputeStatus),
}

/// A staged texture as the backend takes it; its texels are the staged bytes.
#[derive(Clone, Copy, Debug, PartialEq, Eq, Structural)]
pub struct MetalImage {
    /// Which staged texture it is.
    pub texture: usize,
    pub binding: u32,
    pub format: StorageImageFormat,
    pub width: u32,
    pub height: u32,
}

/// A dispatch on a Metal device under way.
pub struct MetalDispatch {
    pub phase: MetalPhase,
    pub kernel_func_ref: u32,
    pub stage_input: Option<StageInputTables>,
    pub dispatch_type: u32,
    pub dims: DispatchDims,
    pub region_arguments: Option<StageInArguments>,
    pub buffers: Vec<StagedBuffer>,
    /// What was reflected of the textures, by binding.
    pub usages: Vec<(u32, TextureAccess)>,
    pub textures: Vec<StagedTexture>,
    pub samplers: Vec<MetalSampler>,
    pub storage: Vec<MetalImage>,
    pub sampled: Vec<MetalImage>,
}

/// Stage-input tables as values.
pub struct StageInputView {
    pub word0: u32,
    pub header0: u32,
    pub header1: u32,
    pub attribute_count: u32,
    pub layout_count: u32,
    pub index_type: u32,
    pub index_buffer_index: u32,
    pub attributes: Seq<StageInputAttribute>,
    pub layouts: Seq<StageInputLayout>,
}

impl View for StageInputTables {
    type V = StageInputView;

    open spec fn view(&self) -> StageInputView {
        StageInputView {
            word0: self.word0,
            header0: self.header0,
            header1: self.header1,
            attribute_count: self.attribute_count,
            layout_count: self.layout_count,
            index_type: self.index_type,
            index_buffer_index: self.index_buffer_index,
            attributes: self.attributes@,
            layouts: self.layouts@,
        }
    }
}

pub open spec fn tables_view(tables: Option<StageInputTables>) -> Option<StageInputView> {
    match tables {
        Some(t) => Some(t@),
        None => None,
    }
}

/// A stage input laid out as the backend takes it.
pub open spec fn laid_out(si: Option<ComputeStageInputDescriptor>) -> Option<StageInputView> {
    match si {
        Some(si) => Some(
            StageInputView {
                word0: si.word0,
                header0: si.header0,
                header1: si.header1,
                attribute_count: si.attributes.len() as u32,
                layout_count: si.layouts.len() as u32,
                index_type: si.index_type,
                index_buffer_index: si.index_buffer_index,
                attributes: Seq::new(
                    STAGE_INPUT_MAX_ATTRIBUTES as nat,
                    |i: int| attribute_row(si.attributes@, i),
                ),
                layouts: Seq::new(
                    STAGE_INPUT_MAX_LAYOUTS as nat,
                    |i: int| layout_row(si.layouts@, i),
                ),
            },
        ),
        None => None,
    }
}

/// A dispatch on a Metal device as values.
pub struct MetalView {
    pub phase: MetalPhase,
    pub kernel_func_ref: u32,
    pub stage_input: Option<StageInputView>,
    pub dispatch_type: u32,
    pub dims: DispatchDims,
    pub region_arguments: Option<StageInArguments>,
    pub buffers: Seq<BufferView>,
    pub usages: Seq<(u32, TextureAccess)>,
    pub textures: Seq<StagedView>,
    pub samplers: Seq<MetalSampler>,
    pub storage: Seq<MetalImage>,
    pub sampled: Seq<MetalImage>,
}

impl View for MetalDispatch {
    type V = MetalView;

    open spec fn view(&self) -> MetalView {
        MetalView {
            phase: self.phase,
            kernel_func_ref: self.kernel_func_ref,
            stage_input: tables_view(self.stage_input),
            dispatch_type: self.dispatch_type,
            dims: self.dims,
            region_arguments: self.region_arguments,
            buffers: buffer_views(self.buffers@),
            usages: self.usages@,
            textures: texture_views(self.textures@),
            samplers: self.samplers@,
            storage: self.storage@,
            sampled: self.sampled@,
        }
    }
}

/// The arguments of an indirect stage-in region, by their place.
pub open spec fn region_of(raw: Seq<u8>) -> StageInArguments {
    StageInArguments {
        origin_x: argument(raw, 0) as u32,
        origin_y: argument(raw, 1) as u32,
        origin_z: argument(raw, 2) as u32,
        size_x: argument(raw, 3) as u32,
        size_y: argument(raw, 4) as u32,
        size_z: argument(raw, 5) as u32,
    }
}

/// The staged texture at `i` as the backend takes it.
pub open spec fn image_at(textures: Seq<StagedView>, i: int) -> MetalImage {
    MetalImage {
        texture: i as usize,
        binding: textures[i].binding,
        format: textures[i].storage_selector->0,
        width: textures[i].width,
        height: textures[i].height,
    }
}

/// The images of the first `n` textures of one sort, in order.
pub open spec fn images_of(textures: Seq<StagedView>, storage: bool, n: int) -> Seq<MetalImage>
    decreases n,
{
    if n <= 0 {
        Seq::empty()
    } else if textures[n - 1].is_storage == storage {
        images_of(textures, storage, n - 1).push(image_at(textures, n - 1))
    } else {
        images_of(textures, storage, n - 1)
    }
}

/// Every texture has a format that the backend knows.
pub open spec fn all_selected(textures: Seq<StagedView>) -> bool {
    forall|i: int| 0 <= i < textures.len() ==> (#[trigger] textures[i]).storage_selector is Some
}

impl MetalView {
    /// The dispatch with another phase.
    pub open spec fn at(self, phase: MetalPhase) -> MetalView {
        MetalView { phase, ..self }
    }

    /// On to the bound buffer at `index`, or to what follows the last one. A kernel
    /// without textures is not reflected.
    pub open spec fn to_buffer(self, accum: AccumView, index: int) -> MetalView {
        if index < accum.buffers.len() {
            self.at(MetalPhase::Buffer { index: index as usize })
        } else if accum.textures.len() > 0 {
            self.at(MetalPhase::Reflection)
        } else {
            self.to_sampler(accum, 0)
        }
    }

    /// On to the bound texture at `index`, or to what follows the last one. A
    /// texture is staged for storage unless it is known to be only read.
    pub open spec fn to_texture(self, accum: AccumView, index: int) -> MetalView {
        if index < accum.textures.len() {
            let bind = accum.textures[index];
            let binding = (TEXTURE_BINDING_BASE + bind.index) as u32;
            self.at(
                MetalPhase::Texture {
                    index: index as usize,
                    bind,
                    binding,
                    is_storage: reflected_access(self.usages, 0, binding) != TextureAccess::Read,
                },
            )
        } else {
            self.to_sampler(accum, 0)
        }
    }

    /// On to the bound sampler at `index`, or to what follows the last one.
    pub open spec fn to_sampler(self, accum: AccumView, index: int) -> MetalView {
        if index < accum.samplers.len() {
            self.at(MetalPhase::Sampler { index: index as usize })
        } else {
            self.to_encode()
        }
    }

    /// On to the backend with all images, unless one has no format there.
    pub open spec fn to_encode(self) -> MetalView {
        let n = self.textures.len() as int;
        if all_selected(self.textures) {
            MetalView {
                phase: MetalPhase::Encode,
                storage: images_of(self.textures, true, n),
                sampled: images_of(self.textures, false, n),
                ..self
            }
        } else {
            self.at(MetalPhase::Done(ComputeStatus::Unsupported("metal_no_backend_selector")))
        }
    }

    /// On to the write of the buffer at `index`, or to the textures.
    pub open spec fn to_buffer_write(self, index: int) -> MetalView {
        if index < self.buffers.len() {
            self.at(MetalPhase::BufferWrite { index: index as usize })
        } else {
            self.to_texture_write(0)
        }
    }

    /// On to the write of the texture at `index`, or to the end.
    pub open spec fn to_texture_write(self, index: int) -> MetalView {
        if index < self.textures.len() {
            self.at(MetalPhase::TextureWrite { index: index as usize })
        } else {
            self.at(MetalPhase::Done(ComputeStatus::Completed))
        }
    }

    /// What holds of a dispatch between its steps: what came before is there, and
    /// nothing of what comes after.
    pub open spec fn consistent(self) -> bool {
        let sized = nonzero_dims(self.dims);
        let images = self.storage.len() == 0 && self.sampled.len() == 0;
        match self.phase {
            MetalPhase::Pipeline | MetalPhase::Container | MetalPhase::Geometry => {
                &&& self.buffers.len() == 0
                &&& self.textures.len() == 0
                &&& self.samplers.len() == 0
                &&& images
            },
            MetalPhase::StageIn(_) => {
                &&& sized
                &&& self.buffers.len() == 0
                &&& self.textures.len() == 0
                &&& self.samplers.len() == 0
                &&& images
            },
            MetalPhase::Buffer { index } => {
                &&& sized
                &&& self.buffers.len() == index
                &&& self.textures.len() == 0
                &&& self.samplers.len() == 0
                &&& images
            },
            MetalPhase::Reflection => {
                &&& sized
                &&& self.textures.len() == 0
                &&& self.samplers.len() == 0
                &&& images
            },
            MetalPhase::Texture { index, .. } => {
                &&& sized
                &&& self.textures.len() == index
                &&& self.samplers.len() == 0
                &&& images
            },
            MetalPhase::Sampler { index } => {
                &&& sized
                &&& self.samplers.len() == index
                &&& images
            },
            MetalPhase::Encode => sized && all_selected(self.textures),
            MetalPhase::BufferWrite { index } => sized && index < self.buffers.len(),
            MetalPhase::TextureWrite { index } => sized && index < self.textures.len(),
            MetalPhase::Done(_) => true,
        }
    }
}

/// Open a dispatch on the binds in force.
pub fn execute_dispatch_metal(accum: &ComputeAccum) -> (dispatch: MetalDispatch)
    ensures
        dispatch@.consistent(),
        dispatch.phase == if accum.pipeline_ref == 0 {
            MetalPhase::Done(ComputeStatus::MissingPipeline("compute_mtl_pipeline_ref_zero"))
        } else {
            MetalPhase::Pipeline
        },
        dispatch.stage_input is None,
        dispatch.dispatch_type == if accum.dispatch_type == DISPATCH_TYPE_CONCURRENT {
            DISPATCH_TYPE_CONCURRENT
        } else {
            DISPATCH_TYPE_SERIAL
        },
        dispatch.region_arguments is None,
        dispatch.buffers.len() == 0,
        dispatch.usages.len() == 0,
        dispatch.textures.len() == 0,
        dispatch.samplers.len() == 0,
        dispatch.storage.len() == 0,
        dispatch.sampled.len() == 0,
        accum.pipeline_ref == 0 <==> dispatch.phase is Done,
        accum.dispatch_type == 1 ==> dispatch.dispatch_type == 1,
        accum.dispatch_type != 1 ==> dispatch.dispatch_type == 0,
{
    let phase = if accum.pipeline_ref == 0 {
        MetalPhase::Done(ComputeStatus::MissingPipeline("compute_mtl_pipeline_ref_zero"))
    } else {
        MetalPhase::Pipeline
    };
    MetalDispatch {
        phase,
        kernel_func_ref: 0,
        stage_input: None,
        dispatch_type: encoder_dispatch_type(accum.dispatch_type),
        dims: DispatchDims {
            grid_x: 0,
            grid_y: 0,
            grid_z: 0,
            tg_x: 0,
            tg_y: 0,
            tg_z: 0,
            threads: false,
        },
        region_arguments: None,
        buffers: Vec::new(),
        usages: Vec::new(),
        textures: Vec::new(),
        samplers: Vec::new(),
        storage: Vec::new(),
        sampled: Vec::new(),
    }
}

impl MetalDispatch {
    /// The pipeline object was looked up. Unlike the engine, the backend takes a
    /// stage input.
    pub fn pipeline_loaded(&mut self, loaded: Option<&LoadedComputePipeline>)
        requires
            old(self)@.consistent(),
            old(self).phase == MetalPhase::Pipeline,
        ensures
            final(self)@.consistent(),
            final(self)@ == match loaded {
                None => old(self)@.at(
                    MetalPhase::Done(ComputeStatus::MissingPipeline("compute_mtl_pipeline_load")),
                ),
                Some(pipeline) => MetalView {
                    phase: MetalPhase::Container,
                    kernel_func_ref: pipeline.kernel_func_ref,
                    stage_input: laid_out(pipeline.stage_input),
                    ..old(self)@
                },
            },
            loaded is None ==> final(self).phase is Done,
            loaded is Some ==> final(self).phase == MetalPhase::Container
                && final(self).kernel_func_ref == loaded->0.kernel_func_ref
                && (final(self).stage_input is Some <==> loaded->0.stage_input is Some),
    {
        match loaded {
            None => {
                self.phase = MetalPhase::Done(
                    ComputeStatus::MissingPipeline("compute_mtl_pipeline_load"),
                );
            },
            Some(pipeline) => {
                self.kernel_func_ref = pipeline.kernel_func_ref;
                self.stage_input = match &pipeline.stage_input {
                    Some(si) => Some(stage_input_to_apv(si)),
                    None => None,
                };
                self.phase = MetalPhase::Container;
                assert(tables_view(self.stage_input) == laid_out(pipeline.stage_input));
            },
        }
    }

    /// The kernel's container was loaded, or was not.
    pub fn container_loaded(&mut self, loaded: bool)
        requires
            old(self)@.consistent(),
            old(self).phase == MetalPhase::Container,
        ensures
            final(self)@.consistent(),
            final(self)@ == old(self)@.at(
                if loaded {
                    MetalPhase::Geometry
                } else {
                    MetalPhase::Done(ComputeStatus::MissingMtlb("compute_mtl_mtlb_load"))
                },
            ),
            loaded ==> final(self).phase == MetalPhase::Geometry,
            !loaded ==> final(self).phase is Done,
    {
        self.phase = if loaded {
            MetalPhase::Geometry
        } else {
            MetalPhase::Done(ComputeStatus::MissingMtlb("compute_mtl_mtlb_load"))
        };
    }

    /// The write target was sized and the indirect arguments were read.
    pub fn geometry_read(
        &mut self,
        accum: &ComputeAccum,
        command: &ComputeCommand,
        target: Option<(u32, u32)>,
        arguments: &Result<Vec<u8>, ComputeStatus>,
    )
        requires
            old(self)@.consistent(),
            old(self).phase == MetalPhase::Geometry,
            accum.slots_in_order(),
            match (argument_bytes(command.kind), *arguments) {
                (Some(len), Ok(raw)) => raw.len() == len,
                _ => true,
            },
        ensures
            final(self)@.consistent(),
            final(self)@ == match dispatch_dims(*command, target, arguments_view(*arguments)) {
                Err(status) => old(self)@.at(MetalPhase::Done(status)),
                Ok(dims) => {
                    let sized = MetalView { dims, ..old(self)@ };
                    match accum@.stage_in_region_indirect {
                        Some(region) => sized.at(MetalPhase::StageIn(region)),
                        None => sized.to_buffer(accum@, 0),
                    }
                },
            },
    {
        match resolve_dispatch_dims(command, target, arguments) {
            Err(status) => {
                self.phase = MetalPhase::Done(status);
            },
            Ok(dims) => {
                proof {
                    law_resolved_dims_are_nonzero(*command, target, arguments_view(*arguments));
                }
                self.dims = dims;
                match accum.stage_in_region_indirect {
                    Some(region) => {
                        self.phase = MetalPhase::StageIn(region);
                    },
                    None => self.await_buffer(accum, 0),
                }
            },
        }
    }

    /// The arguments of the stage-in region were read whole, or could not be.
    pub fn stage_in_read(&mut self, accum: &ComputeAccum, read: &Result<Vec<u8>, ComputeStatus>)
        requires
            old(self)@.consistent(),
            old(self).phase is StageIn,
            accum.slots_in_order(),
            *read is Ok ==> (*read)->Ok_0.len() == STAGE_IN_INDIRECT_ARGS_LEN,
        ensures
            final(self)@.consistent(),
            final(self)@ == match *read {
                Err(status) => old(self)@.at(MetalPhase::Done(status)),
                Ok(raw) => (MetalView {
                    region_arguments: Some(region_of(raw@)),
                    ..old(self)@
                }).to_buffer(accum@, 0),
            },
    {
        match read {
            Err(status) => {
                self.phase = MetalPhase::Done(*status);
            },
            Ok(raw) => {
                let arguments = stage_in_arguments(raw.as_slice());
                assert(arguments == region_of(raw@));
                self.region_arguments = Some(arguments);
                self.await_buffer(accum, 0);
            },
        }
    }

    /// Await the next buffer, or what follows the last one.
    fn await_buffer(&mut self, accum: &ComputeAccum, index: usize)
        requires
            accum.slots_in_order(),
            nonzero_dims(old(self).dims),
            index == old(self).buffers.len(),
            old(self).textures.len() == 0,
            old(self).samplers.len() == 0,
            old(self).storage.len() == 0,
            old(self).sampled.len() == 0,
        ensures
            final(self)@.consistent(),
            final(self)@ == old(self)@.to_buffer(accum@, index as int),
    {
        assert(self@.buffers.len() == index);
        assert(self@.textures.len() == 0 && self@.samplers.len() == 0);
        assert(self@.storage.len() == 0 && self@.sampled.len() == 0);
        if index < accum.buffers.len() {
            self.phase = MetalPhase::Buffer { index };
        } else if accum.textures.len() > 0 {
            self.phase = MetalPhase::Reflection;
        } else {
            self.await_sampler(accum, 0);
        }
    }

    /// The awaited buffer was staged for its bind, or refused.
    pub fn buffer_staged(&mut self, accum: &ComputeAccum, staged: Result<StagedBuffer, ComputeStatus>)
        requires
            old(self)@.consistent(),
            old(self).phase is Buffer,
            old(self).phase->Buffer_index < accum.buffers.len(),
            accum.slots_in_order(),
            staged is Ok ==> staged->Ok_0.bind == accum@.buffers[old(self).phase->Buffer_index as int],
        ensures
            final(self)@.consistent(),
            final(self)@ == match staged {
                Err(status) => old(self)@.at(MetalPhase::Done(status)),
                Ok(buffer) => (MetalView {
                    buffers: old(self)@.buffers.push(
                        BufferView { bind: buffer.bind, gva: buffer.gva, bytes: buffer.bytes@ },
                    ),
                    ..old(self)@
                }).to_buffer(accum@, old(self).phase->Buffer_index + 1),
            },
            staged is Err ==> final(self).phase == MetalPhase::Done(staged->Err_0),
            staged is Ok ==> final(self)@.buffers.len() == old(self)@.buffers.len() + 1
                && final(self)@.buffers.last().bytes == staged->Ok_0.bytes@
                && final(self)@.buffers.last().gva == staged->Ok_0.gva,
    {
        match staged {
            Err(status) => {
                self.phase = MetalPhase::Done(status);
            },
            Ok(buffer) => {
                let ghost view = BufferView {
                    bind: buffer.bind,
                    gva: buffer.gva,
                    bytes: buffer.bytes@,
                };
                let index: usize = self.buffers.len();
                self.buffers.push(buffer);
                assert(buffer_views(self.buffers@) =~= old(self)@.buffers.push(view));
                assert(self.textures@.len() == self@.textures.len());
                self.await_buffer(accum, index + 1);
            },
        }
    }

    /// The backend reflected the container's textures, or refused it.
    pub fn reflected(
        &mut self,
        accum: &ComputeAccum,
        usages: Result<Vec<(u32, TextureAccess)>, MetalStatus>,
    )
        requires
            old(self)@.consistent(),
            old(self).phase == MetalPhase::Reflection,
            accum.slots_in_order(),
        ensures
            final(self)@.consistent(),
            final(self)@ == match usages {
                Err(status) => old(self)@.at(
                    MetalPhase::Done(ComputeStatus::MetalBackend(status)),
                ),
                Ok(usages) => (MetalView { usages: usages@, ..old(self)@ }).to_texture(accum@, 0),
            },
    {
        match usages {
            Err(status) => {
                self.phase = MetalPhase::Done(ComputeStatus::MetalBackend(status));
            },
            Ok(usages) => {
                self.usages = usages;
                assert(self.textures@.len() == self@.textures.len());
                self.await_texture(accum, 0);
            },
        }
    }

    /// Await the next texture, or what follows the last one.
    fn await_texture(&mut self, accum: &ComputeAccum, index: usize)
        requires
            accum.slots_in_order(),
            nonzero_dims(old(self).dims),
            index == old(self).textures.len(),
            old(self).samplers.len() == 0,
            old(self).storage.len() == 0,
            old(self).sampled.len() == 0,
        ensures
            final(self)@.consistent(),
            final(self)@ == old(self)@.to_texture(accum@, index as int),
    {
        assert(self@.textures.len() == index);
        assert(self@.samplers.len() == 0);
        assert(self@.storage.len() == 0 && self@.sampled.len() == 0);
        if index < accum.textures.len() {
            let bind = accum.textures[index];
            assert(accum.textures@[index as int].slot_index() < MAX_COMPUTE_TEXTURE_SLOTS);
            let binding: u32 = TEXTURE_BINDING_BASE + bind.index;
            let is_storage = binds_storage(self.usages.as_slice(), binding);
            self.phase = MetalPhase::Texture { index, bind, binding, is_storage };
        } else {
            self.await_sampler(accum, 0);
        }
    }

    /// The awaited texture was staged for its use, or refused.
    pub fn texture_staged(&mut self, accum: &ComputeAccum, staged: Result<StagedTexture, ComputeStatus>)
        requires
            old(self)@.consistent(),
            old(self).phase is Texture,
            accum.slots_in_order(),
            staged is Ok ==> staged->Ok_0.binding == old(self).phase->Texture_binding
                && staged->Ok_0.is_storage == old(self).phase->Texture_is_storage,
        ensures
            final(self)@.consistent(),
            final(self)@ == match staged {
                Err(status) => old(self)@.at(MetalPhase::Done(status)),
                Ok(texture) => (MetalView {
                    textures: old(self)@.textures.push(texture@),
                    ..old(self)@
                }).to_texture(accum@, old(self).phase->Texture_index + 1),
            },
            staged is Err ==> final(self).phase == MetalPhase::Done(staged->Err_0),
            staged is Ok ==> final(self)@.textures.len() == old(self)@.textures.len() + 1
                && final(self)@.textures.last() == staged->Ok_0@,
    {
        match staged {
            Err(status) => {
                self.phase = MetalPhase::Done(status);
            },
            Ok(texture) => {
                let ghost view = texture@;
                self.textures.push(texture);
                assert(texture_views(self.textures@) =~= old(self)@.textures.push(view));
                let next: usize = self.textures.len();
                self.await_texture(accum, next);
            },
        }
    }

    /// Await the next sampler, or what follows the last one.
    fn await_sampler(&mut self, accum: &ComputeAccum, index: usize)
        requires
            nonzero_dims(old(self).dims),
            index == old(self).samplers.len(),
            old(self).storage.len() == 0,
            old(self).sampled.len() == 0,
        ensures
            final(self)@.consistent(),
            final(self)@ == old(self)@.to_sampler(accum@, index as int),
    {
        assert(self@.samplers.len() == index);
        assert(self@.storage.len() == 0 && self@.sampled.len() == 0);
        if index < accum.samplers.len() {
            self.phase = MetalPhase::Sampler { index };
        } else {
            self.await_encode();
        }
    }

    /// The object of the awaited sampler was looked up.
    pub fn sampler_found(&mut self, accum: &ComputeAccum, lookup: &SamplerLookup)
        requires
            old(self)@.consistent(),
            old(self).phase is Sampler,
            old(self).phase->Sampler_index < accum.samplers.len(),
            accum.slots_in_order(),
        ensures
            final(self)@.consistent(),
            final(self)@ == match sampler_of(
                accum@.samplers[old(self).phase->Sampler_index as int],
                *lookup,
            ) {
                Err(status) => old(self)@.at(MetalPhase::Done(status)),
                Ok(sampler) => (MetalView {
                    samplers: old(self)@.samplers.push(sampler),
                    ..old(self)@
                }).to_sampler(accum@, old(self).phase->Sampler_index + 1),
            },
    {
        let index: usize = self.samplers.len();
        assert(accum.samplers@[index as int].slot_index() < MAX_COMPUTE_SAMPLER_SLOTS);
        match metal_sampler(&accum.samplers[index], lookup) {
            Err(status) => {
                self.phase = MetalPhase::Done(status);
            },
            Ok(sampler) => {
                self.samplers.push(sampler);
                self.await_sampler(accum, index + 1);
            },
        }
    }

    /// Hand the images over, unless one has no format in the backend.
    fn await_encode(&mut self)
        requires
            nonzero_dims(old(self).dims),
            old(self).storage.len() == 0,
            old(self).sampled.len() == 0,
        ensures
            final(self)@.consistent(),
            final(self)@ == old(self)@.to_encode(),
    {
        let mut storage: Vec<MetalImage> = Vec::new();
        let mut sampled: Vec<MetalImage> = Vec::new();
        let mut i: usize = 0;
        assert(storage@ =~= images_of(self@.textures, true, 0));
        assert(sampled@ =~= images_of(self@.textures, false, 0));
        while i < self.textures.len()
            invariant
                i <= self.textures.len(),
                *self == *old(self),
                storage@ == images_of(self@.textures, true, i as int),
                sampled@ == images_of(self@.textures, false, i as int),
                forall|k: int|
                    0 <= k < i ==> (#[trigger] self@.textures[k]).storage_selector is Some,
            decreases self.textures.len() - i,
        {
            let texture = &self.textures[i];
            assert(self@.textures[i as int] == texture@);
            let format = match metal_format(texture) {
                Ok(format) => format,
                Err(status) => {
                    self.phase = MetalPhase::Done(status);
                    return ;
                },
            };
            let image = MetalImage {
                texture: i,
                binding: texture.binding,
                format,
                width: texture.width,
                height: texture.height,
            };
            assert(image == image_at(self@.textures, i as int));
            if texture.is_storage {
                storage.push(image);
            } else {
                sampled.push(image);
            }
            i = i + 1;
        }
        self.storage = storage;
        self.sampled = sampled;
        self.phase = MetalPhase::Encode;
        assert(self@.textures == old(self)@.textures);
    }

    /// The backend ran the dispatch by itself and wrote its results over the staged
    /// bytes, or refused it.
    pub fn encoded(&mut self, outcome: Result<(), MetalStatus>)
        requires
            old(self)@.consistent(),
            old(self).phase == MetalPhase::Encode,
        ensures
            final(self)@.consistent(),
            final(self)@ == match outcome {
                Err(status) => old(self)@.at(
                    MetalPhase::Done(ComputeStatus::MetalBackend(status)),
                ),
                Ok(_) => old(self)@.to_buffer_write(0),
            },
            outcome is Err ==> final(self).phase == MetalPhase::Done(
                ComputeStatus::MetalBackend(outcome->Err_0),
            ),
    {
        match outcome {
            Err(status) => {
                self.phase = MetalPhase::Done(ComputeStatus::MetalBackend(status));
            },
            Ok(_) => self.await_buffer_write(0),
        }
    }

    /// The backend encoded the dispatch on a shared encoder, or refused it. What is
    /// to be written once the encoder's work is done is handed out; the backend
    /// retained one image for each storage texture, or something is amiss.
    pub fn encoded_nested(self, retained: Result<usize, MetalStatus>) -> (job: Result<
        NestedDispatchJob,
        ComputeStatus,
    >)
        requires
            self@.consistent(),
            self.phase == MetalPhase::Encode,
        ensures
            match (retained, job) {
                (Err(refusal), Err(status)) => status == ComputeStatus::MetalBackend(refusal),
                (Err(_), Ok(_)) => false,
                (Ok(images), Ok(job)) => images == storage_only(self.textures@).len()
                    && job.staged_bufs == self.buffers && job.storage_tex@ == storage_only(
                    self.textures@,
                ),
                (Ok(images), Err(status)) => images != storage_only(self.textures@).len()
                    && status == ComputeStatus::MetalFailed("compute_mtl_retain_image_count"),
            },
    {
        match retained {
            Err(status) => Err(ComputeStatus::MetalBackend(status)),
            Ok(images) => nested_job(self.buffers, self.textures, images),
        }
    }

    fn await_buffer_write(&mut self, index: usize)
        requires
            nonzero_dims(old(self).dims),
        ensures
            final(self)@.consistent(),
            final(self)@ == old(self)@.to_buffer_write(index as int),
    {
        if index < self.buffers.len() {
            self.phase = MetalPhase::BufferWrite { index };
        } else {
            self.await_texture_write(0);
        }
    }

    /// The awaited buffer was written to the guest, or was not.
    pub fn buffer_written(&mut self, wrote: bool)
        requires
            old(self)@.consistent(),
            old(self).phase is BufferWrite,
        ensures
            final(self)@.consistent(),
            final(self)@ == if wrote {
                old(self)@.to_buffer_write(old(self).phase->BufferWrite_index + 1)
            } else {
                old(self)@.at(
                    MetalPhase::Done(ComputeStatus::GuestIo("compute_wb_buf_task_gva_write")),
                )
            },
            !wrote ==> final(self).phase == MetalPhase::Done(
                ComputeStatus::GuestIo("compute_wb_buf_task_gva_write"),
            ),
    {
        let index: usize = match self.phase {
            MetalPhase::BufferWrite { index } => index,
            _ => 0,
        };
        assert(self@.buffers.len() == self.buffers.len());
        match writeback_buffer(wrote) {
            Ok(_) => self.await_buffer_write(index + 1),
            Err(status) => {
                self.phase = MetalPhase::Done(status);
            },
        }
    }

    fn await_texture_write(&mut self, index: usize)
        requires
            nonzero_dims(old(self).dims),
        ensures
            final(self)@.consistent(),
            final(self)@ == old(self)@.to_texture_write(index as int),
    {
        self.phase = if index < self.textures.len() {
            MetalPhase::TextureWrite { index }
        } else {
            MetalPhase::Done(ComputeStatus::Completed)
        };
    }

    /// The awaited texture was written to the guest, or could not be. One that is
    /// only sampled has nowhere to be written to.
    pub fn texture_written(&mut self, outcome: Result<(), ComputeStatus>)
        requires
            old(self)@.consistent(),
            old(self).phase is TextureWrite,
        ensures
            final(self)@.consistent(),
            final(self)@ == match outcome {
                Ok(_) => old(self)@.to_texture_write(old(self).phase->TextureWrite_index + 1),
                Err(status) => old(self)@.at(MetalPhase::Done(status)),
            },
            outcome is Err ==> final(self).phase == MetalPhase::Done(outcome->Err_0),
    {
        let index: usize = match self.phase {
            MetalPhase::TextureWrite { index } => index,
            _ => 0,
        };
        assert(self@.textures.len() == self.textures.len());
        match outcome {
            Ok(_) => self.await_texture_write(index + 1),
            Err(status) => {
                self.phase = MetalPhase::Done(status);
            },
        }
    }
}

/// Every staged texture is handed to the backend, under its own binding and as
/// what it was staged for.
pub proof fn law_every_texture_is_handed_over(textures: Seq<StagedView>, n: int)
    requires
        0 <= n <= textures.len(),
    ensures
        images_of(textures, true, n).len() + images_of(textures, false, n).len() == n,
        forall|i: int|
            0 <= i < n ==> images_of(textures, (#[trigger] textures[i]).is_storage, n).contains(
                image_at(textures, i),
            ),
    decreases n,
{
    if n > 0 {
        law_every_texture_is_handed_over(textures, n - 1);
        let sort = textures[n - 1].is_storage;
        let shorter = images_of(textures, sort, n - 1);
        assert(images_of(textures, sort, n) == shorter.push(image_at(textures, n - 1)));
        assert(images_of(textures, !sort, n) == images_of(textures, !sort, n - 1));
        assert forall|i: int| 0 <= i < n implies images_of(
            textures,
            (#[trigger] textures[i]).is_storage,
            n,
        ).contains(image_at(textures, i)) by {
            let last = images_of(textures, sort, n);
            if i == n - 1 {
                assert(last[shorter.len() as int] == image_at(textures, i));
            } else {
                let own = textures[i].is_storage;
                let before = images_of(textures, own, n - 1);
                assert(before.contains(image_at(textures, i)));
                let k = choose|k: int|
                    0 <= k < before.len() && before[k] == image_at(textures, i);
                assert(images_of(textures, own, n)[k] == image_at(textures, i));
            }
        }
    }
}

} // verus!
