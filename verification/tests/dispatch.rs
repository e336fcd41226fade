//! Whole dispatches, with the outside work played by the test.

use reims_vgpu::compute_exec::accum::overflowing_binds;
use reims_vgpu::compute_exec::buffers::{
    BufferDescriptor, ComputeStageInputDescriptor, FunctionDescriptor, LoadMiss,
    LoadedComputePipeline, Lookup, PipelineDescriptor, StageInputAttribute, StageInputLayout,
    StagedBuffer, load_compute_pipeline, load_mtlb, plan_buffer, plan_mtlb, stage_buffer,
    writeback_buffer,
};
use reims_vgpu::compute_exec::command::{
    BufferBinding, ComputeCommand, Kind, RefBinding, Region3, SamplerBinding, Size3,
};
use reims_vgpu::compute_exec::dims::{resolve_dispatch_dims, u32_dim, workgroups};
use reims_vgpu::compute_exec::dispatch::{
    Dispatch, EngineOutput, EngineRun, OutputKind, Phase, RestageImage, ids_left,
};
use reims_vgpu::compute_exec::format::StorageImageFormat;
use reims_vgpu::compute_exec::kernel::{
    BufferUse, KernelSource, StorageFormat, TextureUse, buffer_uses, kernel_words, sampler_uses,
    specialize_kernel, storage_formats, texture_use,
};
use reims_vgpu::compute_exec::linear_cache::{LinearCache, LinearWindow, linear_mirrorable};
use reims_vgpu::compute_exec::linear_texture::{LevelLayout, LinearDescriptor};
use reims_vgpu::compute_exec::metal::{
    SamplerDescriptor, SamplerLookup, StageInArguments, TextureAccess, binds_storage,
    encoder_dispatch_type, metal_format, metal_sampler,
    nested_job, nested_job_from_icb_buffers, stage_in_arguments, stage_input_to_apv,
};
use reims_vgpu::compute_exec::metal_dispatch::{MetalDispatch, MetalImage, MetalPhase};
use reims_vgpu::compute_exec::nested_flush::{FlushPhase, flush_nested_jobs};
use reims_vgpu::compute_exec::outputs::{
    LinearDeferred, OwedWindow, STORAGE_RESIDENCY_WINDOWS_PER_MAPPING, deferred_flush_span,
    finish_deferred, finish_direct, is_display_sized, note_storage_residency_writeback,
};
use reims_vgpu::compute_exec::phases::{CounterSnapshot, compute_engine_phase_fields};
use reims_vgpu::compute_exec::record::Record;
use reims_vgpu::compute_exec::request::{
    DeviceAbilities, EngineBuffer, EngineResidency, HostWriteback, engine_buffers,
    plan_direct_writeback, sampled_image, storage_image, writable_count,
};
use reims_vgpu::compute_exec::restage::WindowRead;
use reims_vgpu::compute_exec::stage::{StagePhase, stage_texture_raw};
use reims_vgpu::compute_exec::surface_texture::{
    Backing, Reached, StageObject, choose_backing, surface_to_ensure,
};
use reims_vgpu::compute_exec::texture::{
    BaseTexture, ComputeStorageResidencyCandidate, EngineResidents, ResidentSample, StagedTexture,
    TextureWriteback,
};
use reims_vgpu::compute_exec::writeback::{WritebackStep, finish_writeback, writeback_texture};
use reims_vgpu::compute_exec::{
    ComputeAccum, ComputeBufferBind, ComputeSamplerBind, ComputeStatus, ComputeTextureBind,
    MetalFault, MetalStatus,
    StageInRegion, StageInRegionIndirect, apply_record, execute_dispatch, execute_dispatch_metal,
};
use reims_vgpu::contract::{
    MTL_FORMAT_BGRA8_UNORM, MTL_FORMAT_R32_UINT, MTL_FORMAT_RGBA8_UNORM, MTL_FORMAT_RGBA16_FLOAT,
    MTL_FORMAT_RGBA32_UINT, PAGE_ENTRY_PFN_SHIFT, PAGE_ENTRY_VALID, PAGE_SHIFT_X86,
};
use reims_vgpu::model::{DeviceId, DeviceState};
use reims_vgpu::residency::ComputeStorageResidencyKey;
use reims_vgpu::spirv_bind::reflection::{
    DescriptorLocation, ResourceBinding, ResourceKind, ShaderStage, TextureDimension, TextureShape,
};
use reims_vgpu::spirv_bind::{
    ImageFormat, ShaderReflection, StorageImageAccess, image_format,
};

/// A kernel that writes buffer 1 and storage image 34 (declared `Rgba8ui`), samples
/// image 35 and declares samplers 64 and 66.
fn kernel() -> Vec<u32> {
    let mut words = vec![0x0723_0203, 0x0001_0000, 0, 40, 0];
    // %1 = storage image type, %2 = pointer, %3 = variable.
    words.extend([(9u32 << 16) | 25, 1, 99, 1, 0, 0, 0, 2, 32]);
    words.extend([(4u32 << 16) | 32, 2, 0, 1]);
    words.extend([(4u32 << 16) | 59, 2, 3, 0]);
    words.extend([(4u32 << 16) | 71, 3, 33, 34]);
    // %5 = storage buffer variable, written through %7.
    words.extend([(4u32 << 16) | 59, 4, 5, 12]);
    words.extend([(4u32 << 16) | 71, 5, 33, 1]);
    words.extend([(5u32 << 16) | 65, 6, 7, 5, 8]);
    words.extend([(3u32 << 16) | 62, 7, 9]);
    // %10 = sampler type, %12 and %13 = samplers.
    words.extend([(2u32 << 16) | 26, 10]);
    words.extend([(4u32 << 16) | 32, 11, 0, 10]);
    words.extend([(4u32 << 16) | 59, 11, 12, 0]);
    words.extend([(4u32 << 16) | 71, 12, 33, 66]);
    words.extend([(4u32 << 16) | 59, 11, 13, 0]);
    words.extend([(4u32 << 16) | 71, 13, 33, 64]);
    // A write of the image.
    words.extend([(4u32 << 16) | 61, 1, 14, 3]);
    words.extend([(4u32 << 16) | 99, 14, 15, 16]);
    words
}

fn bytes_of(words: &[u32]) -> Vec<u8> {
    words.iter().flat_map(|w| w.to_le_bytes()).collect()
}

fn texture_argument(binding: u32, writable: bool) -> ResourceBinding {
    ResourceBinding {
        kind: if writable {
            ResourceKind::StorageImage
        } else {
            ResourceKind::Texture
        },
        metal_index: binding - 32,
        descriptor: Some(DescriptorLocation { set: 0, binding }),
        texture_shape: Some(TextureShape {
            dimension: TextureDimension::D2,
            arrayed: false,
            writable,
        }),
        access: None,
        has_static_sampler: false,
    }
}

fn reflection() -> ShaderReflection {
    ShaderReflection {
        reflection_version: 2,
        stage: ShaderStage::Kernel,
        entry_point: None,
        bindings: vec![texture_argument(34, true), texture_argument(35, false)],
        vertex_builtins: None,
        function_constants: vec![],
    }
}

fn key(offset: u64, end: u64) -> ComputeStorageResidencyKey {
    ComputeStorageResidencyKey {
        mapping_id: 9,
        map_generation: 1,
        surface_offset: offset,
        surface_bpr: 16,
        span_end: end,
        width: 4,
        height: 2,
        pixel_format: MTL_FORMAT_R32_UINT,
        texture_ref: 0,
    }
}

/// A storage surface of 4x2 `R32Uint` texels in mapping 9.
fn surface_texture(binding: u32) -> StagedTexture {
    StagedTexture {
        binding,
        pixel_format: MTL_FORMAT_R32_UINT,
        storage_selector: Some(StorageImageFormat::R32Uint),
        width: 4,
        height: 2,
        bytes: vec![7; 32],
        is_storage: true,
        residency: Some(ComputeStorageResidencyCandidate {
            key: key(0, 32),
            seed_generation: 3,
        }),
        seed_skipped: false,
        sample_resident: None,
        writeback: TextureWriteback::Type11 {
            mapping_id: 9,
            surface_offset: 0,
            surface_bpr: 16,
            span_end: 32,
            width: 4,
            height: 2,
            bpp: 4,
        },
    }
}

fn sampled_texture(binding: u32) -> StagedTexture {
    StagedTexture {
        binding,
        pixel_format: MTL_FORMAT_RGBA8_UNORM,
        storage_selector: Some(StorageImageFormat::Rgba8Unorm),
        width: 2,
        height: 1,
        bytes: vec![5; 8],
        is_storage: false,
        residency: None,
        seed_skipped: false,
        sample_resident: None,
        writeback: TextureWriteback::Nowhere,
    }
}

fn accum() -> ComputeAccum {
    let mut acc = ComputeAccum::default();
    acc.set_pipeline(5);
    acc.bind_buffers(
        0,
        &[
            BufferBinding {
                ref_: 6,
                ..Default::default()
            },
            BufferBinding {
                ref_: 7,
                ..Default::default()
            },
        ],
    );
    acc.bind_textures(
        1,
        &[
            RefBinding { ref_: 20 },
            RefBinding { ref_: 21 },
            RefBinding { ref_: 22 },
        ],
    );
    acc.bind_samplers(
        1,
        &[
            SamplerBinding {
                ref_: 30,
                lod_min_bits: 0,
                lod_max_bits: 0,
                has_lod_clamp: false,
            },
            SamplerBinding {
                ref_: 31,
                lod_min_bits: 1,
                lod_max_bits: 2,
                has_lod_clamp: true,
            },
        ],
    );
    acc
}

fn command() -> ComputeCommand {
    let mut cmd = ComputeCommand::default();
    cmd.kind = Kind::DispatchThreads;
    cmd.grid = Size3 { x: 10, y: 4, z: 1 };
    cmd.threads_per_threadgroup = Size3 { x: 4, y: 4, z: 1 };
    cmd
}

fn staged(index: u32) -> StagedBuffer {
    StagedBuffer {
        bind: ComputeBufferBind {
            index,
            buffer_ref: 6 + index,
            offset: 0,
            attribute_stride: 0,
            has_attribute_stride: false,
        },
        gva: 0x1000 * (index as u64 + 1),
        bytes: vec![index as u8; 4],
    }
}

/// A dispatch of [`accum`], staged and translated up to the device.
fn at_device() -> Dispatch {
    let acc = accum();
    let mut d = execute_dispatch(&acc);
    assert_eq!(d.phase, Phase::Pipeline);
    let loaded = LoadedComputePipeline {
        kernel_func_ref: 77,
        stage_input: None,
    };
    d.pipeline_loaded(&acc, Some(&loaded));
    assert_eq!((d.phase, d.kernel_func_ref), (Phase::Geometry, 77));
    d.geometry_read(&acc, &command(), None, &Ok(Vec::new()));
    assert_eq!(d.phase, Phase::Buffer { index: 0 });
    d.buffer_staged(&acc, Ok(staged(0)));
    assert_eq!(d.phase, Phase::Buffer { index: 1 });
    d.buffer_staged(&acc, Ok(staged(1)));
    assert_eq!(d.phase, Phase::Kernel);
    d.kernel_translated(
        &acc,
        &KernelSource::Translated(bytes_of(&kernel())),
        &reflection(),
    );
    assert_eq!(d.uses, vec![BufferUse::Unused, BufferUse::Writable]);
    // Texture 33 is bound but not declared: it is passed over.
    assert_eq!(
        d.phase,
        Phase::Texture {
            index: 1,
            texture: TextureUse {
                binding: 34,
                texture_ref: 21,
                storage: Some(StorageImageAccess::WriteOnly),
            },
        }
    );
    d.texture_staged(Ok(surface_texture(34)));
    assert!(matches!(d.phase, Phase::Texture { index: 2, .. }));
    d.texture_staged(Ok(sampled_texture(35)));
    assert_eq!(d.phase, Phase::Device);
    d
}

fn abilities(deferred: bool) -> DeviceAbilities {
    DeviceAbilities {
        write_without_format: true,
        deferred_gpu_only_content: deferred,
        host_writeback_alignment: Some(0x1000),
    }
}

/// The same, up to the engine.
fn at_engine(deferred: bool) -> Dispatch {
    let mut d = at_device();
    assert!(ids_left(&d.words, d.textures.len()));
    d.device_ready(
        &accum(),
        &abilities(deferred),
        &vec![Some((0x7000, 0x4000)), None],
    );
    assert_eq!(d.phase, Phase::Samplers);
    d.samplers_loaded(true);
    assert_eq!(d.phase, Phase::Engine { retried: false });
    d
}

fn device() -> DeviceState {
    let mut state = DeviceState::new(DeviceId(1), PAGE_SHIFT_X86);
    assert!(state.map_surface(9));
    state.mappings.get_mut(&9).unwrap().page_entries =
        vec![(0x30 << PAGE_ENTRY_PFN_SHIFT) | PAGE_ENTRY_VALID];
    state
}

#[test]
fn a_dispatch_runs_from_its_binds_to_its_writes() {
    let mut state = device();
    let mut d = at_engine(false);
    // The kernel was specialized to the surface.
    assert_eq!(image_format(&d.words, 34), Some(ImageFormat::R32ui));
    assert_eq!(workgroups(&d.dims), (3, 1, 1));
    assert_eq!(
        engine_buffers(&d.buffers, &d.uses),
        vec![EngineBuffer {
            binding: 1,
            bytes: vec![1; 4],
            writable: true,
        }]
    );
    assert_eq!(d.storage.len(), 1);
    assert_eq!(d.storage[0].format, StorageImageFormat::R32Uint);
    assert_eq!(d.storage[0].bytes, vec![7; 32]);
    assert_eq!(
        d.storage[0].residency,
        Some(EngineResidency {
            identity: key(0, 32),
            seed_generation: 3,
            output_generation: 4,
        })
    );
    assert!(!d.storage[0].defer_readback);
    assert_eq!(
        d.storage[0].host_writeback,
        Some(HostWriteback {
            ptr: 0x7000,
            len: 0x4000,
            buffer_offset: 0,
            row_bytes: 16,
        })
    );
    assert_eq!(d.sampled.len(), 1);
    assert_eq!(d.sampled[0].format, StorageImageFormat::Rgba8Unorm);
    // Sampler 65 is bound but not declared; 64 is declared but not bound.
    let samplers: Vec<(u32, Option<u32>)> = d
        .samplers
        .iter()
        .map(|s| (s.binding, s.bind.map(|b| b.sampler_ref)))
        .collect();
    assert_eq!(samplers, vec![(66, Some(31)), (64, None)]);

    d.engine_ran(&mut state, EngineRun::Finished);
    assert_eq!(d.phase, Phase::Outputs);
    d.outputs_read(EngineOutput {
        buffers: vec![(1, vec![9; 4])],
        images: vec![vec![8; 32]],
        direct: vec![false],
        deferred: vec![false],
    });
    assert_eq!(d.phase, Phase::BufferWrite { output: 0, slot: 1 });
    assert_eq!(d.buffers[1].bytes, vec![9; 4]);
    d.buffer_written(true);
    assert_eq!(
        d.phase,
        Phase::ImageWrite {
            index: 0,
            output: 0,
            kind: OutputKind::Bytes,
        }
    );
    assert_eq!(d.textures[0].bytes, vec![8; 32]);
    d.image_finished(Ok(()));
    assert_eq!(d.phase, Phase::Done(ComputeStatus::Completed));
}

#[test]
fn each_phase_refuses_under_its_own_name() {
    let mut state = device();
    let acc = accum();
    let loaded = LoadedComputePipeline {
        kernel_func_ref: 77,
        stage_input: None,
    };
    // Stage-in input is not for this engine.
    let mut staged_in = acc.clone();
    staged_in.set_imageblock(4, 4);
    let mut d = execute_dispatch(&staged_in);
    d.pipeline_loaded(&staged_in, Some(&loaded));
    assert_eq!(
        d.phase,
        Phase::Done(ComputeStatus::Unsupported("linux_stage_in_imageblock"))
    );
    // Nor is a stage-in region whose place is read from a buffer.
    let mut staged_in = acc.clone();
    staged_in.set_stage_in_region_indirect(6, 8);
    let mut d = execute_dispatch(&staged_in);
    d.pipeline_loaded(&staged_in, Some(&loaded));
    assert_eq!(
        d.phase,
        Phase::Done(ComputeStatus::Unsupported("linux_stage_in_imageblock"))
    );
    // A grid of nothing.
    let mut d = execute_dispatch(&acc);
    d.pipeline_loaded(&acc, Some(&loaded));
    let mut empty = command();
    empty.grid.y = 0;
    d.geometry_read(&acc, &empty, None, &Ok(Vec::new()));
    assert!(matches!(d.phase, Phase::Done(ComputeStatus::BadGrid(_))));
    // A buffer that cannot be staged.
    let mut d = execute_dispatch(&acc);
    d.pipeline_loaded(&acc, Some(&loaded));
    d.geometry_read(&acc, &command(), None, &Ok(Vec::new()));
    d.buffer_staged(&acc, Err(ComputeStatus::GuestIo("compute_stage_buf_gva_read")));
    assert_eq!(
        d.phase,
        Phase::Done(ComputeStatus::GuestIo("compute_stage_buf_gva_read"))
    );
    // A sampler that cannot be loaded.
    let mut d = at_device();
    d.device_ready(&acc, &abilities(false), &vec![None, None]);
    d.samplers_loaded(false);
    assert_eq!(
        d.phase,
        Phase::Done(ComputeStatus::MissingSampler("compute_vk_sampler_load"))
    );
    // The engine.
    for (unsupported, status) in [
        (true, ComputeStatus::Unsupported("engine_run_unsupported")),
        (false, ComputeStatus::MetalFailed("compute_vk_engine_run")),
    ] {
        let mut d = at_engine(false);
        d.engine_ran(
            &mut state,
            EngineRun::Failed {
                unsupported,
                resident_lost: false,
            },
        );
        assert_eq!(d.phase, Phase::Done(status));
    }
    // Outputs that do not answer the request.
    let mut d = at_engine(false);
    d.engine_ran(&mut state, EngineRun::Finished);
    d.outputs_read(EngineOutput {
        buffers: vec![],
        images: vec![vec![8; 32]],
        direct: vec![false],
        deferred: vec![false],
    });
    assert_eq!(
        d.phase,
        Phase::Done(ComputeStatus::MetalFailed("compute_vk_readback_count"))
    );
    let mut d = at_engine(false);
    d.engine_ran(&mut state, EngineRun::Finished);
    d.outputs_read(EngineOutput {
        buffers: vec![(19, vec![])],
        images: vec![vec![8; 32]],
        direct: vec![false],
        deferred: vec![false],
    });
    assert_eq!(
        d.phase,
        Phase::Done(ComputeStatus::MetalFailed("compute_vk_readback_binding"))
    );
    // A write that fails.
    let mut d = at_engine(false);
    d.engine_ran(&mut state, EngineRun::Finished);
    d.outputs_read(EngineOutput {
        buffers: vec![(1, vec![9; 4])],
        images: vec![vec![8; 32]],
        direct: vec![true],
        deferred: vec![true],
    });
    d.buffer_written(true);
    // Deferred comes before direct.
    assert!(matches!(
        d.phase,
        Phase::ImageWrite {
            kind: OutputKind::Deferred,
            ..
        }
    ));
    d.image_finished(Err(ComputeStatus::GuestIo("compute_wb_tex_type11_write")));
    assert_eq!(
        d.phase,
        Phase::Done(ComputeStatus::GuestIo("compute_wb_tex_type11_write"))
    );
    let mut d = at_engine(false);
    d.engine_ran(&mut state, EngineRun::Finished);
    d.outputs_read(EngineOutput {
        buffers: vec![(1, vec![9; 4])],
        images: vec![vec![8; 32]],
        direct: vec![true],
        deferred: vec![false],
    });
    d.buffer_written(false);
    assert_eq!(
        d.phase,
        Phase::Done(ComputeStatus::GuestIo("compute_wb_buf_task_gva_write"))
    );
}

#[test]
fn a_lost_resident_is_restaged_once() {
    let mut state = device();
    state.compute_deferred_flush.insert(key(0, 32), 4);
    let lost = EngineRun::Failed {
        unsupported: false,
        resident_lost: true,
    };
    // Nothing relied on a resident: there is nothing to retry.
    let mut d = at_engine(false);
    d.engine_ran(&mut state, lost);
    assert_eq!(
        d.phase,
        Phase::Done(ComputeStatus::MetalFailed(
            "compute_restage_no_skipped_resource"
        ))
    );
    assert_eq!(state.compute_deferred_flush.get(&key(0, 32)), Some(4));

    let mut d = at_engine(false);
    d.storage[0].seed_skipped = true;
    d.sampled[0].resident_bind = Some(ResidentSample {
        key: key(64, 96),
        generation: 2,
    });
    d.engine_ran(&mut state, lost);
    let read = WindowRead {
        key: key(0, 32),
        bpp: 4,
        tight: 16,
    };
    assert_eq!(
        d.phase,
        Phase::Restage {
            image: RestageImage::Storage(0),
            read,
            some: false,
        }
    );
    // What the window owed the guest went with the resident.
    assert_eq!(state.compute_deferred_flush.get(&key(0, 32)), None);
    d.window_restaged(&mut state, Some(vec![1; 32]));
    assert!(matches!(
        d.phase,
        Phase::Restage {
            image: RestageImage::Sampled(0),
            some: true,
            ..
        }
    ));
    assert_eq!(d.storage[0].bytes, vec![1; 32]);
    assert!(!d.storage[0].seed_skipped);
    d.window_restaged(&mut state, Some(vec![2; 8]));
    assert_eq!(d.sampled[0].bytes, vec![2; 8]);
    assert_eq!(d.sampled[0].resident_bind, None);
    assert_eq!(d.phase, Phase::Engine { retried: true });
    // Not again.
    d.engine_ran(&mut state, lost);
    assert_eq!(
        d.phase,
        Phase::Done(ComputeStatus::MetalFailed("compute_vk_engine_run"))
    );
}

#[test]
fn what_only_the_resident_held_cannot_be_restaged() {
    let mut state = device();
    let lost = EngineRun::Failed {
        unsupported: false,
        resident_lost: true,
    };
    let linear = ComputeStorageResidencyKey::linear(1, 11, 0x1000, 16, 32, 4, 2, 73);
    let heap = ComputeStorageResidencyKey::heap(1, 12, 4, 2, 73);
    for (identity, storage, sampled) in [
        (
            linear,
            "compute_restage_linear_lost",
            "compute_restage_sampled_linear_lost",
        ),
        (
            heap,
            "compute_restage_heap_lost",
            "compute_restage_sampled_heap_lost",
        ),
    ] {
        let mut d = at_engine(false);
        d.storage[0].seed_skipped = true;
        d.storage[0].residency.as_mut().unwrap().identity = identity;
        d.engine_ran(&mut state, lost);
        assert_eq!(d.phase, Phase::Done(ComputeStatus::MetalFailed(storage)));
        let mut d = at_engine(false);
        d.sampled[0].resident_bind = Some(ResidentSample {
            key: identity,
            generation: 2,
        });
        d.engine_ran(&mut state, lost);
        assert_eq!(d.phase, Phase::Done(ComputeStatus::MetalFailed(sampled)));
    }
    let mut d = at_engine(false);
    d.storage[0].seed_skipped = true;
    d.storage[0].residency = None;
    d.engine_ran(&mut state, lost);
    assert_eq!(
        d.phase,
        Phase::Done(ComputeStatus::MetalFailed(
            "compute_restage_skip_without_identity"
        ))
    );
    let mut d = at_engine(false);
    d.storage[0].seed_skipped = true;
    d.engine_ran(&mut state, lost);
    d.window_restaged(&mut state, None);
    assert_eq!(
        d.phase,
        Phase::Done(ComputeStatus::GuestIo("compute_restage_read"))
    );
}

#[test]
fn a_kernel_says_what_it_does_with_its_binds() {
    assert_eq!(
        kernel_words(&KernelSource::NoContainer),
        Err(ComputeStatus::MissingMtlb("compute_vk_mtlb_load"))
    );
    assert_eq!(
        kernel_words(&KernelSource::NoBitcode),
        Err(ComputeStatus::MetalFailed("compute_vk_air_extract"))
    );
    assert_eq!(
        kernel_words(&KernelSource::Untranslated),
        Err(ComputeStatus::MetalFailed("compute_vk_translate"))
    );
    assert_eq!(
        kernel_words(&KernelSource::Translated(vec![0; 21])),
        Err(ComputeStatus::MetalFailed("compute_vk_spirv_parse"))
    );
    assert_eq!(
        kernel_words(&KernelSource::Translated(bytes_of(&kernel()))),
        Ok(kernel())
    );

    // Handed to a function, a pointer may be written through or not; a store of the
    // kernel's own settles it.
    let mut escaping = kernel();
    escaping.extend([(5u32 << 16) | 57, 17, 18, 19, 7]);
    assert_eq!(
        buffer_uses(&escaping, &vec![staged(0), staged(1)]),
        Ok(vec![BufferUse::Unused, BufferUse::Writable])
    );
    let at = escaping
        .iter()
        .position(|&w| w == (3u32 << 16) | 62)
        .unwrap();
    escaping.drain(at..at + 3);
    assert_eq!(
        buffer_uses(&escaping, &vec![staged(0), staged(1)]),
        Err(ComputeStatus::Unsupported("buffer_spirv_pointer_escape"))
    );
    let mut doubled = kernel();
    doubled.extend([(4u32 << 16) | 59, 4, 20, 12]);
    doubled.extend([(4u32 << 16) | 71, 20, 33, 1]);
    assert_eq!(
        buffer_uses(&doubled, &vec![staged(1)]),
        Err(ComputeStatus::Unsupported("buffer_spirv_ambiguous_binding"))
    );
    assert_eq!(
        writable_count(&vec![
            BufferUse::Unused,
            BufferUse::Writable,
            BufferUse::ReadOnly,
            BufferUse::Writable
        ]),
        2
    );

    // Reflected as storage, but the module has no such image.
    let bind = ComputeTextureBind {
        index: 4,
        texture_ref: 50,
    };
    let mut odd = reflection();
    odd.bindings.push(texture_argument(36, true));
    assert_eq!(
        texture_use(&kernel(), &odd, &bind),
        Err(ComputeStatus::Unsupported(
            "texture_spirv_storage_access_missing"
        ))
    );
    let bind = ComputeTextureBind {
        index: 2,
        texture_ref: 50,
    };
    let mut twice = kernel();
    twice.extend([(4u32 << 16) | 59, 2, 21, 0]);
    twice.extend([(4u32 << 16) | 71, 21, 33, 34]);
    assert_eq!(
        texture_use(&twice, &reflection(), &bind),
        Err(ComputeStatus::Unsupported(
            "texture_spirv_storage_ambiguous_binding"
        ))
    );
}

#[test]
fn storage_formats_follow_the_bound_surfaces() {
    let mut t = surface_texture(34);
    assert_eq!(
        storage_formats(&kernel(), &vec![t.clone(), sampled_texture(35)], true),
        Ok(vec![StorageFormat {
            binding: 34,
            guest: StorageImageFormat::R32Uint,
            declared: ImageFormat::Rgba8Uint,
            specialized: ImageFormat::R32ui,
        }])
    );
    t.storage_selector = Some(StorageImageFormat::Rgba32Float);
    assert_eq!(
        storage_formats(&kernel(), &vec![t.clone()], true),
        Err(ComputeStatus::Unsupported(
            "storage_format_specialize_mismatch"
        ))
    );
    t.storage_selector = None;
    assert_eq!(
        storage_formats(&kernel(), &vec![t.clone()], true),
        Err(ComputeStatus::Unsupported("storage_no_selector_specialize"))
    );
    assert_eq!(
        storage_formats(&kernel(), &vec![surface_texture(40)], true),
        Err(ComputeStatus::Unsupported("storage_spirv_format_missing"))
    );

    // A BGRA color surface: the image loses its format, and the module says that it
    // writes such images.
    let format = StorageFormat {
        binding: 34,
        guest: StorageImageFormat::Bgra8Unorm,
        declared: ImageFormat::Rgba8Unorm,
        specialized: ImageFormat::Unknown,
    };
    let mut words = kernel();
    assert_eq!(specialize_kernel(&mut words, &vec![format]), Ok(()));
    assert_eq!(image_format(&words, 34), Some(ImageFormat::Unknown));
    assert_eq!(words.len(), kernel().len() + 2);
    assert_eq!((words[5], words[6]), ((2u32 << 16) | 17, 56));
    // A binding that the module lacks.
    let mut words = kernel();
    assert_eq!(
        specialize_kernel(
            &mut words,
            &vec![StorageFormat {
                binding: 40,
                ..format
            }]
        ),
        Err(ComputeStatus::Unsupported("storage_format_specialize_error"))
    );
    assert_eq!(words, kernel());
}

#[test]
fn images_refuse_what_the_engine_cannot_view() {
    let formats = vec![StorageFormat {
        binding: 34,
        guest: StorageImageFormat::Bgra8Unorm,
        declared: ImageFormat::Rgba8Unorm,
        specialized: ImageFormat::Unknown,
    }];
    let mut t = surface_texture(34);
    t.storage_selector = Some(StorageImageFormat::Bgra8Unorm);
    let image = storage_image(&mut t, &formats, true, Some(0x1000), Some((0x7000, 64))).unwrap();
    // Without a format of its own, the image is viewed as the surface is.
    assert_eq!(image.format, StorageImageFormat::Bgra8Unorm);
    // It stays in the engine, so it is not copied out as well.
    assert!(image.defer_readback);
    assert_eq!(image.host_writeback, None);
    assert!(t.bytes.is_empty());
    let mut t = surface_texture(36);
    assert_eq!(
        storage_image(&mut t, &formats, true, None, None),
        Err(ComputeStatus::Unsupported(
            "storage_format_specialize_internal"
        ))
    );
    assert_eq!(t, surface_texture(36));
    t.storage_selector = None;
    assert_eq!(
        storage_image(&mut t, &formats, true, None, None),
        Err(ComputeStatus::Unsupported("storage_no_selector_writeback"))
    );
    let mut t = surface_texture(34);
    let odd = vec![StorageFormat {
        specialized: ImageFormat::Unsupported(200),
        ..formats[0]
    }];
    assert_eq!(
        storage_image(&mut t, &odd, true, None, None),
        Err(ComputeStatus::Unsupported("storage_spirv_format_unsupported"))
    );
    let mut t = sampled_texture(35);
    t.pixel_format = 1;
    assert_eq!(
        sampled_image(&mut t),
        Err(ComputeStatus::Unsupported("sampled_format_unsupported"))
    );
    // The engine copies only into aligned windows.
    let t = surface_texture(34);
    assert_eq!(
        plan_direct_writeback(&t, Some(0x1000), Some((0x7010, 64))),
        None
    );
    assert_eq!(plan_direct_writeback(&t, None, Some((0x7000, 64))), None);
    assert_eq!(plan_direct_writeback(&t, Some(0x1000), None), None);
}

#[test]
fn samplers_come_from_binds_or_defaults() {
    let binds = vec![ComputeSamplerBind {
        index: 0,
        sampler_ref: 30,
        lod_min_bits: 0,
        lod_max_bits: 0,
        has_lod_clamp: false,
    }];
    let uses = sampler_uses(&kernel(), &binds);
    let found: Vec<(u32, bool)> = uses.iter().map(|u| (u.binding, u.bind.is_some())).collect();
    assert_eq!(found, vec![(64, true), (66, false)]);
}

#[test]
fn a_deferred_surface_supersedes_what_it_covers() {
    let mut state = device();
    let mut cache = LinearCache::new();
    let mut owed = LinearDeferred::new();
    let older = ComputeStorageResidencyKey {
        width: 2,
        ..key(16, 48)
    };
    state.compute_deferred_flush.insert(older, 8);
    state.compute_deferred_flush.insert(key(64, 96), 5);
    let t = surface_texture(34);
    assert_eq!(
        finish_deferred(&mut state, &mut cache, &mut owed, 1, &t, Vec::new()),
        Ok(vec![older])
    );
    // Owed and recorded at the engine's output generation; the disjoint one stays.
    assert_eq!(state.compute_deferred_flush.get(&key(0, 32)), Some(4));
    assert_eq!(state.compute_deferred_flush.get(&key(64, 96)), Some(5));
    assert_eq!(state.compute_deferred_flush.get(&older), None);
    assert_eq!(state.compute_storage_residency.get(&key(0, 32)), Some(4));
    assert_eq!(state.mappings.get(&9).unwrap().content_generation, 1);
    assert_eq!(state.deferred_alias_pages, vec![(0x30 << 12, 9)]);
    // Without a place to flush to, or an identity, nothing can be deferred.
    let mut bare = surface_texture(34);
    bare.residency = None;
    assert_eq!(
        finish_deferred(&mut state, &mut cache, &mut owed, 1, &bare, Vec::new()),
        Err(ComputeStatus::MetalFailed("compute_vk_deferred_identity"))
    );
}

/// A linear output of the given format over task memory.
fn linear_texture(pixel_format: u16, bpp: u32) -> StagedTexture {
    StagedTexture {
        binding: 34,
        pixel_format,
        storage_selector: None,
        width: 2,
        height: 2,
        bytes: (0..4 * bpp as u8).collect(),
        is_storage: true,
        residency: Some(ComputeStorageResidencyCandidate {
            key: ComputeStorageResidencyKey::linear(1, 11, 0x1000, 64, 128, 2, 2, pixel_format),
            seed_generation: 6,
        }),
        seed_skipped: false,
        sample_resident: None,
        writeback: TextureWriteback::Linear {
            texture_ref: 11,
            gva: 0x1000,
            pixel_format,
            row_stride: 64,
            width: 2,
            height: 2,
            bpp,
        },
    }
}

#[test]
fn a_deferred_linear_output_is_owed_where_the_guest_mapped_it() {
    let mut state = device();
    let mut cache = LinearCache::new();
    let mut owed = LinearDeferred::new();
    let t = linear_texture(MTL_FORMAT_RGBA16_FLOAT, 8);
    let window = LinearWindow {
        gva: 0x1000,
        pixel_format: MTL_FORMAT_RGBA16_FLOAT,
        width: 2,
        height: 2,
        row_stride: 64,
    };
    // Mapped: the span is owed, under the pages that alias it.
    state.note_task_map(1, 0x1000, 0x1000);
    assert_eq!(deferred_flush_span(&state, 1, &t), Some((0x1000, 128)));
    assert_eq!(
        finish_deferred(&mut state, &mut cache, &mut owed, 1, &t, vec![0x5000]),
        Ok(vec![])
    );
    assert_eq!(cache.linear_texture_resident_gen(1, 11, &window), Some(7));
    assert_eq!(cache.get_linear_texture(1, 11, &window), None);
    let armed = OwedWindow {
        key: t.residency.unwrap().key,
        generation: 7,
        pages: vec![0x5000],
    };
    assert_eq!(owed.windows, vec![armed.clone()]);
    // Again: the new content takes the old one's place.
    finish_deferred(&mut state, &mut cache, &mut owed, 1, &t, vec![0x6000]).unwrap();
    assert_eq!(owed.windows.len(), 1);
    assert_eq!(owed.windows[0].pages, vec![0x6000]);
    // Unmapped: nothing is owed.
    let mut apart = device();
    apart.note_task_map(1, 0x9000, 0x1000);
    assert_eq!(deferred_flush_span(&apart, 1, &t), None);
    finish_deferred(&mut apart, &mut cache, &mut owed, 1, &t, vec![]).unwrap();
    assert!(owed.windows.is_empty());
    // A format without a texel size cannot be noted.
    let odd = linear_texture(0xffff, 4);
    assert_eq!(
        finish_deferred(&mut state, &mut cache, &mut owed, 1, &odd, vec![]),
        Err(ComputeStatus::MetalFailed("compute_vk_deferred_linear_note"))
    );
    // A lost resident has no authority any longer.
    cache.forget_resident(1, 11);
    assert_eq!(cache.linear_texture_resident_gen(1, 11, &window), None);
    assert!(!linear_mirrorable(MTL_FORMAT_RGBA16_FLOAT));
    assert!(linear_mirrorable(MTL_FORMAT_BGRA8_UNORM));
}

#[test]
fn a_linear_resident_that_does_not_serve_is_flushed_or_lost() {
    let layout = LevelLayout {
        gva: 0x1000,
        width: 4,
        height: 2,
        row_stride: 32,
    };
    let lookup = Lookup::Decoded(LinearDescriptor {
        has_pixel_format: true,
        pixel_format: MTL_FORMAT_RGBA8_UNORM,
        level: Some(layout),
    });
    let nothing = EngineResidents {
        windows: Vec::new(),
    };
    let base = BaseTexture {
        stage_ref: 11,
        level: 0,
        pixel_format: None,
    };
    let window = LinearWindow {
        gva: 0x1000,
        width: 4,
        height: 2,
        row_stride: 32,
        pixel_format: MTL_FORMAT_RGBA8_UNORM,
    };
    for landed in [true, false] {
        let mut cache = LinearCache::new();
        assert!(cache.note_linear_texture_resident(1, 11, &window, 5));
        let mut stage = stage_texture_raw(1, 11, 34, true);
        stage.phase = StagePhase::Linear(base);
        stage.linear_found(&lookup, &cache, &nothing);
        assert!(matches!(stage.phase, StagePhase::LinearFlush { .. }));
        if landed {
            // The flush stores the resident's rows in the host's copy.
            assert!(cache.store_linear_texture(1, 11, &window, &[3; 32]));
        }
        stage.linear_flushed(&mut cache);
        if landed {
            assert_eq!(stage.finish().unwrap().unwrap().bytes, vec![3; 32]);
            continue;
        }
        // It is lost: it has no authority any longer, and the guest is read.
        assert_eq!(cache.linear_texture_resident_gen(1, 11, &window), None);
        assert_eq!(cache.host_generation(1, 11), 5);
        match &stage.phase {
            StagePhase::LinearRead(plan) => assert_eq!(plan.need, 32),
            other => panic!("expected a read, got {other:?}"),
        }
        stage.linear_read(Ok(vec![9; 32]), &cache);
        let staged = stage.finish().unwrap().unwrap();
        assert_eq!((staged.binding, staged.is_storage), (34, true));
        assert_eq!(staged.bytes, vec![9; 32]);
    }
}

#[test]
fn a_direct_output_is_accounted_for_like_a_write() {
    let mut state = device();
    state.compute_storage_residency.insert(key(16, 48), 2);
    assert_eq!(finish_direct(&mut state, &surface_texture(34)), Ok(()));
    assert_eq!(state.compute_storage_residency.get(&key(16, 48)), None);
    assert_eq!(state.compute_storage_residency.get(&key(0, 32)), Some(4));
    assert_eq!(state.mappings.get(&9).unwrap().content_generation, 1);
    assert_eq!(
        finish_direct(&mut state, &linear_texture(MTL_FORMAT_RGBA16_FLOAT, 8)),
        Err(ComputeStatus::MetalFailed("compute_vk_direct_non_type11"))
    );
}

#[test]
fn a_mapping_keeps_a_bounded_number_of_windows() {
    let mut state = device();
    let n = STORAGE_RESIDENCY_WINDOWS_PER_MAPPING as u64;
    for i in 0..n + 2 {
        let mut t = surface_texture(34);
        t.residency.as_mut().unwrap().key = key(32 * i, 32 * i + 32);
        note_storage_residency_writeback(&mut state, &t);
        let kept = state.compute_storage_residency.entries.len() as u64;
        assert_eq!(kept, (i + 1).min(n));
        assert_eq!(
            state
                .compute_storage_residency
                .get(&key(32 * i, 32 * i + 32)),
            Some(4)
        );
    }
    // The first windows made room.
    assert_eq!(state.compute_storage_residency.get(&key(0, 32)), None);
    assert_eq!(state.compute_storage_residency.get(&key(32, 64)), None);
    assert_eq!(state.compute_storage_residency.get(&key(64, 96)), Some(4));
    // A heap texture is kept beside them, a linear one elsewhere.
    let mut heap = surface_texture(34);
    heap.residency.as_mut().unwrap().key = ComputeStorageResidencyKey::heap(1, 12, 4, 2, 53);
    note_storage_residency_writeback(&mut state, &heap);
    assert_eq!(
        state.compute_storage_residency.entries.len() as u64,
        n + 1
    );
    note_storage_residency_writeback(&mut state, &linear_texture(MTL_FORMAT_RGBA16_FLOAT, 8));
    assert_eq!(
        state.compute_storage_residency.entries.len() as u64,
        n + 1
    );
}

#[test]
fn linear_writebacks_name_their_refusals() {
    let mut state = device();
    let mut cache = LinearCache::new();
    let t = linear_texture(MTL_FORMAT_RGBA16_FLOAT, 8);
    // Mapped: the rows go to the guest.
    state.note_task_map(1, 0x1000, 0x1000);
    let step = writeback_texture(&state, &mut cache, 1, &t).unwrap();
    assert_eq!(
        step,
        WritebackStep::WriteLinear {
            gva: 0x1000,
            row_stride: 64,
            tight: 16,
            height: 2,
        }
    );
    assert_eq!(finish_writeback(&step, true), Ok(()));
    assert_eq!(
        finish_writeback(&step, false),
        Err(ComputeStatus::GuestIo("compute_wb_tex_linear_guest_write"))
    );
    let mut short = t.clone();
    short.bytes.truncate(8);
    assert_eq!(
        writeback_texture(&state, &mut cache, 1, &short),
        Err(ComputeStatus::GuestIo("compute_wb_tex_linear_layout"))
    );
    assert_eq!(
        writeback_texture(&state, &mut cache, 1, &linear_texture(0xffff, 4)),
        Err(ComputeStatus::GuestIo("compute_wb_tex_linear_cache_store"))
    );
    let mut vast = t.clone();
    vast.writeback = TextureWriteback::Linear {
        texture_ref: 11,
        gva: 0x1000,
        pixel_format: MTL_FORMAT_RGBA16_FLOAT,
        row_stride: u64::MAX,
        width: 2,
        height: 2,
        bpp: 8,
    };
    assert_eq!(
        writeback_texture(&state, &mut cache, 1, &vast),
        Err(ComputeStatus::GuestIo("compute_wb_tex_linear_span_overflow"))
    );
    let step = writeback_texture(&state, &mut cache, 1, &surface_texture(34)).unwrap();
    assert!(matches!(
        step,
        WritebackStep::WriteSurface {
            mapping_id: 9,
            tight: 16,
            ..
        }
    ));
    assert_eq!(
        finish_writeback(&step, false),
        Err(ComputeStatus::GuestIo("compute_wb_tex_type11_write"))
    );
}

#[test]
fn objects_load_or_say_what_is_missing() {
    let good = Lookup::Decoded(FunctionDescriptor {
        blob_gva: 0x4000,
        blob_size: 64,
    });
    assert_eq!(plan_mtlb(3, &good), Ok((0x4000, 64)));
    assert_eq!(plan_mtlb(0, &good), Err(LoadMiss::Unbound));
    assert_eq!(plan_mtlb(3, &Lookup::NoEntry), Err(LoadMiss::NoEntry));
    assert_eq!(
        plan_mtlb(3, &Lookup::WrongType(4)),
        Err(LoadMiss::WrongType(4))
    );
    assert_eq!(
        plan_mtlb(
            3,
            &Lookup::Decoded(FunctionDescriptor {
                blob_gva: 0x4000,
                blob_size: 3
            })
        ),
        Err(LoadMiss::BadBlob)
    );
    assert_eq!(load_mtlb(None), Err(LoadMiss::GuestRead));
    assert_eq!(load_mtlb(Some(vec![1])), Ok(vec![1]));
    let pipeline = |kernel_func_ref: u32, dropped: u32| {
        Lookup::Decoded(PipelineDescriptor::Compute {
            kernel_func_ref,
            stage_input: Some(stage_input(dropped)),
        })
    };
    let loaded = load_compute_pipeline(5, pipeline(8, 0)).unwrap();
    assert_eq!(loaded.kernel_func_ref, 8);
    assert!(loaded.stage_input.is_some());
    // A stage input that lost entries is left out rather than truncated.
    assert!(load_compute_pipeline(5, pipeline(8, 1)).unwrap().stage_input.is_none());
    assert_eq!(
        load_compute_pipeline(5, pipeline(0, 0)),
        Err(LoadMiss::KernelFunctionZero)
    );
    assert_eq!(
        load_compute_pipeline(5, Lookup::Decoded(PipelineDescriptor::Other)),
        Err(LoadMiss::NotComputePipeline)
    );

    let bind = ComputeBufferBind {
        index: 1,
        buffer_ref: 7,
        offset: 4,
        attribute_stride: 0,
        has_attribute_stride: false,
    };
    let desc = |allocation_size: u64, handle: u32| {
        Lookup::Decoded(BufferDescriptor {
            allocation_size,
            handle64: handle as u64,
            handle,
        })
    };
    assert_eq!(plan_buffer(&bind, &desc(16, 5), 12), Ok((0x5004, 12)));
    let reason = |lookup: &Lookup<BufferDescriptor>| {
        plan_buffer(&bind, lookup, 12).unwrap_err().reason()
    };
    assert_eq!(reason(&Lookup::WrongType(2)), "compute_stage_buf_wrong_type");
    assert_eq!(reason(&Lookup::NoDescriptor), "compute_stage_buf_no_desc");
    assert_eq!(reason(&Lookup::Undecoded), "compute_stage_buf_decode");
    assert_eq!(reason(&desc(16, 0)), "compute_stage_buf_no_backing");
    assert_eq!(reason(&desc(4, 5)), "compute_stage_buf_off_oob");
    assert_eq!(
        stage_buffer(&bind, 0x5004, 1, None),
        Err(ComputeStatus::GuestIo("compute_stage_buf_gva_read"))
    );
    assert_eq!(stage_buffer(&bind, 0x5004, 1, Some(vec![1])).unwrap().bytes, vec![1]);
    assert_eq!(
        writeback_buffer(false),
        Err(ComputeStatus::GuestIo("compute_wb_buf_task_gva_write"))
    );
}

fn stage_input(dropped: u32) -> ComputeStageInputDescriptor {
    ComputeStageInputDescriptor {
        word0: 1,
        header0: 2,
        header1: 3,
        index_type: 4,
        index_buffer_index: 5,
        attributes: vec![StageInputAttribute {
            raw_bits: 6,
            location: 7,
            format: 8,
            offset: 9,
            buffer_index: 10,
        }],
        layouts: vec![StageInputLayout {
            raw_bits: 11,
            buffer_index: 12,
            step_function: 13,
            step_rate: 14,
            stride: 15,
        }],
        dropped_attributes: dropped,
        dropped_layouts: 0,
    }
}

#[test]
fn metal_dispatches_take_what_the_engine_does_not() {
    let acc = accum();
    let loaded = LoadedComputePipeline {
        kernel_func_ref: 77,
        stage_input: Some(stage_input(0)),
    };
    let mut d = execute_dispatch_metal(&acc);
    d.pipeline_loaded(None);
    assert_eq!(
        d.phase,
        MetalPhase::Done(ComputeStatus::MissingPipeline("compute_mtl_pipeline_load"))
    );
    let mut d = execute_dispatch_metal(&acc);
    d.pipeline_loaded(Some(&loaded));
    assert_eq!((d.phase, d.kernel_func_ref), (MetalPhase::Container, 77));
    assert_eq!(d.stage_input.as_ref().unwrap().layouts[0].stride, 15);
    d.container_loaded(false);
    assert_eq!(
        d.phase,
        MetalPhase::Done(ComputeStatus::MissingMtlb("compute_mtl_mtlb_load"))
    );
    assert_eq!((encoder_dispatch_type(1), encoder_dispatch_type(7)), (1, 0));
    let raw: Vec<u8> = (1u32..7).flat_map(|v| v.to_le_bytes()).collect();
    assert_eq!(
        stage_in_arguments(&raw),
        StageInArguments {
            origin_x: 1,
            origin_y: 2,
            origin_z: 3,
            size_x: 4,
            size_y: 5,
            size_z: 6,
        }
    );
    let tables = stage_input_to_apv(&stage_input(0));
    assert_eq!((tables.attribute_count, tables.layout_count), (1, 1));
    assert_eq!((tables.attributes.len(), tables.layouts.len()), (31, 31));
    assert_eq!(tables.attributes[0].location, 7);
    assert_eq!(tables.attributes[1].location, 0);
    assert_eq!(tables.layouts[0].stride, 15);

    // Unless it is known to be only read, a texture is a storage image.
    let usages = [(32, TextureAccess::Read), (33, TextureAccess::Write)];
    assert!(!binds_storage(&usages, 32));
    assert!(binds_storage(&usages, 33));
    assert!(binds_storage(&usages, 34));

    let descriptor = SamplerDescriptor {
        normalized_coordinates: false,
        min_filter: 1,
        mag_filter: 2,
        mip_filter: 3,
        s_address: 4,
        t_address: 5,
        r_address: 6,
        border_color: 7,
        compare_function: 8,
        lod_min_bits: 9,
        lod_max_bits: 10,
        max_anisotropy: 0,
        lod_average: true,
        support_argument_buffers: false,
    };
    let sampler = metal_sampler(&acc.samplers[1], &SamplerLookup::Decoded(descriptor)).unwrap();
    assert_eq!(sampler.binding, 66);
    assert!(sampler.unnormalized);
    // The bind's clamp comes before the descriptor's.
    assert_eq!((sampler.lod_min_bits, sampler.lod_max_bits), (1, 2));
    assert_eq!(sampler.max_anisotropy, 1);
    for (lookup, reason) in [
        (SamplerLookup::NoEntry, "compute_mtl_sampler_no_entry"),
        (SamplerLookup::WrongType, "compute_mtl_sampler_wrong_type"),
        (SamplerLookup::NoDescriptor, "compute_mtl_sampler_no_desc"),
        (SamplerLookup::BadTag, "compute_mtl_sampler_bad_tag"),
        (SamplerLookup::Undecoded, "compute_mtl_sampler_decode"),
    ] {
        assert_eq!(
            metal_sampler(&acc.samplers[1], &lookup),
            Err(ComputeStatus::MissingSampler(reason))
        );
    }
    let mut t = surface_texture(34);
    assert_eq!(metal_format(&t), Ok(StorageImageFormat::R32Uint));
    t.storage_selector = None;
    assert_eq!(
        metal_format(&t),
        Err(ComputeStatus::Unsupported("metal_no_backend_selector"))
    );
}

fn sampler_descriptor() -> SamplerDescriptor {
    SamplerDescriptor {
        normalized_coordinates: true,
        min_filter: 1,
        mag_filter: 1,
        mip_filter: 0,
        s_address: 0,
        t_address: 0,
        r_address: 0,
        border_color: 0,
        compare_function: 0,
        lod_min_bits: 0,
        lod_max_bits: 9,
        max_anisotropy: 4,
        lod_average: false,
        support_argument_buffers: false,
    }
}

/// A dispatch of [`accum`] with an indirect stage-in region, staged up to its
/// samplers.
fn metal_at_samplers(acc: &ComputeAccum) -> MetalDispatch {
    let loaded = LoadedComputePipeline {
        kernel_func_ref: 77,
        stage_input: None,
    };
    let mut d = execute_dispatch_metal(acc);
    assert_eq!(d.phase, MetalPhase::Pipeline);
    d.pipeline_loaded(Some(&loaded));
    d.container_loaded(true);
    assert_eq!(d.phase, MetalPhase::Geometry);
    d.geometry_read(acc, &command(), None, &Ok(Vec::new()));
    assert_eq!(
        d.phase,
        MetalPhase::StageIn(StageInRegionIndirect {
            buffer_ref: 6,
            buffer_offset: 8,
        })
    );
    let raw: Vec<u8> = (1u32..7).flat_map(|v| v.to_le_bytes()).collect();
    d.stage_in_read(acc, &Ok(raw));
    assert_eq!(d.region_arguments.unwrap().size_z, 6);
    assert_eq!(d.phase, MetalPhase::Buffer { index: 0 });
    d.buffer_staged(acc, Ok(staged(0)));
    d.buffer_staged(acc, Ok(staged(1)));
    assert_eq!(d.phase, MetalPhase::Reflection);
    d.reflected(
        acc,
        Ok(vec![(33, TextureAccess::Read), (35, TextureAccess::Read)]),
    );
    let expected = [(33, 20, false), (34, 21, true), (35, 22, false)];
    for (i, (number, reference, storage)) in expected.into_iter().enumerate() {
        match d.phase {
            MetalPhase::Texture {
                index,
                bind,
                binding,
                is_storage,
            } => {
                assert_eq!((index, binding, is_storage), (i, number, storage));
                assert_eq!(bind.texture_ref, reference);
            }
            other => panic!("expected a texture, got {other:?}"),
        }
        let texture = if storage {
            surface_texture(number)
        } else {
            sampled_texture(number)
        };
        d.texture_staged(acc, Ok(texture));
    }
    assert_eq!(d.phase, MetalPhase::Sampler { index: 0 });
    d
}

fn region_accum() -> ComputeAccum {
    let mut acc = accum();
    acc.set_stage_in_region_indirect(6, 8);
    acc
}

#[test]
fn a_metal_dispatch_runs_from_its_binds_to_its_writes() {
    let acc = region_accum();
    let mut d = metal_at_samplers(&acc);
    let found = SamplerLookup::Decoded(sampler_descriptor());
    d.sampler_found(&acc, &found);
    assert_eq!(d.phase, MetalPhase::Sampler { index: 1 });
    d.sampler_found(&acc, &found);
    assert_eq!(d.phase, MetalPhase::Encode);
    assert_eq!(
        d.storage,
        vec![MetalImage {
            texture: 1,
            binding: 34,
            format: StorageImageFormat::R32Uint,
            width: 4,
            height: 2,
        }]
    );
    let sampled: Vec<(usize, u32)> = d.sampled.iter().map(|i| (i.texture, i.binding)).collect();
    assert_eq!(sampled, vec![(0, 33), (2, 35)]);
    assert_eq!(d.samplers[1].binding, 66);
    d.encoded(Ok(()));
    for index in 0..2 {
        assert_eq!(d.phase, MetalPhase::BufferWrite { index });
        d.buffer_written(true);
    }
    for index in 0..3 {
        assert_eq!(d.phase, MetalPhase::TextureWrite { index });
        d.texture_written(Ok(()));
    }
    assert_eq!(d.phase, MetalPhase::Done(ComputeStatus::Completed));
}

#[test]
fn a_metal_dispatch_stops_at_its_first_refusal() {
    let acc = region_accum();
    let found = SamplerLookup::Decoded(sampler_descriptor());
    let refused = MetalStatus {
        fault: MetalFault::Execute,
        slug: "metal_command_buffer",
        field: None,
    };
    let refusal = ComputeStatus::MetalBackend(refused);
    let at_encode = || {
        let mut d = metal_at_samplers(&acc);
        d.sampler_found(&acc, &found);
        d.sampler_found(&acc, &found);
        d
    };
    let mut d = metal_at_samplers(&acc);
    d.sampler_found(&acc, &SamplerLookup::NoEntry);
    assert_eq!(
        d.phase,
        MetalPhase::Done(ComputeStatus::MissingSampler("compute_mtl_sampler_no_entry"))
    );
    // A texture that the backend has no format for.
    let mut d = metal_at_samplers(&acc);
    d.textures[2].storage_selector = None;
    d.sampler_found(&acc, &found);
    d.sampler_found(&acc, &found);
    assert_eq!(
        d.phase,
        MetalPhase::Done(ComputeStatus::Unsupported("metal_no_backend_selector"))
    );
    // The backend's own refusal.
    let mut d = at_encode();
    d.encoded(Err(refused));
    assert_eq!(d.phase, MetalPhase::Done(refusal));
    let mut d = at_encode();
    d.encoded(Ok(()));
    d.buffer_written(false);
    assert_eq!(
        d.phase,
        MetalPhase::Done(ComputeStatus::GuestIo("compute_wb_buf_task_gva_write"))
    );
    let mut d = at_encode();
    d.encoded(Ok(()));
    d.buffer_written(true);
    d.buffer_written(true);
    d.texture_written(Err(refusal));
    assert_eq!(d.phase, MetalPhase::Done(refusal));
    // On a shared encoder, the writes are owed.
    assert_eq!(
        at_encode().encoded_nested(Err(refused)).err(),
        Some(refusal)
    );
    let job = at_encode().encoded_nested(Ok(1)).unwrap();
    assert_eq!((job.staged_bufs.len(), job.storage_tex.len()), (2, 1));
    assert!(matches!(
        at_encode().encoded_nested(Ok(2)),
        Err(ComputeStatus::MetalFailed("compute_mtl_retain_image_count"))
    ));
    // A kernel without textures is not reflected.
    let mut bare = ComputeAccum::default();
    bare.set_pipeline(5);
    let loaded = LoadedComputePipeline {
        kernel_func_ref: 77,
        stage_input: None,
    };
    let mut d = execute_dispatch_metal(&bare);
    d.pipeline_loaded(Some(&loaded));
    d.container_loaded(true);
    d.geometry_read(&bare, &command(), None, &Ok(Vec::new()));
    assert_eq!(d.phase, MetalPhase::Encode);
    d.encoded(Ok(()));
    assert_eq!(d.phase, MetalPhase::Done(ComputeStatus::Completed));
    // A container that the backend cannot reflect.
    let mut unregioned = accum();
    unregioned.buffers.clear();
    let mut d = execute_dispatch_metal(&unregioned);
    d.pipeline_loaded(Some(&loaded));
    d.container_loaded(true);
    d.geometry_read(&unregioned, &command(), None, &Ok(Vec::new()));
    assert_eq!(d.phase, MetalPhase::Reflection);
    d.reflected(&unregioned, Err(refused));
    assert_eq!(d.phase, MetalPhase::Done(refusal));
    // Failed reads.
    let unread = ComputeStatus::GuestIo("compute_buf_window_read");
    let mut d = execute_dispatch_metal(&acc);
    d.pipeline_loaded(Some(&loaded));
    d.container_loaded(true);
    d.geometry_read(&acc, &command(), None, &Ok(Vec::new()));
    d.stage_in_read(&acc, &Err(unread));
    assert_eq!(d.phase, MetalPhase::Done(unread));
}

#[test]
fn ids_run_out_above_the_bound() {
    assert!(ids_left(&[1, 2, 3], usize::MAX));
    assert!(ids_left(&[0, 0, 0, u32::MAX - 4], 2));
    assert!(!ids_left(&[0, 0, 0, u32::MAX - 4], 3));
}

#[test]
fn a_handle_to_surface_zero_names_none() {
    let state = device();
    let handle = |surface_id| StageObject::Handle {
        surface_id,
        record: None,
    };
    assert_eq!(surface_to_ensure(5, &handle(Some(9))), Some(9));
    assert_eq!(surface_to_ensure(5, &handle(Some(0))), None);
    assert_eq!(
        choose_backing(5, &handle(Some(9)), None, &state.mappings),
        Ok(Backing::Surface {
            mapping_id: 9,
            reached: Reached::Handle(None),
        })
    );
    assert_eq!(
        choose_backing(5, &handle(Some(8)), None, &state.mappings),
        Err(ComputeStatus::MissingTexture("compute_stage_tex_type5_no_map"))
    );
    // Zero is no surface: the task's list goes on from there.
    for none in [Some(0), None] {
        assert_eq!(
            choose_backing(5, &handle(none), Some(9), &state.mappings),
            Ok(Backing::Surface {
                mapping_id: 9,
                reached: Reached::List,
            })
        );
        assert_eq!(
            choose_backing(5, &handle(none), None, &state.mappings),
            Ok(Backing::Linear)
        );
    }
}

#[test]
fn nested_jobs_flush_in_order() {
    let textures = || vec![surface_texture(34), sampled_texture(35)];
    let job = nested_job(vec![staged(0)], textures(), 1).ok().unwrap();
    assert_eq!(job.storage_tex, vec![surface_texture(34)]);
    assert_eq!(job.staged_bufs, vec![staged(0)]);
    assert_eq!(
        nested_job(vec![staged(0)], textures(), 2).err(),
        Some(ComputeStatus::MetalFailed("compute_mtl_retain_image_count"))
    );
    assert!(nested_job_from_icb_buffers(vec![staged(1)]).storage_tex.is_empty());
    let job = || nested_job(vec![staged(0), staged(1)], textures(), 1).ok().unwrap();
    assert_eq!(
        flush_nested_jobs(Vec::new()).phase,
        FlushPhase::Done(ComputeStatus::Completed)
    );
    let mut flush = flush_nested_jobs(vec![job(), nested_job_from_icb_buffers(vec![])]);
    assert_eq!(flush.phase, FlushPhase::ReadBack { job: 0 });
    flush.read_back(true);
    for index in 0..2 {
        assert_eq!(flush.phase, FlushPhase::BufferWrite { job: 0, index });
        flush.buffer_written(true);
    }
    assert_eq!(flush.phase, FlushPhase::TextureWrite { job: 0, index: 0 });
    flush.texture_written(Ok(()));
    assert_eq!(flush.phase, FlushPhase::ReadBack { job: 1 });
    flush.read_back(true);
    assert_eq!(flush.phase, FlushPhase::Done(ComputeStatus::Completed));
    // The first refusal ends it.
    let mut flush = flush_nested_jobs(vec![job(), job()]);
    flush.read_back(true);
    flush.buffer_written(false);
    assert_eq!(
        flush.phase,
        FlushPhase::Done(ComputeStatus::GuestIo("compute_wb_buf_task_gva_write"))
    );
    let mut flush = flush_nested_jobs(vec![job(), job()]);
    flush.read_back(true);
    flush.buffer_written(true);
    flush.buffer_written(true);
    flush.texture_written(Err(ComputeStatus::GuestIo("compute_wb_tex_type11_write")));
    assert_eq!(
        flush.phase,
        FlushPhase::Done(ComputeStatus::GuestIo("compute_wb_tex_type11_write"))
    );
    let mut flush = flush_nested_jobs(vec![job()]);
    flush.read_back(false);
    assert_eq!(
        flush.phase,
        FlushPhase::Done(ComputeStatus::MetalFailed("compute_nested_writeback_metal"))
    );
}

#[test]
fn every_record_changes_its_own_binds() {
    let mut acc = ComputeAccum::default();
    let mut cmd = ComputeCommand::default();
    let mut apply = |acc: &mut ComputeAccum, cmd: &ComputeCommand| {
        assert_eq!(apply_record(cmd, acc, false, false), Record::Applied);
    };
    cmd.kind = Kind::Pipeline;
    cmd.pipeline_ref = 4;
    apply(&mut acc, &cmd);
    cmd.kind = Kind::BufferBind;
    cmd.first = 2;
    cmd.buffers = vec![BufferBinding {
        ref_: 8,
        ..Default::default()
    }];
    apply(&mut acc, &cmd);
    cmd.kind = Kind::BufferOffsetAttributeStride;
    cmd.buffer_offset = 64;
    cmd.attribute_stride = 12;
    apply(&mut acc, &cmd);
    cmd.kind = Kind::TextureBind;
    cmd.textures = vec![RefBinding { ref_: 9 }];
    apply(&mut acc, &cmd);
    cmd.kind = Kind::DispatchType;
    cmd.dispatch_type = 1;
    apply(&mut acc, &cmd);
    cmd.kind = Kind::StageInRegion;
    cmd.stage_in_region = Region3 {
        origin: Size3 { x: 1, y: 2, z: 3 },
        size: Size3 { x: 4, y: 5, z: 6 },
    };
    apply(&mut acc, &cmd);
    cmd.kind = Kind::ThreadgroupMemory;
    cmd.threadgroup_memory_index = 3;
    cmd.threadgroup_memory_length = 256;
    apply(&mut acc, &cmd);
    cmd.kind = Kind::UpdateFence;
    apply(&mut acc, &cmd);
    assert_eq!(acc.pipeline_ref, 4);
    assert_eq!(
        acc.buffers,
        vec![ComputeBufferBind {
            index: 2,
            buffer_ref: 8,
            offset: 64,
            attribute_stride: 12,
            has_attribute_stride: true,
        }]
    );
    assert_eq!(
        acc.textures,
        vec![ComputeTextureBind {
            index: 2,
            texture_ref: 9
        }]
    );
    assert_eq!(acc.dispatch_type, 1);
    assert_eq!(
        acc.stage_in_region,
        Some(StageInRegion {
            origin_x: 1,
            origin_y: 2,
            origin_z: 3,
            size_x: 4,
            size_y: 5,
            size_z: 6,
        })
    );
    assert_eq!(acc.threadgroup_memory.len(), 1);
    cmd.kind = Kind::DispatchThreads;
    assert_eq!(apply_record(&cmd, &mut acc, false, false), Record::Dispatch);
    assert_eq!(
        apply_record(&cmd, &mut acc, true, false),
        Record::NestedDispatch
    );
    // The last bind of a slot is the one in force.
    acc.bind_textures(2, &[RefBinding { ref_: 10 }]);
    assert_eq!(acc.textures.len(), 1);
    assert_eq!(acc.textures[0].texture_ref, 10);
    // Binds that no slot holds are told.
    assert_eq!(overflowing_binds(29, &[1, 2, 3, 0, 5], 31), vec![(31, 3), (33, 5)]);
}

#[test]
fn dimensions_are_checked_one_by_one() {
    assert_eq!(u32_dim(7), Ok(7));
    assert!(matches!(u32_dim(0), Err(ComputeStatus::BadGrid(_))));
    assert!(matches!(u32_dim(1 << 32), Err(ComputeStatus::BadGrid(_))));
    let mut cmd = command();
    cmd.kind = Kind::DispatchThreadsIndirect;
    let raw: Vec<u8> = [9u32, 8, 1, 4, 4, 1].iter().flat_map(|v| v.to_le_bytes()).collect();
    let dims = resolve_dispatch_dims(&cmd, None, &Ok(raw)).unwrap();
    assert_eq!(workgroups(&dims), (3, 2, 1));
    let failed = Err(ComputeStatus::GuestIo("compute_buf_win_read"));
    assert_eq!(
        resolve_dispatch_dims(&cmd, None, &failed),
        Err(ComputeStatus::GuestIo("compute_buf_win_read"))
    );
    cmd.kind = Kind::Unknown;
    assert_eq!(
        resolve_dispatch_dims(&cmd, None, &failed),
        Err(ComputeStatus::Unsupported("resolve_dims_unknown_kind"))
    );
}

#[test]
fn phases_make_up_the_run() {
    let delta = CounterSnapshot {
        wait_us: 40,
        record_us: 10,
        ..Default::default()
    };
    let mut after = delta;
    after.wait_us = 55;
    assert_eq!(
        after.delta_since(&delta),
        CounterSnapshot {
            wait_us: 15,
            ..Default::default()
        }
    );
    let line = compute_engine_phase_fields(70, &delta);
    assert!(line.starts_with("engine_lock_wait_us=0 engine_context_us=0 "));
    assert!(line.contains(" engine_unattributed_us=20 "));
    assert!(line.ends_with(" engine_creates=0 engine_allocs=0"));
}

#[test]
fn display_sized_outputs_go_by_their_row_bytes() {
    let mut t = surface_texture(34);
    t.pixel_format = MTL_FORMAT_RGBA8_UNORM;
    t.width = 1280;
    t.height = 720;
    assert!(is_display_sized(&t));
    t.width = 320;
    assert!(!is_display_sized(&t));
    t.pixel_format = MTL_FORMAT_RGBA32_UINT;
    assert!(is_display_sized(&t));
    t.height = 719;
    assert!(!is_display_sized(&t));
}
