#![allow(
    clippy::field_reassign_with_default,
    reason = "wire fixtures are assembled field by field to keep each protocol case explicit"
)]

use reims_vgpu::compute_exec::accum::{MAX_COMPUTE_BUFFER_SLOTS, MAX_THREADGROUP_MEMORY_SLOTS};
use reims_vgpu::compute_exec::buffers::{
    BufferDescriptor, Lookup, load_compute_pipeline, plan_buffer, plan_buffer_window,
    read_buffer_window,
};
use reims_vgpu::compute_exec::command::{
    BufferBinding, ComputeCommand, Kind, RefBinding, SamplerBinding, Size3,
};
use reims_vgpu::compute_exec::dims::{
    TextureExtent, indirect_args_len, largest_bound_texture_dims, resolve_dispatch_dims,
    try_recover_sentinel_grid,
};
use reims_vgpu::compute_exec::dispatch::{Phase, execute_dispatch_nested};
use reims_vgpu::compute_exec::format::{
    MTL_FORMAT_R32_SINT, StorageImageFormat, StorageImageFormat as V, host_alloc_len,
    mtl_to_engine_sampled, specialized_storage_image_format, spirv_image_format_to_engine_storage,
    spirv_words_le, storage_selector,
};
use reims_vgpu::compute_exec::handoff::{
    HANDOFF_SUBDIR, HANDOFF_TEMPORARY, HandoffDir, m2v_handoff_dir_from_env,
};
use reims_vgpu::compute_exec::linear_cache::{LinearCache, LinearWindow};
use reims_vgpu::compute_exec::linear_texture::LinearDescriptor;
use reims_vgpu::compute_exec::metal_dispatch::{MetalPhase, execute_dispatch_metal};
use reims_vgpu::compute_exec::outputs::{
    compute_defer_readback_allowed, note_storage_residency_writeback, storage_residency_opportunity,
};
use reims_vgpu::compute_exec::phases::{CounterSnapshot, compute_engine_phase_fields};
use reims_vgpu::compute_exec::record::Record;
use reims_vgpu::compute_exec::stage::{StagePhase, stage_texture_raw};
use reims_vgpu::compute_exec::stride::{
    bulk_span_len, read_linear_texture_bulk, write_linear_texture_bulk,
};
use reims_vgpu::compute_exec::surface_texture::{StageObject, SurfacePlan, SurfaceViewRecord};
use reims_vgpu::compute_exec::texture::{
    BoundObject, ComputeStorageResidencyCandidate, EngineResidents, HeapDescriptor, HeapObject,
    StagedTexture, TextureWriteback,
};
use reims_vgpu::compute_exec::writeback::{
    WritebackStep, finish_writeback, linear_row_write, padded_row, writeback_texture,
};
use reims_vgpu::compute_exec::{
    ComputeAccum, ComputeBufferBind, ComputeSpirvDecline, ComputeStatus, MetalFault, MetalStatus,
    StageInRegion, apply_record, execute_dispatch,
};
use reims_vgpu::contract::{
    DevicePlane, DeviceSurface, MTL_FORMAT_BGRA8_UNORM, MTL_FORMAT_R8_UNORM, MTL_FORMAT_R32_FLOAT,
    MTL_FORMAT_R32_UINT, MTL_FORMAT_RGB9E5_FLOAT, MTL_FORMAT_RGBA8_UNORM, MTL_FORMAT_RGBA16_FLOAT,
    MTL_FORMAT_RGBA32_FLOAT, MTL_FORMAT_RGBA32_UINT, PAGE_ENTRY_PFN_SHIFT, PAGE_ENTRY_VALID,
    PAGE_SHIFT_ARM64E, PAGE_SHIFT_X86, bytes_per_pixel,
};
use reims_vgpu::fake_host::FakeHost;
use reims_vgpu::mapper::{ensure_resolved_for_scanout, read_mapping_bytes};
use reims_vgpu::model::{DeviceId, DeviceState};
use reims_vgpu::observe::FailLatch;
use reims_vgpu::residency::{ComputeStorageResidencyKey, Victims};
use reims_vgpu::spirv_bind::{ImageFormat as S};

#[test]
fn spirv_word_parser_splits_short_header_from_misalignment() {
    assert_eq!(
        spirv_words_le(&[0; 16]).unwrap_err(),
        ComputeSpirvDecline::HeaderTooShort {
            len: 16,
            minimum: 20
        }
    );
    assert_eq!(
        spirv_words_le(&[0; 21]).unwrap_err(),
        ComputeSpirvDecline::LengthMisaligned {
            len: 21,
            alignment: 4
        }
    );
    assert_eq!(spirv_words_le(&[0; 20]).unwrap().len(), 5);
}

#[test]
fn compute_spirv_declines_are_distinct_and_log_safe() {
    let declines = [
        ComputeSpirvDecline::HeaderTooShort {
            len: 16,
            minimum: 20,
        },
        ComputeSpirvDecline::LengthMisaligned {
            len: 21,
            alignment: 4,
        },
    ];
    assert_ne!(declines[0].slug(), declines[1].slug());
    for decline in declines {
        assert!(decline
            .slug()
            .bytes()
            .all(|byte| byte.is_ascii_lowercase() || byte == b'_'));
        for (_, value) in decline.fields() {
            assert!(!value.contains(char::is_whitespace));
        }
    }
}

#[test]
fn compute_defer_readback_follows_gpu_only_content_gate() {
    assert!(
        compute_defer_readback_allowed(true, true, true),
        "native Vulkan keeps the deferred storage-writeback rail"
    );
    assert!(
        !compute_defer_readback_allowed(false, true, true),
        "portability-subset storage output must write guest pages synchronously"
    );
    assert!(!compute_defer_readback_allowed(true, false, true));
    assert!(!compute_defer_readback_allowed(true, true, false));
}

/// The directory that a choice stands for.
fn directory(choice: HandoffDir<std::path::PathBuf>) -> std::path::PathBuf {
    match choice {
        HandoffDir::Explicit(dir) => dir,
        HandoffDir::RepoLocal(root) => root.join(HANDOFF_SUBDIR),
        HandoffDir::Temporary => std::path::PathBuf::from(HANDOFF_TEMPORARY),
    }
}

#[test]
fn m2v_handoff_dir_prefers_explicit_dir_then_repo_local_private_dir() {
    assert_eq!(
        directory(m2v_handoff_dir_from_env(Some("/custom/m2v".into()), Some("/repo".into()))),
        std::path::PathBuf::from("/custom/m2v")
    );
    assert_eq!(
        directory(m2v_handoff_dir_from_env(None, Some("/repo".into()))),
        std::path::PathBuf::from("/repo/m2v-handoff/artifacts")
    );
    assert_eq!(
        directory(m2v_handoff_dir_from_env(None, None)),
        std::path::PathBuf::from("/tmp/reims-vgpu-m2v-compute-fails")
    );
}

#[test]
fn compute_bind_overflow_drops_the_bind_but_keeps_in_cap_and_unbinds() {
    let mut acc = ComputeAccum::default();
    // In-cap buffer bind (ref != 0) is kept.
    acc.bind_buffers(
        5,
        &[BufferBinding {
            ref_: 7,
            ..Default::default()
        }],
    );
    assert_eq!(acc.buffers.len(), 1);
    assert_eq!(acc.buffers[0].index, 5);

    // Over-cap buffer bind (index 40 > MAX_COMPUTE_BUFFER_SLOTS) is dropped: no
    // new buffer slot appears.
    acc.bind_buffers(
        MAX_COMPUTE_BUFFER_SLOTS + 9,
        &[BufferBinding {
            ref_: 9,
            ..Default::default()
        }],
    );
    assert_eq!(acc.buffers.len(), 1, "over-cap bind must not be stored");

    // Boundary: index == MAX is OUT of range (the backend sizes its arg-table
    // array to MAX and guards `idx >= MAX`), so it must be dropped too. Slot
    // MAX-1 is the last valid slot and is kept.
    acc.bind_buffers(
        MAX_COMPUTE_BUFFER_SLOTS,
        &[BufferBinding {
            ref_: 11,
            ..Default::default()
        }],
    );
    assert_eq!(
        acc.buffers.len(),
        1,
        "index == MAX is out of range, dropped"
    );
    acc.bind_buffers(
        MAX_COMPUTE_BUFFER_SLOTS - 1,
        &[BufferBinding {
            ref_: 12,
            ..Default::default()
        }],
    );
    assert_eq!(
        acc.buffers.len(),
        2,
        "index == MAX-1 is the last valid slot"
    );

    // A zero-ref entry is an unbind: expected control flow, silently skipped.
    acc.bind_buffers(
        6,
        &[BufferBinding {
            ref_: 0,
            ..Default::default()
        }],
    );
    assert_eq!(acc.buffers.len(), 2, "unbind (ref==0) adds no slot");

    // Threadgroup memory over-cap with a real length is dropped (kept empty);
    // a zero-length over-cap request is an unbind and stays silent.
    acc.set_threadgroup_memory(MAX_THREADGROUP_MEMORY_SLOTS + 2, 256);
    acc.set_threadgroup_memory(MAX_THREADGROUP_MEMORY_SLOTS + 3, 0);
    assert!(
        acc.threadgroup_memory.is_empty(),
        "over-cap threadgroup memory must not be stored"
    );
}

#[test]
fn accum_pipeline_buffer_texture_sampler() {
    let mut acc = ComputeAccum::default();
    acc.set_pipeline(9);
    acc.bind_buffers(
        1,
        &[BufferBinding {
            ref_: 3,
            offset: 16,
            attribute_stride: 0,
            has_attribute_stride: false,
        }],
    );
    acc.bind_textures(0, &[RefBinding { ref_: 10 }, RefBinding { ref_: 11 }]);
    acc.bind_samplers(
        0,
        &[SamplerBinding {
            ref_: 20,
            lod_min_bits: 0,
            lod_max_bits: 0,
            has_lod_clamp: false,
        }],
    );
    assert_eq!(acc.pipeline_ref, 9);
    assert_eq!(acc.buffers.len(), 1);
    assert_eq!(acc.textures.len(), 2);
    assert_eq!(acc.textures[1].texture_ref, 11);
    assert_eq!(acc.samplers[0].sampler_ref, 20);
}

#[test]
fn accum_stage_in_tg_imageblock_and_control_fail_closed() {
    let mut acc = ComputeAccum::default();
    acc.set_stage_in_region(StageInRegion {
        origin_x: 1,
        origin_y: 2,
        origin_z: 0,
        size_x: 8,
        size_y: 4,
        size_z: 1,
    });
    assert!(acc.stage_in_region.is_some());
    acc.set_stage_in_region_indirect(3, 16);
    assert!(acc.stage_in_region.is_none());
    assert_eq!(
        acc.stage_in_region_indirect.as_ref().map(|i| i.buffer_ref),
        Some(3)
    );
    acc.set_threadgroup_memory(2, 256);
    acc.set_threadgroup_memory(2, 512);
    assert_eq!(acc.threadgroup_memory.len(), 1);
    assert_eq!(acc.threadgroup_memory[0].length, 512);
    acc.set_imageblock(4, 4);
    assert_eq!(acc.imageblock.as_ref().map(|d| d.width), Some(4));

    let before = acc.clone();
    let mut cmd = ComputeCommand::default();
    // Control flow and command buffers of commands leave the binds alone and go to
    // the segment's sequencing.
    cmd.kind = Kind::ControlStartDoWhile;
    assert_eq!(
        apply_record(&cmd, &mut acc, false, false),
        Record::Sequence
    );
    cmd.kind = Kind::ExecuteCommandsInBuffer;
    cmd.indirect_command_buffer_ref = 99;
    assert_eq!(
        apply_record(&cmd, &mut acc, false, false),
        Record::Sequence
    );
    assert_eq!(acc, before);
    // Once sequencing failed, no dispatch of the segment runs.
    cmd.kind = Kind::DispatchThreadgroups;
    assert_eq!(
        apply_record(&cmd, &mut acc, true, true),
        Record::Refused(ComputeStatus::Unsupported("dispatch_in_sequencing_block"))
    );
}

#[test]
fn resolve_indirect_threadgroups_from_buffer() {
    let args = [2u32, 3, 1];
    let arg_bytes: Vec<u8> = args.iter().flat_map(|v| v.to_le_bytes()).collect();
    // Buffer 7: twelve bytes at page 5 of the task.
    let buffer = Lookup::Decoded(BufferDescriptor {
        allocation_size: 12,
        handle64: 5,
        handle: 5,
    });
    let mut cmd = ComputeCommand::default();
    cmd.kind = Kind::DispatchThreadgroupsIndirect;
    cmd.indirect_buffer_ref = 7;
    cmd.indirect_buffer_offset = 0;
    cmd.threads_per_threadgroup = Size3 { x: 8, y: 1, z: 1 };
    let len = indirect_args_len(cmd.kind).unwrap();
    let gva = plan_buffer_window(
        cmd.indirect_buffer_ref,
        &buffer,
        PAGE_SHIFT_ARM64E,
        cmd.indirect_buffer_offset,
        len,
    );
    assert_eq!(gva, Ok(5u64 << PAGE_SHIFT_ARM64E));
    let raw = read_buffer_window(Some(arg_bytes));
    let dims = resolve_dispatch_dims(&cmd, None, &raw).unwrap();
    assert_eq!(
        (
            dims.grid_x,
            dims.grid_y,
            dims.grid_z,
            dims.tg_x,
            dims.tg_y,
            dims.tg_z,
            dims.threads
        ),
        (2, 3, 1, 8, 1, 1, false)
    );
}

#[test]
fn sentinel_grid_recovers_from_largest_texture() {
    // Wire: grid=[45, UINT64_MAX, 1], tg=[32, 0, 1] → recover for 1440×1080.
    let mut cmd = ComputeCommand::default();
    cmd.kind = Kind::DispatchThreadgroups;
    cmd.grid = Size3 {
        x: 45,
        y: u64::MAX,
        z: 1,
    };
    cmd.threads_per_threadgroup = Size3 { x: 32, y: 0, z: 1 };
    // Without a texture there is no target to recover from.
    let target = largest_bound_texture_dims(&[]);
    assert!(try_recover_sentinel_grid(&cmd, target).is_none());
    // With the display bound, the grid covers it.
    let target = largest_bound_texture_dims(&[TextureExtent {
        mapping: Some((1440, 1080)),
        linear: None,
    }]);
    let dims = try_recover_sentinel_grid(&cmd, target).unwrap();
    assert_eq!((dims.grid_x, dims.tg_x), (45, 32));
    assert!(dims.grid_y as u64 * dims.tg_y as u64 >= 1080);
    assert_eq!((dims.grid_z, dims.tg_z), (1, 1));
}

#[test]
fn a_compute_refusal_names_its_check_and_ok_names_nothing() {
    assert!(ComputeStatus::Completed.refusal().is_none());
    assert!(
        ComputeStatus::Completed.emit("compute_record").is_none(),
        "a success must not be loggable"
    );

    let st = ComputeStatus::MissingTexture("compute_stage_tex_type5_no_map");
    assert_eq!(st.refusal(), Some("compute_stage_tex_type5_no_map"));
    assert_eq!(st.class(), "missing_texture");
    let line = st
        .emit("compute_record")
        .expect("a refusal renders a line")
        .field("pipe", 7)
        .render();
    assert_eq!(
        line,
        "compute_record reason=compute_stage_tex_type5_no_map \
             class=missing_texture pipe=7"
    );

    let st = ComputeStatus::MetalBackend(MetalStatus {
        fault: MetalFault::Args,
        slug: "metal_compute_reflection_usage_output_missing",
        field: Some(("capacity", 8)),
    });
    assert_eq!(st.class(), "metal_args");
    assert_eq!(
        st.emit("compute_record")
            .expect("the exact Metal refusal must survive the runtime carrier")
            .render(),
        "compute_record reason=metal_compute_reflection_usage_output_missing \
             class=args capacity=8 recovery=metal_failed"
    );
}

/// Two different buffer-staging checks, two different slugs. A reference of zero
/// never resolves, so both paths refuse on their first gate.
#[test]
fn the_buffer_paths_refuse_under_their_own_names() {
    let missing: Lookup<BufferDescriptor> = Lookup::NoEntry;
    let window = plan_buffer_window(0, &missing, PAGE_SHIFT_ARM64E, 0, 4);
    assert_eq!(
        window.err().and_then(|e| e.refusal()),
        Some("compute_buf_win_no_backing")
    );

    let bind = ComputeBufferBind {
        index: 0,
        buffer_ref: 0,
        offset: 0,
        attribute_stride: 0,
        has_attribute_stride: false,
    };
    let staged = plan_buffer(&bind, &missing, PAGE_SHIFT_ARM64E);
    assert_eq!(
        staged.err().and_then(|e| e.refusal()),
        Some("compute_stage_buf_no_entry")
    );
}

/// Callers must pass page_shift explicitly; 12 and 14 place handle differently.
#[test]
fn buffer_backing_gva_requires_explicit_page_shift() {
    let d = BufferDescriptor {
        allocation_size: 0x1000,
        handle64: 0x101,
        handle: 0x101,
    };
    let (gva12, _) = d.backing_gva_size(PAGE_SHIFT_X86).expect("12");
    let (gva14, _) = d.backing_gva_size(PAGE_SHIFT_ARM64E).expect("14");
    assert_eq!(gva12, 0x101000, "x86 handle<<12");
    assert_eq!(gva14, 0x404000, "arm handle<<14");
    assert_ne!(gva12, gva14);
}

/// Run a dispatch up to its pipeline, which the task does not have.
fn dispatch_without_pipeline_object(acc: &ComputeAccum) -> ComputeStatus {
    let mut dispatch = execute_dispatch(acc);
    if dispatch.phase == Phase::Pipeline {
        let loaded = load_compute_pipeline(acc.pipeline_ref, Lookup::NoEntry);
        dispatch.pipeline_loaded(acc, loaded.as_ref().ok());
    }
    match dispatch.phase {
        Phase::Done(st) => st,
        other => panic!("expected an end, got {other:?}"),
    }
}

#[test]
fn dispatch_missing_pipeline() {
    let acc = ComputeAccum::default();
    let st = dispatch_without_pipeline_object(&acc);
    // The slug names *which* pipeline check refused, and it differs by backend.
    assert_eq!(
        st,
        ComputeStatus::MissingPipeline("compute_vk_pipeline_ref_zero")
    );
    assert_eq!(
        execute_dispatch_metal(&acc).phase,
        MetalPhase::Done(ComputeStatus::MissingPipeline("compute_mtl_pipeline_ref_zero"))
    );
}

#[test]
fn dispatch_nometal_with_texture_binds() {
    let mut acc = ComputeAccum::default();
    acc.set_pipeline(42);
    acc.bind_textures(0, &[RefBinding { ref_: 111 }]);
    acc.bind_buffers(
        0,
        &[BufferBinding {
            ref_: 7,
            offset: 0,
            attribute_stride: 0,
            has_attribute_stride: false,
        }],
    );
    let st = dispatch_without_pipeline_object(&acc);
    assert!(
        matches!(
            st,
            ComputeStatus::MissingPipeline(_)
                | ComputeStatus::MissingMtlb(_)
                | ComputeStatus::MissingTexture(_)
                | ComputeStatus::MetalFailed(_)
                | ComputeStatus::Unsupported(_)
        ),
        "vulkan path attempts encode, got {st:?}"
    );
    // Nested dispatches have no path there.
    let st2 = execute_dispatch_nested();
    assert_eq!(st2, ComputeStatus::NoMetal("compute_nested_no_vulkan_path"));
}

#[test]
fn dispatch_missing_pipeline_not_nometal() {
    let acc = ComputeAccum::default();
    let st = dispatch_without_pipeline_object(&acc);
    assert_eq!(
        st,
        ComputeStatus::MissingPipeline("compute_vk_pipeline_ref_zero")
    );
}

#[test]
fn dispatch_missing_texture_fails() {
    // Pipeline without function still fails earlier; bind texture only.
    let mut acc = ComputeAccum::default();
    acc.set_pipeline(1);
    acc.bind_textures(0, &[RefBinding { ref_: 99 }]);
    // Missing pipeline object → MissingPipeline before texture stage.
    let st = dispatch_without_pipeline_object(&acc);
    assert!(matches!(
        st,
        ComputeStatus::MissingPipeline(_)
            | ComputeStatus::MissingTexture(_)
            | ComputeStatus::MetalFailed(_)
            | ComputeStatus::NoMetal(_)
    ));
}

/// What a task's objects are, as far as a texture bind goes.
struct Objects {
    bound: BoundObject,
    base: StageObject,
    listed: Option<u32>,
    linear: Lookup<LinearDescriptor>,
}

/// Read a surface's window in tight rows.
fn read_window(
    state: &mut DeviceState,
    host: &mut FakeHost,
    plan: &SurfacePlan,
) -> Option<Vec<u8>> {
    let mut out = Vec::new();
    for y in 0..plan.height as u64 {
        let mut row = vec![0u8; plan.tight as usize];
        let off = plan.window.offset + y * plan.window.bytes_per_row as u64;
        if !read_mapping_bytes(
            state,
            host,
            &mut FailLatch::new(),
            plan.mapping_id,
            off,
            &mut row,
        ) {
            return None;
        }
        out.extend_from_slice(&row);
    }
    Some(out)
}

/// Stage a texture of task 1 with nothing resident in the engine.
fn stage(
    state: &mut DeviceState,
    host: &mut FakeHost,
    objects: &Objects,
    texture_ref: u32,
    binding: u32,
    is_storage: bool,
) -> Result<StagedTexture, ComputeStatus> {
    let none = EngineResidents { windows: Vec::new() };
    let mut cache = LinearCache::new();
    let mut stage = stage_texture_raw(1, texture_ref, binding, is_storage);
    loop {
        match &stage.phase {
            StagePhase::Object => {
                stage.object_found(&objects.bound, &state.compute_storage_residency, &none)
            }
            StagePhase::Base(_) => stage.base_found(objects.base),
            StagePhase::Backing { .. } => stage.backing_found(objects.listed, &state.mappings),
            StagePhase::Mapping { mapping_id, .. } => {
                let id = *mapping_id;
                ensure_resolved_for_scanout(state, host, &mut FailLatch::new(), id);
                let shift = state.page_shift;
                stage.mapping_ready(
                    state.mappings.get(&id),
                    None,
                    shift,
                    &state.compute_storage_residency,
                    &none,
                )
            }
            StagePhase::SurfaceRead(plan) => {
                let plan = *plan;
                let read = read_window(state, host, &plan);
                stage.surface_read(read)
            }
            StagePhase::Linear(_) => stage.linear_found(&objects.linear, &cache, &none),
            StagePhase::LinearFlush { .. } => stage.linear_flushed(&mut cache),
            StagePhase::LinearRead(_) => stage.linear_read(
                Err(ComputeStatus::GuestIo("compute_stage_tex_linear_row_read")),
                &cache,
            ),
            StagePhase::Done(_) => return stage.finish().unwrap(),
        }
    }
}

/// A handle to surface `sid`, with the record of a view where one is given.
fn handle(sid: u32, record: Option<SurfaceViewRecord>) -> Objects {
    Objects {
        bound: BoundObject::Plain,
        base: StageObject::Handle {
            surface_id: Some(sid),
            record,
        },
        listed: None,
        linear: Lookup::NoEntry,
    }
}

/// Surface `sid` on one page of `fill`.
fn map_filled(state: &mut DeviceState, host: &mut FakeHost, sid: u32, pfn: u32, fill: u8) {
    let gpa = (pfn as u64) << PAGE_SHIFT_ARM64E;
    host.map_range(gpa, 0x4000, fill);
    let entry = (pfn << PAGE_ENTRY_PFN_SHIFT) | PAGE_ENTRY_VALID;
    assert!(state.map_surface(sid));
    let m = state.mappings.get_mut(&sid).unwrap();
    m.mapped = true;
    m.mapping_internal = 1;
    m.page_entries = vec![entry];
}

/// A handle to a surface stages the mapped surface that it names.
#[test]
fn stage_texture_type5_ref_resolves_surface_mapping() {
    let mut state = DeviceState::new(DeviceId(1), PAGE_SHIFT_ARM64E);
    let mut host = FakeHost::new();
    let sid = 3u32;
    let type5_ref = 10u32;
    map_filled(&mut state, &mut host, sid, 0x20, 0x5a);
    assert!(state.set_mapping_geom(sid, 4, 4, MTL_FORMAT_BGRA8_UNORM));

    let staged = stage(&mut state, &mut host, &handle(sid, None), type5_ref, 32, true)
        .expect("type-5→surface stage must succeed after ensure");
    assert_eq!((staged.width, staged.height), (4, 4));
    assert_eq!(staged.bytes.len(), 4 * 4 * 4);
    assert!(matches!(
        staged.writeback,
        TextureWriteback::Type11 { mapping_id: 3, .. }
    ));
}

/// A handle's record is the exact view, even when its single-plane backing already
/// has valid base geometry: rows of BGRA8 texels exposed as fewer RGBA32Uint ones.
#[test]
fn stage_texture_type5_record_reshapes_stageable_single_plane_surface() {
    let mut state = DeviceState::new(DeviceId(1), PAGE_SHIFT_ARM64E);
    let mut host = FakeHost::new();
    let sid = 3u32;
    let type5_ref = 10u32;
    map_filled(&mut state, &mut host, sid, 0x20, 0x5a);
    assert!(state.set_mapping_geom(sid, 4, 4, MTL_FORMAT_BGRA8_UNORM));

    // Same 16 bytes per logical row: 4 BGRA8 texels = one RGBA32Uint texel.
    let view = SurfaceViewRecord {
        width: 1,
        height: 4,
        pixel_format: MTL_FORMAT_RGBA32_UINT,
    };
    let staged = stage(&mut state, &mut host, &handle(sid, Some(view)), type5_ref, 33, true)
        .expect("serialized type-5 view must override base surface geometry");
    assert_eq!((staged.width, staged.height), (1, 4));
    assert_eq!(staged.storage_selector, Some(StorageImageFormat::Rgba32Uint));
    assert_eq!(staged.bytes.len(), 4 * 16);
    assert!(staged.bytes.iter().all(|&b| b == 0x5a));
    match staged.writeback {
        TextureWriteback::Type11 {
            mapping_id,
            surface_bpr,
            width,
            height,
            bpp,
            ..
        } => {
            assert_eq!(mapping_id, sid);
            assert_eq!(surface_bpr, 128);
            assert_eq!((width, height, bpp), (1, 4, 16));
        }
        _ => panic!("expected Type11 writeback through the texture view"),
    }

    // A sampled R32Uint view retains its exact format and geometry. The storage
    // format is known too, but only a storage bind goes by it.
    let view = SurfaceViewRecord {
        width: 4,
        height: 4,
        pixel_format: MTL_FORMAT_R32_UINT,
    };
    let sampled = stage(&mut state, &mut host, &handle(sid, Some(view)), type5_ref, 32, false)
        .expect("sample-only R32Uint view must stage from the same IOSurface bytes");
    assert_eq!((sampled.width, sampled.height), (4, 4));
    assert_eq!(sampled.pixel_format, MTL_FORMAT_R32_UINT);
    assert_eq!(sampled.storage_selector, Some(StorageImageFormat::R32Uint));
    assert_eq!(sampled.bytes.len(), 4 * 4 * 4);
    assert!(matches!(sampled.writeback, TextureWriteback::Nowhere));
}

/// Two planes: Y 16×8 R8 at stride 64, UV 8×4 RG8 behind it.
fn biplanar() -> DeviceSurface {
    DeviceSurface {
        alloc_size: 0x4000,
        width: 16,
        height: 8,
        pixel_format: 0,
        bytes_per_row: 0,
        planes: vec![
            DevicePlane {
                width: 16,
                height: 8,
                bytes_per_element: 1,
                offset: 0,
                bytes_per_row: 64,
            },
            DevicePlane {
                width: 8,
                height: 4,
                bytes_per_element: 2,
                offset: 512,
                bytes_per_row: 64,
            },
        ],
    }
}

/// A biplanar surface and a record of one plane: the named plane is staged.
#[test]
fn stage_texture_type5_record_stages_biplanar_y_plane() {
    let mut state = DeviceState::new(DeviceId(1), PAGE_SHIFT_ARM64E);
    let mut host = FakeHost::new();
    let sid = 3u32;
    let type5_ref = 10u32;
    map_filled(&mut state, &mut host, sid, 0x20, 0x77);
    {
        let m = state.mappings.get_mut(&sid).unwrap();
        m.device = Some(biplanar());
        m.has_geom = true;
        m.width = 16;
        m.height = 8;
        m.format = 0; // surface-level FourCC has no single MTL format
    }
    let record = SurfaceViewRecord {
        width: 16,
        height: 8,
        pixel_format: MTL_FORMAT_R8_UNORM,
    };
    let objects = handle(sid, Some(record));
    let staged = stage(&mut state, &mut host, &objects, type5_ref, 32, true)
        .expect("plane record must stage the Y plane of a biplanar surface");
    assert_eq!((staged.width, staged.height), (16, 8));
    assert_eq!(staged.storage_selector, Some(StorageImageFormat::R8Unorm));
    assert_eq!(staged.bytes.len(), 16 * 8);
    assert!(staged.bytes.iter().all(|&b| b == 0x77));
    match staged.writeback {
        TextureWriteback::Type11 {
            mapping_id,
            surface_offset,
            surface_bpr,
            ..
        } => {
            assert_eq!(mapping_id, sid);
            assert_eq!(surface_offset, 0);
            assert_eq!(surface_bpr, 64);
        }
        _ => panic!("expected Type11 writeback"),
    }
    let sampled = stage(&mut state, &mut host, &objects, type5_ref, 32, false)
        .expect("sampled type-5 plane must stage without writeback");
    assert!(!sampled.is_storage);
    assert!(matches!(sampled.writeback, TextureWriteback::Nowhere));
}

/// A biplanar surface **without** a plane record fails closed: no BGRA is invented
/// over multi-plane bytes.
#[test]
fn stage_texture_type5_multiplanar_without_record_fails_closed() {
    let mut state = DeviceState::new(DeviceId(1), PAGE_SHIFT_ARM64E);
    let mut host = FakeHost::new();
    let sid = 3u32;
    let type5_ref = 10u32;
    map_filled(&mut state, &mut host, sid, 0x20, 0x5a);
    {
        let m = state.mappings.get_mut(&sid).unwrap();
        m.device = Some(biplanar());
        m.has_geom = true;
        m.width = 16;
        m.height = 8;
        m.format = 0;
    }
    match stage(&mut state, &mut host, &handle(sid, None), type5_ref, 32, true) {
        Err(ComputeStatus::Unsupported(_)) => {}
        Err(other) => panic!("expected Unsupported, got {other:?}"),
        Ok(_) => panic!("multiplanar without plane record must fail closed"),
    }
}

/// A linear texture whose reference equals the id of a mapped surface is never
/// taken for that surface: it goes by its own descriptor, which is bad here.
#[test]
fn stage_texture_linear_ref_does_not_collide_with_surface_mid() {
    let mut state = DeviceState::new(DeviceId(1), PAGE_SHIFT_ARM64E);
    let mut host = FakeHost::new();
    // Surface mid 7 exists with full geometry + a mapped page.
    let colliding_mid = 7u32;
    map_filled(&mut state, &mut host, colliding_mid, 0x20, 0x33);
    assert!(state.set_mapping_geom(colliding_mid, 4, 4, MTL_FORMAT_BGRA8_UNORM));

    let objects = Objects {
        bound: BoundObject::Plain,
        base: StageObject::Linear,
        listed: Some(colliding_mid),
        linear: Lookup::Undecoded,
    };
    // Must fail linear (bogus desc), NOT succeed against surface mid 7.
    if let Ok(s) = stage(&mut state, &mut host, &objects, colliding_mid, 32, true) {
        panic!(
            "linear ref must not stage collided surface mid ({}x{})",
            s.width, s.height
        )
    }
}

#[test]
fn stage_heap_texture_uses_host_only_residency_identity() {
    let mut state = DeviceState::new(DeviceId(1), PAGE_SHIFT_ARM64E);
    let mut host = FakeHost::new();
    let texture_ref = 20u32;
    let heap_ref = 19u32;
    // 2D, RGBA32Float, 180x135x1, one mip/sample/array element.
    let objects = Objects {
        bound: BoundObject::Heap(HeapObject {
            whole: true,
            heap_ref,
            use_offset: 1,
            offset: 0,
            descriptor: Some(HeapDescriptor {
                texture_type: 2,
                width: 180,
                height: 135,
                depth: 1,
                mipmap_level_count: 1,
                sample_count: 1,
                array_length: 1,
                pixel_format: MTL_FORMAT_RGBA32_FLOAT,
            }),
        }),
        base: StageObject::Absent,
        listed: None,
        linear: Lookup::NoEntry,
    };
    let staged = stage(&mut state, &mut host, &objects, texture_ref, 33, true)
        .expect("live opcode-0x15 heap texture must stage");
    assert_eq!((staged.width, staged.height), (180, 135));
    assert_eq!(staged.pixel_format, MTL_FORMAT_RGBA32_FLOAT);
    assert_eq!(staged.storage_selector, Some(StorageImageFormat::Rgba32Float));
    assert_eq!(staged.bytes.len(), 180 * 135 * 16);
    assert!(matches!(staged.writeback, TextureWriteback::Nowhere));
    let residency = staged.residency.expect("heap texture needs GPU residency");
    assert!(residency.key.is_heap());
    assert!(!residency.key.is_linear());
    assert_eq!(residency.key.map_generation, 1);
    assert_eq!(residency.key.texture_ref, texture_ref);
    assert_eq!(residency.seed_generation, 0);
}

/// Unmapping removes the guest's alias, not the texture: a writeback retains the raw
/// output, mirrors normalized color for render sampling, and completes without a
/// write into freed guest pages.
#[test]
fn linear_writeback_retains_cache_when_guest_gva_is_unmapped() {
    let mut state = DeviceState::new(DeviceId(1), PAGE_SHIFT_X86);
    let mut cache = LinearCache::new();
    let task_id = 6u32;
    let texture_ref = 11u32;
    let gva = 0x101000u64;
    // An unrelated live span makes the bound audit authoritative; the texture
    // range itself is intentionally outside it.
    state.note_task_map(task_id, 0x200000, 0x1000);
    let rgba = vec![1, 2, 3, 4, 5, 6, 7, 8, 9, 10, 11, 12, 13, 14, 15, 16];
    let staged = StagedTexture {
        binding: 32,
        pixel_format: MTL_FORMAT_RGBA8_UNORM,
        storage_selector: Some(StorageImageFormat::Rgba8Unorm),
        width: 2,
        height: 2,
        bytes: rgba.clone(),
        is_storage: true,
        residency: None,
        seed_skipped: false,
        sample_resident: None,
        writeback: TextureWriteback::Linear {
            texture_ref,
            gva,
            pixel_format: MTL_FORMAT_RGBA8_UNORM,
            row_stride: 8,
            width: 2,
            height: 2,
            bpp: 4,
        },
    };

    let step = writeback_texture(&state, &mut cache, task_id, &staged);
    assert_eq!(step, Ok(WritebackStep::Done));
    assert_eq!(finish_writeback(&WritebackStep::Done, false), Ok(()));
    let window = LinearWindow {
        gva,
        pixel_format: MTL_FORMAT_RGBA8_UNORM,
        width: 2,
        height: 2,
        row_stride: 8,
    };
    assert_eq!(
        cache.get_linear_texture(task_id, texture_ref, &window),
        Some(&rgba)
    );
    assert_eq!(
        &cache.get_texture(texture_ref, 2, 2).unwrap()[..4],
        &[3, 2, 1, 4],
        "RGBA compute output mirrors into the BGRA render-sample cache"
    );
}

/// The guest's size is authoritative: a full-screen wide-gamut image must be
/// host-addressable, not rejected by an arbitrary cap.
#[test]
fn compute_stage_admits_full_screen_wide_gamut_without_cap() {
    let bpp = bytes_per_pixel(MTL_FORMAT_RGBA16_FLOAT).expect("rgba16f bpp") as u64;
    let need = 1928u64 * 1920 * bpp;
    assert!(
        host_alloc_len(need).is_some(),
        "full-screen RGBA16Float ({need} bytes) must be host-addressable"
    );
}

/// A handle's surface id is not looked up in the task's list, whose slot of the same
/// number may be another object.
#[test]
fn stage_texture_type5_ignores_task_object_list_slot_collision() {
    let mut state = DeviceState::new(DeviceId(1), PAGE_SHIFT_ARM64E);
    let mut host = FakeHost::new();
    let sid = 3u32;
    let type5_ref = 10u32;
    map_filled(&mut state, &mut host, sid, 0x21, 0xa5);
    assert!(state.set_mapping_geom(sid, 4, 4, MTL_FORMAT_BGRA8_UNORM));
    // Poison: the list's slot resolves to mapping 99, which is not mapped.
    let mut objects = handle(sid, None);
    objects.listed = Some(99);
    let staged = stage(&mut state, &mut host, &objects, type5_ref, 32, true)
        .expect("type-5 must stage mapping sid, not poisoned type-11 slot");
    assert_eq!((staged.width, staged.height), (4, 4));
    assert!(matches!(
        staged.writeback,
        TextureWriteback::Type11 { mapping_id: 3, .. }
    ));
}

/// A handle whose surface never maps is missing; it does not fall through to a
/// linear texture.
#[test]
fn stage_texture_type5_without_surface_is_missing() {
    let mut state = DeviceState::new(DeviceId(1), PAGE_SHIFT_ARM64E);
    let mut host = FakeHost::new();
    let type5_ref = 11u32;
    let sid = 99u32; // no mapping
    let st = stage(&mut state, &mut host, &handle(sid, None), type5_ref, 32, false);
    assert!(matches!(st, Err(ComputeStatus::MissingTexture(_))));
}

#[test]
fn compute_engine_phase_proxy_names_every_measured_boundary() {
    let delta = CounterSnapshot {
        lock_wait_us: 1,
        context_us: 2,
        pool_init_us: 3,
        cache_us: 4,
        shader_create_us: 5,
        layout_create_us: 6,
        pipeline_create_us: 7,
        sampler_create_us: 8,
        resource_us: 20,
        sampler_prepare_us: 1,
        storage_prepare_us: 2,
        sampled_prepare_us: 3,
        storage_image_prepare_us: 4,
        descriptor_prepare_us: 5,
        memory_alloc_us: 9,
        pre_record_wait_us: 5,
        record_us: 11,
        submit_us: 12,
        wait_us: 13,
        readback_us: 14,
        cleanup_us: 10,
        readbacks: 2,
        readback_bytes: 4096,
        compute_sampled_uploads: 3,
        compute_sampled_upload_bytes: 8192,
        compute_sampled_resident_copies: 5,
        compute_sampled_resident_copy_bytes: 32768,
        compute_storage_seed_uploads: 1,
        compute_storage_seed_upload_bytes: 16384,
        creates: 3,
        allocs: 4,
        ..Default::default()
    };
    let line = compute_engine_phase_fields(100, &delta);
    for field in [
        "engine_lock_wait_us=1",
        "engine_context_us=2",
        "engine_pool_init_us=3",
        "engine_cache_us=4",
        "engine_shader_create_us=5",
        "engine_layout_create_us=6",
        "engine_pipeline_create_us=7",
        "engine_sampler_create_us=8",
        "engine_resource_us=20",
        "engine_resource_unattributed_us=5",
        "engine_sampler_prepare_us=1",
        "engine_storage_buffer_prepare_us=2",
        "engine_sampled_image_prepare_us=3",
        "engine_storage_image_prepare_us=4",
        "engine_descriptor_prepare_us=5",
        "engine_memory_alloc_us=9",
        "engine_pre_record_wait_us=5",
        "engine_record_us=11",
        "engine_submit_us=12",
        "engine_wait_us=13",
        "engine_readback_us=14",
        "engine_cleanup_us=10",
        "engine_unattributed_us=5",
        "engine_readbacks=2",
        "engine_readback_bytes=4096",
        "engine_sampled_uploads=3",
        "engine_sampled_upload_bytes=8192",
        "engine_sampled_resident_copies=5",
        "engine_sampled_resident_copy_bytes=32768",
        "engine_storage_seed_uploads=1",
        "engine_storage_seed_upload_bytes=16384",
        "engine_creates=3",
        "engine_allocs=4",
    ] {
        assert!(line.contains(field), "missing {field}: {line}");
    }
}

/// What residency could save on one texture.
fn opportunity(state: &DeviceState, texture: &StagedTexture) -> (usize, usize, u64, u64) {
    let found = storage_residency_opportunity(state, &vec![texture.clone()]);
    (
        found.eligible,
        found.hits,
        found.eligible_bytes,
        found.hit_bytes,
    )
}

#[test]
fn storage_residency_proxy_requires_exact_view_and_generation() {
    let mut state = DeviceState::new(DeviceId(1), PAGE_SHIFT_X86);
    state.map_surface(9);
    state.mappings.get_mut(&9).unwrap().content_generation = 4;
    let key = ComputeStorageResidencyKey {
        mapping_id: 9,
        map_generation: state.mappings.get(&9).unwrap().map_generation,
        surface_offset: 64,
        surface_bpr: 32,
        span_end: 128,
        width: 4,
        height: 2,
        pixel_format: MTL_FORMAT_RGBA8_UNORM,
        texture_ref: 0,
    };
    let mut texture = StagedTexture {
        binding: 32,
        pixel_format: MTL_FORMAT_RGBA8_UNORM,
        storage_selector: Some(StorageImageFormat::Rgba8Unorm),
        width: 4,
        height: 2,
        bytes: vec![0; 32],
        is_storage: true,
        residency: Some(ComputeStorageResidencyCandidate {
            key,
            seed_generation: 4,
        }),
        seed_skipped: false,
        sample_resident: None,
        writeback: TextureWriteback::Nowhere,
    };

    assert_eq!(
        opportunity(&state, &texture),
        (1, 0, 32, 0)
    );
    state.compute_storage_residency.insert(key, 4);
    assert_eq!(
        opportunity(&state, &texture),
        (1, 1, 32, 32)
    );

    texture.residency.as_mut().unwrap().seed_generation = 5;
    assert_eq!(
        opportunity(&state, &texture),
        (1, 0, 32, 0)
    );
    // An intersecting stale window is dropped by note; a disjoint sibling
    // window (ping-pong canvas) survives it.
    let mut stale_view = key;
    stale_view.surface_offset = 0;
    state.compute_storage_residency.insert(stale_view, 3);
    let mut sibling = key;
    sibling.surface_offset = 128;
    sibling.span_end = 192;
    state.compute_storage_residency.insert(sibling, 2);
    state.mappings.get_mut(&9).unwrap().content_generation = 5;
    note_storage_residency_writeback(&mut state, &texture);
    assert_eq!(state.compute_storage_residency.entries.len(), 2);
    assert!(state.compute_storage_residency.get(&stale_view).is_none());
    assert!(state.compute_storage_residency.get(&sibling).is_some());
    // The mirror stores the engine currency next(seed_generation), so the
    // staged candidate hits only once its seed matches that value.
    assert_eq!(state.compute_storage_residency.get(&key), Some(6));
    assert_eq!(
        opportunity(&state, &texture),
        (1, 0, 32, 0)
    );
    texture.residency.as_mut().unwrap().seed_generation = 6;
    state
        .compute_storage_residency
        .remove_all(Victims::One { key: sibling });
    assert_eq!(
        opportunity(&state, &texture),
        (1, 1, 32, 32)
    );

    texture.residency.as_mut().unwrap().key.map_generation += 1;
    assert_eq!(
        opportunity(&state, &texture),
        (1, 0, 32, 0)
    );
}

#[test]
fn storage_format_specialization_preserves_raw_views_and_runtime_shape() {
    assert_eq!(
        mtl_to_engine_sampled(MTL_FORMAT_R32_UINT),
        Some(V::R32Uint)
    );
    assert_eq!(
        mtl_to_engine_sampled(MTL_FORMAT_RGB9E5_FLOAT),
        Some(V::Rgb9e5Ufloat)
    );

    // A uint shader over a BGRA8Unorm surface is a deliberate raw byte view
    // (byte order preserved) — unaffected by the without-format flag.
    assert_eq!(
        specialized_storage_image_format(V::Bgra8Unorm, S::Rgba8Uint, true),
        Ok(S::Rgba8Uint)
    );
    assert_eq!(
        specialized_storage_image_format(V::Bgra8Unorm, S::Rgba8Uint, false),
        Ok(S::Rgba8Uint)
    );
    assert_eq!(
        specialized_storage_image_format(V::Rgba16Float, S::Rgba32Float, true),
        Ok(S::Rgba16Float)
    );
    // BGRA8Unorm normalized color store (the desktop composite): with the
    // device feature it retargets to a format-less `Unknown` storage image
    // (viewed B8G8R8A8_UNORM — no R/B swap); without it, degrades to the
    // swapped Rgba8Unorm view.
    assert_eq!(
        specialized_storage_image_format(V::Bgra8Unorm, S::Rgba32Float, true),
        Ok(S::Unknown)
    );
    assert_eq!(
        specialized_storage_image_format(V::Bgra8Unorm, S::Rgba32Float, false),
        Ok(S::Rgba8Unorm)
    );
    assert_eq!(
        specialized_storage_image_format(V::Bgra8Unorm, S::Rgba8Unorm, true),
        Ok(S::Unknown)
    );
    assert_eq!(
        specialized_storage_image_format(V::Bgra8Unorm, S::Rgba16Uint, true),
        Err("spirv_guest_numeric_class_mismatch")
    );
    assert_eq!(
        specialized_storage_image_format(V::Bgra8Unorm, S::Unsupported(0), true),
        Err("spirv_storage_format_unsupported")
    );

    // R32Uint storage : the
    // guest surface is a single 32-bit uint channel but the translator
    // declares a 4x8-bit `Rgba8ui` write image. Despite equal bytes/texel
    // (4 == 4) this must NOT take the raw-view early return (which would
    // adopt Rgba8ui and keep only the low byte of each written lane) — it
    // specializes the SPIR-V storage image to single-channel `R32ui` so the
    // view is VK_FORMAT_R32_UINT and a written `uint4`.x is the full u32.
    assert_eq!(
        specialized_storage_image_format(V::R32Uint, S::Rgba8Uint, true),
        Ok(S::R32ui)
    );
    assert_eq!(
        specialized_storage_image_format(V::R32Uint, S::Rgba16Uint, true),
        Ok(S::R32ui)
    );
    // A float/unorm-class write shader over an R32Uint surface is a genuine
    // numeric-class mismatch, not a raw view — still rejected.
    assert_eq!(
        specialized_storage_image_format(V::R32Uint, S::Rgba8Unorm, true),
        Err("spirv_guest_numeric_class_mismatch")
    );
    // The R32-single-channel sint/float and packed Rgb9e5 storage paths stay
    // guarded off earlier: they have no storage format, so they are rejected at
    // stage time and never reach the specializer.
    assert_eq!(
        storage_selector(MTL_FORMAT_R32_SINT),
        None
    );
    assert_eq!(
        storage_selector(MTL_FORMAT_R32_FLOAT),
        None
    );

    // R32Uint reaches the specializer, and its format round-trips.
    assert_eq!(
        storage_selector(MTL_FORMAT_R32_UINT),
        Some(V::R32Uint)
    );
    assert_eq!(V::R32Uint.bytes_per_texel(), 4);
    assert_eq!(
        spirv_image_format_to_engine_storage(S::R32ui),
        Some(V::R32Uint)
    );
}

#[test]
fn r32f_write_images_specialize_to_the_bound_guest_surface() {
    assert_eq!(
        spirv_image_format_to_engine_storage(S::R32Float),
        Some(V::R32Float)
    );

    // Wider float surfaces: the placeholder widens to the guest's own format
    // so all four written lanes are stored, not just `.x`.
    assert_eq!(
        specialized_storage_image_format(V::Rgba32Float, S::R32Float, true),
        Ok(S::Rgba32Float)
    );
    assert_eq!(
        specialized_storage_image_format(V::Rgba16Float, S::R32Float, true),
        Ok(S::Rgba16Float)
    );
    // Narrower single-channel float: still class-matched to the guest surface.
    assert_eq!(
        specialized_storage_image_format(V::R16Float, S::R32Float, true),
        Ok(S::R16Float)
    );
    // An R32Float guest surface is an exact match — the raw view is correct.
    assert_eq!(
        specialized_storage_image_format(V::R32Float, S::R32Float, true),
        Ok(S::R32Float)
    );
    // BGRA8Unorm is the desktop composite target. Bytes/texel are equal (4 == 4)
    // so the raw-view early return would view a BGRA surface as a single
    // 32-bit float; a normalized color store must retarget instead.
    assert_eq!(
        specialized_storage_image_format(V::Bgra8Unorm, S::R32Float, true),
        Ok(S::Unknown)
    );
    assert_eq!(
        specialized_storage_image_format(V::Bgra8Unorm, S::R32Float, false),
        Ok(S::Rgba8Unorm)
    );
    // A float-class shader over a uint surface stays a class mismatch.
    assert_eq!(
        specialized_storage_image_format(V::R32Uint, S::R32Float, true),
        Err("spirv_guest_numeric_class_mismatch")
    );
}

#[test]
fn bulk_linear_read_destrides_span_with_one_view() {
    let (tight, stride, h) = (8usize, 16u64, 3u32);
    // Rows y at y*stride: payload y*3+1..; padding sentinel 0xEE.
    let mut span = vec![0xEEu8; bulk_span_len(h, stride, tight).unwrap() as usize];
    for y in 0..h as usize {
        for i in 0..tight {
            span[y * stride as usize + i] = (y as u8) * 3 + 1 + i as u8;
        }
    }
    let bytes = read_linear_texture_bulk(Some(&span), stride, tight, h).unwrap();
    for y in 0..h as usize {
        for i in 0..tight {
            assert_eq!(
                bytes[y * tight + i],
                (y as u8) * 3 + 1 + i as u8,
                "y={y} i={i}"
            );
        }
    }
}

#[test]
fn bulk_linear_write_scatters_rows_and_preserves_padding() {
    let (tight, stride, h) = (8usize, 16u64, 3u32);
    // Sentinel-fill the whole span so untouched padding is provable.
    let span = vec![0xEEu8; bulk_span_len(h, stride, tight).unwrap() as usize];
    let bytes: Vec<u8> = (0..tight * h as usize).map(|i| i as u8 + 1).collect();
    let out = write_linear_texture_bulk(Some(span), &bytes, stride, tight, h).unwrap();
    for y in 0..h as usize {
        let at = y * stride as usize;
        assert_eq!(
            &out[at..at + tight],
            &bytes[y * tight..y * tight + tight],
            "row y={y}"
        );
        if y + 1 < h as usize {
            assert!(
                out[at + tight..at + stride as usize].iter().all(|&b| b == 0xEE),
                "padding must stay untouched y={y}"
            );
        }
    }
    // What was put in comes out again.
    assert_eq!(read_linear_texture_bulk(Some(&out), stride, tight, h), Some(bytes));
}

/// A span that cannot be packed into one view: both helpers give up, and the rows go
/// one by one.
#[test]
fn bulk_linear_helpers_fall_back_on_fragmented_span() {
    let (tight, stride, h) = (8usize, 16u64, 3u32);
    let bytes = vec![0xABu8; tight * h as usize];
    assert_eq!(read_linear_texture_bulk(None, stride, tight, h), None);
    assert_eq!(write_linear_texture_bulk(None, &bytes, stride, tight, h), None);
    // One row as the fallback writes it.
    let mut row = vec![0xABu8; 8];
    row.extend_from_slice(&[0u8; 8]);
    assert_eq!(padded_row(&bytes, 2, tight, stride as usize), row);
    assert_eq!(
        linear_row_write(&bytes, 0x1000, stride as usize, tight, 2),
        Some((0x1020, row))
    );
    assert_eq!(
        linear_row_write(&bytes, u64::MAX - 4, stride as usize, tight, 2),
        None
    );
}
