use metal2vulkan::reflect::{REFLECTION_VERSION, RESOURCE_DESCRIPTOR_SET};
use reims_vgpu::spirv_bind::access::{
    OP_ACCESS_CHAIN, OP_FUNCTION_CALL, OP_LOAD, STORAGE_CLASS_STORAGE_BUFFER,
    STORAGE_CLASS_UNIFORM_CONSTANT,
};
use reims_vgpu::spirv_bind::capability::CAPABILITY_STORAGE_IMAGE_WRITE_WITHOUT_FORMAT;
use reims_vgpu::spirv_bind::index::{
    DECORATION_BINDING, OP_DECORATE, OP_TYPE_IMAGE, OP_TYPE_POINTER, OP_VARIABLE,
};
use reims_vgpu::spirv_bind::literals::{OP_IMAGE_READ, OP_IMAGE_WRITE, OP_STORE};
use reims_vgpu::spirv_bind::reflection::{
    DescriptorLocation, FunctionConstant, ResourceAccess, ResourceBinding, ResourceKind,
    ShaderStage, TextureDimension, TextureShape, VertexBuiltins,
};
use reims_vgpu::spirv_bind::relocate::SAMPLED_RESOURCE_BINDING_LIMIT;
use reims_vgpu::spirv_bind::samplers::OP_TYPE_SAMPLER;
use reims_vgpu::spirv_bind::{
    BufferAccess, COLOR_INPUT_BINDING_BASE, FRAG_BUFFER_BINDING_OFFSET,
    FRAG_SAMPLED_RESOURCE_BINDING_OFFSET, ImageAccess, ImageFormat, SAMPLER_BINDING_BASE, SampledImageKind, ShaderReflection,
    StorageImageAccess, TEXTURE_BINDING_BASE, buffer_access, census_reflection_wellformed,
    ensure_storage_write_without_format_capability, image_access_from_reflection, image_format,
    log_folded_function_constants, offset_fragment_buffer_bindings,
    offset_fragment_sampled_resource_bindings, sampled_image_kind_from_reflection, sampler_bindings, specialize_image_formats, storage_image_access, vertex_position_pull_gate,
    vertex_pull_buffer_bindings,
};


#[test]
fn injects_storage_write_without_format_capability_once() {
    // 5-word header, `OpCapability Shader`, then `OpMemoryModel` (opcode 14).
    let mut words = vec![
        0x0723_0203,       // magic
        0x0001_0600,       // version
        0,                 // generator
        16,                // bound
        0,                 // schema
        (2u32 << 16) | 17, // OpCapability ...
        1,                 // Shader
        (3u32 << 16) | 14, // OpMemoryModel ...
        0,                 // Logical
        1,                 // GLSL450
    ];
    let before = words.len();
    assert!(ensure_storage_write_without_format_capability(&mut words));
    assert_eq!(words.len(), before + 2);
    // The Shader capability is untouched at the front.
    assert_eq!(words[5], (2u32 << 16) | 17);
    assert_eq!(words[6], 1);
    // The new capability is spliced after the last OpCapability, before the
    // OpMemoryModel section (capabilities must precede everything else).
    assert_eq!(words[7], (2u32 << 16) | 17);
    assert_eq!(words[8], CAPABILITY_STORAGE_IMAGE_WRITE_WITHOUT_FORMAT);
    assert_eq!(
        words[9] & 0xffff,
        14,
        "OpMemoryModel follows the capabilities"
    );
    // Idempotent: a second call is a no-op.
    assert!(!ensure_storage_write_without_format_capability(&mut words));
    assert_eq!(words.len(), before + 2);
}

#[test]
fn image_format_unknown_round_trips_raw_zero() {
    // SPIR-V ImageFormat 0 is `Unknown`; it must survive a raw round trip so
    // `specialize_image_formats` can request and verify it.
    assert_eq!(ImageFormat::from_raw(0), ImageFormat::Unknown);
    assert_eq!(ImageFormat::Unknown.raw(), 0);
}

fn empty_reflection(stage: ShaderStage) -> ShaderReflection {
    ShaderReflection {
        reflection_version: REFLECTION_VERSION,
        stage,
        entry_point: None,
        bindings: vec![],
        vertex_builtins: None,
        function_constants: vec![],
    }
}

fn texture_binding(binding: u32, shape: TextureShape) -> ResourceBinding {
    ResourceBinding {
        kind: ResourceKind::Texture,
        metal_index: binding - TEXTURE_BINDING_BASE,
        descriptor: Some(DescriptorLocation { set: 0, binding }),
        texture_shape: Some(shape),
        access: None,
        has_static_sampler: false,
    }
}

fn static_sampler_binding(binding: u32) -> ResourceBinding {
    ResourceBinding {
        kind: ResourceKind::StaticSampler,
        metal_index: binding - SAMPLER_BINDING_BASE,
        descriptor: Some(DescriptorLocation {
            set: RESOURCE_DESCRIPTOR_SET,
            binding,
        }),
        texture_shape: None,
        access: None,
        has_static_sampler: true,
    }
}

fn shape(dimension: TextureDimension, arrayed: bool, writable: bool) -> TextureShape {
    TextureShape {
        dimension,
        arrayed,
        writable,
    }
}

#[test]
fn reflection_derived_kind_and_access_cover_every_shape() {
    // Every dimensionality has its `SampledImageKind`.
    let cases = [
        (TextureDimension::D1, false, Some(SampledImageKind::D1)),
        (TextureDimension::D1, true, Some(SampledImageKind::D1Array)),
        (TextureDimension::D2, false, Some(SampledImageKind::D2)),
        (TextureDimension::D2, true, Some(SampledImageKind::D2Array)),
        (TextureDimension::D3, false, Some(SampledImageKind::D3)),
        (TextureDimension::Cube, false, Some(SampledImageKind::Cube)),
        (
            TextureDimension::Cube,
            true,
            Some(SampledImageKind::CubeArray),
        ),
        // `SampledImageKind` cannot express these.
        (TextureDimension::D3, true, None),
        (TextureDimension::Buffer, false, None),
    ];
    for (dim, arrayed, want) in cases {
        let mut r = empty_reflection(ShaderStage::Fragment);
        let bind = TEXTURE_BINDING_BASE + 3;
        r.bindings
            .push(texture_binding(bind, shape(dim, arrayed, false)));
        assert_eq!(
            sampled_image_kind_from_reflection(&r, bind),
            want,
            "dim={dim:?} arrayed={arrayed}"
        );
    }

    // Access mapping: writable => storage image, else sampled.
    let mut r = empty_reflection(ShaderStage::Kernel);
    let sampled = TEXTURE_BINDING_BASE;
    let storage = TEXTURE_BINDING_BASE + 1;
    r.bindings.push(texture_binding(
        sampled,
        shape(TextureDimension::D2, false, false),
    ));
    r.bindings.push(texture_binding(
        storage,
        shape(TextureDimension::D2, false, true),
    ));
    assert_eq!(
        image_access_from_reflection(&r, sampled),
        Some(ImageAccess::Sampled)
    );
    assert_eq!(
        image_access_from_reflection(&r, storage),
        Some(ImageAccess::Storage)
    );
    // A binding that reflection does not carry => None.
    assert_eq!(
        image_access_from_reflection(&r, TEXTURE_BINDING_BASE + 9),
        None
    );
    assert_eq!(
        sampled_image_kind_from_reflection(&r, TEXTURE_BINDING_BASE + 9),
        None
    );
}

#[test]
fn wellformed_guard_passes_consistent_reflection_and_catches_desync() {
    // A consistent sampled 2D texture: kind Texture, !writable, access Sampled.
    let bind = TEXTURE_BINDING_BASE + 2;
    let mut r = empty_reflection(ShaderStage::Fragment);
    let mut b = texture_binding(bind, shape(TextureDimension::D2, false, false));
    b.access = Some(ResourceAccess::Sampled);
    r.bindings.push(b);
    assert_eq!(census_reflection_wellformed(&r, 0), 0);

    // Static samplers must carry decoded state in set 0 inside [64,96).
    let mut static_reflection = empty_reflection(ShaderStage::Fragment);
    static_reflection
        .bindings
        .push(static_sampler_binding(SAMPLER_BINDING_BASE + 1));
    assert_eq!(census_reflection_wellformed(&static_reflection, 0), 0);
    let mut missing_state = static_reflection.clone();
    missing_state.bindings[0].has_static_sampler = false;
    assert_eq!(census_reflection_wellformed(&missing_state, 0), 1);
    let mut out_of_band = static_reflection.clone();
    out_of_band.bindings[0].descriptor.as_mut().unwrap().binding = COLOR_INPUT_BINDING_BASE;
    assert_eq!(census_reflection_wellformed(&out_of_band, 0), 1);

    // A consistent storage image: kind StorageImage, writable, access Storage.
    let mut rs = empty_reflection(ShaderStage::Kernel);
    let mut sb = texture_binding(
        TEXTURE_BINDING_BASE + 1,
        shape(TextureDimension::D2, false, true),
    );
    sb.kind = ResourceKind::StorageImage;
    sb.access = Some(ResourceAccess::Storage);
    rs.bindings.push(sb);
    assert_eq!(census_reflection_wellformed(&rs, 0), 0);

    // Desync writable=true while kind stays Texture: one violation.
    let mut rbad = empty_reflection(ShaderStage::Fragment);
    rbad.bindings.push(texture_binding(
        bind,
        shape(TextureDimension::D2, false, true),
    ));
    assert_eq!(census_reflection_wellformed(&rbad, 0), 1);

    // Desync access=Storage while kind stays Texture: one violation.
    let mut racc = empty_reflection(ShaderStage::Fragment);
    let mut ba = texture_binding(bind, shape(TextureDimension::D2, false, false));
    ba.access = Some(ResourceAccess::Storage);
    racc.bindings.push(ba);
    assert_eq!(census_reflection_wellformed(&racc, 0), 1);

    // A stale reflection ABI version is a violation on its own.
    let mut rver = empty_reflection(ShaderStage::Fragment);
    rver.reflection_version = REFLECTION_VERSION.wrapping_add(1);
    assert_eq!(census_reflection_wellformed(&rver, 0), 1);
}

#[test]
fn vertex_pull_gate_and_buffer_bindings_from_reflection() {
    let buffer_binding = |binding: u32| ResourceBinding {
        kind: ResourceKind::Buffer,
        metal_index: binding,
        descriptor: Some(DescriptorLocation { set: 0, binding }),
        texture_shape: None,
        access: None,
        has_static_sampler: false,
    };

    // Full shader-pull vertex stage: writes Position, reads VertexIndex, binds
    // buffers 7 and 1 → gate true, buffer list sorted+deduped.
    let mut r = empty_reflection(ShaderStage::Vertex);
    r.vertex_builtins = Some(VertexBuiltins {
        uses_vertex_index: true,
        uses_instance_index: false,
        writes_position: true,
    });
    r.bindings.push(buffer_binding(7));
    r.bindings.push(buffer_binding(1));
    assert!(vertex_position_pull_gate(&r));
    assert_eq!(vertex_pull_buffer_bindings(&r), vec![1, 7]);

    // Missing VertexIndex → gate false.
    let mut no_vi = r.clone();
    no_vi.vertex_builtins = Some(VertexBuiltins {
        uses_vertex_index: false,
        uses_instance_index: false,
        writes_position: true,
    });
    assert!(!vertex_position_pull_gate(&no_vi));

    // No buffer binding → gate false (nothing to pull from).
    let mut no_buf = empty_reflection(ShaderStage::Vertex);
    no_buf.vertex_builtins = r.vertex_builtins;
    assert!(!vertex_position_pull_gate(&no_buf));

    // Non-vertex stage (no builtins) → gate false.
    assert!(!vertex_position_pull_gate(&empty_reflection(
        ShaderStage::Fragment
    )));
}

#[test]
fn folded_function_constants_reported_only_when_present() {
    // FC-free shader: silent (returns 0), no analysis line.
    let none = empty_reflection(ShaderStage::Fragment);
    assert_eq!(log_folded_function_constants(&none), 0);

    // Shader declaring runtime function constants: consumed straight from the
    // reflection (single source of truth), reported once. The count is the
    // inventory length — no SPIR-V re-walk.
    let mut r = empty_reflection(ShaderStage::Kernel);
    r.entry_point = Some("gaussian_blur".to_string());
    r.function_constants = vec![
        FunctionConstant {
            index: 0,
            name: "enable_tap".to_string(),
            value_type: "i1".to_string(),
        },
        FunctionConstant {
            index: 3,
            name: "channel_count".to_string(),
            value_type: "i32".to_string(),
        },
    ];
    assert_eq!(log_folded_function_constants(&r), 2);
}

#[test]
fn offset_buffer_bindings_only_in_band() {
    // Minimal fake module: header + one OpDecorate Binding 3 (4 words).
    let mut words = vec![0u32; 5];
    words[0] = 0x0723_0203; // magic-ish
                            // OpDecorate: opcode 71, wordcount 4 → word0 = (4<<16)|71
    words.push((4u32 << 16) | 71);
    words.push(1); // target id
    words.push(DECORATION_BINDING);
    words.push(3); // binding
                   // Binding 40 (texture band) must not move
    words.push((4u32 << 16) | 71);
    words.push(2);
    words.push(DECORATION_BINDING);
    words.push(40);
    let n = offset_fragment_buffer_bindings(&mut words);
    assert_eq!(n, 1);
    assert_eq!(words[8], 3 + FRAG_BUFFER_BINDING_OFFSET);
    assert_eq!(words[12], 40);
}

#[test]
#[allow(
    clippy::assertions_on_constants,
    reason = "the test pins the binding-band contract constants"
)]
fn relocations_preserve_color_input_band_and_stay_collision_free() {
    // The ColorInput band [96,104) (framebuffer-fetch SubpassData images,
    // plus today's synthesized constexpr samplers) must survive BOTH
    // fragment relocations unchanged, and the relocated buffer band
    // [104,136) must not land on it — the engine binds the input
    // attachment at its un-relocated 96+N number.
    let decorate = |id: u32, binding: u32| {
        vec![
            (4u32 << 16) | OP_DECORATE as u32,
            id,
            DECORATION_BINDING,
            binding,
        ]
    };
    let mut words = vec![0x0723_0203, 0x0001_0000, 0, 7, 0];
    words.extend(decorate(1, 1)); // fragment buffer → relocates
    words.extend(decorate(2, 97)); // ColorInput band → stays
    words.extend(decorate(3, 35)); // texture → sampled reloc
    words.extend(decorate(4, 64)); // sampler → sampled reloc

    assert_eq!(offset_fragment_sampled_resource_bindings(&mut words), 2);
    assert_eq!(offset_fragment_buffer_bindings(&mut words), 1);

    let bindings = [words[8], words[12], words[16], words[20]];
    assert_eq!(bindings[0], 1 + FRAG_BUFFER_BINDING_OFFSET);
    assert_eq!(bindings[1], 97);
    assert_eq!(bindings[2], 35 + FRAG_SAMPLED_RESOURCE_BINDING_OFFSET);
    assert_eq!(bindings[3], 64 + FRAG_SAMPLED_RESOURCE_BINDING_OFFSET);
    // All four distinct — no merged-set duplicate bindings.
    let mut sorted = bindings;
    sorted.sort_unstable();
    assert!(sorted.windows(2).all(|w| w[0] != w[1]));
    // Band-map invariants the engine binding math relies on.
    assert!(FRAG_BUFFER_BINDING_OFFSET >= COLOR_INPUT_BINDING_BASE + 8);
    assert!(31 + FRAG_BUFFER_BINDING_OFFSET < 32 + FRAG_SAMPLED_RESOURCE_BINDING_OFFSET);
    assert!(
        (SAMPLED_RESOURCE_BINDING_LIMIT - 1) + FRAG_SAMPLED_RESOURCE_BINDING_OFFSET < u32::MAX
    );
}

#[test]
fn reflects_storage_image_format_without_names() {
    // A storage image at binding 34 with an explicit Rgba8Uint format operand.
    // `image_format` stays a structural SPIR-V walk (reflection carries no
    // explicit storage-format for the format-specialization path).
    let mut words = vec![0x0723_0203, 0x0001_0000, 0, 7, 0];
    words.extend([
        (9u32 << 16) | OP_TYPE_IMAGE as u32,
        4,
        99,
        1,
        0,
        0,
        0,
        2,
        32,
    ]);
    words.extend([(4u32 << 16) | OP_TYPE_POINTER as u32, 5, 0, 4]);
    words.extend([(4u32 << 16) | OP_VARIABLE as u32, 5, 6, 0]);
    words.extend([(4u32 << 16) | OP_DECORATE as u32, 6, DECORATION_BINDING, 34]);
    assert_eq!(image_format(&words, 34), Some(ImageFormat::Rgba8Uint));
    assert_eq!(image_format(&words, 33), None);
}

#[test]
fn reflects_storage_image_content_access_without_names() {
    // %1=image type, %2=pointer, %3=variable(binding 34), %4=loaded
    // image, %5=read result. The first module reads and writes; removing
    // OpImageRead proves write-only access without decorations or names.
    let mut words = vec![0x0723_0203, 0x0001_0000, 0, 6, 0];
    words.extend([
        (9u32 << 16) | OP_TYPE_IMAGE as u32,
        1,
        99,
        1,
        0,
        0,
        0,
        2,
        32,
    ]);
    words.extend([
        (4u32 << 16) | OP_TYPE_POINTER as u32,
        2,
        STORAGE_CLASS_UNIFORM_CONSTANT,
        1,
    ]);
    words.extend([
        (4u32 << 16) | OP_VARIABLE as u32,
        2,
        3,
        STORAGE_CLASS_UNIFORM_CONSTANT,
    ]);
    words.extend([(4u32 << 16) | OP_DECORATE as u32, 3, DECORATION_BINDING, 34]);
    words.extend([(4u32 << 16) | OP_LOAD as u32, 1, 4, 3]);
    let write_at = words.len();
    words.extend([(4u32 << 16) | OP_IMAGE_WRITE as u32, 4, 90, 91]);
    assert_eq!(
        storage_image_access(&words, 34),
        Some(StorageImageAccess::WriteOnly)
    );
    words.splice(
        write_at..write_at,
        [(5u32 << 16) | OP_IMAGE_READ as u32, 92, 5, 4, 90],
    );
    assert_eq!(
        storage_image_access(&words, 34),
        Some(StorageImageAccess::ReadWrite)
    );

    words.extend([
        (4u32 << 16) | OP_VARIABLE as u32,
        2,
        5,
        STORAGE_CLASS_UNIFORM_CONSTANT,
    ]);
    words.extend([(4u32 << 16) | OP_DECORATE as u32, 5, DECORATION_BINDING, 34]);
    assert_eq!(
        storage_image_access(&words, 34),
        Some(StorageImageAccess::AmbiguousBinding)
    );
}

#[test]
fn specializes_image_format_by_binding_without_names() {
    let mut words = vec![0x0723_0203, 0x0001_0000, 0, 7, 0];
    words.extend([(9u32 << 16) | OP_TYPE_IMAGE as u32, 1, 99, 1, 0, 0, 0, 2, 1]);
    words.extend([(4u32 << 16) | OP_TYPE_POINTER as u32, 2, 0, 1]);
    words.extend([(4u32 << 16) | OP_VARIABLE as u32, 2, 3, 0]);
    words.extend([(4u32 << 16) | OP_DECORATE as u32, 3, DECORATION_BINDING, 34]);
    words.extend([(4u32 << 16) | OP_VARIABLE as u32, 2, 4, 0]);
    words.extend([(4u32 << 16) | OP_DECORATE as u32, 4, DECORATION_BINDING, 35]);

    assert_eq!(
        specialize_image_formats(&mut words, &[(34, ImageFormat::Rgba16Float)]),
        Ok(1)
    );
    assert_eq!(image_format(&words, 34), Some(ImageFormat::Rgba16Float));
    assert_eq!(image_format(&words, 35), Some(ImageFormat::Rgba32Float));
    assert_eq!(
        specialize_image_formats(
            &mut words,
            &[
                (34, ImageFormat::Rgba16Float),
                (35, ImageFormat::Rgba8Unorm)
            ]
        ),
        Ok(1)
    );
    assert_eq!(image_format(&words, 34), Some(ImageFormat::Rgba16Float));
    assert_eq!(image_format(&words, 35), Some(ImageFormat::Rgba8Unorm));
}

#[test]
fn specializes_rgba8ui_write_image_to_r32ui() {
    // The exact device patch for an R32Uint-bound `texture2d<uint, write>`:
    // the translator declares the storage image `Rgba8ui` (SPIR-V format
    // token 32); the device re-targets it to `R32ui` (token 33) so the view
    // is VK_FORMAT_R32_UINT. Verify the reflection reads Rgba8ui, the patch
    // rewrites the format operand, and it reads back as R32ui.
    let mut words = vec![0x0723_0203, 0x0001_0000, 0, 6, 0];
    // OpTypeImage %1 : uint 2D depth=0 arrayed=0 ms=0 sampled=2 format=32.
    words.extend([
        (9u32 << 16) | OP_TYPE_IMAGE as u32,
        1,
        99,
        1,
        0,
        0,
        0,
        2,
        32,
    ]);
    words.extend([(4u32 << 16) | OP_TYPE_POINTER as u32, 2, 0, 1]);
    words.extend([(4u32 << 16) | OP_VARIABLE as u32, 2, 3, 0]);
    words.extend([(4u32 << 16) | OP_DECORATE as u32, 3, DECORATION_BINDING, 33]);

    assert_eq!(image_format(&words, 33), Some(ImageFormat::Rgba8Uint));
    assert_eq!(ImageFormat::R32ui.raw(), 33);
    assert_eq!(ImageFormat::from_raw(33), ImageFormat::R32ui);
    assert_eq!(
        specialize_image_formats(&mut words, &[(33, ImageFormat::R32ui)]),
        Ok(1)
    );
    assert_eq!(image_format(&words, 33), Some(ImageFormat::R32ui));
}

/// SPIR-V `R32f` is enum value 3 and is what `metal2vulkan` declares for a
/// generic `texture2d<float, access::write>`.
#[test]
fn r32f_write_image_decodes_and_specializes() {
    let mut words = vec![0x0723_0203, 0x0001_0000, 0, 6, 0];
    // OpTypeImage %1 : float 2D depth=0 arrayed=0 ms=0 sampled=2 format=3.
    words.extend([
        (9u32 << 16) | OP_TYPE_IMAGE as u32,
        1,
        99,
        1,
        0,
        0,
        0,
        2,
        3,
    ]);
    words.extend([(4u32 << 16) | OP_TYPE_POINTER as u32, 2, 0, 1]);
    words.extend([(4u32 << 16) | OP_VARIABLE as u32, 2, 3, 0]);
    words.extend([(4u32 << 16) | OP_DECORATE as u32, 3, DECORATION_BINDING, 33]);

    assert_eq!(ImageFormat::from_raw(3), ImageFormat::R32Float);
    assert_eq!(ImageFormat::R32Float.raw(), 3);
    assert_eq!(image_format(&words, 33), Some(ImageFormat::R32Float));
    assert_eq!(
        specialize_image_formats(&mut words, &[(33, ImageFormat::Rgba32Float)]),
        Ok(1)
    );
    assert_eq!(image_format(&words, 33), Some(ImageFormat::Rgba32Float));
}

fn storage_buffer_module(binding: u32) -> Vec<u32> {
    let mut words = vec![0x0723_0203, 0x0001_0000, 0, 12, 0];
    words.extend([
        (4u32 << 16) | OP_VARIABLE as u32,
        1,
        2,
        STORAGE_CLASS_STORAGE_BUFFER,
    ]);
    words.extend([
        (4u32 << 16) | OP_DECORATE as u32,
        2,
        DECORATION_BINDING,
        binding,
    ]);
    // %4 = access-chain %2; pointer provenance must reach the leaf.
    words.extend([(5u32 << 16) | OP_ACCESS_CHAIN as u32, 3, 4, 2, 5]);
    words
}

#[test]
fn reflects_storage_buffer_read_only_without_names() {
    let words = storage_buffer_module(1);
    assert_eq!(buffer_access(&words, 1), Some(BufferAccess::ReadOnly));
    assert_eq!(buffer_access(&words, 0), None);
}

#[test]
fn reflects_storage_buffer_write_through_access_chain() {
    let mut words = storage_buffer_module(1);
    words.extend([(3u32 << 16) | OP_STORE as u32, 4, 6]);
    assert_eq!(buffer_access(&words, 1), Some(BufferAccess::Writable));
}

#[test]
fn storage_buffer_pointer_call_fails_access_closed() {
    let mut words = storage_buffer_module(1);
    // OpFunctionCall result-type, result-id, function-id, pointer arg.
    words.extend([(5u32 << 16) | OP_FUNCTION_CALL as u32, 7, 8, 9, 4]);
    assert_eq!(buffer_access(&words, 1), Some(BufferAccess::PointerEscape));
}

#[test]
fn duplicate_storage_buffer_binding_fails_access_closed() {
    let mut words = storage_buffer_module(1);
    words.extend([
        (4u32 << 16) | OP_VARIABLE as u32,
        1,
        6,
        STORAGE_CLASS_STORAGE_BUFFER,
    ]);
    words.extend([(4u32 << 16) | OP_DECORATE as u32, 6, DECORATION_BINDING, 1]);
    assert_eq!(
        buffer_access(&words, 1),
        Some(BufferAccess::AmbiguousBinding)
    );
}

#[test]
fn reflects_only_declared_sampler_bindings_without_names() {
    // %1 sampler, %2 UniformConstant pointer, %3 sampler variable. A
    // decorated non-sampler %4 must not appear in the result.
    let mut words = vec![0x0723_0203, 0x0001_0000, 0, 5, 0];
    words.extend([(2u32 << 16) | OP_TYPE_SAMPLER as u32, 1]);
    words.extend([
        (4u32 << 16) | OP_TYPE_POINTER as u32,
        2,
        STORAGE_CLASS_UNIFORM_CONSTANT,
        1,
    ]);
    words.extend([
        (4u32 << 16) | OP_VARIABLE as u32,
        2,
        3,
        STORAGE_CLASS_UNIFORM_CONSTANT,
    ]);
    words.extend([(4u32 << 16) | OP_DECORATE as u32, 3, DECORATION_BINDING, 66]);
    words.extend([(4u32 << 16) | OP_DECORATE as u32, 4, DECORATION_BINDING, 99]);
    assert_eq!(sampler_bindings(&words), vec![66]);
}
