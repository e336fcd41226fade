//! What holds of the module analyses and rewrites, on concrete modules.

use metal2vulkan::reflect::REFLECTION_VERSION;
use reims_vgpu::spirv_bind::reflection::{
    DescriptorLocation, FunctionConstant, ReflectionViolation, ResourceAccess, ResourceBinding,
    ResourceKind, ShaderStage, TextureDimension, TextureShape, folded_function_constants_line,
    reflection_violations,
};
use reims_vgpu::spirv_bind::{
    BufferAccess, ImageFormat, ImageFormatSpecializeError, ReflectedSampledKind, SampledImageKind,
    ShaderReflection, StorageImageAccess, buffer_access, image_format,
    offset_fragment_buffer_bindings, offset_fragment_sampled_resource_bindings,
    reflected_sampled_kind, sampler_bindings, specialize_image_formats, storage_image_access,
};

fn header(bound: u32) -> Vec<u32> {
    vec![0x0723_0203, 0x0001_0000, 0, bound, 0]
}

fn image_type(id: u32, format: u32) -> [u32; 9] {
    [(9u32 << 16) | 25, id, 99, 1, 0, 0, 0, 2, format]
}

fn pointer(id: u32, pointee: u32) -> [u32; 4] {
    [(4u32 << 16) | 32, id, 0, pointee]
}

fn variable(pointer: u32, id: u32) -> [u32; 4] {
    [(4u32 << 16) | 59, pointer, id, 0]
}

fn binding(id: u32, number: u32) -> [u32; 4] {
    [(4u32 << 16) | 71, id, 33, number]
}

/// Three images of one type, at bindings 32, 33 and 34.
fn three_images() -> Vec<u32> {
    let mut words = header(10);
    words.extend(image_type(1, 1));
    words.extend(pointer(2, 1));
    for (id, number) in [(3, 32), (4, 33), (5, 34)] {
        words.extend(variable(2, id));
        words.extend(binding(id, number));
    }
    words
}

#[test]
fn formats_round_trip() {
    for raw in 0..64 {
        assert_eq!(ImageFormat::from_raw(raw).raw(), raw);
    }
    assert_eq!(ImageFormat::from_raw(5), ImageFormat::Unsupported(5));
}

#[test]
fn requested_bindings_read_back_and_the_others_keep_theirs() {
    let mut words = three_images();
    assert_eq!(
        specialize_image_formats(
            &mut words,
            &[(32, ImageFormat::R8Unorm), (34, ImageFormat::Rgba8Uint)]
        ),
        Ok(2)
    );
    assert_eq!(image_format(&words, 32), Some(ImageFormat::R8Unorm));
    assert_eq!(image_format(&words, 33), Some(ImageFormat::Rgba32Float));
    assert_eq!(image_format(&words, 34), Some(ImageFormat::Rgba8Uint));
    // Two clones of the image type and two of its pointer: four new ids.
    assert_eq!(words[3], 14);
    // All users of the type ask for one format: the type itself changes.
    let mut words = three_images();
    let all = [
        (32, ImageFormat::R8Unorm),
        (33, ImageFormat::R8Unorm),
        (34, ImageFormat::R8Unorm),
    ];
    assert_eq!(specialize_image_formats(&mut words, &all), Ok(3));
    assert_eq!(words.len(), three_images().len());
    assert_eq!(words[3], 10);
    // Asking for what is there changes nothing.
    let before = words.clone();
    assert_eq!(specialize_image_formats(&mut words, &all), Ok(0));
    assert_eq!(words, before);
}

#[test]
fn refused_specializations_leave_the_module_alone() {
    let mut words = three_images();
    assert_eq!(
        specialize_image_formats(&mut words, &[(40, ImageFormat::R8Unorm)]),
        Err(ImageFormatSpecializeError::MissingBinding(40))
    );
    assert_eq!(words, three_images());
    let mut twice = three_images();
    twice.extend(binding(1, 34));
    let before = twice.clone();
    assert_eq!(
        specialize_image_formats(&mut twice, &[(34, ImageFormat::R8Unorm)]),
        Err(ImageFormatSpecializeError::AmbiguousBinding(34))
    );
    assert_eq!(twice, before);
    let mut cut = three_images();
    cut.pop();
    assert_eq!(
        specialize_image_formats(&mut cut, &[]),
        Err(ImageFormatSpecializeError::MalformedModule)
    );
    let errors = [
        ImageFormatSpecializeError::MalformedModule,
        ImageFormatSpecializeError::MissingBinding(40),
        ImageFormatSpecializeError::AmbiguousBinding(34),
    ];
    assert_eq!(
        errors.map(|e| e.slug()),
        [
            "spirv_format_specialize_malformed",
            "spirv_format_specialize_missing_binding",
            "spirv_format_specialize_ambiguous_binding",
        ]
    );
    assert_eq!(errors[1].fields().len(), 1);
    assert_eq!(errors[1].fields()[0].1, "40");
    assert!(errors[0].fields().is_empty());
    // Contradicting requests for one binding do not both read back.
    let mut words = three_images();
    assert_eq!(
        specialize_image_formats(
            &mut words,
            &[(32, ImageFormat::R8Unorm), (32, ImageFormat::Rgba8Uint)]
        ),
        Err(ImageFormatSpecializeError::MissingBinding(32))
    );
}

#[test]
fn a_second_relocation_moves_nothing() {
    let mut words = header(10);
    for (id, number) in [(1, 0), (2, 31), (3, 32), (4, 95), (5, 96), (6, 103)] {
        words.extend(binding(id, number));
    }
    assert_eq!(offset_fragment_buffer_bindings(&mut words), 2);
    assert_eq!(offset_fragment_sampled_resource_bindings(&mut words), 2);
    let numbers: Vec<u32> = (0..6).map(|i| words[8 + 4 * i]).collect();
    assert_eq!(numbers, vec![104, 135, 160, 223, 96, 103]);
    assert_eq!(offset_fragment_buffer_bindings(&mut words), 0);
    assert_eq!(offset_fragment_sampled_resource_bindings(&mut words), 0);
}

#[test]
fn the_two_relocations_commute() {
    let mut words = three_images();
    for (id, number) in [(6, 0), (7, 31), (8, 95), (9, 96), (10, 103)] {
        words.extend(binding(id, number));
    }
    let mut buffers_first = words.clone();
    assert_eq!(offset_fragment_buffer_bindings(&mut buffers_first), 2);
    assert_eq!(
        offset_fragment_sampled_resource_bindings(&mut buffers_first),
        4
    );
    let mut sampled_first = words.clone();
    offset_fragment_sampled_resource_bindings(&mut sampled_first);
    offset_fragment_buffer_bindings(&mut sampled_first);
    assert_eq!(buffers_first, sampled_first);
    let numbers: Vec<u32> = buffers_first[words.len() - 20..]
        .chunks(4)
        .map(|decoration| decoration[3])
        .collect();
    assert_eq!(numbers, vec![104, 135, 223, 96, 103]);
}

#[test]
fn cut_off_modules_say_nothing() {
    let mut words = three_images();
    words.push((4u32 << 16) | 71);
    assert_eq!(image_format(&words, 32), None);
    assert_eq!(storage_image_access(&words, 32), None);
    assert_eq!(buffer_access(&words, 32), None);
    assert_eq!(image_format(&[1, 2, 3], 32), None);
}

#[test]
fn atomics_write_and_phis_carry() {
    let mut words = header(12);
    words.extend([(4u32 << 16) | 59, 1, 2, 12]);
    words.extend(binding(2, 1));
    // %4 = phi of %2; an atomic add through it.
    words.extend([(7u32 << 16) | 245, 3, 4, 9, 10, 2, 11]);
    assert_eq!(buffer_access(&words, 1), Some(BufferAccess::ReadOnly));
    words.extend([(7u32 << 16) | 234, 5, 6, 4, 7, 8, 9]);
    assert_eq!(buffer_access(&words, 1), Some(BufferAccess::Writable));
}

#[test]
fn an_image_that_gets_away_is_unknown() {
    let mut words = header(12);
    words.extend(image_type(1, 32));
    words.extend(pointer(2, 1));
    words.extend(variable(2, 3));
    words.extend(binding(3, 34));
    // Never used: nothing is known.
    assert_eq!(
        storage_image_access(&words, 34),
        Some(StorageImageAccess::Unknown)
    );
    words.extend([(4u32 << 16) | 61, 1, 4, 3]);
    words.extend([(5u32 << 16) | 98, 5, 6, 4, 7]);
    assert_eq!(
        storage_image_access(&words, 34),
        Some(StorageImageAccess::ReadOnly)
    );
    // A size query takes no texels.
    words.extend([(4u32 << 16) | 104, 8, 9, 4]);
    assert_eq!(
        storage_image_access(&words, 34),
        Some(StorageImageAccess::ReadOnly)
    );
    words.extend([(5u32 << 16) | 57, 8, 10, 9, 4]);
    assert_eq!(
        storage_image_access(&words, 34),
        Some(StorageImageAccess::Unknown)
    );
}

#[test]
fn an_image_whose_pointer_gets_away_is_unknown() {
    let mut words = header(12);
    words.extend(image_type(1, 32));
    words.extend(pointer(2, 1));
    words.extend(variable(2, 3));
    words.extend(binding(3, 34));
    // Names and decorations hand nothing on.
    words.extend([(3u32 << 16) | 5, 3, 0]);
    words.extend([(4u32 << 16) | 61, 1, 4, 3]);
    words.extend([(4u32 << 16) | 99, 4, 90, 91]);
    assert_eq!(
        storage_image_access(&words, 34),
        Some(StorageImageAccess::WriteOnly)
    );
    // A call takes the variable itself: what it does there is not seen.
    words.extend([(5u32 << 16) | 57, 7, 5, 9, 3]);
    assert_eq!(
        storage_image_access(&words, 34),
        Some(StorageImageAccess::Unknown)
    );
}

#[test]
fn a_number_that_looks_like_the_pointer_is_none() {
    let mut words = header(40);
    words.extend(image_type(1, 32));
    words.extend(pointer(2, 1));
    words.extend(variable(2, 3));
    words.extend(binding(3, 34));
    words.extend([(4u32 << 16) | 61, 1, 4, 3]);
    words.extend([(4u32 << 16) | 99, 4, 20, 21]);
    let write_only = Some(StorageImageAccess::WriteOnly);
    assert_eq!(storage_image_access(&words, 34), write_only);
    for literal in [
        // An extended instruction's number, a memory access, a member, masks.
        vec![(6u32 << 16) | 12, 22, 23, 24, 3, 25],
        vec![(5u32 << 16) | 62, 22, 23, 3, 3],
        vec![(5u32 << 16) | 63, 22, 23, 3, 3],
        vec![(6u32 << 16) | 64, 22, 23, 24, 3, 3],
        vec![(5u32 << 16) | 68, 22, 23, 24, 3],
        vec![(7u32 << 16) | 87, 22, 23, 24, 25, 3, 26],
        vec![(7u32 << 16) | 89, 22, 23, 24, 25, 26, 3],
        vec![(5u32 << 16) | 99, 4, 20, 21, 3],
        // A computed constant, and the index in one.
        vec![(6u32 << 16) | 52, 22, 23, 3, 24, 25],
        vec![(6u32 << 16) | 52, 22, 23, 81, 24, 3],
        vec![(5u32 << 16) | 81, 22, 23, 24, 3],
        vec![(6u32 << 16) | 349, 22, 23, 24, 3, 25],
        // A result with its type is no operand.
        vec![(5u32 << 16) | 128, 3, 3, 24, 25],
    ] {
        let mut more = words.clone();
        more.extend(literal);
        assert_eq!(storage_image_access(&more, 34), write_only);
    }
    for pointer in [
        vec![(6u32 << 16) | 12, 22, 23, 24, 25, 3],
        vec![(3u32 << 16) | 62, 22, 3],
        vec![(5u32 << 16) | 68, 22, 23, 3, 0],
        vec![(7u32 << 16) | 87, 22, 23, 24, 25, 2, 3],
        vec![(6u32 << 16) | 52, 22, 23, 81, 3, 0],
    ] {
        let mut more = words.clone();
        more.extend(pointer);
        assert_eq!(
            storage_image_access(&more, 34),
            Some(StorageImageAccess::Unknown)
        );
    }
}

#[test]
fn a_second_specialization_changes_nothing() {
    let mut words = three_images();
    let some = [(32, ImageFormat::R8Unorm), (33, ImageFormat::R32ui)];
    assert_eq!(specialize_image_formats(&mut words, &some), Ok(2));
    let before = words.clone();
    assert_eq!(specialize_image_formats(&mut words, &some), Ok(0));
    assert_eq!(words, before);
}

#[test]
fn samplers_come_sorted_and_once() {
    let mut words = header(12);
    words.extend([(3u32 << 16) | 27, 1, 9]);
    words.extend(pointer(2, 1));
    for (id, number) in [(3, 70), (4, 66), (5, 70)] {
        words.extend(variable(2, id));
        words.extend(binding(id, number));
    }
    assert_eq!(sampler_bindings(&words), vec![66, 70]);
}

fn argument(kind: ResourceKind) -> ResourceBinding {
    ResourceBinding {
        kind,
        metal_index: 1,
        descriptor: Some(DescriptorLocation {
            set: 0,
            binding: 33,
        }),
        texture_shape: None,
        access: None,
        has_static_sampler: false,
    }
}

fn shader(bindings: Vec<ResourceBinding>) -> ShaderReflection {
    ShaderReflection {
        reflection_version: REFLECTION_VERSION,
        stage: ShaderStage::Kernel,
        entry_point: None,
        bindings,
        vertex_builtins: None,
        function_constants: vec![],
    }
}

#[test]
fn each_violation_has_its_name() {
    let slugs = |reflection: &ShaderReflection| -> Vec<&'static str> {
        reflection_violations(reflection)
            .iter()
            .map(ReflectionViolation::slug)
            .collect()
    };
    assert!(slugs(&shader(vec![argument(ResourceKind::Texture)])).is_empty());
    let mut old = shader(vec![]);
    old.reflection_version = REFLECTION_VERSION + 1;
    assert_eq!(slugs(&old), vec!["reflection_version_mismatch"]);
    let mut sampler = argument(ResourceKind::StaticSampler);
    assert_eq!(
        slugs(&shader(vec![sampler])),
        vec!["static_sampler_no_state"]
    );
    sampler.has_static_sampler = true;
    assert_eq!(
        slugs(&shader(vec![sampler])),
        vec!["static_sampler_descriptor_out_of_band"]
    );
    sampler.descriptor = None;
    assert_eq!(
        slugs(&shader(vec![sampler])),
        vec!["static_sampler_no_descriptor"]
    );
    // The set that the translator uses is the one that passes.
    sampler.descriptor = Some(DescriptorLocation {
        set: metal2vulkan::reflect::RESOURCE_DESCRIPTOR_SET,
        binding: 65,
    });
    assert!(slugs(&shader(vec![sampler])).is_empty());
    sampler.descriptor = Some(DescriptorLocation {
        set: metal2vulkan::reflect::RESOURCE_DESCRIPTOR_SET + 1,
        binding: 65,
    });
    assert_eq!(
        slugs(&shader(vec![sampler])),
        vec!["static_sampler_descriptor_out_of_band"]
    );
    let mut odd = argument(ResourceKind::Texture);
    odd.has_static_sampler = true;
    odd.descriptor = None;
    odd.access = Some(ResourceAccess::Storage);
    odd.texture_shape = Some(TextureShape {
        dimension: TextureDimension::D2,
        arrayed: false,
        writable: true,
    });
    assert_eq!(
        slugs(&shader(vec![odd])),
        vec![
            "static_sampler_state_on_nonstatic",
            "texture_binding_no_descriptor",
            "kind_writable_disagree",
            "kind_access_disagree",
        ]
    );
}

#[test]
fn sampled_kinds_tell_unsupported_from_absent() {
    let with = |dimension: TextureDimension, arrayed: bool| {
        let mut t = argument(ResourceKind::Texture);
        t.texture_shape = Some(TextureShape {
            dimension,
            arrayed,
            writable: false,
        });
        shader(vec![argument(ResourceKind::Buffer), t])
    };
    assert_eq!(
        reflected_sampled_kind(&with(TextureDimension::Cube, true), 33),
        ReflectedSampledKind::Kind(SampledImageKind::CubeArray)
    );
    assert_eq!(
        reflected_sampled_kind(&with(TextureDimension::Buffer, false), 33),
        ReflectedSampledKind::Unsupported
    );
    assert_eq!(
        reflected_sampled_kind(&with(TextureDimension::D2, false), 34),
        ReflectedSampledKind::Absent
    );
}

#[test]
fn folded_constants_are_listed() {
    let mut r = shader(vec![]);
    assert_eq!(folded_function_constants_line(&r), None);
    r.entry_point = Some("gaussian_blur".to_string());
    r.function_constants = vec![
        FunctionConstant {
            index: 0,
            name: "enable_tap".to_string(),
            value_type: "i1".to_string(),
        },
        FunctionConstant {
            index: 13,
            name: "channel_count".to_string(),
            value_type: "i32".to_string(),
        },
    ];
    assert_eq!(
        folded_function_constants_line(&r).unwrap(),
        "fc_folded_disabled stage=k entry=gaussian_blur count=2 \
         fcs=[0:enable_tap:i1,13:channel_count:i32]"
    );
}
