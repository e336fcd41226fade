//! What the shader translator reports of a module, and how far it can be trusted.
//!
//! The translator's reflection carries the decoded texture shape and access per
//! binding, from the same decoder that writes the image types. The functions here
//! read those facts by descriptor binding, exactly as reflection reports it: the
//! number before any fragment relocation.

use vstd::prelude::*;
use vstd::string::StringExecFns;
use crate::spirv_bind::relocate::{COLOR_INPUT_BINDING_BASE, SAMPLER_BINDING_BASE};
use crate::spirv_bind::samplers::{ascending, insert_ascending};
use crate::text::{decimal, push_decimal};

verus! {

/// Image dimensionality declared by a sampled-image binding.
#[derive(Clone, Copy, Debug, PartialEq, Eq, Structural)]
pub enum SampledImageKind {
    D1,
    D1Array,
    D2,
    D2Array,
    D3,
    Cube,
    CubeArray,
}

/// Sampled-vs-storage class of a texture binding: a writable texture is a storage
/// image, a read or sampled one is a sampled image.
#[derive(Clone, Copy, Debug, PartialEq, Eq, Structural)]
pub enum ImageAccess {
    Sampled,
    Storage,
}

#[derive(Clone, Copy, Debug, PartialEq, Eq, Structural)]
pub enum ShaderStage {
    Vertex,
    Fragment,
    Kernel,
}

#[derive(Clone, Copy, Debug, PartialEq, Eq, Structural)]
pub enum ResourceKind {
    Buffer,
    ThreadgroupBuffer,
    Texture,
    TextureArray,
    StorageImage,
    Sampler,
    StaticSampler,
    ColorInput,
    AccelerationStructureShadow,
    EmbeddedArgBufferTexture,
}

#[derive(Clone, Copy, Debug, PartialEq, Eq, Structural)]
pub enum ResourceAccess {
    ReadOnly,
    ReadWrite,
    Sampled,
    Storage,
}

#[derive(Clone, Copy, Debug, PartialEq, Eq, Structural)]
pub enum TextureDimension {
    D1,
    D2,
    D3,
    Cube,
    Buffer,
}

/// The shape of a texture argument.
#[derive(Clone, Copy, Debug, PartialEq, Eq, Structural)]
pub struct TextureShape {
    pub dimension: TextureDimension,
    pub arrayed: bool,
    pub writable: bool,
}

#[derive(Clone, Copy, Debug, PartialEq, Eq, Structural)]
pub struct DescriptorLocation {
    pub set: u32,
    pub binding: u32,
}

/// One resource argument of a shader.
#[derive(Clone, Copy, Debug, PartialEq, Eq, Structural)]
pub struct ResourceBinding {
    pub kind: ResourceKind,
    pub metal_index: u32,
    pub descriptor: Option<DescriptorLocation>,
    pub texture_shape: Option<TextureShape>,
    pub access: Option<ResourceAccess>,
    /// Decoded sampler state came with the binding.
    pub has_static_sampler: bool,
}

/// The builtins that a vertex stage uses.
#[derive(Clone, Copy, Debug, PartialEq, Eq, Structural)]
pub struct VertexBuiltins {
    pub uses_vertex_index: bool,
    pub uses_instance_index: bool,
    pub writes_position: bool,
}

/// A runtime function constant that a shader declares.
#[derive(Clone, Debug, PartialEq, Eq)]
pub struct FunctionConstant {
    pub index: u32,
    pub name: String,
    pub value_type: String,
}

/// What the translator reports of one shader.
#[derive(Clone, Debug, PartialEq, Eq)]
pub struct ShaderReflection {
    pub reflection_version: u32,
    pub stage: ShaderStage,
    pub entry_point: Option<String>,
    pub bindings: Vec<ResourceBinding>,
    pub vertex_builtins: Option<VertexBuiltins>,
    pub function_constants: Vec<FunctionConstant>,
}

/// How reflection describes a descriptor binding for the sampled render path.
#[derive(Clone, Copy, Debug, PartialEq, Eq, Structural)]
pub enum ReflectedSampledKind {
    /// A sampled dimensionality that the render path can express.
    Kind(SampledImageKind),
    /// A texture shape that the sampled path cannot express: a texel buffer or a
    /// 3D array.
    Unsupported,
    /// No texture shape: an unused or unbound slot.
    Absent,
}

/// The constant `metal2vulkan::reflect::REFLECTION_VERSION`: the reflection ABI
/// that the linked translator emits, which is 2.
#[verifier::external_body]
fn translator_reflection_version() -> (version: u32)
    ensures
        version == expected_reflection_version(),
{
    metal2vulkan::reflect::REFLECTION_VERSION
}

/// The constant `metal2vulkan::reflect::RESOURCE_DESCRIPTOR_SET`: the set that the
/// linked translator puts every resource in, which is 0.
#[verifier::external_body]
fn translator_descriptor_set() -> (set: u32)
    ensures
        set == resource_descriptor_set(),
{
    metal2vulkan::reflect::RESOURCE_DESCRIPTOR_SET
}

/// The reflection ABI version that the translator emits.
pub open spec fn expected_reflection_version() -> u32 {
    2
}

/// The descriptor set of every resource.
pub open spec fn resource_descriptor_set() -> u32 {
    0
}

/// The dimensionality of a shape, where the sampled path can express it.
pub open spec fn sampled_kind_of_shape(shape: TextureShape) -> Option<SampledImageKind> {
    match (shape.dimension, shape.arrayed) {
        (TextureDimension::D1, false) => Some(SampledImageKind::D1),
        (TextureDimension::D1, true) => Some(SampledImageKind::D1Array),
        (TextureDimension::D2, false) => Some(SampledImageKind::D2),
        (TextureDimension::D2, true) => Some(SampledImageKind::D2Array),
        (TextureDimension::D3, false) => Some(SampledImageKind::D3),
        (TextureDimension::Cube, false) => Some(SampledImageKind::Cube),
        (TextureDimension::Cube, true) => Some(SampledImageKind::CubeArray),
        _ => None,
    }
}

/// The resource is described at descriptor `binding` with a texture shape.
pub open spec fn shapes_binding(resource: ResourceBinding, binding: u32) -> bool {
    &&& resource.descriptor is Some
    &&& resource.descriptor->0.binding == binding
    &&& resource.texture_shape is Some
}

/// The shape of the first resource at `binding` that has one.
pub open spec fn shape_at(bindings: Seq<ResourceBinding>, binding: u32) -> Option<TextureShape>
    decreases bindings.len(),
{
    if bindings.len() == 0 {
        None
    } else if shapes_binding(bindings[0], binding) {
        bindings[0].texture_shape
    } else {
        shape_at(bindings.drop_first(), binding)
    }
}

fn sampled_image_kind_from_shape(shape: &TextureShape) -> (kind: Option<SampledImageKind>)
    ensures
        kind == sampled_kind_of_shape(*shape),
{
    match shape.dimension {
        TextureDimension::D1 => if shape.arrayed {
            Some(SampledImageKind::D1Array)
        } else {
            Some(SampledImageKind::D1)
        },
        TextureDimension::D2 => if shape.arrayed {
            Some(SampledImageKind::D2Array)
        } else {
            Some(SampledImageKind::D2)
        },
        TextureDimension::D3 => if shape.arrayed {
            None
        } else {
            Some(SampledImageKind::D3)
        },
        TextureDimension::Cube => if shape.arrayed {
            Some(SampledImageKind::CubeArray)
        } else {
            Some(SampledImageKind::Cube)
        },
        TextureDimension::Buffer => None,
    }
}

fn texture_shape_for_binding(reflection: &ShaderReflection, binding: u32) -> (shape: Option<
    TextureShape,
>)
    ensures
        shape == shape_at(reflection.bindings@, binding),
{
    let mut i: usize = 0;
    assert(reflection.bindings@.skip(0) == reflection.bindings@);
    while i < reflection.bindings.len()
        invariant
            i <= reflection.bindings.len(),
            shape_at(reflection.bindings@, binding) == shape_at(
                reflection.bindings@.skip(i as int),
                binding,
            ),
        decreases reflection.bindings.len() - i,
    {
        let resource = reflection.bindings[i];
        assert(reflection.bindings@.skip(i as int)[0] == resource);
        assert(reflection.bindings@.skip(i as int).drop_first() == reflection.bindings@.skip(
            i + 1,
        ));
        match (resource.descriptor, resource.texture_shape) {
            (Some(descriptor), Some(shape)) => {
                if descriptor.binding == binding {
                    return Some(shape);
                }
            },
            _ => {},
        }
        i = i + 1;
    }
    None
}

/// The texture dimensionality at descriptor `binding`: that of the first resource
/// there with a shape. `None` where there is none, or it cannot be expressed.
pub fn sampled_image_kind_from_reflection(
    reflection: &ShaderReflection,
    binding: u32,
) -> (kind: Option<SampledImageKind>)
    ensures
        kind == match shape_at(reflection.bindings@, binding) {
            Some(shape) => sampled_kind_of_shape(shape),
            None => None,
        },
{
    match texture_shape_for_binding(reflection, binding) {
        Some(shape) => sampled_image_kind_from_shape(&shape),
        None => None,
    }
}

/// Classify descriptor `binding` for the sampled render path.
pub fn reflected_sampled_kind(reflection: &ShaderReflection, binding: u32) -> (kind:
    ReflectedSampledKind)
    ensures
        kind == match shape_at(reflection.bindings@, binding) {
            None => ReflectedSampledKind::Absent,
            Some(shape) => match sampled_kind_of_shape(shape) {
                Some(kind) => ReflectedSampledKind::Kind(kind),
                None => ReflectedSampledKind::Unsupported,
            },
        },
{
    match texture_shape_for_binding(reflection, binding) {
        None => ReflectedSampledKind::Absent,
        Some(shape) => match sampled_image_kind_from_shape(&shape) {
            Some(kind) => ReflectedSampledKind::Kind(kind),
            None => ReflectedSampledKind::Unsupported,
        },
    }
}

/// Sampled-vs-storage class for descriptor `binding`. The declared qualifier is
/// authoritative; `None` where reflection has no texture shape there.
pub fn image_access_from_reflection(reflection: &ShaderReflection, binding: u32) -> (access: Option<
    ImageAccess,
>)
    ensures
        access == match shape_at(reflection.bindings@, binding) {
            Some(shape) => Some(
                if shape.writable {
                    ImageAccess::Storage
                } else {
                    ImageAccess::Sampled
                },
            ),
            None => None,
        },
        access is Some <==> shape_at(reflection.bindings@, binding) is Some,
        access == Some(ImageAccess::Storage) ==> shape_at(reflection.bindings@, binding)->0.writable,
        access == Some(ImageAccess::Sampled) ==> !shape_at(reflection.bindings@, binding)->0.writable,
{
    match texture_shape_for_binding(reflection, binding) {
        Some(shape) => Some(
            if shape.writable {
                ImageAccess::Storage
            } else {
                ImageAccess::Sampled
            },
        ),
        None => None,
    }
}

/// The shader-pulled-vertex gate: the stage writes the position, reads the vertex
/// index, and has at least one buffer to pull from.
pub fn vertex_position_pull_gate(reflection: &ShaderReflection) -> (open: bool)
    ensures
        open == ({
            &&& reflection.vertex_builtins is Some
            &&& reflection.vertex_builtins->0.writes_position
            &&& reflection.vertex_builtins->0.uses_vertex_index
            &&& exists|i: int|
                0 <= i < reflection.bindings.len() && (#[trigger] reflection.bindings[i]).kind
                    == ResourceKind::Buffer
        }),
        open ==> reflection.vertex_builtins is Some
            && reflection.vertex_builtins->0.writes_position
            && reflection.vertex_builtins->0.uses_vertex_index,
{
    let builtins = match reflection.vertex_builtins {
        Some(builtins) => builtins,
        None => {
            return false;
        },
    };
    if !builtins.writes_position || !builtins.uses_vertex_index {
        return false;
    }
    let mut i: usize = 0;
    while i < reflection.bindings.len()
        invariant
            reflection.vertex_builtins == Some(builtins),
            builtins.writes_position && builtins.uses_vertex_index,
            i <= reflection.bindings.len(),
            forall|k: int|
                0 <= k < i ==> (#[trigger] reflection.bindings[k]).kind != ResourceKind::Buffer,
        decreases reflection.bindings.len() - i,
    {
        if reflection.bindings[i].kind == ResourceKind::Buffer {
            assert(reflection.bindings[i as int].kind == ResourceKind::Buffer);
            return true;
        }
        i = i + 1;
    }
    false
}

/// A buffer is described at descriptor `binding` by one of the first `n` resources.
pub open spec fn pulls_from(bindings: Seq<ResourceBinding>, n: int, binding: u32) -> bool {
    exists|i: int|
        0 <= i < n && (#[trigger] bindings[i]).kind == ResourceKind::Buffer
            && bindings[i].descriptor is Some && bindings[i].descriptor->0.binding == binding
}

/// The buffer descriptor bindings that a vertex stage pulls from, ascending.
pub fn vertex_pull_buffer_bindings(reflection: &ShaderReflection) -> (bindings: Vec<u32>)
    ensures
        ascending(bindings@),
        forall|b: u32| #[trigger]
            bindings@.contains(b) <==> pulls_from(
                reflection.bindings@,
                reflection.bindings.len() as int,
                b,
            ),
{
    let mut bindings: Vec<u32> = Vec::new();
    let mut i: usize = 0;
    while i < reflection.bindings.len()
        invariant
            i <= reflection.bindings.len(),
            ascending(bindings@),
            forall|b: u32| #[trigger]
                bindings@.contains(b) <==> pulls_from(reflection.bindings@, i as int, b),
        decreases reflection.bindings.len() - i,
    {
        let resource = reflection.bindings[i];
        let ghost before = bindings@;
        match resource.descriptor {
            Some(descriptor) => {
                if resource.kind == ResourceKind::Buffer {
                    insert_ascending(&mut bindings, descriptor.binding);
                }
            },
            None => {},
        }
        proof {
            assert(reflection.bindings@[i as int] == resource);
            assert forall|b: u32| #[trigger] bindings@.contains(b) <==> pulls_from(
                reflection.bindings@,
                i + 1,
                b,
            ) by {
                assert(before.contains(b) <==> pulls_from(reflection.bindings@, i as int, b));
            }
        }
        i = i + 1;
    }
    bindings
}

/// A way in which a reflection contradicts itself or its ABI.
#[derive(Clone, Copy, Debug, PartialEq, Eq, Structural)]
pub enum ReflectionViolation {
    VersionMismatch { got: u32, want: u32 },
    StaticSamplerNoDescriptor { metal_index: u32 },
    StaticSamplerNoState { binding: u32 },
    StaticSamplerDescriptorOutOfBand { set: u32, binding: u32 },
    StaticSamplerStateOnNonstatic { kind: ResourceKind, metal_index: u32 },
    TextureBindingNoDescriptor { kind: ResourceKind, metal_index: u32 },
    KindWritableDisagree { binding: u32, kind: ResourceKind, writable: bool },
    KindAccessDisagree { binding: u32, kind: ResourceKind, access: Option<ResourceAccess> },
}

impl ReflectionViolation {
    /// The name of the violated check.
    pub fn slug(&self) -> (slug: &'static str)
        ensures
            slug == match self {
                ReflectionViolation::VersionMismatch { .. } => "reflection_version_mismatch",
                ReflectionViolation::StaticSamplerNoDescriptor { .. }
                    => "static_sampler_no_descriptor",
                ReflectionViolation::StaticSamplerNoState { .. } => "static_sampler_no_state",
                ReflectionViolation::StaticSamplerDescriptorOutOfBand { .. }
                    => "static_sampler_descriptor_out_of_band",
                ReflectionViolation::StaticSamplerStateOnNonstatic { .. }
                    => "static_sampler_state_on_nonstatic",
                ReflectionViolation::TextureBindingNoDescriptor { .. }
                    => "texture_binding_no_descriptor",
                ReflectionViolation::KindWritableDisagree { .. } => "kind_writable_disagree",
                ReflectionViolation::KindAccessDisagree { .. } => "kind_access_disagree",
            },
    {
        match self {
            ReflectionViolation::VersionMismatch { .. } => "reflection_version_mismatch",
            ReflectionViolation::StaticSamplerNoDescriptor { .. } => "static_sampler_no_descriptor",
            ReflectionViolation::StaticSamplerNoState { .. } => "static_sampler_no_state",
            ReflectionViolation::StaticSamplerDescriptorOutOfBand { .. }
                => "static_sampler_descriptor_out_of_band",
            ReflectionViolation::StaticSamplerStateOnNonstatic { .. }
                => "static_sampler_state_on_nonstatic",
            ReflectionViolation::TextureBindingNoDescriptor { .. }
                => "texture_binding_no_descriptor",
            ReflectionViolation::KindWritableDisagree { .. } => "kind_writable_disagree",
            ReflectionViolation::KindAccessDisagree { .. } => "kind_access_disagree",
        }
    }
}

pub open spec fn is_texture_family(kind: ResourceKind) -> bool {
    ||| kind == ResourceKind::Texture
    ||| kind == ResourceKind::TextureArray
    ||| kind == ResourceKind::StorageImage
    ||| kind == ResourceKind::EmbeddedArgBufferTexture
}

/// A list of one violation where it holds, else none.
pub open spec fn violation_if(
    holds: bool,
    violation: ReflectionViolation,
) -> Seq<ReflectionViolation> {
    if holds {
        seq![violation]
    } else {
        seq![]
    }
}

/// A static sampler carries decoded state and a set-0 descriptor in the sampler band.
pub open spec fn static_sampler_violations(b: ResourceBinding) -> Seq<ReflectionViolation> {
    match b.descriptor {
        None => seq![
            ReflectionViolation::StaticSamplerNoDescriptor { metal_index: b.metal_index },
        ],
        Some(d) => if !b.has_static_sampler {
            seq![ReflectionViolation::StaticSamplerNoState { binding: d.binding }]
        } else {
            violation_if(
                d.set != resource_descriptor_set() || !(SAMPLER_BINDING_BASE <= d.binding
                    < COLOR_INPUT_BINDING_BASE),
                ReflectionViolation::StaticSamplerDescriptorOutOfBand {
                    set: d.set,
                    binding: d.binding,
                },
            )
        },
    }
}

/// A texture carries a descriptor, and its kind, shape and access agree on
/// whether it is a storage image.
pub open spec fn texture_violations(b: ResourceBinding) -> Seq<ReflectionViolation> {
    let binding = match b.descriptor {
        Some(d) => d.binding,
        None => 0,
    };
    let storage = b.kind == ResourceKind::StorageImage;
    violation_if(
        b.descriptor is None,
        ReflectionViolation::TextureBindingNoDescriptor {
            kind: b.kind,
            metal_index: b.metal_index,
        },
    ) + match b.texture_shape {
        Some(shape) => violation_if(
            shape.writable != storage,
            ReflectionViolation::KindWritableDisagree {
                binding,
                kind: b.kind,
                writable: shape.writable,
            },
        ),
        None => seq![],
    } + violation_if(
        (b.access == Some(ResourceAccess::Storage) && !storage) || (b.access == Some(
            ResourceAccess::Sampled,
        ) && storage),
        ReflectionViolation::KindAccessDisagree { binding, kind: b.kind, access: b.access },
    )
}

/// What is wrong with one resource.
pub open spec fn binding_violations(b: ResourceBinding) -> Seq<ReflectionViolation> {
    if b.kind == ResourceKind::StaticSampler {
        static_sampler_violations(b)
    } else {
        violation_if(
            b.has_static_sampler,
            ReflectionViolation::StaticSamplerStateOnNonstatic {
                kind: b.kind,
                metal_index: b.metal_index,
            },
        ) + if is_texture_family(b.kind) {
            texture_violations(b)
        } else {
            seq![]
        }
    }
}

/// What is wrong with the first `n` resources, in order.
pub open spec fn bindings_violations(bindings: Seq<ResourceBinding>, n: int) -> Seq<
    ReflectionViolation,
>
    decreases n,
{
    if n <= 0 {
        seq![]
    } else {
        bindings_violations(bindings, n - 1) + binding_violations(bindings[n - 1])
    }
}

/// What is wrong with a reflection.
pub open spec fn violations(reflection: ShaderReflection) -> Seq<ReflectionViolation> {
    violation_if(
        reflection.reflection_version != expected_reflection_version(),
        ReflectionViolation::VersionMismatch {
            got: reflection.reflection_version,
            want: expected_reflection_version(),
        },
    ) + bindings_violations(reflection.bindings@, reflection.bindings.len() as int)
}

fn note_binding(out: &mut Vec<ReflectionViolation>, b: ResourceBinding, set: u32)
    requires
        set == resource_descriptor_set(),
    ensures
        final(out)@ == old(out)@ + binding_violations(b),
{
    if b.kind == ResourceKind::StaticSampler {
        match b.descriptor {
            None => {
                out.push(
                    ReflectionViolation::StaticSamplerNoDescriptor { metal_index: b.metal_index },
                );
            },
            Some(d) => {
                if !b.has_static_sampler {
                    out.push(ReflectionViolation::StaticSamplerNoState { binding: d.binding });
                } else if d.set != set || d.binding < SAMPLER_BINDING_BASE || d.binding
                    >= COLOR_INPUT_BINDING_BASE {
                    out.push(
                        ReflectionViolation::StaticSamplerDescriptorOutOfBand {
                            set: d.set,
                            binding: d.binding,
                        },
                    );
                }
            },
        }
        assert(out@ =~= old(out)@ + binding_violations(b));
        return ;
    }
    if b.has_static_sampler {
        out.push(
            ReflectionViolation::StaticSamplerStateOnNonstatic {
                kind: b.kind,
                metal_index: b.metal_index,
            },
        );
    }
    let texture_family = b.kind == ResourceKind::Texture || b.kind == ResourceKind::TextureArray
        || b.kind == ResourceKind::StorageImage || b.kind == ResourceKind::EmbeddedArgBufferTexture;
    if texture_family {
        let binding: u32 = match b.descriptor {
            Some(d) => d.binding,
            None => {
                out.push(
                    ReflectionViolation::TextureBindingNoDescriptor {
                        kind: b.kind,
                        metal_index: b.metal_index,
                    },
                );
                0
            },
        };
        let storage = b.kind == ResourceKind::StorageImage;
        match b.texture_shape {
            Some(shape) => {
                if shape.writable != storage {
                    out.push(
                        ReflectionViolation::KindWritableDisagree {
                            binding,
                            kind: b.kind,
                            writable: shape.writable,
                        },
                    );
                }
            },
            None => {},
        }
        let disagrees = match b.access {
            Some(ResourceAccess::Storage) => !storage,
            Some(ResourceAccess::Sampled) => storage,
            _ => false,
        };
        if disagrees {
            out.push(
                ReflectionViolation::KindAccessDisagree { binding, kind: b.kind, access: b.access },
            );
        }
    }
    assert(out@ =~= old(out)@ + binding_violations(b));
}

/// Every violation in a reflection, in the order of its resources.
pub fn reflection_violations(reflection: &ShaderReflection) -> (found: Vec<ReflectionViolation>)
    ensures
        found@ == violations(*reflection),
{
    let mut found: Vec<ReflectionViolation> = Vec::new();
    let want: u32 = translator_reflection_version();
    let set: u32 = translator_descriptor_set();
    if reflection.reflection_version != want {
        found.push(
            ReflectionViolation::VersionMismatch { got: reflection.reflection_version, want },
        );
    }
    let ghost head = found@;
    let mut i: usize = 0;
    assert(found@ =~= head + bindings_violations(reflection.bindings@, 0));
    while i < reflection.bindings.len()
        invariant
            set == resource_descriptor_set(),
            i <= reflection.bindings.len(),
            found@ == head + bindings_violations(reflection.bindings@, i as int),
        decreases reflection.bindings.len() - i,
    {
        note_binding(&mut found, reflection.bindings[i], set);
        i = i + 1;
        assert(found@ =~= head + bindings_violations(reflection.bindings@, i as int));
    }
    assert(found@ =~= violations(*reflection));
    found
}

/// Validate that a reflection is internally well-formed: its ABI version is the
/// translator's, static samplers carry state and stay in their band, textures
/// carry descriptors, and the three encodings of sampled-vs-storage agree.
///
/// Returns the number of violations, none on a healthy reflection. The pipeline
/// number only names the shader in what a caller logs.
pub fn census_reflection_wellformed(reflection: &ShaderReflection, _pipeline_ref: u32) -> (bad:
    usize)
    ensures
        bad == violations(*reflection).len(),
{
    reflection_violations(reflection).len()
}

/// The letter of a stage in log lines.
pub open spec fn stage_letter(stage: ShaderStage) -> &'static str {
    match stage {
        ShaderStage::Vertex => "v",
        ShaderStage::Fragment => "f",
        ShaderStage::Kernel => "k",
    }
}

/// The entry name in log lines: a question mark where there is none.
pub open spec fn entry_name(entry: Option<String>) -> Seq<char> {
    match entry {
        Some(name) => name@,
        None => "?"@,
    }
}

/// The inventory of the first `n` function constants: `index:name:type`, by commas.
pub open spec fn inventory(constants: Seq<FunctionConstant>, n: int) -> Seq<char>
    decreases n,
{
    if n <= 0 {
        seq![]
    } else {
        let c = constants[n - 1];
        inventory(constants, n - 1) + (if n == 1 {
            seq![]
        } else {
            ","@
        }) + decimal(c.index as nat) + ":"@ + c.name@ + ":"@ + c.value_type@
    }
}

/// The line that reports folded function constants.
pub open spec fn folded_line(reflection: ShaderReflection) -> Seq<char> {
    let constants = reflection.function_constants@;
    "fc_folded_disabled stage="@ + stage_letter(reflection.stage)@ + " entry="@ + entry_name(
        reflection.entry_point,
    ) + " count="@ + decimal(constants.len()) + " fcs=["@ + inventory(
        constants,
        constants.len() as int,
    ) + "]"@
}

/// The line that reports a shader's runtime function constants, where it has any.
///
/// The translator folds every function constant to its disabled default, so such
/// a shader always runs as its disabled variant; the line makes that measurable.
pub fn folded_function_constants_line(reflection: &ShaderReflection) -> (line: Option<String>)
    ensures
        line is Some <==> reflection.function_constants.len() > 0,
        line is Some ==> line->0@ == folded_line(*reflection),
{
    let n: usize = reflection.function_constants.len();
    if n == 0 {
        return None;
    }
    let mut line = String::new();
    line.append("fc_folded_disabled stage=");
    let letter = match reflection.stage {
        ShaderStage::Vertex => "v",
        ShaderStage::Fragment => "f",
        ShaderStage::Kernel => "k",
    };
    line.append(letter);
    line.append(" entry=");
    match &reflection.entry_point {
        Some(name) => line.append(name.as_str()),
        None => line.append("?"),
    }
    line.append(" count=");
    push_decimal(&mut line, n as u64);
    line.append(" fcs=[");
    let ghost head = line@;
    let mut i: usize = 0;
    assert(line@ =~= head + inventory(reflection.function_constants@, 0));
    while i < n
        invariant
            n == reflection.function_constants.len(),
            i <= n,
            line@ == head + inventory(reflection.function_constants@, i as int),
        decreases n - i,
    {
        let ghost before = line@;
        if i != 0 {
            line.append(",");
        }
        push_decimal(&mut line, reflection.function_constants[i].index as u64);
        line.append(":");
        line.append(reflection.function_constants[i].name.as_str());
        line.append(":");
        line.append(reflection.function_constants[i].value_type.as_str());
        i = i + 1;
        assert(line@ =~= head + inventory(reflection.function_constants@, i as int));
    }
    line.append("]");
    assert(line@ =~= folded_line(*reflection));
    Some(line)
}

/// How many runtime function constants a shader reports; none is silent.
pub fn log_folded_function_constants(reflection: &ShaderReflection) -> (reported: usize)
    ensures
        reported == reflection.function_constants.len(),
{
    reflection.function_constants.len()
}

} // verus!
