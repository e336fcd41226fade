//! What a shader's reflection says, and what is wrong with one.

use vstd::prelude::*;
use crate::spirv_bind::reflection::{
    FunctionConstant, ReflectionViolation, ResourceAccess, ResourceBinding, ResourceKind,
    SampledImageKind, ShaderReflection, TextureDimension, TextureShape, binding_violations,
    bindings_violations, entry_name, folded_line, inventory, pulls_from, sampled_kind_of_shape,
    shape_at, stage_letter, violations,
};
use crate::text::decimal;

verus! {

/// The resource has a texture shape at the binding.
pub open spec fn has_shape(resource: ResourceBinding, binding: u32) -> bool {
    &&& resource.descriptor is Some
    &&& (resource.descriptor->0).binding == binding
    &&& resource.texture_shape is Some
}

/// The shape at a binding is that of the first resource that has one there.
pub proof fn law_first_shape_counts(bindings: Seq<ResourceBinding>, binding: u32)
    ensures
        match shape_at(bindings, binding) {
            Some(shape) => exists|i: int|
                0 <= i < bindings.len() && has_shape(#[trigger] bindings[i], binding)
                    && bindings[i].texture_shape == Some(shape) && forall|k: int|
                    0 <= k < i ==> !has_shape(#[trigger] bindings[k], binding),
            None => forall|k: int|
                0 <= k < bindings.len() ==> !has_shape(#[trigger] bindings[k], binding),
        },
    decreases bindings.len(),
{
    if bindings.len() > 0 {
        let rest = bindings.drop_first();
        law_first_shape_counts(rest, binding);
        assert forall|k: int| 0 <= k < rest.len() implies rest[k]
            == #[trigger] bindings[k + 1] by {}
        if has_shape(bindings[0], binding) {
            assert(shape_at(bindings, binding) == bindings[0].texture_shape);
        } else {
            match shape_at(rest, binding) {
                Some(shape) => {
                    let i = choose|i: int|
                        0 <= i < rest.len() && has_shape(#[trigger] rest[i], binding)
                            && rest[i].texture_shape == Some(shape) && forall|k: int|
                            0 <= k < i ==> !has_shape(#[trigger] rest[k], binding);
                    assert(bindings[i + 1] == rest[i]);
                    assert forall|k: int| 0 <= k < i + 1 implies !has_shape(
                        #[trigger] bindings[k],
                        binding,
                    ) by {
                        if k > 0 {
                            assert(rest[k - 1] == bindings[k]);
                        }
                    }
                },
                None => {
                    assert forall|k: int| 0 <= k < bindings.len() implies !has_shape(
                        #[trigger] bindings[k],
                        binding,
                    ) by {
                        if k > 0 {
                            assert(rest[k - 1] == bindings[k]);
                        }
                    }
                },
            }
        }
    }
}

/// The dimensions of a sampled image, and whether it is a layered one.
pub open spec fn is_sampled_as(
    kind: SampledImageKind,
    dimension: TextureDimension,
    arrayed: bool,
) -> bool {
    match kind {
        SampledImageKind::D1 => dimension is D1 && !arrayed,
        SampledImageKind::D1Array => dimension is D1 && arrayed,
        SampledImageKind::D2 => dimension is D2 && !arrayed,
        SampledImageKind::D2Array => dimension is D2 && arrayed,
        SampledImageKind::D3 => dimension is D3 && !arrayed,
        SampledImageKind::Cube => dimension is Cube && !arrayed,
        SampledImageKind::CubeArray => dimension is Cube && arrayed,
    }
}

/// A shape is sampled in its own dimensions; texel buffers and layered volumes are not.
pub proof fn law_sampled_shapes(shape: TextureShape)
    ensures
        sampled_kind_of_shape(shape) is Some ==> is_sampled_as(
            sampled_kind_of_shape(shape)->0,
            shape.dimension,
            shape.arrayed,
        ),
        sampled_kind_of_shape(shape) is None <==> shape.dimension is Buffer || (shape.dimension is D3
            && shape.arrayed),
{
}

/// What is wrong with one resource.
pub open spec fn is_wrong(b: ResourceBinding, v: ReflectionViolation) -> bool {
    let fixed = b.kind is StaticSampler;
    let texture = b.kind is Texture || b.kind is TextureArray || b.kind is StorageImage
        || b.kind is EmbeddedArgBufferTexture;
    let place = if b.descriptor is Some {
        (b.descriptor->0).binding
    } else {
        0
    };
    match v {
        ReflectionViolation::VersionMismatch { .. } => false,
        ReflectionViolation::StaticSamplerNoDescriptor { metal_index } => fixed && b.descriptor
            is None && metal_index == b.metal_index,
        ReflectionViolation::StaticSamplerNoState { binding } => fixed && b.descriptor is Some
            && !b.has_static_sampler && binding == place,
        ReflectionViolation::StaticSamplerDescriptorOutOfBand { set, binding } => fixed
            && b.descriptor is Some && b.has_static_sampler && set == (b.descriptor->0).set && binding
            == place && (set > 0 || binding < 64 || binding >= 96),
        ReflectionViolation::StaticSamplerStateOnNonstatic { kind, metal_index } => !fixed
            && b.has_static_sampler && kind == b.kind && metal_index == b.metal_index,
        ReflectionViolation::TextureBindingNoDescriptor { kind, metal_index } => texture
            && b.descriptor is None && kind == b.kind && metal_index == b.metal_index,
        ReflectionViolation::KindWritableDisagree { binding, kind, writable } => texture
            && b.texture_shape is Some && writable == (b.texture_shape->0).writable && kind == b.kind
            && binding == place && (writable <==> !(b.kind is StorageImage)),
        ReflectionViolation::KindAccessDisagree { binding, kind, access } => texture && access
            == b.access && kind == b.kind && binding == place && ((b.access == Some(
            ResourceAccess::Storage,
        ) && !(b.kind is StorageImage)) || (b.access == Some(ResourceAccess::Sampled)
            && b.kind is StorageImage)),
    }
}

proof fn lemma_wrong(b: ResourceBinding, v: ReflectionViolation)
    ensures
        binding_violations(b).contains(v) <==> is_wrong(b, v),
{
    let found = binding_violations(b);
    if is_wrong(b, v) {
        if found.len() > 0 && found[0] == v {
            assert(found.contains(v));
        } else if found.len() > 1 && found[1] == v {
            assert(found.contains(v));
        } else if found.len() > 2 && found[2] == v {
            assert(found.contains(v));
        } else if found.len() > 3 && found[3] == v {
            assert(found.contains(v));
        }
    }
}

/// A reflection is found wrong of another version than 2, and of whatever is wrong with
/// one of its resources: a static sampler without a descriptor, without its state, or
/// outside set 0 and the band from 64 to below 96; a sampler state elsewhere; a texture
/// without a descriptor, or one whose kind disagrees with its shape or its access. Nothing
/// else is found.
pub proof fn law_what_is_wrong_with_a_reflection(
    reflection: ShaderReflection,
    v: ReflectionViolation,
)
    ensures
        violations(reflection).contains(v) <==> {
            ||| reflection.reflection_version != 2 && v == (ReflectionViolation::VersionMismatch {
                got: reflection.reflection_version,
                want: 2,
            })
            ||| exists|i: int|
                0 <= i < reflection.bindings.len() && is_wrong(
                    #[trigger] reflection.bindings@[i],
                    v,
                )
        },
{
    let n = reflection.bindings.len() as int;
    lemma_all_wrong(reflection.bindings@, n, v);
    let rest = bindings_violations(reflection.bindings@, n);
    let all = violations(reflection);
    if reflection.reflection_version != 2 {
        assert(all.len() == rest.len() + 1);
        assert(all[0] == (ReflectionViolation::VersionMismatch {
            got: reflection.reflection_version,
            want: 2,
        }));
        assert forall|i: int| 0 <= i < rest.len() implies #[trigger] all[i + 1] == rest[i] by {}
        if rest.contains(v) {
            let i = choose|i: int| 0 <= i < rest.len() && rest[i] == v;
            assert(all[i + 1] == v);
        }
        if all.contains(v) && v != all[0] {
            let i = choose|i: int| 0 <= i < all.len() && all[i] == v;
            assert(rest[i - 1] == v);
        }
    } else {
        assert(all =~= rest);
    }
}

proof fn lemma_all_wrong(bindings: Seq<ResourceBinding>, n: int, v: ReflectionViolation)
    requires
        0 <= n <= bindings.len(),
    ensures
        bindings_violations(bindings, n).contains(v) <==> exists|i: int|
            0 <= i < n && is_wrong(#[trigger] bindings[i], v),
    decreases n,
{
    if n > 0 {
        lemma_all_wrong(bindings, n - 1, v);
        lemma_wrong(bindings[n - 1], v);
        let rest = bindings_violations(bindings, n - 1);
        let own = binding_violations(bindings[n - 1]);
        let all = rest + own;
        if rest.contains(v) {
            let i = choose|i: int| 0 <= i < rest.len() && rest[i] == v;
            assert(all[i] == v);
        }
        if own.contains(v) {
            let i = choose|i: int| 0 <= i < own.len() && own[i] == v;
            assert(all[rest.len() + i] == v);
        }
        if all.contains(v) {
            let i = choose|i: int| 0 <= i < all.len() && all[i] == v;
            if i < rest.len() {
                assert(rest[i] == v);
            } else {
                assert(own[i - rest.len()] == v);
            }
        }
    }
}

/// Vertices are pulled from the buffers that have a descriptor, at its binding.
pub proof fn law_vertices_are_pulled_from_buffers(
    bindings: Seq<ResourceBinding>,
    n: int,
    binding: u32,
    i: int,
)
    requires
        0 <= i < n <= bindings.len(),
    ensures
        bindings[i].kind is Buffer && bindings[i].descriptor is Some
            && (bindings[i].descriptor->0).binding == binding ==> pulls_from(bindings, n, binding),
        pulls_from(bindings, n, binding) ==> exists|k: int|
            0 <= k < n && (#[trigger] bindings[k]).kind is Buffer && bindings[k].descriptor is Some
                && (bindings[k].descriptor->0).binding == binding,
{
    if pulls_from(bindings, n, binding) {
        let k = choose|k: int|
            0 <= k < n && (#[trigger] bindings[k]).kind == ResourceKind::Buffer
                && bindings[k].descriptor is Some && bindings[k].descriptor->0.binding == binding;
        assert(bindings[k].kind is Buffer);
    }
}

/// A constant is told by its index, name and type, behind the ones before it.
pub proof fn law_constants_are_told(constants: Seq<FunctionConstant>, n: int)
    requires
        0 <= n < constants.len(),
    ensures
        inventory(constants, 0).len() == 0,
        ({
            let c = constants[n];
            let one = decimal(c.index as nat) + ":"@ + c.name@ + ":"@ + c.value_type@;
            &&& n == 0 ==> inventory(constants, n + 1) == one
            &&& n > 0 ==> inventory(constants, n + 1) == inventory(constants, n) + ","@ + one
        }),
{
    let c = constants[n];
    let one = decimal(c.index as nat) + ":"@ + c.name@ + ":"@ + c.value_type@;
    if n == 0 {
        assert(inventory(constants, n) =~= Seq::empty());
        assert(inventory(constants, n + 1) =~= one);
    } else {
        assert(inventory(constants, n + 1) =~= inventory(constants, n) + ","@ + one);
    }
}

/// The line names the stage by its letter, then the entry, the number of constants, and the
/// constants.
pub proof fn law_folded_lines(reflection: ShaderReflection)
    ensures
        reflection.stage is Vertex ==> stage_letter(reflection.stage) == "v",
        reflection.stage is Fragment ==> stage_letter(reflection.stage) == "f",
        reflection.stage is Kernel ==> stage_letter(reflection.stage) == "k",
        entry_name(None) == "?"@,
        reflection.entry_point is Some ==> entry_name(reflection.entry_point)
            == reflection.entry_point->0@,
        ({
            let head = "fc_folded_disabled stage="@ + stage_letter(reflection.stage)@ + " entry="@
                + entry_name(reflection.entry_point) + " count="@ + decimal(
                reflection.function_constants@.len(),
            ) + " fcs=["@;
            let line = folded_line(reflection);
            let told = inventory(
                reflection.function_constants@,
                reflection.function_constants@.len() as int,
            );
            &&& line.len() == head.len() + told.len() + 1
            &&& line.take(head.len() as int) == head
            &&& line.subrange(head.len() as int, (head.len() + told.len()) as int) == told
            &&& line.last() == ']'
        }),
{
    reveal_strlit("]");
    let head = "fc_folded_disabled stage="@ + stage_letter(reflection.stage)@ + " entry="@
        + entry_name(reflection.entry_point) + " count="@ + decimal(
        reflection.function_constants@.len(),
    ) + " fcs=["@;
    let line = folded_line(reflection);
    let told = inventory(
        reflection.function_constants@,
        reflection.function_constants@.len() as int,
    );
    assert(line =~= head + told + "]"@);
    assert(line.take(head.len() as int) =~= head);
    assert(line.subrange(head.len() as int, (head.len() + told.len()) as int) =~= told);
}

} // verus!
