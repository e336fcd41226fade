//! What a dispatch on a Metal device waits for, and what its backend is handed.

use vstd::prelude::*;
use crate::compute_exec::accum::{AccumView, ComputeSamplerBind};
use crate::compute_exec::buffers::{
    ComputeStageInputDescriptor, StageInputAttribute, StageInputLayout,
};
use crate::compute_exec::dims_laws::{lemma_word, word_at};
use crate::compute_exec::metal::{
    MetalSampler, SamplerDescriptor, SamplerLookup, TextureAccess, reflected_access, sampler_of,
    storage_only,
};
use crate::compute_exec::metal_dispatch::{
    MetalImage, MetalPhase, MetalView, all_selected, image_at, images_of, laid_out,
    law_every_texture_is_handed_over, region_of,
};
use crate::compute_exec::status::ComputeStatus;
use crate::compute_exec::texture::{StagedTexture, StagedView};

verus! {

/// A region's arguments are six numbers in order: the origin, then the size.
pub proof fn law_region_arguments(raw: Seq<u8>)
    ensures
        region_of(raw).origin_x == word_at(raw, 0),
        region_of(raw).origin_y == word_at(raw, 4),
        region_of(raw).origin_z == word_at(raw, 8),
        region_of(raw).size_x == word_at(raw, 12),
        region_of(raw).size_y == word_at(raw, 16),
        region_of(raw).size_z == word_at(raw, 20),
{
    lemma_word(raw, 0);
    lemma_word(raw, 4);
    lemma_word(raw, 8);
    lemma_word(raw, 12);
    lemma_word(raw, 16);
    lemma_word(raw, 20);
}

/// The stage input is laid out in 31 rows of each table: its own attributes and layouts
/// first, then rows of zeroes.
pub proof fn law_stage_input_rows(si: ComputeStageInputDescriptor, i: int)
    requires
        0 <= i < 31,
    ensures
        ({
            let out = laid_out(Some(si));
            let t = out->0;
            &&& out is Some
            &&& (t.word0, t.header0, t.header1) == (si.word0, si.header0, si.header1)
            &&& (t.index_type, t.index_buffer_index) == (si.index_type, si.index_buffer_index)
            &&& si.attributes.len() < 0x1_0000_0000 ==> t.attribute_count == si.attributes.len()
            &&& si.layouts.len() < 0x1_0000_0000 ==> t.layout_count == si.layouts.len()
            &&& t.attributes.len() == 31
            &&& t.layouts.len() == 31
            &&& i < si.attributes.len() ==> t.attributes[i] == si.attributes[i]
            &&& i >= si.attributes.len() ==> t.attributes[i] == (StageInputAttribute {
                raw_bits: 0,
                location: 0,
                format: 0,
                offset: 0,
                buffer_index: 0,
            })
            &&& i < si.layouts.len() ==> t.layouts[i] == si.layouts[i]
            &&& i >= si.layouts.len() ==> t.layouts[i] == (StageInputLayout {
                raw_bits: 0,
                buffer_index: 0,
                step_function: 0,
                step_rate: 0,
                stride: 0,
            })
        }),
        laid_out(None) is None,
{
}

/// A texture is used as the first usage of its binding says; one that is not reflected may
/// be read and written.
pub proof fn law_first_usage_counts(
    usages: Seq<(u32, TextureAccess)>,
    i: int,
    binding: u32,
)
    requires
        0 <= i <= usages.len(),
    ensures
        ({
            ||| reflected_access(usages, i, binding) is ReadWrite && forall|j: int|
                i <= j < usages.len() ==> (#[trigger] usages[j]).0 != binding
            ||| exists|k: int|
                i <= k < usages.len() && #[trigger] usages[k] == (
                    binding,
                    reflected_access(usages, i, binding),
                ) && forall|j: int| i <= j < k ==> (#[trigger] usages[j]).0 != binding
        }),
    decreases usages.len() - i,
{
    if i < usages.len() {
        if usages[i].0 == binding {
            assert(usages[i] == (binding, reflected_access(usages, i, binding)));
        } else {
            law_first_usage_counts(usages, i + 1, binding);
            let access = reflected_access(usages, i + 1, binding);
            if exists|k: int|
                i + 1 <= k < usages.len() && #[trigger] usages[k] == (binding, access)
                    && forall|j: int| i + 1 <= j < k ==> (#[trigger] usages[j]).0 != binding {
                let k = choose|k: int|
                    i + 1 <= k < usages.len() && #[trigger] usages[k] == (binding, access)
                        && forall|j: int| i + 1 <= j < k ==> (#[trigger] usages[j]).0 != binding;
                assert(usages[k] == (binding, access));
            }
        }
    }
}

/// A sampler stands 64 bindings up, with its descriptor's modes; the bind's own clamp goes
/// before the descriptor's, and no anisotropy is an anisotropy of one.
pub proof fn law_samplers_are_their_descriptors(bind: ComputeSamplerBind, d: SamplerDescriptor)
    requires
        bind.index <= 0xffff_ffff - 64,
    ensures
        match sampler_of(bind, SamplerLookup::Decoded(d)) {
            Err(_) => false,
            Ok(s) => {
                &&& s.binding == bind.index + 64
                &&& s.unnormalized <==> !d.normalized_coordinates
                &&& (s.min_filter, s.mag_filter, s.mip_filter) == (
                    d.min_filter,
                    d.mag_filter,
                    d.mip_filter,
                )
                &&& (s.s_address_mode, s.t_address_mode, s.r_address_mode) == (
                    d.s_address,
                    d.t_address,
                    d.r_address,
                )
                &&& s.border_color == d.border_color
                &&& s.compare_function == d.compare_function
                &&& bind.has_lod_clamp ==> (s.lod_min_bits, s.lod_max_bits) == (
                    bind.lod_min_bits,
                    bind.lod_max_bits,
                )
                &&& !bind.has_lod_clamp ==> (s.lod_min_bits, s.lod_max_bits) == (
                    d.lod_min_bits,
                    d.lod_max_bits,
                )
                &&& d.max_anisotropy > 0 ==> s.max_anisotropy == d.max_anisotropy
                &&& d.max_anisotropy == 0 ==> s.max_anisotropy == 1
                &&& s.lod_average == d.lod_average
                &&& s.support_argument_buffers == d.support_argument_buffers
            },
        },
{
}

/// A sampler without a descriptor is missing.
pub proof fn law_missing_samplers(bind: ComputeSamplerBind, lookup: SamplerLookup)
    ensures
        lookup is NoEntry ==> sampler_of(bind, lookup) == Err::<MetalSampler, ComputeStatus>(
            ComputeStatus::MissingSampler("compute_mtl_sampler_no_entry"),
        ),
        lookup is WrongType ==> sampler_of(bind, lookup) == Err::<MetalSampler, ComputeStatus>(
            ComputeStatus::MissingSampler("compute_mtl_sampler_wrong_type"),
        ),
        lookup is NoDescriptor ==> sampler_of(bind, lookup) == Err::<MetalSampler, ComputeStatus>(
            ComputeStatus::MissingSampler("compute_mtl_sampler_no_desc"),
        ),
        lookup is BadTag ==> sampler_of(bind, lookup) == Err::<MetalSampler, ComputeStatus>(
            ComputeStatus::MissingSampler("compute_mtl_sampler_bad_tag"),
        ),
        lookup is Undecoded ==> sampler_of(bind, lookup) == Err::<MetalSampler, ComputeStatus>(
            ComputeStatus::MissingSampler("compute_mtl_sampler_decode"),
        ),
{
}

/// A nested job keeps the textures that are stored to, in their order.
pub proof fn law_jobs_keep_storage_textures(textures: Seq<StagedTexture>, t: StagedTexture)
    ensures
        storage_only(textures).contains(t) <==> textures.contains(t) && t.is_storage,
        storage_only(textures.push(t)) == if t.is_storage {
            storage_only(textures).push(t)
        } else {
            storage_only(textures)
        },
    decreases textures.len(),
{
    reveal(Seq::filter);
    assert(textures.push(t).drop_last() =~= textures);
    if textures.len() > 0 {
        let rest = textures.drop_last();
        let last = textures.last();
        law_jobs_keep_storage_textures(rest, t);
        let kept = storage_only(rest);
        if textures.contains(t) && t != last {
            let i = choose|i: int| 0 <= i < textures.len() && textures[i] == t;
            assert(rest[i] == t);
        }
        if rest.contains(t) {
            let i = choose|i: int| 0 <= i < rest.len() && rest[i] == t;
            assert(textures[i] == t);
        }
        let more = kept.push(last);
        assert(more[kept.len() as int] == last);
        assert(textures[textures.len() - 1] == last);
        if kept.contains(t) {
            let i = choose|i: int| 0 <= i < kept.len() && kept[i] == t;
            assert(more[i] == t);
        }
        if more.contains(t) && t != last {
            let i = choose|i: int| 0 <= i < more.len() && more[i] == t;
            assert(kept[i] == t);
        }
    }
}

/// The image hands over the texture: its place, binding, format and extent.
pub open spec fn hands_over(image: MetalImage, textures: Seq<StagedView>, i: int) -> bool {
    &&& image.texture == i
    &&& image.binding == textures[i].binding
    &&& textures[i].storage_selector == Some(image.format)
    &&& (image.width, image.height) == (textures[i].width, textures[i].height)
}

/// The backend gets an image for every texture, among the storage images where it is stored
/// to and among the sampled ones where it is not; a texture without a format refuses all.
pub proof fn law_backends_get_every_texture(m: MetalView, i: int)
    requires
        0 <= i < m.textures.len() <= usize::MAX,
    ensures
        ({
            let after = m.to_encode();
            let selected = forall|j: int|
                0 <= j < m.textures.len() ==> (#[trigger] m.textures[j]).storage_selector is Some;
            &&& !selected ==> after.phase == MetalPhase::Done(
                ComputeStatus::Unsupported("metal_no_backend_selector"),
            )
            &&& selected ==> {
                &&& after.phase == MetalPhase::Encode
                &&& after.storage.len() + after.sampled.len() == m.textures.len()
                &&& m.textures[i].is_storage ==> exists|k: int|
                    0 <= k < after.storage.len() && hands_over(
                        #[trigger] after.storage[k],
                        m.textures,
                        i,
                    )
                &&& !m.textures[i].is_storage ==> exists|k: int|
                    0 <= k < after.sampled.len() && hands_over(
                        #[trigger] after.sampled[k],
                        m.textures,
                        i,
                    )
            }
            &&& after.textures == m.textures
            &&& after.buffers == m.buffers
            &&& after.samplers == m.samplers
        }),
{
    let n = m.textures.len() as int;
    law_every_texture_is_handed_over(m.textures, n);
    let own = images_of(m.textures, m.textures[i].is_storage, n);
    if all_selected(m.textures) {
        assert(own.contains(image_at(m.textures, i)));
        let k = choose|k: int| 0 <= k < own.len() && own[k] == image_at(m.textures, i);
        assert(hands_over(own[k], m.textures, i));
    }
}

/// Buffers come first, then what is reflected of the textures where there are any, then the
/// textures, then the samplers, then the run.
pub proof fn law_binds_come_in_turn(m: MetalView, accum: AccumView, index: usize)
    ensures
        index < accum.buffers.len() ==> m.to_buffer(accum, index as int).phase == (
        MetalPhase::Buffer { index }),
        index >= accum.buffers.len() && accum.textures.len() > 0 ==> m.to_buffer(
            accum,
            index as int,
        ).phase == MetalPhase::Reflection,
        index >= accum.buffers.len() && accum.textures.len() == 0 ==> m.to_buffer(
            accum,
            index as int,
        ) == m.to_sampler(accum, 0),
        index >= accum.textures.len() ==> m.to_texture(accum, index as int) == m.to_sampler(
            accum,
            0,
        ),
        index < accum.samplers.len() ==> m.to_sampler(accum, index as int).phase == (
        MetalPhase::Sampler { index }),
        index >= accum.samplers.len() ==> m.to_sampler(accum, index as int) == m.to_encode(),
{
}

/// Texture `index` stands 32 bindings up from its index, stored to unless it is only read.
pub proof fn law_textures_stand_at_their_binding(m: MetalView, accum: AccumView, index: usize)
    requires
        index < accum.textures.len(),
        accum.textures[index as int].index <= 0xffff_ffff - 32,
    ensures
        match m.to_texture(accum, index as int).phase {
            MetalPhase::Texture { index: k, bind, binding, is_storage } => k == index && bind
                == accum.textures[index as int] && binding == bind.index + 32 && (is_storage
                <==> !(reflected_access(m.usages, 0, binding) is Read)),
            _ => false,
        },
{
}

/// The buffers are written back one after another, then the textures; then the dispatch is
/// complete.
pub proof fn law_outputs_are_written_in_turn(m: MetalView, index: usize)
    ensures
        index < m.buffers.len() ==> m.to_buffer_write(index as int).phase == (
        MetalPhase::BufferWrite { index }),
        index >= m.buffers.len() ==> m.to_buffer_write(index as int) == m.to_texture_write(0),
        index < m.textures.len() ==> m.to_texture_write(index as int).phase == (
        MetalPhase::TextureWrite { index }),
        index >= m.textures.len() ==> m.to_texture_write(index as int).phase == MetalPhase::Done(
            ComputeStatus::Completed,
        ),
        m.to_buffer_write(index as int).buffers == m.buffers,
        m.to_buffer_write(index as int).textures == m.textures,
        m.to_texture_write(index as int).buffers == m.buffers,
        m.to_texture_write(index as int).textures == m.textures,
{
}

/// Changing the phase changes nothing else.
pub proof fn law_metal_phases_change_alone(m: MetalView, phase: MetalPhase)
    ensures
        m.at(phase).phase == phase,
        m.at(phase).kernel_func_ref == m.kernel_func_ref,
        m.at(phase).stage_input == m.stage_input,
        m.at(phase).dispatch_type == m.dispatch_type,
        m.at(phase).dims == m.dims,
        m.at(phase).region_arguments == m.region_arguments,
        m.at(phase).buffers == m.buffers,
        m.at(phase).usages == m.usages,
        m.at(phase).textures == m.textures,
        m.at(phase).samplers == m.samplers,
        m.at(phase).storage == m.storage,
        m.at(phase).sampled == m.sampled,
{
}

} // verus!
