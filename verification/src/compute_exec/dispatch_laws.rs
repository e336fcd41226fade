//! What a dispatch on the engine waits for, and when.

use vstd::prelude::*;
use crate::compute_exec::accum::{AccumView, ComputeTextureBind};
use crate::compute_exec::dispatch::{
    BufferView, DispatchView, EngineRun, OutputView, Phase, RestageImage, buffer_phase, kind_of,
    request_built, restages, run_phase, sampled_phase, serves, slot_from, specialize_refused,
    stages_in, storage_from, storage_phase, texture_phase, texture_plan, uses_before,
};
use crate::compute_exec::kernel::{BufferUse, StorageFormat, TextureUse, use_of_texture};
use crate::compute_exec::request::{DeviceAbilities, SampledImage, StorageImage};
use crate::compute_exec::request_laws::{
    law_storage_textures_are_counted, law_writable_uses_are_counted,
};
use crate::compute_exec::restage::{sampled_restage, still_owed, storage_restage};
use crate::compute_exec::status::ComputeStatus;
use crate::compute_exec::texture::StagedView;
use crate::residency::ComputeStorageResidencyKey;
use crate::spirv_bind::ShaderReflection;

verus! {

/// A dispatch stages in where it has an imageblock or a region, given or to be read.
pub proof fn law_when_a_dispatch_stages_in(accum: AccumView)
    ensures
        !stages_in(accum) <==> accum.imageblock is None && accum.stage_in_region is None
            && accum.stage_in_region_indirect is None,
{
}

/// The buffers come one after another, the kernel behind the last.
pub proof fn law_buffers_come_in_turn(accum: AccumView, index: usize)
    ensures
        index < accum.buffers.len() ==> buffer_phase(accum, index as int) == (Phase::Buffer {
            index,
        }),
        index >= accum.buffers.len() ==> buffer_phase(accum, index as int) == Phase::Kernel,
{
}

/// The binding needs no texture.
pub open spec fn passes(planned: Result<Option<TextureUse>, ComputeStatus>) -> bool {
    planned is Ok && planned->Ok_0 is None
}

/// The next texture is the next that the kernel uses; one that it cannot use ends the
/// dispatch, and behind the last comes the device.
pub proof fn law_textures_come_in_turn(
    plan: Seq<Result<Option<TextureUse>, ComputeStatus>>,
    index: int,
)
    requires
        0 <= index <= plan.len() <= usize::MAX,
    ensures
        match texture_phase(plan, index) {
            Phase::Device => forall|j: int| index <= j < plan.len() ==> passes(#[trigger] plan[j]),
            Phase::Texture { index: k, texture } => index <= k < plan.len() && plan[k as int]
                == Ok::<Option<TextureUse>, ComputeStatus>(Some(texture)) && forall|j: int|
                index <= j < k ==> passes(#[trigger] plan[j]),
            Phase::Done(status) => exists|k: int|
                index <= k < plan.len() && #[trigger] plan[k] == Err::<
                    Option<TextureUse>,
                    ComputeStatus,
                >(status) && forall|j: int| index <= j < k ==> passes(#[trigger] plan[j]),
            _ => false,
        },
    decreases plan.len() - index,
{
    if index < plan.len() {
        if passes(plan[index]) {
            law_textures_come_in_turn(plan, index + 1);
            if let Phase::Done(status) = texture_phase(plan, index + 1) {
                let k = choose|k: int|
                    index + 1 <= k < plan.len() && #[trigger] plan[k] == Err::<
                        Option<TextureUse>,
                        ComputeStatus,
                    >(status) && forall|j: int| index + 1 <= j < k ==> passes(#[trigger] plan[j]);
                assert(plan[k] == Err::<Option<TextureUse>, ComputeStatus>(status));
            }
        } else if plan[index] is Err {
            assert(plan[index] == Err::<Option<TextureUse>, ComputeStatus>(plan[index]->Err_0));
        }
    }
}

/// Every bound texture has its own entry in the plan.
pub proof fn law_every_bind_is_planned(
    words: Seq<u32>,
    reflection: ShaderReflection,
    binds: Seq<ComputeTextureBind>,
    i: int,
)
    requires
        0 <= i < binds.len(),
    ensures
        texture_plan(words, reflection, binds).len() == binds.len(),
        texture_plan(words, reflection, binds)[i] == use_of_texture(words, reflection, binds[i]),
{
}

/// A texture serves a use at its binding, stored to where the use stores.
pub proof fn law_when_a_texture_serves(texture: StagedView, wanted: TextureUse)
    ensures
        serves(texture, wanted) ==> texture.binding == wanted.binding,
        serves(texture, wanted) ==> (texture.is_storage <==> wanted.storage is Some),
        texture.binding == wanted.binding && texture.is_storage && wanted.storage is Some
            ==> serves(texture, wanted),
        texture.binding == wanted.binding && !texture.is_storage && wanted.storage is None
            ==> serves(texture, wanted),
{
}

/// The uses are those of the plan, in its order, without the entries that need none.
pub proof fn law_uses_are_the_planned(
    plan: Seq<Result<Option<TextureUse>, ComputeStatus>>,
    n: int,
)
    requires
        0 <= n < plan.len(),
    ensures
        uses_before(plan, 0).len() == 0,
        plan[n] is Ok && plan[n]->Ok_0 is Some ==> uses_before(plan, n + 1) == uses_before(plan, n)
            + seq![plan[n]->Ok_0->0],
        plan[n] is Err || plan[n]->Ok_0 is None ==> uses_before(plan, n + 1) == uses_before(plan, n),
{
    if plan[n] is Ok && plan[n]->Ok_0 is Some {
        assert(uses_before(plan, n + 1) =~= uses_before(plan, n) + seq![plan[n]->Ok_0->0]);
    }
}

/// A run is tried again once, and only where a resident was lost.
pub proof fn law_when_a_run_is_tried_again(run: EngineRun, retried: bool)
    ensures
        restages(run, retried) ==> !retried,
        restages(run, retried) ==> run is Failed && run->Failed_resident_lost,
        !retried && run is Failed && run->Failed_resident_lost ==> restages(run, retried),
{
}

/// A run that is over leads to its outputs, or ends the dispatch by what the engine says.
pub proof fn law_what_follows_a_run(run: EngineRun)
    ensures
        run is Finished ==> run_phase(run) == Phase::Outputs,
        run is Failed && run->unsupported ==> run_phase(run) == Phase::Done(
            ComputeStatus::Unsupported("engine_run_unsupported"),
        ),
        run is Failed && !run->unsupported ==> run_phase(run) == Phase::Done(
            ComputeStatus::MetalFailed("compute_vk_engine_run"),
        ),
{
}

/// The image is as it was staged, and needs no reading.
pub open spec fn is_whole_sample(image: SampledImage) -> bool {
    sampled_restage(image) is Ok && sampled_restage(image)->Ok_0 is None
}

/// The image is as it was staged, and needs no reading.
pub open spec fn is_whole_storage(image: StorageImage) -> bool {
    storage_restage(image) is Ok && storage_restage(image)->Ok_0 is None
}

/// Of the sampled images the next that lost its resident is read again; behind the last the
/// engine runs a second time, as long as anything was read.
pub proof fn law_samples_are_restaged_in_turn(sampled: Seq<SampledImage>, i: int, some: bool)
    requires
        0 <= i <= sampled.len() <= usize::MAX,
    ensures
        match sampled_phase(sampled, i, some) {
            Phase::Engine { retried } => retried && some && forall|j: int|
                i <= j < sampled.len() ==> is_whole_sample(#[trigger] sampled[j]),
            Phase::Restage { image: RestageImage::Sampled(k), read, some: before } => before == some
                && i <= k < sampled.len() && sampled_restage(sampled[k as int]) == Ok::<
                Option<crate::compute_exec::restage::WindowRead>,
                ComputeStatus,
            >(Some(read)) && forall|j: int|
                i <= j < k ==> is_whole_sample(#[trigger] sampled[j]),
            Phase::Done(status) => {
                ||| !some && status == ComputeStatus::MetalFailed(
                    "compute_restage_no_skipped_resource",
                ) && forall|j: int|
                    i <= j < sampled.len() ==> is_whole_sample(#[trigger] sampled[j])
                ||| exists|k: int|
                    i <= k < sampled.len() && sampled_restage(#[trigger] sampled[k]) is Err
                        && sampled_restage(sampled[k])->Err_0 == status
            },
            _ => false,
        },
    decreases sampled.len() - i,
{
    if i < sampled.len() {
        if is_whole_sample(sampled[i]) {
            law_samples_are_restaged_in_turn(sampled, i + 1, some);
        }
    }
}

/// Storage images go before sampled ones. The next that was not seeded is read again, and
/// what was owed of it is not any more.
pub proof fn law_storage_is_restaged_first(
    storage: Seq<StorageImage>,
    sampled: Seq<SampledImage>,
    owed: Seq<(ComputeStorageResidencyKey, u32)>,
    i: int,
    some: bool,
)
    requires
        0 <= i <= storage.len() <= usize::MAX,
    ensures
        ({
            let (phase, left) = storage_phase(storage, sampled, owed, i, some);
            match phase {
                Phase::Restage { image: RestageImage::Storage(k), read, some: before } => before
                    == some && i <= k < storage.len() && storage_restage(storage[k as int]) == Ok::<
                    Option<crate::compute_exec::restage::WindowRead>,
                    ComputeStatus,
                >(Some(read)) && forall|j: int|
                    i <= j < k ==> is_whole_storage(#[trigger] storage[j]),
                Phase::Done(status) => {
                    ||| phase == sampled_phase(sampled, 0, some)
                    ||| exists|k: int|
                        i <= k < storage.len() && storage_restage(#[trigger] storage[k]) is Err
                            && storage_restage(storage[k])->Err_0 == status
                },
                _ => phase == sampled_phase(sampled, 0, some) && forall|j: int|
                    i <= j < storage.len() ==> is_whole_storage(#[trigger] storage[j]),
            }
        }),
        i < storage.len() && !is_whole_storage(storage[i]) ==> storage_phase(
            storage,
            sampled,
            owed,
            i,
            some,
        ).1 == still_owed(owed, storage[i]),
        i < storage.len() && is_whole_storage(storage[i]) ==> storage_phase(
            storage,
            sampled,
            owed,
            i,
            some,
        ).1 == storage_phase(storage, sampled, still_owed(owed, storage[i]), i + 1, some).1,
    decreases storage.len() - i,
{
    if i < storage.len() {
        if is_whole_storage(storage[i]) {
            law_storage_is_restaged_first(
                storage,
                sampled,
                still_owed(owed, storage[i]),
                i + 1,
                some,
            );
        }
    } else {
        lemma_no_storage_restage(sampled, 0, some);
    }
}

proof fn lemma_no_storage_restage(sampled: Seq<SampledImage>, i: int, some: bool)
    requires
        0 <= i,
    ensures
        !(sampled_phase(sampled, i, some) is Restage && sampled_phase(
            sampled,
            i,
            some,
        )->Restage_image is Storage),
    decreases sampled.len() - i,
{
    if i < sampled.len() {
        lemma_no_storage_restage(sampled, i + 1, some);
    }
}

/// An output goes to the first buffer bound at its binding.
pub proof fn law_first_slot_of_a_binding(buffers: Seq<BufferView>, i: int, binding: u32)
    requires
        0 <= i <= buffers.len(),
    ensures
        match slot_from(buffers, i, binding) {
            Some(k) => i <= k < buffers.len() && buffers[k].bind.index == binding && forall|j: int|
                i <= j < k ==> (#[trigger] buffers[j]).bind.index != binding,
            None => forall|j: int|
                i <= j < buffers.len() ==> (#[trigger] buffers[j]).bind.index != binding,
        },
    decreases buffers.len() - i,
{
    if i < buffers.len() && buffers[i].bind.index != binding {
        law_first_slot_of_a_binding(buffers, i + 1, binding);
    }
}

/// The next storage texture is the next in the binds' order.
pub proof fn law_next_storage_texture(textures: Seq<StagedView>, i: int)
    requires
        0 <= i <= textures.len(),
    ensures
        match storage_from(textures, i) {
            Some(k) => i <= k < textures.len() && textures[k].is_storage && forall|j: int|
                i <= j < k ==> !(#[trigger] textures[j]).is_storage,
            None => forall|j: int| i <= j < textures.len() ==> !(#[trigger] textures[j]).is_storage,
        },
    decreases textures.len() - i,
{
    if i < textures.len() && !textures[i].is_storage {
        law_next_storage_texture(textures, i + 1);
    }
}

/// An output that stays is deferred, even where the engine copied it; else it is a copy or
/// its bytes.
pub proof fn law_kinds_of_outputs(output: OutputView, k: int)
    ensures
        kind_of(output, k) is Deferred <==> output.deferred[k],
        kind_of(output, k) is Direct <==> !output.deferred[k] && output.direct[k],
        kind_of(output, k) is Bytes <==> !output.deferred[k] && !output.direct[k],
{
}

/// Output `k` is written to the next storage texture, which takes its bytes where they were
/// read back; nothing else of the dispatch changes. Without one the dispatch is over.
pub proof fn law_images_are_written_in_turn(d: DispatchView, from: int, k: int)
    requires
        0 <= from <= d.textures.len() <= usize::MAX,
        0 <= k <= usize::MAX,
    ensures
        ({
            let after = d.to_image(from, k);
            let next = storage_from(d.textures, from);
            &&& next is None ==> after.phase == Phase::Done(ComputeStatus::Completed)
                && after.textures == d.textures
            &&& next is Some ==> {
                let i = next->0;
                &&& after.phase is ImageWrite
                &&& after.phase->ImageWrite_index == i
                &&& after.phase->ImageWrite_output == k
                &&& after.phase->kind == kind_of(d.output, k)
                &&& after.textures.len() == d.textures.len()
                &&& forall|j: int|
                    0 <= j < d.textures.len() && j != i ==> #[trigger] after.textures[j]
                        == d.textures[j]
                &&& after.phase->kind is Bytes ==> after.textures[i].bytes == d.output.images[k]
                &&& !(after.phase->kind is Bytes) ==> after.textures[i].bytes == d.textures[i].bytes
                &&& after.textures[i].binding == d.textures[i].binding
                &&& after.textures[i].writeback == d.textures[i].writeback
                &&& after.textures[i].residency == d.textures[i].residency
                &&& after.textures[i].width == d.textures[i].width
                &&& after.textures[i].height == d.textures[i].height
            }
            &&& after.buffers == d.buffers
            &&& after.output == d.output
            &&& after.dims == d.dims
        }),
{
    law_next_storage_texture(d.textures, from);
}

/// Output buffer `k` is written to the buffer bound at its binding, which takes its bytes;
/// behind the last come the images. An output of no bound buffer ends the dispatch.
pub proof fn law_buffers_are_written_in_turn(d: DispatchView, k: int)
    requires
        0 <= k <= usize::MAX,
        d.buffers.len() <= usize::MAX,
    ensures
        ({
            let after = d.to_buffer(k);
            let slot = slot_from(d.buffers, 0, d.output.buffers[k].0);
            &&& k >= d.output.buffers.len() ==> after == d.to_image(0, 0)
            &&& k < d.output.buffers.len() && slot is None ==> after.phase == Phase::Done(
                ComputeStatus::MetalFailed("compute_vk_readback_binding"),
            ) && after.buffers == d.buffers
            &&& k < d.output.buffers.len() && slot is Some ==> {
                let i = slot->0;
                &&& after.phase is BufferWrite
                &&& after.phase->BufferWrite_output == k
                &&& after.phase->slot == i
                &&& after.buffers.len() == d.buffers.len()
                &&& after.buffers[i].bytes == d.output.buffers[k].1
                &&& after.buffers[i].bind == d.buffers[i].bind
                &&& after.buffers[i].gva == d.buffers[i].gva
                &&& forall|j: int|
                    0 <= j < d.buffers.len() && j != i ==> #[trigger] after.buffers[j]
                        == d.buffers[j]
                &&& after.textures == d.textures
                &&& after.output == d.output
            }
        }),
{
    law_first_slot_of_a_binding(d.buffers, 0, d.output.buffers[k].0);
}

/// The engine answers with a buffer for each that it may write, and with an image, and what
/// became of it, for each storage texture.
pub proof fn law_what_the_engine_answers(d: DispatchView, output: OutputView)
    ensures
        d.answers(output) <==> {
            let images = d.textures.filter(|t: StagedView| t.is_storage).len();
            &&& output.buffers.len() == d.uses.filter(|u: BufferUse| u is Writable).len()
            &&& output.images.len() == images
            &&& output.direct.len() == images
            &&& output.deferred.len() == images
        },
{
    law_writable_uses_are_counted(d.uses);
    law_storage_textures_are_counted(d.textures, d.textures.len() as int);
    assert(d.textures.take(d.textures.len() as int) =~= d.textures);
}

/// Changing the phase changes nothing else.
pub proof fn law_phases_change_alone(d: DispatchView, phase: Phase)
    ensures
        d.at(phase).phase == phase,
        d.at(phase).kernel_func_ref == d.kernel_func_ref,
        d.at(phase).dims == d.dims,
        d.at(phase).words == d.words,
        d.at(phase).buffers == d.buffers,
        d.at(phase).uses == d.uses,
        d.at(phase).plan == d.plan,
        d.at(phase).textures == d.textures,
        d.at(phase).storage == d.storage,
        d.at(phase).sampled == d.sampled,
        d.at(phase).samplers == d.samplers,
        d.at(phase).output == d.output,
{
}

/// A kernel that cannot be specialized ends the dispatch; its buffers and textures stay.
pub proof fn law_refused_specializations(
    before: DispatchView,
    formats: Seq<StorageFormat>,
    after: DispatchView,
)
    requires
        specialize_refused(before, formats, after),
    ensures
        after.phase == Phase::Done(ComputeStatus::Unsupported("storage_format_specialize_error")),
        after.textures == before.textures,
        after.buffers == before.buffers,
        after.dims == before.dims,
{
}

/// A request that was built waits for its samplers and holds an image for every texture;
/// one that was refused holds no texture any more.
pub proof fn law_built_requests(
    before: DispatchView,
    formats: Seq<StorageFormat>,
    abilities: DeviceAbilities,
    contigs: Seq<Option<(u64, u64)>>,
    accum: AccumView,
    after: DispatchView,
)
    requires
        request_built(before, formats, abilities, contigs, accum, after),
    ensures
        after.phase == Phase::Samplers || after.phase is Done,
        after.phase == Phase::Samplers ==> after.storage.len() + after.sampled.len()
            == before.textures.len() && after.textures.len() == before.textures.len(),
        after.phase is Done ==> after.textures.len() == 0,
        after.buffers == before.buffers,
        after.dims == before.dims,
        after.uses == before.uses,
{
}

} // verus!
