//! How the outcome of a dispatch, and what it took, are told.

use vstd::prelude::*;
use crate::compute_exec::accum::{ComputeBufferBind, empty_accum, entry_slot, overflowing};
use crate::compute_exec::buffers::{
    BufferDescriptor, FunctionDescriptor, LoadMiss, LoadedComputePipeline, Lookup,
    PipelineDescriptor, buffer_plan, mtlb_plan, pipeline_loaded,
};
use crate::compute_exec::phases::{
    CounterSnapshot, engine_rest, numbers_text, phases, resource_rest, rest,
};
use crate::compute_exec::status::{ComputeSpirvDecline, ComputeStatus, MetalStatus};
use crate::text::decimal;

verus! {

/// Every refusal has a class of its own, and gives its own reason.
pub proof fn law_refusals_are_classed(slug: &'static str)
    ensures
        ComputeStatus::Completed.class_spec() == "ok",
        ComputeStatus::MissingPipeline(slug).class_spec() == "missing_pipeline",
        ComputeStatus::MissingMtlb(slug).class_spec() == "missing_mtlb",
        ComputeStatus::MissingBuffer(slug).class_spec() == "missing_buffer",
        ComputeStatus::MissingTexture(slug).class_spec() == "missing_texture",
        ComputeStatus::MissingSampler(slug).class_spec() == "missing_sampler",
        ComputeStatus::BadGrid(slug).class_spec() == "bad_grid",
        ComputeStatus::GuestIo(slug).class_spec() == "guest_io",
        ComputeStatus::MetalFailed(slug).class_spec() == "metal_failed",
        ComputeStatus::NoMetal(slug).class_spec() == "no_metal",
        ComputeStatus::Unsupported(slug).class_spec() == "unsupported",
        ComputeStatus::Completed.refusal_spec() is None,
        ComputeStatus::MissingPipeline(slug).refusal_spec() == Some(slug),
        ComputeStatus::MissingMtlb(slug).refusal_spec() == Some(slug),
        ComputeStatus::MissingBuffer(slug).refusal_spec() == Some(slug),
        ComputeStatus::MissingTexture(slug).refusal_spec() == Some(slug),
        ComputeStatus::MissingSampler(slug).refusal_spec() == Some(slug),
        ComputeStatus::BadGrid(slug).refusal_spec() == Some(slug),
        ComputeStatus::GuestIo(slug).refusal_spec() == Some(slug),
        ComputeStatus::MetalFailed(slug).refusal_spec() == Some(slug),
        ComputeStatus::NoMetal(slug).refusal_spec() == Some(slug),
        ComputeStatus::Unsupported(slug).refusal_spec() == Some(slug),
{
}

/// A refusal tells its class; the backend's own tells what kind of fault it was, the field
/// that it names, and how the dispatch recovers.
pub proof fn law_refusals_tell_their_fields(status: ComputeStatus, fault: MetalStatus)
    ensures
        !(status is MetalBackend) ==> status.fields_spec().len() == 1 && status.fields_spec()[0]
            == ("class"@, status.class_spec()@),
        ({
            let told = ComputeStatus::MetalBackend(fault).fields_spec();
            let own = fault.fields_spec();
            let n = if fault.field is Some {
                3nat
            } else {
                2
            };
            &&& told.len() == n
            &&& told[0].0 == "class"@
            &&& fault.fault is Args ==> told[0].1 == "args"@
            &&& fault.fault is Execute ==> told[0].1 == "execute"@
            &&& fault.field is Some ==> told[1] == (
                (fault.field->0).0@,
                decimal((fault.field->0).1 as nat),
            )
            &&& told.last() == ("recovery"@, "metal_failed"@)
            &&& own == told.drop_last()
            &&& ComputeStatus::MetalBackend(fault).refusal_spec() == Some(fault.slug)
            &&& fault.fault is Args ==> ComputeStatus::MetalBackend(fault).class_spec()
                == "metal_args"
            &&& fault.fault is Execute ==> ComputeStatus::MetalBackend(fault).class_spec()
                == "metal_execute"
        }),
{
    assert(fault.fields_spec() =~= ComputeStatus::MetalBackend(fault).fields_spec().drop_last());
}

/// A module that is no module is told by its length and what it should have been.
pub proof fn law_declined_modules(len: usize, minimum: usize, alignment: usize)
    ensures
        ({
            let short = ComputeSpirvDecline::HeaderTooShort { len, minimum };
            let odd = ComputeSpirvDecline::LengthMisaligned { len, alignment };
            &&& short.slug_spec() == "compute_spirv_header_too_short"
            &&& short.fields_spec().len() == 2
            &&& short.fields_spec()[0] == ("len"@, decimal(len as nat))
            &&& short.fields_spec()[1] == ("minimum"@, decimal(minimum as nat))
            &&& odd.slug_spec() == "compute_spirv_length_misaligned"
            &&& odd.fields_spec().len() == 2
            &&& odd.fields_spec()[0] == ("len"@, decimal(len as nat))
            &&& odd.fields_spec()[1] == ("alignment"@, decimal(alignment as nat))
        }),
{
}

/// What is left of a whole and its parts make up the whole, unless the parts are more.
pub proof fn law_rests_make_up_the_whole(whole: u64, parts: int)
    requires
        0 <= parts,
    ensures
        parts <= whole ==> rest(whole, parts) + parts == whole,
        parts > whole ==> rest(whole, parts) == 0,
{
}

/// What the preparations leave of the time for resources.
pub proof fn law_resource_time_is_attributed(delta: CounterSnapshot)
    ensures
        ({
            let prepared = delta.sampler_prepare_us + delta.storage_prepare_us
                + delta.sampled_prepare_us + delta.storage_image_prepare_us
                + delta.descriptor_prepare_us;
            &&& prepared <= delta.resource_us ==> resource_rest(delta) + prepared
                == delta.resource_us
            &&& prepared > delta.resource_us ==> resource_rest(delta) == 0
        }),
{
}

/// What the engine's phases leave of its time.
pub proof fn law_engine_time_is_attributed(engine_us: u64, delta: CounterSnapshot)
    ensures
        ({
            let before = delta.lock_wait_us + delta.context_us + delta.pool_init_us
                + delta.cache_us + delta.resource_us;
            let run = delta.pre_record_wait_us + delta.record_us + delta.submit_us + delta.wait_us
                + delta.retire_wait_us;
            let after = delta.readback_us + delta.cleanup_us;
            &&& before + run + after <= engine_us ==> engine_rest(engine_us, delta) + before + run
                + after == engine_us
            &&& before + run + after > engine_us ==> engine_rest(engine_us, delta) == 0
        }),
{
}

/// The number is told under the name.
pub open spec fn told(numbers: Seq<(Seq<char>, u64)>, name: Seq<char>, n: u64) -> bool {
    numbers.contains((name, n))
}

/// Every counter is told under its own name, with what is left unattributed: 41 numbers.
#[verifier::rlimit(40)]
pub proof fn law_every_phase_is_told(engine_us: u64, delta: CounterSnapshot)
    ensures
        phases(engine_us, delta).len() == 41,
        told(phases(engine_us, delta), "engine_lock_wait_us"@, delta.lock_wait_us),
        told(phases(engine_us, delta), "engine_context_us"@, delta.context_us),
        told(phases(engine_us, delta), "engine_pool_init_us"@, delta.pool_init_us),
        told(phases(engine_us, delta), "engine_cache_us"@, delta.cache_us),
        told(phases(engine_us, delta), "engine_shader_create_us"@, delta.shader_create_us),
        told(phases(engine_us, delta), "engine_layout_create_us"@, delta.layout_create_us),
        told(phases(engine_us, delta), "engine_pipeline_create_us"@, delta.pipeline_create_us),
        told(phases(engine_us, delta), "engine_sampler_create_us"@, delta.sampler_create_us),
        told(phases(engine_us, delta), "engine_resource_us"@, delta.resource_us),
        told(phases(engine_us, delta), "engine_sampler_prepare_us"@, delta.sampler_prepare_us),
        told(
            phases(engine_us, delta),
            "engine_storage_buffer_prepare_us"@,
            delta.storage_prepare_us,
        ),
        told(
            phases(engine_us, delta),
            "engine_sampled_image_prepare_us"@,
            delta.sampled_prepare_us,
        ),
        told(
            phases(engine_us, delta),
            "engine_storage_image_prepare_us"@,
            delta.storage_image_prepare_us,
        ),
        told(
            phases(engine_us, delta),
            "engine_descriptor_prepare_us"@,
            delta.descriptor_prepare_us,
        ),
        told(phases(engine_us, delta), "engine_memory_alloc_us"@, delta.memory_alloc_us),
        told(phases(engine_us, delta), "engine_pre_record_wait_us"@, delta.pre_record_wait_us),
        told(phases(engine_us, delta), "engine_record_us"@, delta.record_us),
        told(phases(engine_us, delta), "engine_submit_us"@, delta.submit_us),
        told(phases(engine_us, delta), "engine_wait_us"@, delta.wait_us),
        told(phases(engine_us, delta), "engine_retire_wait_us"@, delta.retire_wait_us),
        told(phases(engine_us, delta), "engine_post_wait_skips"@, delta.compute_post_wait_skips),
        told(phases(engine_us, delta), "engine_ring_retire_blocks"@, delta.ring_retire_blocks),
        told(phases(engine_us, delta), "engine_readback_us"@, delta.readback_us),
        told(phases(engine_us, delta), "engine_cleanup_us"@, delta.cleanup_us),
        told(phases(engine_us, delta), "engine_readbacks"@, delta.readbacks),
        told(phases(engine_us, delta), "engine_readback_bytes"@, delta.readback_bytes),
        told(phases(engine_us, delta), "engine_sampled_uploads"@, delta.compute_sampled_uploads),
        told(
            phases(engine_us, delta),
            "engine_sampled_upload_bytes"@,
            delta.compute_sampled_upload_bytes,
        ),
        told(
            phases(engine_us, delta),
            "engine_sampled_resident_copies"@,
            delta.compute_sampled_resident_copies,
        ),
        told(
            phases(engine_us, delta),
            "engine_sampled_resident_copy_bytes"@,
            delta.compute_sampled_resident_copy_bytes,
        ),
        told(
            phases(engine_us, delta),
            "engine_sampled_reinterpret_copies"@,
            delta.compute_sampled_reinterpret_copies,
        ),
        told(
            phases(engine_us, delta),
            "engine_sampled_reinterpret_copy_bytes"@,
            delta.compute_sampled_reinterpret_copy_bytes,
        ),
        told(
            phases(engine_us, delta),
            "engine_storage_seed_uploads"@,
            delta.compute_storage_seed_uploads,
        ),
        told(
            phases(engine_us, delta),
            "engine_storage_seed_upload_bytes"@,
            delta.compute_storage_seed_upload_bytes,
        ),
        told(
            phases(engine_us, delta),
            "engine_direct_writebacks"@,
            delta.compute_direct_writebacks,
        ),
        told(
            phases(engine_us, delta),
            "engine_direct_writeback_bytes"@,
            delta.compute_direct_writeback_bytes,
        ),
        told(
            phases(engine_us, delta),
            "engine_direct_writeback_fallbacks"@,
            delta.compute_direct_writeback_fallbacks,
        ),
        told(phases(engine_us, delta), "engine_creates"@, delta.creates),
        told(phases(engine_us, delta), "engine_allocs"@, delta.allocs),
        told(
            phases(engine_us, delta),
            "engine_resource_unattributed_us"@,
            resource_rest(delta),
        ),
        told(
            phases(engine_us, delta),
            "engine_unattributed_us"@,
            engine_rest(engine_us, delta),
        ),
{
    let all = phases(engine_us, delta);
    assert(all[0] == ("engine_lock_wait_us"@, delta.lock_wait_us));
    assert(all[1] == ("engine_context_us"@, delta.context_us));
    assert(all[2] == ("engine_pool_init_us"@, delta.pool_init_us));
    assert(all[3] == ("engine_cache_us"@, delta.cache_us));
    assert(all[4] == ("engine_shader_create_us"@, delta.shader_create_us));
    assert(all[5] == ("engine_layout_create_us"@, delta.layout_create_us));
    assert(all[6] == ("engine_pipeline_create_us"@, delta.pipeline_create_us));
    assert(all[7] == ("engine_sampler_create_us"@, delta.sampler_create_us));
    assert(all[8] == ("engine_resource_us"@, delta.resource_us));
    assert(all[10] == ("engine_sampler_prepare_us"@, delta.sampler_prepare_us));
    assert(all[11] == ("engine_storage_buffer_prepare_us"@, delta.storage_prepare_us));
    assert(all[12] == ("engine_sampled_image_prepare_us"@, delta.sampled_prepare_us));
    assert(all[13] == ("engine_storage_image_prepare_us"@, delta.storage_image_prepare_us));
    assert(all[14] == ("engine_descriptor_prepare_us"@, delta.descriptor_prepare_us));
    assert(all[15] == ("engine_memory_alloc_us"@, delta.memory_alloc_us));
    assert(all[16] == ("engine_pre_record_wait_us"@, delta.pre_record_wait_us));
    assert(all[17] == ("engine_record_us"@, delta.record_us));
    assert(all[18] == ("engine_submit_us"@, delta.submit_us));
    assert(all[19] == ("engine_wait_us"@, delta.wait_us));
    assert(all[20] == ("engine_retire_wait_us"@, delta.retire_wait_us));
    assert(all[21] == ("engine_post_wait_skips"@, delta.compute_post_wait_skips));
    assert(all[22] == ("engine_ring_retire_blocks"@, delta.ring_retire_blocks));
    assert(all[23] == ("engine_readback_us"@, delta.readback_us));
    assert(all[24] == ("engine_cleanup_us"@, delta.cleanup_us));
    assert(all[26] == ("engine_readbacks"@, delta.readbacks));
    assert(all[27] == ("engine_readback_bytes"@, delta.readback_bytes));
    assert(all[28] == ("engine_sampled_uploads"@, delta.compute_sampled_uploads));
    assert(all[29] == ("engine_sampled_upload_bytes"@, delta.compute_sampled_upload_bytes));
    assert(all[30] == ("engine_sampled_resident_copies"@, delta.compute_sampled_resident_copies));
    assert(all[31] == ("engine_sampled_resident_copy_bytes"@, delta.compute_sampled_resident_copy_bytes));
    assert(all[32] == ("engine_sampled_reinterpret_copies"@, delta.compute_sampled_reinterpret_copies));
    assert(all[33] == ("engine_sampled_reinterpret_copy_bytes"@, delta.compute_sampled_reinterpret_copy_bytes));
    assert(all[34] == ("engine_storage_seed_uploads"@, delta.compute_storage_seed_uploads));
    assert(all[35] == ("engine_storage_seed_upload_bytes"@, delta.compute_storage_seed_upload_bytes));
    assert(all[36] == ("engine_direct_writebacks"@, delta.compute_direct_writebacks));
    assert(all[37] == ("engine_direct_writeback_bytes"@, delta.compute_direct_writeback_bytes));
    assert(all[38] == ("engine_direct_writeback_fallbacks"@, delta.compute_direct_writeback_fallbacks));
    assert(all[39] == ("engine_creates"@, delta.creates));
    assert(all[40] == ("engine_allocs"@, delta.allocs));
    assert(all[9] == ("engine_resource_unattributed_us"@, resource_rest(delta)));
    assert(all[25] == ("engine_unattributed_us"@, engine_rest(engine_us, delta)));
}

/// Numbers are told one behind the other, with a blank between them.
pub proof fn law_numbers_are_told_in_order(
    numbers: Seq<(Seq<char>, u64)>,
    name: Seq<char>,
    n: u64,
)
    ensures
        ({
            let one = name + "="@ + decimal(n as nat);
            &&& numbers.len() == 0 ==> numbers_text(numbers.push((name, n))) == one
            &&& numbers.len() > 0 ==> numbers_text(numbers.push((name, n))) == numbers_text(numbers)
                + " "@ + one
        }),
{
    assert(numbers.push((name, n)).drop_last() =~= numbers);
}

/// What is bound at a slot past the last is dropped, with the slot and what was bound;
/// slots that overflow end up at the last number there is.
pub proof fn law_dropped_binds(first: u32, refs: Seq<u32>, cap: u32, n: int)
    requires
        0 <= n < refs.len() <= 0xffff_ffff,
    ensures
        overflowing(first, refs, cap, 0).len() == 0,
        first + n <= 0xffff_ffff ==> entry_slot(first, n) == first + n,
        first + n > 0xffff_ffff ==> entry_slot(first, n) == 0xffff_ffff,
        refs[n] > 0 && entry_slot(first, n) >= cap ==> overflowing(first, refs, cap, n + 1)
            == overflowing(first, refs, cap, n).push((entry_slot(first, n), refs[n])),
        refs[n] == 0 || entry_slot(first, n) < cap ==> overflowing(first, refs, cap, n + 1)
            == overflowing(first, refs, cap, n),
{
}

/// Nothing is bound at first.
pub proof fn law_nothing_is_bound_at_first()
    ensures
        empty_accum().pipeline_ref == 0,
        empty_accum().buffers.len() == 0,
        empty_accum().textures.len() == 0,
        empty_accum().samplers.len() == 0,
        empty_accum().threadgroup_memory.len() == 0,
        empty_accum().stage_in_region is None,
        empty_accum().stage_in_region_indirect is None,
        empty_accum().imageblock is None,
        empty_accum().dispatch_type == 0,
{
}

/// What is not found is missed by how it was not found.
pub proof fn law_missed_loads(
    reference: u32,
    f: Lookup<FunctionDescriptor>,
    p: Lookup<PipelineDescriptor>,
)
    requires
        reference > 0,
    ensures
        mtlb_plan(0, f) == Err::<(u64, usize), LoadMiss>(LoadMiss::Unbound),
        f is NoEntry ==> mtlb_plan(reference, f) == Err::<(u64, usize), LoadMiss>(
            LoadMiss::NoEntry,
        ),
        f is WrongType ==> mtlb_plan(reference, f) == Err::<(u64, usize), LoadMiss>(
            LoadMiss::WrongType(f->WrongType_0),
        ),
        f is NoDescriptor ==> mtlb_plan(reference, f) == Err::<(u64, usize), LoadMiss>(
            LoadMiss::NoDescriptor,
        ),
        f is Undecoded ==> mtlb_plan(reference, f) == Err::<(u64, usize), LoadMiss>(
            LoadMiss::Undecoded,
        ),
        pipeline_loaded(0, p) == Err::<LoadedComputePipeline, LoadMiss>(LoadMiss::Unbound),
        p is NoEntry ==> pipeline_loaded(reference, p) == Err::<LoadedComputePipeline, LoadMiss>(
            LoadMiss::NoEntry,
        ),
        p is WrongType ==> pipeline_loaded(reference, p) == Err::<LoadedComputePipeline, LoadMiss>(
            LoadMiss::WrongType(p->WrongType_0),
        ),
        p is NoDescriptor ==> pipeline_loaded(reference, p) == Err::<
            LoadedComputePipeline,
            LoadMiss,
        >(LoadMiss::NoDescriptor),
        p is Undecoded ==> pipeline_loaded(reference, p) == Err::<LoadedComputePipeline, LoadMiss>(
            LoadMiss::Undecoded,
        ),
{
}

/// A buffer that is not found is missing.
pub proof fn law_missing_buffers(
    bind: ComputeBufferBind,
    lookup: Lookup<BufferDescriptor>,
    page_shift: u32,
)
    ensures
        lookup is NoEntry ==> buffer_plan(bind, lookup, page_shift) == Err::<
            (u64, usize),
            ComputeStatus,
        >(ComputeStatus::MissingBuffer("compute_stage_buf_no_entry")),
        lookup is WrongType ==> buffer_plan(bind, lookup, page_shift) == Err::<
            (u64, usize),
            ComputeStatus,
        >(ComputeStatus::MissingBuffer("compute_stage_buf_wrong_type")),
        lookup is NoDescriptor ==> buffer_plan(bind, lookup, page_shift) == Err::<
            (u64, usize),
            ComputeStatus,
        >(ComputeStatus::MissingBuffer("compute_stage_buf_no_desc")),
        lookup is Undecoded ==> buffer_plan(bind, lookup, page_shift) == Err::<
            (u64, usize),
            ComputeStatus,
        >(ComputeStatus::MissingBuffer("compute_stage_buf_decode")),
{
}

} // verus!
