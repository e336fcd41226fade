//! Where the engine's time went in one dispatch.

use vstd::prelude::*;
use vstd::string::StringExecFns;
use crate::contract::saturating_sum;
use crate::text::{decimal, push_decimal};

verus! {

/// What the engine counted while it ran a dispatch.
#[derive(Clone, Copy, Debug, PartialEq, Eq, Structural)]
pub struct CounterSnapshot {
    pub lock_wait_us: u64,
    pub context_us: u64,
    pub pool_init_us: u64,
    pub cache_us: u64,
    pub shader_create_us: u64,
    pub layout_create_us: u64,
    pub pipeline_create_us: u64,
    pub sampler_create_us: u64,
    pub resource_us: u64,
    pub sampler_prepare_us: u64,
    pub storage_prepare_us: u64,
    pub sampled_prepare_us: u64,
    pub storage_image_prepare_us: u64,
    pub descriptor_prepare_us: u64,
    pub memory_alloc_us: u64,
    pub pre_record_wait_us: u64,
    pub record_us: u64,
    pub submit_us: u64,
    pub wait_us: u64,
    pub retire_wait_us: u64,
    pub compute_post_wait_skips: u64,
    pub ring_retire_blocks: u64,
    pub readback_us: u64,
    pub cleanup_us: u64,
    pub readbacks: u64,
    pub readback_bytes: u64,
    pub compute_sampled_uploads: u64,
    pub compute_sampled_upload_bytes: u64,
    pub compute_sampled_resident_copies: u64,
    pub compute_sampled_resident_copy_bytes: u64,
    pub compute_sampled_reinterpret_copies: u64,
    pub compute_sampled_reinterpret_copy_bytes: u64,
    pub compute_storage_seed_uploads: u64,
    pub compute_storage_seed_upload_bytes: u64,
    pub compute_direct_writebacks: u64,
    pub compute_direct_writeback_bytes: u64,
    pub compute_direct_writeback_fallbacks: u64,
    pub creates: u64,
    pub allocs: u64,
}

impl Default for CounterSnapshot {
    fn default() -> (snapshot: CounterSnapshot)
        ensures
            snapshot == (CounterSnapshot {
                lock_wait_us: 0,
                context_us: 0,
                pool_init_us: 0,
                cache_us: 0,
                shader_create_us: 0,
                layout_create_us: 0,
                pipeline_create_us: 0,
                sampler_create_us: 0,
                resource_us: 0,
                sampler_prepare_us: 0,
                storage_prepare_us: 0,
                sampled_prepare_us: 0,
                storage_image_prepare_us: 0,
                descriptor_prepare_us: 0,
                memory_alloc_us: 0,
                pre_record_wait_us: 0,
                record_us: 0,
                submit_us: 0,
                wait_us: 0,
                retire_wait_us: 0,
                compute_post_wait_skips: 0,
                ring_retire_blocks: 0,
                readback_us: 0,
                cleanup_us: 0,
                readbacks: 0,
                readback_bytes: 0,
                compute_sampled_uploads: 0,
                compute_sampled_upload_bytes: 0,
                compute_sampled_resident_copies: 0,
                compute_sampled_resident_copy_bytes: 0,
                compute_sampled_reinterpret_copies: 0,
                compute_sampled_reinterpret_copy_bytes: 0,
                compute_storage_seed_uploads: 0,
                compute_storage_seed_upload_bytes: 0,
                compute_direct_writebacks: 0,
                compute_direct_writeback_bytes: 0,
                compute_direct_writeback_fallbacks: 0,
                creates: 0,
                allocs: 0,
            }),
    {
        CounterSnapshot {
            lock_wait_us: 0,
            context_us: 0,
            pool_init_us: 0,
            cache_us: 0,
            shader_create_us: 0,
            layout_create_us: 0,
            pipeline_create_us: 0,
            sampler_create_us: 0,
            resource_us: 0,
            sampler_prepare_us: 0,
            storage_prepare_us: 0,
            sampled_prepare_us: 0,
            storage_image_prepare_us: 0,
            descriptor_prepare_us: 0,
            memory_alloc_us: 0,
            pre_record_wait_us: 0,
            record_us: 0,
            submit_us: 0,
            wait_us: 0,
            retire_wait_us: 0,
            compute_post_wait_skips: 0,
            ring_retire_blocks: 0,
            readback_us: 0,
            cleanup_us: 0,
            readbacks: 0,
            readback_bytes: 0,
            compute_sampled_uploads: 0,
            compute_sampled_upload_bytes: 0,
            compute_sampled_resident_copies: 0,
            compute_sampled_resident_copy_bytes: 0,
            compute_sampled_reinterpret_copies: 0,
            compute_sampled_reinterpret_copy_bytes: 0,
            compute_storage_seed_uploads: 0,
            compute_storage_seed_upload_bytes: 0,
            compute_direct_writebacks: 0,
            compute_direct_writeback_bytes: 0,
            compute_direct_writeback_fallbacks: 0,
            creates: 0,
            allocs: 0,
        }
    }
}

impl CounterSnapshot {
    /// What was counted since an earlier snapshot.
    pub fn delta_since(&self, before: &CounterSnapshot) -> (delta: CounterSnapshot)
        ensures
            delta == (CounterSnapshot {
                lock_wait_us: rest(self.lock_wait_us, before.lock_wait_us as int),
                context_us: rest(self.context_us, before.context_us as int),
                pool_init_us: rest(self.pool_init_us, before.pool_init_us as int),
                cache_us: rest(self.cache_us, before.cache_us as int),
                shader_create_us: rest(self.shader_create_us, before.shader_create_us as int),
                layout_create_us: rest(self.layout_create_us, before.layout_create_us as int),
                pipeline_create_us: rest(self.pipeline_create_us, before.pipeline_create_us as int),
                sampler_create_us: rest(self.sampler_create_us, before.sampler_create_us as int),
                resource_us: rest(self.resource_us, before.resource_us as int),
                sampler_prepare_us: rest(self.sampler_prepare_us, before.sampler_prepare_us as int),
                storage_prepare_us: rest(self.storage_prepare_us, before.storage_prepare_us as int),
                sampled_prepare_us: rest(self.sampled_prepare_us, before.sampled_prepare_us as int),
                storage_image_prepare_us: rest(self.storage_image_prepare_us, before.storage_image_prepare_us as int),
                descriptor_prepare_us: rest(self.descriptor_prepare_us, before.descriptor_prepare_us as int),
                memory_alloc_us: rest(self.memory_alloc_us, before.memory_alloc_us as int),
                pre_record_wait_us: rest(self.pre_record_wait_us, before.pre_record_wait_us as int),
                record_us: rest(self.record_us, before.record_us as int),
                submit_us: rest(self.submit_us, before.submit_us as int),
                wait_us: rest(self.wait_us, before.wait_us as int),
                retire_wait_us: rest(self.retire_wait_us, before.retire_wait_us as int),
                compute_post_wait_skips: rest(self.compute_post_wait_skips, before.compute_post_wait_skips as int),
                ring_retire_blocks: rest(self.ring_retire_blocks, before.ring_retire_blocks as int),
                readback_us: rest(self.readback_us, before.readback_us as int),
                cleanup_us: rest(self.cleanup_us, before.cleanup_us as int),
                readbacks: rest(self.readbacks, before.readbacks as int),
                readback_bytes: rest(self.readback_bytes, before.readback_bytes as int),
                compute_sampled_uploads: rest(self.compute_sampled_uploads, before.compute_sampled_uploads as int),
                compute_sampled_upload_bytes: rest(self.compute_sampled_upload_bytes, before.compute_sampled_upload_bytes as int),
                compute_sampled_resident_copies: rest(self.compute_sampled_resident_copies, before.compute_sampled_resident_copies as int),
                compute_sampled_resident_copy_bytes: rest(self.compute_sampled_resident_copy_bytes, before.compute_sampled_resident_copy_bytes as int),
                compute_sampled_reinterpret_copies: rest(self.compute_sampled_reinterpret_copies, before.compute_sampled_reinterpret_copies as int),
                compute_sampled_reinterpret_copy_bytes: rest(self.compute_sampled_reinterpret_copy_bytes, before.compute_sampled_reinterpret_copy_bytes as int),
                compute_storage_seed_uploads: rest(self.compute_storage_seed_uploads, before.compute_storage_seed_uploads as int),
                compute_storage_seed_upload_bytes: rest(self.compute_storage_seed_upload_bytes, before.compute_storage_seed_upload_bytes as int),
                compute_direct_writebacks: rest(self.compute_direct_writebacks, before.compute_direct_writebacks as int),
                compute_direct_writeback_bytes: rest(self.compute_direct_writeback_bytes, before.compute_direct_writeback_bytes as int),
                compute_direct_writeback_fallbacks: rest(self.compute_direct_writeback_fallbacks, before.compute_direct_writeback_fallbacks as int),
                creates: rest(self.creates, before.creates as int),
                allocs: rest(self.allocs, before.allocs as int),
            }),
            self.lock_wait_us >= before.lock_wait_us
                ==> delta.lock_wait_us + before.lock_wait_us == self.lock_wait_us,
            self.context_us >= before.context_us
                ==> delta.context_us + before.context_us == self.context_us,
            self.pool_init_us >= before.pool_init_us
                ==> delta.pool_init_us + before.pool_init_us == self.pool_init_us,
            self.cache_us >= before.cache_us ==> delta.cache_us + before.cache_us == self.cache_us,
            self.shader_create_us >= before.shader_create_us
                ==> delta.shader_create_us + before.shader_create_us == self.shader_create_us,
            self.layout_create_us >= before.layout_create_us
                ==> delta.layout_create_us + before.layout_create_us == self.layout_create_us,
            self.pipeline_create_us >= before.pipeline_create_us
                ==> delta.pipeline_create_us + before.pipeline_create_us == self.pipeline_create_us,
            self.sampler_create_us >= before.sampler_create_us
                ==> delta.sampler_create_us + before.sampler_create_us == self.sampler_create_us,
            self.resource_us >= before.resource_us
                ==> delta.resource_us + before.resource_us == self.resource_us,
            self.sampler_prepare_us >= before.sampler_prepare_us
                ==> delta.sampler_prepare_us + before.sampler_prepare_us == self.sampler_prepare_us,
            self.storage_prepare_us >= before.storage_prepare_us
                ==> delta.storage_prepare_us + before.storage_prepare_us == self.storage_prepare_us,
            self.sampled_prepare_us >= before.sampled_prepare_us
                ==> delta.sampled_prepare_us + before.sampled_prepare_us == self.sampled_prepare_us,
            self.storage_image_prepare_us >= before.storage_image_prepare_us
                ==> delta.storage_image_prepare_us + before.storage_image_prepare_us
                == self.storage_image_prepare_us,
            self.descriptor_prepare_us >= before.descriptor_prepare_us
                ==> delta.descriptor_prepare_us + before.descriptor_prepare_us
                == self.descriptor_prepare_us,
            self.memory_alloc_us >= before.memory_alloc_us
                ==> delta.memory_alloc_us + before.memory_alloc_us == self.memory_alloc_us,
            self.pre_record_wait_us >= before.pre_record_wait_us
                ==> delta.pre_record_wait_us + before.pre_record_wait_us == self.pre_record_wait_us,
            self.record_us >= before.record_us
                ==> delta.record_us + before.record_us == self.record_us,
            self.submit_us >= before.submit_us
                ==> delta.submit_us + before.submit_us == self.submit_us,
            self.wait_us >= before.wait_us ==> delta.wait_us + before.wait_us == self.wait_us,
            self.retire_wait_us >= before.retire_wait_us
                ==> delta.retire_wait_us + before.retire_wait_us == self.retire_wait_us,
            self.compute_post_wait_skips >= before.compute_post_wait_skips
                ==> delta.compute_post_wait_skips + before.compute_post_wait_skips
                == self.compute_post_wait_skips,
            self.ring_retire_blocks >= before.ring_retire_blocks
                ==> delta.ring_retire_blocks + before.ring_retire_blocks == self.ring_retire_blocks,
            self.readback_us >= before.readback_us
                ==> delta.readback_us + before.readback_us == self.readback_us,
            self.cleanup_us >= before.cleanup_us
                ==> delta.cleanup_us + before.cleanup_us == self.cleanup_us,
            self.readbacks >= before.readbacks
                ==> delta.readbacks + before.readbacks == self.readbacks,
            self.readback_bytes >= before.readback_bytes
                ==> delta.readback_bytes + before.readback_bytes == self.readback_bytes,
            self.compute_sampled_uploads >= before.compute_sampled_uploads
                ==> delta.compute_sampled_uploads + before.compute_sampled_uploads
                == self.compute_sampled_uploads,
            self.compute_sampled_upload_bytes >= before.compute_sampled_upload_bytes
                ==> delta.compute_sampled_upload_bytes + before.compute_sampled_upload_bytes
                == self.compute_sampled_upload_bytes,
            self.compute_sampled_resident_copies >= before.compute_sampled_resident_copies
                ==> delta.compute_sampled_resident_copies + before.compute_sampled_resident_copies
                == self.compute_sampled_resident_copies,
            self.compute_sampled_resident_copy_bytes >= before.compute_sampled_resident_copy_bytes
                ==> delta.compute_sampled_resident_copy_bytes + before.compute_sampled_resident_copy_bytes
                == self.compute_sampled_resident_copy_bytes,
            self.compute_sampled_reinterpret_copies >= before.compute_sampled_reinterpret_copies
                ==> delta.compute_sampled_reinterpret_copies + before.compute_sampled_reinterpret_copies
                == self.compute_sampled_reinterpret_copies,
            self.compute_sampled_reinterpret_copy_bytes
                >= before.compute_sampled_reinterpret_copy_bytes
                ==> delta.compute_sampled_reinterpret_copy_bytes + before.compute_sampled_reinterpret_copy_bytes
                == self.compute_sampled_reinterpret_copy_bytes,
            self.compute_storage_seed_uploads >= before.compute_storage_seed_uploads
                ==> delta.compute_storage_seed_uploads + before.compute_storage_seed_uploads
                == self.compute_storage_seed_uploads,
            self.compute_storage_seed_upload_bytes >= before.compute_storage_seed_upload_bytes
                ==> delta.compute_storage_seed_upload_bytes + before.compute_storage_seed_upload_bytes
                == self.compute_storage_seed_upload_bytes,
            self.compute_direct_writebacks >= before.compute_direct_writebacks
                ==> delta.compute_direct_writebacks + before.compute_direct_writebacks
                == self.compute_direct_writebacks,
            self.compute_direct_writeback_bytes >= before.compute_direct_writeback_bytes
                ==> delta.compute_direct_writeback_bytes + before.compute_direct_writeback_bytes
                == self.compute_direct_writeback_bytes,
            self.compute_direct_writeback_fallbacks >= before.compute_direct_writeback_fallbacks
                ==> delta.compute_direct_writeback_fallbacks + before.compute_direct_writeback_fallbacks
                == self.compute_direct_writeback_fallbacks,
            self.creates >= before.creates ==> delta.creates + before.creates == self.creates,
            self.allocs >= before.allocs ==> delta.allocs + before.allocs == self.allocs,
    {
        CounterSnapshot {
            lock_wait_us: rest_of(self.lock_wait_us, before.lock_wait_us),
            context_us: rest_of(self.context_us, before.context_us),
            pool_init_us: rest_of(self.pool_init_us, before.pool_init_us),
            cache_us: rest_of(self.cache_us, before.cache_us),
            shader_create_us: rest_of(self.shader_create_us, before.shader_create_us),
            layout_create_us: rest_of(self.layout_create_us, before.layout_create_us),
            pipeline_create_us: rest_of(self.pipeline_create_us, before.pipeline_create_us),
            sampler_create_us: rest_of(self.sampler_create_us, before.sampler_create_us),
            resource_us: rest_of(self.resource_us, before.resource_us),
            sampler_prepare_us: rest_of(self.sampler_prepare_us, before.sampler_prepare_us),
            storage_prepare_us: rest_of(self.storage_prepare_us, before.storage_prepare_us),
            sampled_prepare_us: rest_of(self.sampled_prepare_us, before.sampled_prepare_us),
            storage_image_prepare_us: rest_of(self.storage_image_prepare_us, before.storage_image_prepare_us),
            descriptor_prepare_us: rest_of(self.descriptor_prepare_us, before.descriptor_prepare_us),
            memory_alloc_us: rest_of(self.memory_alloc_us, before.memory_alloc_us),
            pre_record_wait_us: rest_of(self.pre_record_wait_us, before.pre_record_wait_us),
            record_us: rest_of(self.record_us, before.record_us),
            submit_us: rest_of(self.submit_us, before.submit_us),
            wait_us: rest_of(self.wait_us, before.wait_us),
            retire_wait_us: rest_of(self.retire_wait_us, before.retire_wait_us),
            compute_post_wait_skips: rest_of(self.compute_post_wait_skips, before.compute_post_wait_skips),
            ring_retire_blocks: rest_of(self.ring_retire_blocks, before.ring_retire_blocks),
            readback_us: rest_of(self.readback_us, before.readback_us),
            cleanup_us: rest_of(self.cleanup_us, before.cleanup_us),
            readbacks: rest_of(self.readbacks, before.readbacks),
            readback_bytes: rest_of(self.readback_bytes, before.readback_bytes),
            compute_sampled_uploads: rest_of(self.compute_sampled_uploads, before.compute_sampled_uploads),
            compute_sampled_upload_bytes: rest_of(self.compute_sampled_upload_bytes, before.compute_sampled_upload_bytes),
            compute_sampled_resident_copies: rest_of(self.compute_sampled_resident_copies, before.compute_sampled_resident_copies),
            compute_sampled_resident_copy_bytes: rest_of(self.compute_sampled_resident_copy_bytes, before.compute_sampled_resident_copy_bytes),
            compute_sampled_reinterpret_copies: rest_of(self.compute_sampled_reinterpret_copies, before.compute_sampled_reinterpret_copies),
            compute_sampled_reinterpret_copy_bytes: rest_of(self.compute_sampled_reinterpret_copy_bytes, before.compute_sampled_reinterpret_copy_bytes),
            compute_storage_seed_uploads: rest_of(self.compute_storage_seed_uploads, before.compute_storage_seed_uploads),
            compute_storage_seed_upload_bytes: rest_of(self.compute_storage_seed_upload_bytes, before.compute_storage_seed_upload_bytes),
            compute_direct_writebacks: rest_of(self.compute_direct_writebacks, before.compute_direct_writebacks),
            compute_direct_writeback_bytes: rest_of(self.compute_direct_writeback_bytes, before.compute_direct_writeback_bytes),
            compute_direct_writeback_fallbacks: rest_of(self.compute_direct_writeback_fallbacks, before.compute_direct_writeback_fallbacks),
            creates: rest_of(self.creates, before.creates),
            allocs: rest_of(self.allocs, before.allocs),
        }
    }
}

/// Time spent on resources that none of the parts accounts for.
pub open spec fn resource_rest(delta: CounterSnapshot) -> u64 {
    rest(
        delta.resource_us,
        delta.sampler_prepare_us
            + delta.storage_prepare_us
            + delta.sampled_prepare_us
            + delta.storage_image_prepare_us
            + delta.descriptor_prepare_us,
    )
}

/// Time of the whole run that none of its phases accounts for.
pub open spec fn engine_rest(engine_us: u64, delta: CounterSnapshot) -> u64 {
    rest(
        engine_us,
        delta.lock_wait_us
            + delta.context_us
            + delta.pool_init_us
            + delta.cache_us
            + delta.resource_us
            + delta.pre_record_wait_us
            + delta.record_us
            + delta.submit_us
            + delta.wait_us
            + delta.retire_wait_us
            + delta.readback_us
            + delta.cleanup_us,
    )
}

/// What is left of `whole` without `parts`; nothing where they are more.
pub open spec fn rest(whole: u64, parts: int) -> u64 {
    if parts >= whole {
        0
    } else {
        (whole - parts) as u64
    }
}

fn rest_of(whole: u64, parts: u64) -> (left: u64)
    ensures
        left == rest(whole, parts as int),
{
    if parts >= whole {
        0
    } else {
        whole - parts
    }
}

/// The phases by name, in the order of the line.
pub open spec fn phases(engine_us: u64, delta: CounterSnapshot) -> Seq<(Seq<char>, u64)> {
    seq![
        ("engine_lock_wait_us"@, delta.lock_wait_us),
        ("engine_context_us"@, delta.context_us),
        ("engine_pool_init_us"@, delta.pool_init_us),
        ("engine_cache_us"@, delta.cache_us),
        ("engine_shader_create_us"@, delta.shader_create_us),
        ("engine_layout_create_us"@, delta.layout_create_us),
        ("engine_pipeline_create_us"@, delta.pipeline_create_us),
        ("engine_sampler_create_us"@, delta.sampler_create_us),
        ("engine_resource_us"@, delta.resource_us),
        ("engine_resource_unattributed_us"@, resource_rest(delta)),
        ("engine_sampler_prepare_us"@, delta.sampler_prepare_us),
        ("engine_storage_buffer_prepare_us"@, delta.storage_prepare_us),
        ("engine_sampled_image_prepare_us"@, delta.sampled_prepare_us),
        ("engine_storage_image_prepare_us"@, delta.storage_image_prepare_us),
        ("engine_descriptor_prepare_us"@, delta.descriptor_prepare_us),
        ("engine_memory_alloc_us"@, delta.memory_alloc_us),
        ("engine_pre_record_wait_us"@, delta.pre_record_wait_us),
        ("engine_record_us"@, delta.record_us),
        ("engine_submit_us"@, delta.submit_us),
        ("engine_wait_us"@, delta.wait_us),
        ("engine_retire_wait_us"@, delta.retire_wait_us),
        ("engine_post_wait_skips"@, delta.compute_post_wait_skips),
        ("engine_ring_retire_blocks"@, delta.ring_retire_blocks),
        ("engine_readback_us"@, delta.readback_us),
        ("engine_cleanup_us"@, delta.cleanup_us),
        ("engine_unattributed_us"@, engine_rest(engine_us, delta)),
        ("engine_readbacks"@, delta.readbacks),
        ("engine_readback_bytes"@, delta.readback_bytes),
        ("engine_sampled_uploads"@, delta.compute_sampled_uploads),
        ("engine_sampled_upload_bytes"@, delta.compute_sampled_upload_bytes),
        ("engine_sampled_resident_copies"@, delta.compute_sampled_resident_copies),
        ("engine_sampled_resident_copy_bytes"@, delta.compute_sampled_resident_copy_bytes),
        ("engine_sampled_reinterpret_copies"@, delta.compute_sampled_reinterpret_copies),
        ("engine_sampled_reinterpret_copy_bytes"@, delta.compute_sampled_reinterpret_copy_bytes),
        ("engine_storage_seed_uploads"@, delta.compute_storage_seed_uploads),
        ("engine_storage_seed_upload_bytes"@, delta.compute_storage_seed_upload_bytes),
        ("engine_direct_writebacks"@, delta.compute_direct_writebacks),
        ("engine_direct_writeback_bytes"@, delta.compute_direct_writeback_bytes),
        ("engine_direct_writeback_fallbacks"@, delta.compute_direct_writeback_fallbacks),
        ("engine_creates"@, delta.creates),
        ("engine_allocs"@, delta.allocs),
    ]
}

/// Named numbers as they stand in a line: `name=value` each, a space between them.
pub open spec fn numbers_text(numbers: Seq<(Seq<char>, u64)>) -> Seq<char>
    decreases numbers.len(),
{
    if numbers.len() == 0 {
        Seq::empty()
    } else {
        let last = numbers.last().0 + "="@ + decimal(numbers.last().1 as nat);
        if numbers.len() == 1 {
            last
        } else {
            numbers_text(numbers.drop_last()) + " "@ + last
        }
    }
}

/// Named numbers as values.
pub open spec fn numbers_view(numbers: Seq<(&'static str, u64)>) -> Seq<(Seq<char>, u64)> {
    Seq::new(numbers.len(), |i: int| (numbers[i].0@, numbers[i].1))
}

fn number_line(numbers: &Vec<(&'static str, u64)>) -> (line: String)
    ensures
        line@ == numbers_text(numbers_view(numbers@)),
{
    let ghost all = numbers_view(numbers@);
    let mut line = String::new();
    let mut i: usize = 0;
    assert(all.take(0) =~= Seq::empty());
    assert(line@ =~= Seq::<char>::empty());
    while i < numbers.len()
        invariant
            i <= numbers.len(),
            all == numbers_view(numbers@),
            line@ == numbers_text(all.take(i as int)),
        decreases numbers.len() - i,
    {
        let ghost so_far = line@;
        if i > 0 {
            line.append(" ");
        }
        line.append(numbers[i].0);
        line.append("=");
        push_decimal(&mut line, numbers[i].1);
        i = i + 1;
        proof {
            let next = all.take(i as int);
            assert(next.drop_last() =~= all.take(i - 1));
            assert(next.last() == all[i - 1]);
            let last = next.last().0 + "="@ + decimal(next.last().1 as nat);
            if i == 1 {
                assert(line@ =~= last);
            } else {
                assert(line@ =~= so_far + " "@ + last);
            }
        }
    }
    assert(all.take(i as int) =~= all);
    line
}

/// The phases of one run, as they stand in a log line. Time that no phase accounts
/// for is named too, so that nothing hides between them.
pub fn compute_engine_phase_fields(engine_us: u64, delta: &CounterSnapshot) -> (line: String)
    ensures
        line@ == numbers_text(phases(engine_us, *delta)),
{
    let mut resource: u64 = 0;
    resource = saturating_sum(resource, delta.sampler_prepare_us);
    resource = saturating_sum(resource, delta.storage_prepare_us);
    resource = saturating_sum(resource, delta.sampled_prepare_us);
    resource = saturating_sum(resource, delta.storage_image_prepare_us);
    resource = saturating_sum(resource, delta.descriptor_prepare_us);
    let mut measured: u64 = 0;
    measured = saturating_sum(measured, delta.lock_wait_us);
    measured = saturating_sum(measured, delta.context_us);
    measured = saturating_sum(measured, delta.pool_init_us);
    measured = saturating_sum(measured, delta.cache_us);
    measured = saturating_sum(measured, delta.resource_us);
    measured = saturating_sum(measured, delta.pre_record_wait_us);
    measured = saturating_sum(measured, delta.record_us);
    measured = saturating_sum(measured, delta.submit_us);
    measured = saturating_sum(measured, delta.wait_us);
    measured = saturating_sum(measured, delta.retire_wait_us);
    measured = saturating_sum(measured, delta.readback_us);
    measured = saturating_sum(measured, delta.cleanup_us);
    let numbers: Vec<(&'static str, u64)> = vec![
        ("engine_lock_wait_us", delta.lock_wait_us),
        ("engine_context_us", delta.context_us),
        ("engine_pool_init_us", delta.pool_init_us),
        ("engine_cache_us", delta.cache_us),
        ("engine_shader_create_us", delta.shader_create_us),
        ("engine_layout_create_us", delta.layout_create_us),
        ("engine_pipeline_create_us", delta.pipeline_create_us),
        ("engine_sampler_create_us", delta.sampler_create_us),
        ("engine_resource_us", delta.resource_us),
        ("engine_resource_unattributed_us", rest_of(delta.resource_us, resource)),
        ("engine_sampler_prepare_us", delta.sampler_prepare_us),
        ("engine_storage_buffer_prepare_us", delta.storage_prepare_us),
        ("engine_sampled_image_prepare_us", delta.sampled_prepare_us),
        ("engine_storage_image_prepare_us", delta.storage_image_prepare_us),
        ("engine_descriptor_prepare_us", delta.descriptor_prepare_us),
        ("engine_memory_alloc_us", delta.memory_alloc_us),
        ("engine_pre_record_wait_us", delta.pre_record_wait_us),
        ("engine_record_us", delta.record_us),
        ("engine_submit_us", delta.submit_us),
        ("engine_wait_us", delta.wait_us),
        ("engine_retire_wait_us", delta.retire_wait_us),
        ("engine_post_wait_skips", delta.compute_post_wait_skips),
        ("engine_ring_retire_blocks", delta.ring_retire_blocks),
        ("engine_readback_us", delta.readback_us),
        ("engine_cleanup_us", delta.cleanup_us),
        ("engine_unattributed_us", rest_of(engine_us, measured)),
        ("engine_readbacks", delta.readbacks),
        ("engine_readback_bytes", delta.readback_bytes),
        ("engine_sampled_uploads", delta.compute_sampled_uploads),
        ("engine_sampled_upload_bytes", delta.compute_sampled_upload_bytes),
        ("engine_sampled_resident_copies", delta.compute_sampled_resident_copies),
        ("engine_sampled_resident_copy_bytes", delta.compute_sampled_resident_copy_bytes),
        ("engine_sampled_reinterpret_copies", delta.compute_sampled_reinterpret_copies),
        ("engine_sampled_reinterpret_copy_bytes", delta.compute_sampled_reinterpret_copy_bytes),
        ("engine_storage_seed_uploads", delta.compute_storage_seed_uploads),
        ("engine_storage_seed_upload_bytes", delta.compute_storage_seed_upload_bytes),
        ("engine_direct_writebacks", delta.compute_direct_writebacks),
        ("engine_direct_writeback_bytes", delta.compute_direct_writeback_bytes),
        ("engine_direct_writeback_fallbacks", delta.compute_direct_writeback_fallbacks),
        ("engine_creates", delta.creates),
        ("engine_allocs", delta.allocs),
    ];
    assert(numbers_view(numbers@) =~= phases(engine_us, *delta));
    number_line(&numbers)
}

/// The phases and what is left over make up the run, where the clocks agree.
pub proof fn law_phases_make_up_the_run(engine_us: u64, delta: CounterSnapshot, parts: int)
    requires
        parts == delta.lock_wait_us + delta.context_us + delta.pool_init_us + delta.cache_us
            + delta.resource_us + delta.pre_record_wait_us + delta.record_us + delta.submit_us
            + delta.wait_us + delta.retire_wait_us + delta.readback_us + delta.cleanup_us,
        parts <= engine_us,
    ensures
        parts + engine_rest(engine_us, delta) == engine_us,
{
}

} // verus!
