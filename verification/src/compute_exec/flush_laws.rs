//! In which order the outputs of nested jobs are flushed.

use vstd::prelude::*;
use crate::compute_exec::metal::NestedDispatchJob;
use crate::compute_exec::nested_flush::{FlushPhase, to_buffer, to_job, to_texture};
use crate::compute_exec::status::ComputeStatus;

verus! {

/// Job after job is read back; behind the last the flush is complete.
pub proof fn law_jobs_are_flushed_in_turn(jobs: Seq<NestedDispatchJob>, k: usize)
    ensures
        k < jobs.len() ==> to_job(jobs, k as int) == (FlushPhase::ReadBack { job: k }),
        k >= jobs.len() ==> to_job(jobs, k as int) == FlushPhase::Done(ComputeStatus::Completed),
{
}

/// Of a job, buffer after buffer is written, then texture after texture, then comes the next
/// job.
pub proof fn law_parts_are_flushed_in_turn(jobs: Seq<NestedDispatchJob>, k: usize, i: usize)
    requires
        k < jobs.len(),
    ensures
        i < jobs[k as int].staged_bufs.len() ==> to_buffer(jobs, k as int, i as int) == (
        FlushPhase::BufferWrite { job: k, index: i }),
        i >= jobs[k as int].staged_bufs.len() ==> to_buffer(jobs, k as int, i as int)
            == to_texture(jobs, k as int, 0),
        i < jobs[k as int].storage_tex.len() ==> to_texture(jobs, k as int, i as int) == (
        FlushPhase::TextureWrite { job: k, index: i }),
        i >= jobs[k as int].storage_tex.len() ==> to_texture(jobs, k as int, i as int) == to_job(
            jobs,
            k + 1,
        ),
{
}

} // verus!
