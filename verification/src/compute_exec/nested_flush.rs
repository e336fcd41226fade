//! Writing back what the dispatches on a shared encoder computed.
//!
//! Once the encoder's work is done, a [`NestedFlush`] goes through the jobs in order:
//! each is read back from the backend, then its buffers and storage textures are
//! written to the guest. The first refusal ends it, and nothing after it is written.

use vstd::prelude::*;
use crate::compute_exec::buffers::writeback_buffer;
use crate::compute_exec::metal::NestedDispatchJob;
use crate::compute_exec::status::ComputeStatus;

verus! {

/// What a flush waits for.
#[derive(Clone, Copy, Debug, PartialEq, Eq)]
pub enum FlushPhase {
    /// The backend's results of a job, over its staged bytes.
    ReadBack { job: usize },
    /// The write of a job's buffer.
    BufferWrite { job: usize, index: usize },
    /// The write of a job's storage texture.
    TextureWrite { job: usize, index: usize },
    /// Nothing.
    Done(ComputeStatus),
}

/// A flush under way.
pub struct NestedFlush {
    pub jobs: Vec<NestedDispatchJob>,
    pub phase: FlushPhase,
}

/// The phase in which job `k` is begun; done, where there is none.
pub open spec fn to_job(jobs: Seq<NestedDispatchJob>, k: int) -> FlushPhase {
    if k < jobs.len() {
        FlushPhase::ReadBack { job: k as usize }
    } else {
        FlushPhase::Done(ComputeStatus::Completed)
    }
}

/// The phase in which buffer `i` of job `k` is written, or what follows the last one.
pub open spec fn to_buffer(jobs: Seq<NestedDispatchJob>, k: int, i: int) -> FlushPhase {
    if i < jobs[k].staged_bufs.len() {
        FlushPhase::BufferWrite { job: k as usize, index: i as usize }
    } else {
        to_texture(jobs, k, 0)
    }
}

/// The phase in which texture `i` of job `k` is written, or what follows the last one.
pub open spec fn to_texture(jobs: Seq<NestedDispatchJob>, k: int, i: int) -> FlushPhase {
    if i < jobs[k].storage_tex.len() {
        FlushPhase::TextureWrite { job: k as usize, index: i as usize }
    } else {
        to_job(jobs, k + 1)
    }
}

/// Begin to flush the jobs of a shared encoder.
pub fn flush_nested_jobs(jobs: Vec<NestedDispatchJob>) -> (flush: NestedFlush)
    ensures
        flush.jobs == jobs,
        flush.phase == to_job(jobs@, 0),
        flush.consistent(),
{
    let phase = if jobs.len() > 0 {
        FlushPhase::ReadBack { job: 0 }
    } else {
        FlushPhase::Done(ComputeStatus::Completed)
    };
    NestedFlush { jobs, phase }
}

impl NestedFlush {
    /// What the phase speaks of is there.
    pub open spec fn consistent(self) -> bool {
        match self.phase {
            FlushPhase::ReadBack { job } => job < self.jobs.len(),
            FlushPhase::BufferWrite { job, index } => job < self.jobs.len() && index
                < self.jobs[job as int].staged_bufs.len(),
            FlushPhase::TextureWrite { job, index } => job < self.jobs.len() && index
                < self.jobs[job as int].storage_tex.len(),
            FlushPhase::Done(_) => true,
        }
    }

    /// The backend copied a job's results over its staged bytes, or could not.
    pub fn read_back(&mut self, copied: bool)
        requires
            old(self).consistent(),
            old(self).phase is ReadBack,
        ensures
            final(self).consistent(),
            final(self).jobs == old(self).jobs,
            final(self).phase == if copied {
                to_buffer(old(self).jobs@, old(self).phase->ReadBack_job as int, 0)
            } else {
                FlushPhase::Done(ComputeStatus::MetalFailed("compute_nested_writeback_metal"))
            },
            !copied ==> final(self).phase is Done,
    {
        let job: usize = match self.phase {
            FlushPhase::ReadBack { job } => job,
            _ => 0,
        };
        if copied {
            self.await_buffer(job, 0);
        } else {
            self.phase = FlushPhase::Done(
                ComputeStatus::MetalFailed("compute_nested_writeback_metal"),
            );
        }
    }

    fn await_buffer(&mut self, job: usize, index: usize)
        requires
            job < old(self).jobs.len(),
        ensures
            final(self).consistent(),
            final(self).jobs == old(self).jobs,
            final(self).phase == to_buffer(old(self).jobs@, job as int, index as int),
    {
        if index < self.jobs[job].staged_bufs.len() {
            self.phase = FlushPhase::BufferWrite { job, index };
        } else {
            self.await_texture(job, 0);
        }
    }

    /// The awaited buffer was written to the guest, or was not.
    pub fn buffer_written(&mut self, wrote: bool)
        requires
            old(self).consistent(),
            old(self).phase is BufferWrite,
        ensures
            final(self).consistent(),
            final(self).jobs == old(self).jobs,
            final(self).phase == if wrote {
                to_buffer(
                    old(self).jobs@,
                    old(self).phase->BufferWrite_job as int,
                    old(self).phase->BufferWrite_index + 1,
                )
            } else {
                FlushPhase::Done(ComputeStatus::GuestIo("compute_wb_buf_task_gva_write"))
            },
            !wrote ==> final(self).phase == FlushPhase::Done(
                ComputeStatus::GuestIo("compute_wb_buf_task_gva_write"),
            ),
    {
        let (job, index) = match self.phase {
            FlushPhase::BufferWrite { job, index } => (job, index),
            _ => (0, 0),
        };
        match writeback_buffer(wrote) {
            Ok(_) => self.await_buffer(job, index + 1),
            Err(status) => {
                self.phase = FlushPhase::Done(status);
            },
        }
    }

    fn await_texture(&mut self, job: usize, index: usize)
        requires
            job < old(self).jobs.len(),
        ensures
            final(self).consistent(),
            final(self).jobs == old(self).jobs,
            final(self).phase == to_texture(old(self).jobs@, job as int, index as int),
    {
        self.phase = if index < self.jobs[job].storage_tex.len() {
            FlushPhase::TextureWrite { job, index }
        } else if job + 1 < self.jobs.len() {
            FlushPhase::ReadBack { job: job + 1 }
        } else {
            FlushPhase::Done(ComputeStatus::Completed)
        };
    }

    /// The awaited texture was written to the guest, or could not be.
    pub fn texture_written(&mut self, outcome: Result<(), ComputeStatus>)
        requires
            old(self).consistent(),
            old(self).phase is TextureWrite,
        ensures
            final(self).consistent(),
            final(self).jobs == old(self).jobs,
            final(self).phase == match outcome {
                Ok(_) => to_texture(
                    old(self).jobs@,
                    old(self).phase->TextureWrite_job as int,
                    old(self).phase->TextureWrite_index + 1,
                ),
                Err(status) => FlushPhase::Done(status),
            },
            outcome is Err ==> final(self).phase == FlushPhase::Done(outcome->Err_0),
    {
        let (job, index) = match self.phase {
            FlushPhase::TextureWrite { job, index } => (job, index),
            _ => (0, 0),
        };
        match outcome {
            Ok(_) => self.await_texture(job, index + 1),
            Err(status) => {
                self.phase = FlushPhase::Done(status);
            },
        }
    }
}

/// Where a flush stands: how many parts it has behind it, in the order of the jobs,
/// counting a job's read-back, its buffers and its textures.
pub open spec fn parts_before(jobs: Seq<NestedDispatchJob>, k: int) -> int
    decreases k,
{
    if k <= 0 {
        0
    } else {
        parts_before(jobs, k - 1) + 1 + jobs[k - 1].staged_bufs.len() + jobs[k
            - 1].storage_tex.len()
    }
}

pub open spec fn place(jobs: Seq<NestedDispatchJob>, phase: FlushPhase) -> int {
    match phase {
        FlushPhase::ReadBack { job } => parts_before(jobs, job as int),
        FlushPhase::BufferWrite { job, index } => parts_before(jobs, job as int) + 1 + index,
        FlushPhase::TextureWrite { job, index } => parts_before(jobs, job as int) + 1
            + jobs[job as int].staged_bufs.len() + index,
        FlushPhase::Done(_) => parts_before(jobs, jobs.len() as int),
    }
}

/// A part that succeeds is followed by the very next one: no buffer and no texture of
/// any job is passed over or written twice.
pub proof fn law_flush_passes_nothing_over(flush: NestedFlush)
    requires
        flush.consistent(),
        flush.jobs.len() <= usize::MAX,
    ensures
        ({
            let jobs = flush.jobs@;
            match flush.phase {
                FlushPhase::ReadBack { job } => place(jobs, to_buffer(jobs, job as int, 0)) == place(
                    jobs,
                    flush.phase,
                ) + 1,
                FlushPhase::BufferWrite { job, index } => place(
                    jobs,
                    to_buffer(jobs, job as int, index + 1),
                ) == place(jobs, flush.phase) + 1,
                FlushPhase::TextureWrite { job, index } => place(
                    jobs,
                    to_texture(jobs, job as int, index + 1),
                ) == place(jobs, flush.phase) + 1,
                FlushPhase::Done(_) => true,
            }
        }),
{
    let jobs = flush.jobs@;
    match flush.phase {
        FlushPhase::ReadBack { job } => {
            assert(parts_before(jobs, job + 1) == parts_before(jobs, job as int) + 1
                + jobs[job as int].staged_bufs.len() + jobs[job as int].storage_tex.len());
        },
        FlushPhase::BufferWrite { job, .. } => {
            assert(parts_before(jobs, job + 1) == parts_before(jobs, job as int) + 1
                + jobs[job as int].staged_bufs.len() + jobs[job as int].storage_tex.len());
        },
        FlushPhase::TextureWrite { job, .. } => {
            assert(parts_before(jobs, job + 1) == parts_before(jobs, job as int) + 1
                + jobs[job as int].staged_bufs.len() + jobs[job as int].storage_tex.len());
        },
        FlushPhase::Done(_) => {},
    }
}

} // verus!
