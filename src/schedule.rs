//! Sizing the worker pool and checking the run's preconditions before any
//! network or subprocess work starts.

use vstd::prelude::*;

use crate::distinct::{dedup, unique_ids};
use crate::error::RunError;
use crate::text::text_views;

verus! {

/// The least memory, in MB, that one build task may be given.
pub const MIN_TASK_MEMORY_MB: usize = 512;

/// The memory per build task, in MB, when none is asked for.
pub const DEFAULT_TASK_MEMORY_MB: usize = 512;

/// Bytes in one MB, as host memory is reported in bytes.
pub const BYTES_PER_MB: u64 = 1_000_000;

/// The pool size: the requested count, or a quarter of the host's CPUs but
/// at least one, and never more than there are tasks.
pub open spec fn spec_worker_count(requested: Option<usize>, cpu_count: nat, n_tasks: nat) -> nat {
    let wanted: nat = match requested {
        Some(w) => w as nat,
        None => if cpu_count / 4 > 1 {
            cpu_count / 4
        } else {
            1
        },
    };
    if wanted < n_tasks {
        wanted
    } else {
        n_tasks
    }
}

/// Whether `workers` tasks of `per_task_mb` MB each fit in the free memory.
pub open spec fn memory_suffices(per_task_mb: nat, workers: nat, available_bytes: nat) -> bool {
    per_task_mb * workers * (BYTES_PER_MB as nat) <= available_bytes
}

/// The memory per task that a run uses when `requested` is what was asked.
pub open spec fn task_memory(requested: Option<usize>) -> nat {
    match requested {
        Some(mb) => mb as nat,
        None => DEFAULT_TASK_MEMORY_MB as nat,
    }
}

/// How many build tasks run at once.
pub fn worker_count(requested: Option<usize>, cpu_count: usize, n_tasks: usize) -> (r: usize)
    ensures
        r == spec_worker_count(requested, cpu_count as nat, n_tasks as nat),
{
    let wanted = match requested {
        Some(w) => w,
        None => if cpu_count / 4 > 1 {
            cpu_count / 4
        } else {
            1
        },
    };
    if wanted < n_tasks {
        wanted
    } else {
        n_tasks
    }
}

/// Fails with `InsufficientMemory` when `workers` tasks of `per_task_mb` MB
/// each need more than `available_bytes`.
pub fn check_memory(per_task_mb: usize, workers: usize, available_bytes: u64) -> (r: Result<
    (),
    RunError,
>)
    ensures
        memory_suffices(per_task_mb as nat, workers as nat, available_bytes as nat) ==> r is Ok,
        !memory_suffices(per_task_mb as nat, workers as nat, available_bytes as nat) ==> (r matches Err(
            RunError::InsufficientMemory { workers: w, per_task_mb: m },
        ) && w == workers && m == per_task_mb),
{
    let fits = match (per_task_mb as u128).checked_mul(workers as u128) {
        Some(need_mb) => match need_mb.checked_mul(BYTES_PER_MB as u128) {
            Some(need) => need <= available_bytes as u128,
            None => false,
        },
        None => false,
    };
    if fits {
        Ok(())
    } else {
        Err(RunError::InsufficientMemory { workers, per_task_mb })
    }
}

/// What a run works with once its preconditions hold.
pub struct RunPlan {
    /// The requested identifiers, each once, in order of first occurrence.
    pub versions: Vec<String>,
    /// The memory per build task, in MB.
    pub per_task_mb: usize,
    /// The pool size.
    pub workers: usize,
}

/// Checks a run's preconditions, in order: at least one version, at least
/// 512 MB per task, no request for zero workers, and enough free memory for
/// the pool. The pool is sized
/// by the number of distinct versions, one task each.
pub fn plan_run(
    versions: &Vec<String>,
    per_task_mb: Option<usize>,
    requested_workers: Option<usize>,
    cpu_count: usize,
    available_bytes: u64,
) -> (r: Result<RunPlan, RunError>)
    ensures
        versions.len() == 0 ==> r matches Err(RunError::NoVersions),
        versions.len() > 0 && task_memory(per_task_mb) < MIN_TASK_MEMORY_MB ==> (r matches Err(
            RunError::MemoryBelowFloor { per_task_mb: m },
        ) && m == task_memory(per_task_mb)),
        versions.len() > 0 && task_memory(per_task_mb) >= MIN_TASK_MEMORY_MB && requested_workers
            == Some(0usize) ==> r matches Err(RunError::NoWorkers),
        versions.len() > 0 && task_memory(per_task_mb) >= MIN_TASK_MEMORY_MB && requested_workers
            != Some(0usize) ==> {
            let distinct = dedup(text_views(versions@));
            let workers = spec_worker_count(requested_workers, cpu_count as nat, distinct.len());
            &&& memory_suffices(task_memory(per_task_mb), workers, available_bytes as nat)
                ==> (r matches Ok(plan) && text_views(plan.versions@) == distinct
                && plan.per_task_mb == task_memory(per_task_mb) && plan.workers == workers)
            &&& !memory_suffices(task_memory(per_task_mb), workers, available_bytes as nat)
                ==> (r matches Err(RunError::InsufficientMemory { workers: w, per_task_mb: m })
                && w == workers && m == task_memory(per_task_mb))
        },
{
    if versions.len() == 0 {
        return Err(RunError::NoVersions);
    }
    let mb = match per_task_mb {
        Some(mb) => mb,
        None => DEFAULT_TASK_MEMORY_MB,
    };
    if mb < MIN_TASK_MEMORY_MB {
        return Err(RunError::MemoryBelowFloor { per_task_mb: mb });
    }
    if let Some(0) = requested_workers {
        return Err(RunError::NoWorkers);
    }
    let distinct = unique_ids(versions);
    proof {
        assert(text_views(distinct@).len() == distinct@.len());
    }
    let workers = worker_count(requested_workers, cpu_count, distinct.len());
    match check_memory(mb, workers, available_bytes) {
        Ok(()) => Ok(RunPlan { versions: distinct, per_task_mb: mb, workers }),
        Err(e) => Err(e),
    }
}

} // verus!
