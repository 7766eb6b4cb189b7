//! Build tasks: one per package, each with its own working directory and
//! the runtime its package needs; the build tool's arguments; what a task's
//! end means; and the aggregate of all tasks' outcomes.

use vstd::prelude::*;

use crate::adoptium::InstalledRuntime;
use crate::error::{RunError, TaskFailure};
use crate::layout::task_dir;
use crate::mojang::Package;
use crate::text::{copy_strings, decimal, decimal_string, text_views};

verus! {

/// One build, ready to run.
#[derive(Debug, PartialEq, Eq)]
pub struct BuildTask {
    /// The version built.
    pub package_id: String,
    /// The task's own working directory.
    pub working_dir: Vec<String>,
    /// The executable of the runtime the package needs.
    pub runtime_executable: Vec<String>,
}

/// `i` is the first runtime of `runtimes` with major version `major`.
pub open spec fn is_first_runtime(runtimes: Seq<InstalledRuntime>, major: u8, i: int) -> bool {
    &&& 0 <= i < runtimes.len()
    &&& runtimes[i].major_version == major
    &&& forall|j: int| 0 <= j < i ==> (#[trigger] runtimes[j]).major_version != major
}

/// Whether some runtime of `runtimes` has major version `major`.
pub open spec fn has_runtime(runtimes: Seq<InstalledRuntime>, major: u8) -> bool {
    exists|i: int| 0 <= i < runtimes.len() && (#[trigger] runtimes[i]).major_version == major
}

/// `t` is the task for package `p`: it builds `p`'s version in its own
/// directory below `run_root`, with the first runtime of the major version
/// `p` needs.
pub open spec fn is_task_for(
    t: BuildTask,
    p: Package,
    runtimes: Seq<InstalledRuntime>,
    run_root: Seq<String>,
) -> bool {
    &&& t.package_id@ == p.id@
    &&& text_views(t.working_dir@) == text_views(run_root).push(p.id@)
    &&& exists|i: int|
        is_first_runtime(runtimes, p.java_version.major_version, i)
            && t.runtime_executable@ == (#[trigger] runtimes[i]).executable@
}

/// The index of the first runtime with major version `major`.
pub fn find_runtime(runtimes: &Vec<InstalledRuntime>, major: u8) -> (r: Option<usize>)
    ensures
        r matches Some(i) ==> is_first_runtime(runtimes@, major, i as int),
        r is None ==> !has_runtime(runtimes@, major),
{
    let mut i: usize = 0;
    while i < runtimes.len()
        invariant
            i <= runtimes.len(),
            forall|j: int| 0 <= j < i ==> (#[trigger] runtimes@[j]).major_version != major,
        decreases runtimes.len() - i,
    {
        if runtimes[i].major_version == major {
            return Some(i);
        }
        i += 1;
    }
    None
}

/// One task per package, in package order, each paired with the runtime of
/// the major version its package needs. The first package without such a
/// runtime fails the whole call with `MissingRuntime`.
pub fn plan_tasks(packages: &Vec<Package>, runtimes: &Vec<InstalledRuntime>, run_root: &Vec<String>) -> (r:
    Result<Vec<BuildTask>, RunError>)
    ensures
        (forall|i: int|
            0 <= i < packages.len() ==> has_runtime(
                runtimes@,
                (#[trigger] packages@[i]).java_version.major_version,
            )) ==> (r matches Ok(tasks) && tasks.len() == packages.len() && forall|i: int|
            0 <= i < packages.len() ==> is_task_for(
                #[trigger] tasks@[i],
                packages@[i],
                runtimes@,
                run_root@,
            )),
        r is Ok ==> forall|i: int|
            0 <= i < packages.len() ==> has_runtime(
                runtimes@,
                (#[trigger] packages@[i]).java_version.major_version,
            ),
        r matches Err(e) ==> (e matches RunError::MissingRuntime(m) && exists|i: int|
            0 <= i < packages.len() && (#[trigger] packages@[i]).java_version.major_version == m
                && !has_runtime(runtimes@, m) && forall|j: int|
                0 <= j < i ==> has_runtime(
                    runtimes@,
                    (#[trigger] packages@[j]).java_version.major_version,
                )),
{
    let mut tasks: Vec<BuildTask> = Vec::new();
    let mut i: usize = 0;
    while i < packages.len()
        invariant
            i <= packages.len(),
            tasks.len() == i,
            forall|k: int|
                0 <= k < i ==> is_task_for(#[trigger] tasks@[k], packages@[k], runtimes@, run_root@),
            forall|k: int|
                0 <= k < i ==> has_runtime(
                    runtimes@,
                    (#[trigger] packages@[k]).java_version.major_version,
                ),
        decreases packages.len() - i,
    {
        let p = &packages[i];
        let major = p.java_version.major_version;
        match find_runtime(runtimes, major) {
            Some(k) => {
                let t = BuildTask {
                    package_id: p.id.clone(),
                    working_dir: task_dir(run_root, &p.id),
                    runtime_executable: copy_strings(&runtimes[k].executable),
                };
                assert(t.runtime_executable@ == runtimes@[k as int].executable@);
                assert(is_task_for(t, packages@[i as int], runtimes@, run_root@));
                assert(runtimes@[k as int].major_version == major);
                tasks.push(t);
            },
            None => {
                return Err(RunError::MissingRuntime(major));
            },
        }
        i += 1;
    }
    Ok(tasks)
}

/// The build tool's arguments: the memory limit, the tool's jar, the
/// version to build, where its output goes, and the remapped-jar switch.
pub open spec fn spec_build_tool_args(
    per_task_mb: nat,
    jar: Seq<char>,
    package_id: Seq<char>,
    output_dir: Seq<char>,
) -> Seq<Seq<char>> {
    seq![
        "-Xmx"@ + decimal(per_task_mb) + "m"@,
        "-jar"@,
        jar,
        "--rev"@,
        package_id,
        "--output-dir"@,
        output_dir,
        "--remapped"@,
    ]
}

/// The arguments the runtime is started with to build `package_id`.
pub fn build_tool_args(per_task_mb: usize, jar: &str, package_id: &str, output_dir: &str) -> (r: Vec<
    String,
>)
    ensures
        text_views(r@) == spec_build_tool_args(per_task_mb as nat, jar@, package_id@, output_dir@),
{
    let mut memory = String::from_str("-Xmx");
    let digits = decimal_string(per_task_mb as u64);
    memory.append(digits.as_str());
    memory.append("m");
    let mut r: Vec<String> = Vec::new();
    r.push(memory);
    r.push(String::from_str("-jar"));
    r.push(String::from_str(jar));
    r.push(String::from_str("--rev"));
    r.push(String::from_str(package_id));
    r.push(String::from_str("--output-dir"));
    r.push(String::from_str(output_dir));
    r.push(String::from_str("--remapped"));
    assert(text_views(r@) =~= spec_build_tool_args(
        per_task_mb as nat,
        jar@,
        package_id@,
        output_dir@,
    ));
    r
}

/// What the end of a task's subprocess means: `exit` is the exit code the
/// build tool ended with (none when a signal stopped it), or why it could
/// not be started. Only an exit code of 0 is success.
pub fn classify_exit(package_id: &String, exit: Result<Option<i32>, String>) -> (r: Result<
    (),
    TaskFailure,
>)
    ensures
        exit == Ok::<Option<i32>, String>(Some(0)) ==> r is Ok,
        exit is Ok && exit->Ok_0 != Some(0i32) ==> (r matches Err(
            TaskFailure::BuildFailure { package_id: id, code: c },
        ) && id@ == package_id@ && c == exit->Ok_0),
        exit is Err ==> (r matches Err(TaskFailure::SpawnFailure { package_id: id, cause: why })
            && id@ == package_id@ && why == exit->Err_0),
{
    match exit {
        Ok(Some(0)) => Ok(()),
        Ok(code) => Err(TaskFailure::BuildFailure { package_id: package_id.clone(), code }),
        Err(cause) => Err(TaskFailure::SpawnFailure { package_id: package_id.clone(), cause }),
    }
}

/// The failures among `outcomes`, in order.
pub open spec fn failures(outcomes: Seq<Result<(), TaskFailure>>) -> Seq<TaskFailure>
    decreases outcomes.len(),
{
    if outcomes.len() == 0 {
        seq![]
    } else {
        let rest = failures(outcomes.drop_first());
        match outcomes[0] {
            Err(f) => seq![f] + rest,
            Ok(()) => rest,
        }
    }
}

/// The run's result from all tasks' outcomes: success exactly when no task
/// failed, else `SomeTasksFailed` with every failure, in task order.
pub fn aggregate_outcomes(outcomes: Vec<Result<(), TaskFailure>>) -> (r: Result<(), RunError>)
    ensures
        failures(outcomes@).len() == 0 ==> r is Ok,
        failures(outcomes@).len() > 0 ==> (r matches Err(RunError::SomeTasksFailed(all)) && all@
            == failures(outcomes@)),
{
    let mut rest = outcomes;
    let mut failed: Vec<TaskFailure> = Vec::new();
    while rest.len() > 0
        invariant
            failures(outcomes@) == failed@ + failures(rest@),
        decreases rest.len(),
    {
        let ghost before = rest@;
        let outcome = rest.remove(0);
        assert(rest@ == before.drop_first());
        match outcome {
            Ok(()) => {},
            Err(f) => {
                let ghost old_failed = failed@;
                failed.push(f);
                assert(old_failed + (seq![before[0]->Err_0] + failures(rest@)) == failed@ + failures(
                    rest@,
                ));
            },
        }
    }
    assert(failed@ + failures(rest@) == failed@);
    if failed.len() == 0 {
        Ok(())
    } else {
        Err(RunError::SomeTasksFailed(failed))
    }
}

} // verus!
