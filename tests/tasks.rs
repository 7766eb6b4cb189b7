use buildtools_runner::adoptium::InstalledRuntime;
use buildtools_runner::error::{RunError, TaskFailure};
use buildtools_runner::layout::{buildtools_jar, java_root, new_run_root, task_dir, RUN_ID_LEN};
use buildtools_runner::mojang::{JavaVersion, Package};
use buildtools_runner::spigot::{user_agent, versions_exist};
use buildtools_runner::task::{aggregate_outcomes, build_tool_args, classify_exit, plan_tasks};

fn segs(parts: &[&str]) -> Vec<String> {
    parts.iter().map(|p| p.to_string()).collect()
}

fn package(id: &str, major: u8) -> Package {
    Package { java_version: JavaVersion { major_version: major }, id: id.to_string() }
}

fn runtime(major: u8, path: &[&str]) -> InstalledRuntime {
    InstalledRuntime { major_version: major, executable: segs(path) }
}

#[test]
fn build_tool_args_are_exact() {
    assert_eq!(
        build_tool_args(1024, "/cache/buildtools.jar", "1.20.1", "/tmp/run/1.20.1"),
        segs(&[
            "-Xmx1024m",
            "-jar",
            "/cache/buildtools.jar",
            "--rev",
            "1.20.1",
            "--output-dir",
            "/tmp/run/1.20.1",
            "--remapped",
        ])
    );
    assert_eq!(build_tool_args(512, "j", "v", "o")[0], "-Xmx512m");
}

#[test]
fn exit_zero_is_success() {
    assert_eq!(classify_exit(&"1.20.1".to_string(), Ok(Some(0))), Ok(()));
}

#[test]
fn non_zero_exit_is_build_failure() {
    assert_eq!(
        classify_exit(&"1.20.1".to_string(), Ok(Some(1))),
        Err(TaskFailure::BuildFailure { package_id: "1.20.1".to_string(), code: Some(1) })
    );
    assert_eq!(
        classify_exit(&"1.20.1".to_string(), Ok(None)),
        Err(TaskFailure::BuildFailure { package_id: "1.20.1".to_string(), code: None })
    );
}

#[test]
fn failed_start_is_spawn_failure() {
    assert_eq!(
        classify_exit(&"1.19.4".to_string(), Err("no such file".to_string())),
        Err(TaskFailure::SpawnFailure {
            package_id: "1.19.4".to_string(),
            cause: "no such file".to_string(),
        })
    );
}

#[test]
fn one_failed_task_of_five_fails_the_run() {
    let ids = ["1.16.5", "1.17.1", "1.18.2", "1.19.4", "1.20.1"];
    let codes = [Some(0), Some(0), Some(2), Some(0), Some(0)];
    let outcomes: Vec<Result<(), TaskFailure>> = ids
        .iter()
        .zip(codes.iter())
        .map(|(id, code)| classify_exit(&id.to_string(), Ok(*code)))
        .collect();
    for (i, o) in outcomes.iter().enumerate() {
        assert_eq!(o.is_ok(), i != 2);
    }
    assert_eq!(
        aggregate_outcomes(outcomes),
        Err(RunError::SomeTasksFailed(vec![TaskFailure::BuildFailure {
            package_id: "1.18.2".to_string(),
            code: Some(2),
        }]))
    );
}

#[test]
fn all_succeeded_tasks_make_a_successful_run() {
    assert_eq!(aggregate_outcomes(vec![Ok(()), Ok(())]), Ok(()));
    assert_eq!(aggregate_outcomes(Vec::new()), Ok(()));
}

#[test]
fn aggregate_lists_every_failure_in_order() {
    let spawn = TaskFailure::SpawnFailure { package_id: "a".to_string(), cause: "x".to_string() };
    let build = TaskFailure::BuildFailure { package_id: "c".to_string(), code: None };
    let r = aggregate_outcomes(vec![
        Err(TaskFailure::SpawnFailure { package_id: "a".to_string(), cause: "x".to_string() }),
        Ok(()),
        Err(TaskFailure::BuildFailure { package_id: "c".to_string(), code: None }),
    ]);
    assert_eq!(r, Err(RunError::SomeTasksFailed(vec![spawn, build])));
}

#[test]
fn tasks_get_their_own_directory_and_matching_runtime() {
    let packages = vec![package("1.20.1", 17), package("1.16.5", 8), package("1.19.4", 17)];
    let runtimes = vec![runtime(8, &["/j8", "bin", "java"]), runtime(17, &["/j17", "bin", "java"])];
    let root = segs(&["/tmp", "runner-abc"]);
    let tasks = plan_tasks(&packages, &runtimes, &root).unwrap();
    assert_eq!(tasks.len(), 3);
    assert_eq!(tasks[0].package_id, "1.20.1");
    assert_eq!(tasks[0].working_dir, segs(&["/tmp", "runner-abc", "1.20.1"]));
    assert_eq!(tasks[0].runtime_executable, segs(&["/j17", "bin", "java"]));
    assert_eq!(tasks[1].working_dir, segs(&["/tmp", "runner-abc", "1.16.5"]));
    assert_eq!(tasks[1].runtime_executable, segs(&["/j8", "bin", "java"]));
    assert_eq!(tasks[2].runtime_executable, segs(&["/j17", "bin", "java"]));
}

#[test]
fn task_without_runtime_is_refused() {
    let packages = vec![package("1.20.1", 17), package("1.20.5", 21)];
    let runtimes = vec![runtime(17, &["/j17", "bin", "java"])];
    let r = plan_tasks(&packages, &runtimes, &segs(&["/tmp"]));
    assert_eq!(r, Err(RunError::MissingRuntime(21)));
}

#[test]
fn cache_layout() {
    let cache = segs(&["/home/u/.cache/runner"]);
    assert_eq!(java_root(&cache), segs(&["/home/u/.cache/runner", "java"]));
    assert_eq!(buildtools_jar(&cache), segs(&["/home/u/.cache/runner", "buildtools.jar"]));
    assert_eq!(task_dir(&segs(&["/tmp", "r"]), &"1.8.8".to_string()), segs(&["/tmp", "r", "1.8.8"]));
}

#[test]
fn run_root_has_random_alphanumeric_suffix() {
    let a = new_run_root(&"/tmp".to_string(), "runner");
    assert_eq!(a.len(), 2);
    assert_eq!(a[0], "/tmp");
    assert!(a[1].starts_with("runner-"));
    let id = &a[1]["runner-".len()..];
    assert_eq!(id.chars().count(), RUN_ID_LEN);
    assert!(id.chars().all(|c| c.is_ascii_alphanumeric()));
    let b = new_run_root(&"/tmp".to_string(), "runner");
    assert_ne!(a[1], b[1]);
}

#[test]
fn user_agent_joins_name_and_version() {
    assert_eq!(user_agent("runner", "0.1.0"), "runner/0.1.0");
}

#[test]
fn versions_exist_finds_first_unsupported() {
    let listing = "1.20.1.json 1.19.4.json 1.18.2.json";
    let all = segs(&["1.20.1", "1.18.2"]);
    assert_eq!(versions_exist(&all, listing), None);
    let some = segs(&["1.20.1", "1.7.10", "1.6"]);
    assert_eq!(versions_exist(&some, listing).map(|s| s.as_str()), Some("1.7.10"));
    assert_eq!(versions_exist(&Vec::new(), listing), None);
}
