use pkger::job::{
    advance, artifact_dir, artifact_path, first_step, job_paths, work_for, JobEvent, JobState,
    JobStep,
};

#[test]
fn job_names_and_directories() {
    let p = job_paths("hello", "debian-bullseye", 1700000000);
    assert_eq!(p.id, "pkger-hello-debian-bullseye-1700000000");
    assert_eq!(p.bld_dir, "/tmp/hello-build-1700000000");
    assert_eq!(p.out_dir, "/tmp/hello-out-1700000000");
    assert_eq!(p.tmp_dir, "/tmp/hello-tmp-1700000000");
    assert_eq!(artifact_dir("/out", "debian-bullseye"), "/out/debian-bullseye");
    assert_eq!(
        artifact_path("/out", "debian-bullseye", "hello-0.1.0.tar.gz"),
        "/out/debian-bullseye/hello-0.1.0.tar.gz"
    );
}

#[test]
fn successful_job_runs_every_step_and_removes_its_container() {
    let mut s = JobState::Created;
    let mut steps = vec![first_step()];
    let mut removed = 0;
    while s != JobState::Done {
        let t = advance(s, JobEvent::Succeeded, true);
        if t.remove_container {
            removed += 1;
        }
        if let Some(step) = t.step {
            steps.push(step);
        }
        s = t.next;
    }
    assert_eq!(removed, 1);
    assert_eq!(
        steps,
        vec![
            JobStep::BuildImage,
            JobStep::CreateOutDir,
            JobStep::SpawnContainer,
            JobStep::BuildDepCache,
            JobStep::CreateDirs,
            JobStep::FetchSource,
            JobStep::ApplyPatches,
            JobStep::RunScripts,
            JobStep::ExcludePaths,
            JobStep::Package,
            JobStep::Download,
        ]
    );
    assert_eq!(work_for(JobState::ContainerUp, false), Some(JobStep::CreateDirs));
}

#[test]
fn failure_and_cancellation_remove_the_container() {
    let t = advance(JobState::ScriptsRun, JobEvent::Failed, false);
    assert_eq!(t.next, JobState::Failed);
    assert!(t.remove_container);
    let t = advance(JobState::ContainerUp, JobEvent::Cancelled, false);
    assert_eq!(t.next, JobState::Cancelled);
    assert!(t.remove_container);
    let t = advance(JobState::ImageReady, JobEvent::Failed, false);
    assert!(!t.remove_container);
    let t = advance(JobState::Done, JobEvent::Failed, false);
    assert_eq!(t.next, JobState::Done);
    assert!(!t.remove_container);
}

#[test]
fn container_environment() {
    let env = pkger::job::container_env(
        &vec!["FOO=bar".to_string()],
        "/tmp/hello-build-1",
        "/tmp/hello-out-1",
        "debian",
        "11",
    );
    assert_eq!(
        env,
        vec![
            "FOO=bar",
            "PKGER_BLD_DIR=/tmp/hello-build-1",
            "PKGER_OUT_DIR=/tmp/hello-out-1",
            "PKGER_OS=debian",
            "PKGER_OS_VERSION=11",
        ]
    );
}
