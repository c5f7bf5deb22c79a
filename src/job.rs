//! The life of one build job: the names and directories it works with, and
//! the state machine that orders its steps and guarantees its container is
//! removed however it ends.
use vstd::prelude::*;
use crate::text::{decimal, is_prefix, u64_to_string};

verus! {

/// The id of the job building `recipe` on `image`, started at `epoch`
/// (seconds since the Unix epoch).
pub open spec fn job_id_spec(recipe: Seq<char>, image: Seq<char>, epoch: u64) -> Seq<char> {
    "pkger-"@ + recipe + "-"@ + image + "-"@ + decimal(epoch as nat)
}

/// A directory inside the container of the job building `recipe` started
/// at `epoch`, for the purpose `kind` (`build`, `out` or `tmp`).
pub open spec fn job_dir_spec(recipe: Seq<char>, kind: Seq<char>, epoch: u64) -> Seq<char> {
    "/tmp/"@ + recipe + "-"@ + kind + "-"@ + decimal(epoch as nat)
}

/// The paths and names of one job.
#[derive(Debug)]
pub struct JobPaths {
    pub id: String,
    pub bld_dir: String,
    pub out_dir: String,
    pub tmp_dir: String,
}

/// Builds the job's id and its directories inside the container.
pub fn job_paths(recipe: &str, image: &str, epoch: u64) -> (r: JobPaths)
    ensures
        r.id@ == job_id_spec(recipe@, image@, epoch),
        r.bld_dir@ == job_dir_spec(recipe@, "build"@, epoch),
        r.out_dir@ == job_dir_spec(recipe@, "out"@, epoch),
        r.tmp_dir@ == job_dir_spec(recipe@, "tmp"@, epoch),
{
    let ts = u64_to_string(epoch);
    let mut id = String::from_str("pkger-");
    id.append(recipe);
    id.append("-");
    id.append(image);
    id.append("-");
    id.append(ts.as_str());
    let bld_dir = job_dir(recipe, "build", ts.as_str());
    let out_dir = job_dir(recipe, "out", ts.as_str());
    let tmp_dir = job_dir(recipe, "tmp", ts.as_str());
    proof {
        assert(id@ =~= job_id_spec(recipe@, image@, epoch));
    }
    JobPaths { id, bld_dir, out_dir, tmp_dir }
}

/// `/tmp/<recipe>-<kind>-<ts>`.
fn job_dir(recipe: &str, kind: &str, ts: &str) -> (r: String)
    ensures
        r@ == "/tmp/"@ + recipe@ + "-"@ + kind@ + "-"@ + ts@,
{
    let mut d = String::from_str("/tmp/");
    d.append(recipe);
    d.append("-");
    d.append(kind);
    d.append("-");
    d.append(ts);
    proof {
        assert(d@ =~= "/tmp/"@ + recipe@ + "-"@ + kind@ + "-"@ + ts@);
    }
    d
}

/// `KEY=value`.
pub open spec fn env_entry(key: Seq<char>, value: Seq<char>) -> Seq<char> {
    key + "="@ + value
}

/// Appends `KEY=value`.
fn push_env(env: &mut Vec<String>, key: &str, value: &str)
    ensures
        final(env)@.len() == old(env)@.len() + 1,
        forall|i: int| 0 <= i < old(env)@.len() ==> final(env)@[i] == old(env)@[i],
        final(env)@.last()@ == env_entry(key@, value@),
{
    let mut e = key.to_string();
    e.append("=");
    e.append(value);
    env.push(e);
}

/// The environment of a job's container: the recipe's own entries, then
/// the build and output directories and the image's system and version.
pub fn container_env(recipe_env: &Vec<String>, bld_dir: &str, out_dir: &str, os: &str, os_version: &str) -> (r: Vec<String>)
    ensures
        r@.len() == recipe_env@.len() + 4,
        forall|i: int| 0 <= i < recipe_env@.len() ==> r@[i] == recipe_env@[i],
        r@[recipe_env@.len() as int]@ == env_entry("PKGER_BLD_DIR"@, bld_dir@),
        r@[recipe_env@.len() + 1int]@ == env_entry("PKGER_OUT_DIR"@, out_dir@),
        r@[recipe_env@.len() + 2int]@ == env_entry("PKGER_OS"@, os@),
        r@[recipe_env@.len() + 3int]@ == env_entry("PKGER_OS_VERSION"@, os_version@),
{
    let mut env = crate::image::copy_strings(recipe_env);
    push_env(&mut env, "PKGER_BLD_DIR", bld_dir);
    push_env(&mut env, "PKGER_OUT_DIR", out_dir);
    push_env(&mut env, "PKGER_OS", os);
    push_env(&mut env, "PKGER_OS_VERSION", os_version);
    env
}

/// The host directory that receives the artifacts built on `image`.
pub open spec fn artifact_dir_spec(output_dir: Seq<char>, image: Seq<char>) -> Seq<char> {
    output_dir + "/"@ + image
}

/// The host directory that receives the artifacts built on `image`.
pub fn artifact_dir(output_dir: &str, image: &str) -> (r: String)
    ensures
        r@ == artifact_dir_spec(output_dir@, image@),
{
    let mut d = output_dir.to_string();
    d.append("/");
    d.append(image);
    d
}

/// The host path of artifact `file` built on `image`.
pub fn artifact_path(output_dir: &str, image: &str, file: &str) -> (r: String)
    ensures
        r@ == artifact_dir_spec(output_dir@, image@) + "/"@ + file@,
{
    let mut d = artifact_dir(output_dir, image);
    d.append("/");
    d.append(file);
    d
}

/// An artifact's advertised path lies directly in the directory of the
/// image it was built on, inside the output directory.
pub proof fn lemma_artifact_in_image_dir(output_dir: Seq<char>, image: Seq<char>, file: Seq<char>)
    ensures
        is_prefix(output_dir + "/"@ + image + "/"@, artifact_dir_spec(output_dir, image) + "/"@ + file),
        (artifact_dir_spec(output_dir, image) + "/"@ + file).len() == output_dir.len() + image.len()
            + file.len() + 2,
{
    reveal_strlit("/");
    let p = output_dir + "/"@ + image + "/"@;
    assert((artifact_dir_spec(output_dir, image) + "/"@ + file).subrange(0, p.len() as int) =~= p);
}

/// The stages of a job, each named by the step just completed.
#[derive(Clone, Copy, Debug, PartialEq, Eq, Structural)]
pub enum JobState {
    Created,
    ImageReady,
    OutDirReady,
    ContainerUp,
    DepCacheBuilt,
    DirsCreated,
    SourceFetched,
    Patched,
    ScriptsRun,
    Excluded,
    Packaged,
    Downloaded,
    Done,
    Failed,
    Cancelled,
}

/// What the work just performed reported.
#[derive(Clone, Copy, Debug, PartialEq, Eq, Structural)]
pub enum JobEvent {
    /// The work succeeded.
    Succeeded,
    /// The work failed.
    Failed,
    /// The session was cancelled.
    Cancelled,
}

/// The work that moves a job out of a stage.
#[derive(Clone, Copy, Debug, PartialEq, Eq, Structural)]
pub enum JobStep {
    BuildImage,
    CreateOutDir,
    SpawnContainer,
    BuildDepCache,
    CreateDirs,
    FetchSource,
    ApplyPatches,
    RunScripts,
    ExcludePaths,
    Package,
    Download,
}

/// The outcome of one transition: the next stage, whether the job's
/// container must be removed now, and the work to perform next.
#[derive(Clone, Copy, Debug, PartialEq, Eq, Structural)]
pub struct Transition {
    pub next: JobState,
    pub remove_container: bool,
    pub step: Option<JobStep>,
}

/// The stages in which the job owns a running container.
pub open spec fn owns_container(s: JobState) -> bool {
    match s {
        JobState::ContainerUp | JobState::DepCacheBuilt | JobState::DirsCreated
        | JobState::SourceFetched | JobState::Patched | JobState::ScriptsRun
        | JobState::Excluded | JobState::Packaged | JobState::Downloaded => true,
        _ => false,
    }
}

/// The stages a job ends in.
pub open spec fn is_terminal(s: JobState) -> bool {
    s == JobState::Done || s == JobState::Failed || s == JobState::Cancelled
}

/// The stage reached when the work of `s` succeeds; out of `ContainerUp`
/// the second-stage image is built first when `dep_cache` holds.
pub open spec fn next_on_success(s: JobState, dep_cache: bool) -> JobState {
    match s {
        JobState::Created => JobState::ImageReady,
        JobState::ImageReady => JobState::OutDirReady,
        JobState::OutDirReady => JobState::ContainerUp,
        JobState::ContainerUp => if dep_cache {
            JobState::DepCacheBuilt
        } else {
            JobState::DirsCreated
        },
        JobState::DepCacheBuilt => JobState::DirsCreated,
        JobState::DirsCreated => JobState::SourceFetched,
        JobState::SourceFetched => JobState::Patched,
        JobState::Patched => JobState::ScriptsRun,
        JobState::ScriptsRun => JobState::Excluded,
        JobState::Excluded => JobState::Packaged,
        JobState::Packaged => JobState::Downloaded,
        JobState::Downloaded => JobState::Done,
        other => other,
    }
}

/// The work that moves a job out of stage `s`; none out of `Downloaded`,
/// which ends by removing the container, nor out of a final stage.
pub open spec fn work_of(s: JobState, dep_cache: bool) -> Option<JobStep> {
    match s {
        JobState::Created => Some(JobStep::BuildImage),
        JobState::ImageReady => Some(JobStep::CreateOutDir),
        JobState::OutDirReady => Some(JobStep::SpawnContainer),
        JobState::ContainerUp => if dep_cache {
            Some(JobStep::BuildDepCache)
        } else {
            Some(JobStep::CreateDirs)
        },
        JobState::DepCacheBuilt => Some(JobStep::CreateDirs),
        JobState::DirsCreated => Some(JobStep::FetchSource),
        JobState::SourceFetched => Some(JobStep::ApplyPatches),
        JobState::Patched => Some(JobStep::RunScripts),
        JobState::ScriptsRun => Some(JobStep::ExcludePaths),
        JobState::Excluded => Some(JobStep::Package),
        JobState::Packaged => Some(JobStep::Download),
        _ => None,
    }
}

/// The transition of stage `s` on event `e`.
pub open spec fn transition_spec(s: JobState, e: JobEvent, dep_cache: bool) -> Transition {
    if is_terminal(s) {
        Transition { next: s, remove_container: false, step: None }
    } else {
        match e {
            JobEvent::Succeeded => {
                let next = next_on_success(s, dep_cache);
                Transition {
                    next,
                    remove_container: next == JobState::Done,
                    step: work_of(next, dep_cache),
                }
            },
            JobEvent::Failed => Transition {
                next: JobState::Failed,
                remove_container: owns_container(s),
                step: None,
            },
            JobEvent::Cancelled => Transition {
                next: JobState::Cancelled,
                remove_container: owns_container(s),
                step: None,
            },
        }
    }
}

/// The work that starts a job.
pub fn first_step() -> (r: JobStep)
    ensures
        Some(r) == work_of(JobState::Created, false),
{
    JobStep::BuildImage
}

/// The work that moves a job out of stage `s`.
pub fn work_for(s: JobState, dep_cache: bool) -> (r: Option<JobStep>)
    ensures
        r == work_of(s, dep_cache),
{
    match s {
        JobState::Created => Some(JobStep::BuildImage),
        JobState::ImageReady => Some(JobStep::CreateOutDir),
        JobState::OutDirReady => Some(JobStep::SpawnContainer),
        JobState::ContainerUp => if dep_cache {
            Some(JobStep::BuildDepCache)
        } else {
            Some(JobStep::CreateDirs)
        },
        JobState::DepCacheBuilt => Some(JobStep::CreateDirs),
        JobState::DirsCreated => Some(JobStep::FetchSource),
        JobState::SourceFetched => Some(JobStep::ApplyPatches),
        JobState::Patched => Some(JobStep::RunScripts),
        JobState::ScriptsRun => Some(JobStep::ExcludePaths),
        JobState::Excluded => Some(JobStep::Package),
        JobState::Packaged => Some(JobStep::Download),
        _ => None,
    }
}

/// Moves a job on after its current work reported `e`; `dep_cache` tells
/// whether the second-stage image must be built once the container is up.
pub fn advance(s: JobState, e: JobEvent, dep_cache: bool) -> (r: Transition)
    ensures
        r == transition_spec(s, e, dep_cache),
{
    if matches!(s, JobState::Done | JobState::Failed | JobState::Cancelled) {
        return Transition { next: s, remove_container: false, step: None };
    }
    let owns = matches!(
        s,
        JobState::ContainerUp | JobState::DepCacheBuilt | JobState::DirsCreated
            | JobState::SourceFetched | JobState::Patched | JobState::ScriptsRun
            | JobState::Excluded | JobState::Packaged | JobState::Downloaded
    );
    match e {
        JobEvent::Failed => Transition { next: JobState::Failed, remove_container: owns, step: None },
        JobEvent::Cancelled => Transition {
            next: JobState::Cancelled,
            remove_container: owns,
            step: None,
        },
        JobEvent::Succeeded => {
            let next = match s {
                JobState::Created => JobState::ImageReady,
                JobState::ImageReady => JobState::OutDirReady,
                JobState::OutDirReady => JobState::ContainerUp,
                JobState::ContainerUp => if dep_cache {
                    JobState::DepCacheBuilt
                } else {
                    JobState::DirsCreated
                },
                JobState::DepCacheBuilt => JobState::DirsCreated,
                JobState::DirsCreated => JobState::SourceFetched,
                JobState::SourceFetched => JobState::Patched,
                JobState::Patched => JobState::ScriptsRun,
                JobState::ScriptsRun => JobState::Excluded,
                JobState::Excluded => JobState::Packaged,
                JobState::Packaged => JobState::Downloaded,
                JobState::Downloaded => JobState::Done,
                other => other,
            };
            Transition {
                next,
                remove_container: matches!(next, JobState::Done),
                step: work_for(next, dep_cache),
            }
        },
    }
}

/// However a job that owns a container ends (success, failure or
/// cancellation), the transition that ends it removes the container; and
/// a job that owns none is never asked to remove one.
pub proof fn lemma_container_removed_on_exit(s: JobState, e: JobEvent, dep_cache: bool)
    ensures
        owns_container(s) && is_terminal(transition_spec(s, e, dep_cache).next) ==> transition_spec(
            s,
            e,
            dep_cache,
        ).remove_container,
        transition_spec(s, e, dep_cache).remove_container ==> owns_container(s),
{
}

/// The second-stage image is built exactly when the job asked for it on
/// reaching `ContainerUp`.
pub proof fn lemma_dep_cache_entered_iff(dep_cache: bool)
    ensures
        (transition_spec(JobState::ContainerUp, JobEvent::Succeeded, dep_cache).next
            == JobState::DepCacheBuilt) == dep_cache,
{
}

} // verus!
