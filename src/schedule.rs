//! Turning a build request into jobs, and settling the jobs' results.
use vstd::prelude::*;
use crate::target::{BuildTarget, ImageTarget, ImageTargetView, target_named};
use crate::text::{occurs_at, occurs_in, str_eq, views};
use crate::image::contains_str;

verus! {

/// What the expansion reads of a loaded recipe: its name, whether it is
/// built on every configured image, and the images it names.
#[derive(Debug)]
pub struct RecipeInfo {
    pub name: String,
    pub all_images: bool,
    pub images: Vec<String>,
}

/// Which jobs a build request asks for.
#[derive(Debug)]
pub struct BuildOpts {
    /// Build every recipe.
    pub all: bool,
    /// Build on these provided images (named by package format) only.
    pub simple: Option<Vec<String>>,
    /// Build on these configured images only.
    pub images: Option<Vec<String>>,
}

/// One job: a recipe (by its position in the list of loaded recipes) and
/// what it is built on.
#[allow(inconsistent_fields)]
#[derive(Debug)]
pub enum BuildTask {
    /// Built on the provided image of a package format.
    Simple { recipe: usize, target: BuildTarget },
    /// Built on a configured image.
    Custom { recipe: usize, target: ImageTarget },
}

/// The plain-value form of a job.
#[allow(inconsistent_fields)]
pub enum TaskView {
    Simple { recipe: usize, target: BuildTarget },
    Custom { recipe: usize, target: ImageTargetView },
}

impl View for BuildTask {
    type V = TaskView;

    open spec fn view(&self) -> TaskView {
        match self {
            BuildTask::Simple { recipe, target } => TaskView::Simple { recipe: *recipe, target: *target },
            BuildTask::Custom { recipe, target } => TaskView::Custom { recipe: *recipe, target: target@ },
        }
    }
}

/// The plain-value forms of a list of jobs.
pub open spec fn task_views(s: Seq<BuildTask>) -> Seq<TaskView> {
    s.map_values(|t: BuildTask| t@)
}

/// The plain-value forms of the configured images.
pub open spec fn target_views(s: Seq<ImageTarget>) -> Seq<ImageTargetView> {
    s.map_values(|t: ImageTarget| t@)
}

/// The first configured image called `name`.
pub open spec fn find_config(cfg: Seq<ImageTargetView>, name: Seq<char>) -> Option<ImageTargetView>
    decreases cfg.len(),
{
    if cfg.len() == 0 {
        None
    } else if cfg[0].image == name {
        Some(cfg[0])
    } else {
        find_config(cfg.drop_first(), name)
    }
}

/// Jobs of recipe `ri` on the images called `names`, in order, leaving out
/// the names that `allowed` (when given) does not hold and the names that no
/// configured image has.
pub open spec fn named_tasks(
    ri: usize,
    names: Seq<Seq<char>>,
    allowed: Option<Seq<Seq<char>>>,
    cfg: Seq<ImageTargetView>,
) -> Seq<TaskView>
    decreases names.len(),
{
    if names.len() == 0 {
        Seq::empty()
    } else {
        let before = named_tasks(ri, names.drop_last(), allowed, cfg);
        let n = names.last();
        let permitted = match allowed {
            Some(a) => a.contains(n),
            None => true,
        };
        if permitted {
            match find_config(cfg, n) {
                Some(t) => before.push(TaskView::Custom { recipe: ri, target: t }),
                None => before,
            }
        } else {
            before
        }
    }
}

/// Jobs of recipe `ri` on every configured image, in order.
pub open spec fn every_image_tasks(ri: usize, cfg: Seq<ImageTargetView>) -> Seq<TaskView> {
    cfg.map_values(|t: ImageTargetView| TaskView::Custom { recipe: ri, target: t })
}

/// Jobs of one recipe when no image list is given.
pub open spec fn recipe_tasks(r: RecipeInfo, ri: usize, cfg: Seq<ImageTargetView>) -> Seq<TaskView> {
    if r.all_images {
        every_image_tasks(ri, cfg)
    } else {
        named_tasks(ri, views(r.images@), None, cfg)
    }
}

/// Jobs of one recipe restricted to the images called `opt`.
pub open spec fn recipe_tasks_on(
    r: RecipeInfo,
    ri: usize,
    opt: Seq<Seq<char>>,
    cfg: Seq<ImageTargetView>,
) -> Seq<TaskView> {
    if r.all_images {
        named_tasks(ri, opt, None, cfg)
    } else {
        named_tasks(ri, opt, Some(views(r.images@)), cfg)
    }
}

/// Jobs of every recipe when no image list is given, recipe by recipe.
pub open spec fn default_tasks(recipes: Seq<RecipeInfo>, cfg: Seq<ImageTargetView>) -> Seq<TaskView>
    decreases recipes.len(),
{
    if recipes.len() == 0 {
        Seq::empty()
    } else {
        default_tasks(recipes.drop_last(), cfg) + recipe_tasks(
            recipes.last(),
            (recipes.len() - 1) as usize,
            cfg,
        )
    }
}

/// Jobs of every recipe restricted to the images called `opt`.
pub open spec fn image_tasks(
    recipes: Seq<RecipeInfo>,
    opt: Seq<Seq<char>>,
    cfg: Seq<ImageTargetView>,
) -> Seq<TaskView>
    decreases recipes.len(),
{
    if recipes.len() == 0 {
        Seq::empty()
    } else {
        image_tasks(recipes.drop_last(), opt, cfg) + recipe_tasks_on(
            recipes.last(),
            (recipes.len() - 1) as usize,
            opt,
            cfg,
        )
    }
}

/// Jobs of each of `n` recipes on the provided image of `t`.
pub open spec fn simple_row(t: BuildTarget, n: nat) -> Seq<TaskView> {
    Seq::new(n, |i: int| TaskView::Simple { recipe: i as usize, target: t })
}

/// Jobs of every recipe on the provided image of each package format
/// named, format by format; `None` when a name is not a package format.
pub open spec fn simple_tasks(names: Seq<Seq<char>>, n: nat) -> Option<Seq<TaskView>>
    decreases names.len(),
{
    if names.len() == 0 {
        Some(Seq::empty())
    } else {
        match (simple_tasks(names.drop_last(), n), target_named(names.last())) {
            (Some(before), Some(t)) => Some(before + simple_row(t, n)),
            _ => None,
        }
    }
}

/// The jobs a request asks for: every recipe on its images when `all` is
/// set or no list is given; on the provided images of the named formats;
/// or on the named images. `None` when a format name is unknown.
pub open spec fn expand_spec(
    opts: BuildOpts,
    recipes: Seq<RecipeInfo>,
    cfg: Seq<ImageTargetView>,
) -> Option<Seq<TaskView>> {
    if opts.all {
        Some(default_tasks(recipes, cfg))
    } else {
        match opts.simple {
            Some(s) => simple_tasks(views(s@), recipes.len()),
            None => match opts.images {
                Some(i) => Some(image_tasks(recipes, views(i@), cfg)),
                None => Some(default_tasks(recipes, cfg)),
            },
        }
    }
}

/// A name that is not a package format.
#[derive(Debug)]
pub struct UnknownTarget {
    pub name: String,
}

/// The position of the first configured image called `name`.
pub fn find_config_index(cfg: &Vec<ImageTarget>, name: &str) -> (r: Option<usize>)
    ensures
        match r {
            Some(i) => i < cfg@.len() && find_config(target_views(cfg@), name@) == Some(
                cfg@[i as int]@,
            ),
            None => find_config(target_views(cfg@), name@).is_none(),
        },
{
    let n = cfg.len();
    let ghost all = target_views(cfg@);
    let mut i: usize = 0;
    proof {
        assert(all.subrange(0, n as int) =~= all);
    }
    while i < n
        invariant
            n == cfg@.len(),
            all == target_views(cfg@),
            i <= n,
            find_config(all, name@) == find_config(all.subrange(i as int, n as int), name@),
        decreases n - i,
    {
        if str_eq(cfg[i].image.as_str(), name) {
            proof {
                assert(all.subrange(i as int, n as int)[0] == cfg@[i as int]@);
            }
            return Some(i);
        }
        proof {
            assert(all.subrange(i as int, n as int).drop_first() =~= all.subrange(i + 1, n as int));
        }
        i = i + 1;
    }
    None
}

/// Appends the jobs of recipe `ri` on the images called `names`, leaving out
/// those not in `allowed` (when given) and those not configured.
fn push_named_tasks(
    tasks: &mut Vec<BuildTask>,
    ri: usize,
    names: &Vec<String>,
    allowed: Option<&Vec<String>>,
    cfg: &Vec<ImageTarget>,
)
    ensures
        task_views(final(tasks)@) == task_views(old(tasks)@) + named_tasks(
            ri,
            views(names@),
            match allowed {
                Some(a) => Some(views(a@)),
                None => None,
            },
            target_views(cfg@),
        ),
{
    let ghost al = match allowed {
        Some(a) => Some(views(a@)),
        None => None,
    };
    let ghost start = task_views(tasks@);
    let n = names.len();
    let mut i: usize = 0;
    proof {
        assert(views(names@).subrange(0, 0) =~= Seq::<Seq<char>>::empty());
        assert(start + Seq::<TaskView>::empty() =~= start);
    }
    while i < n
        invariant
            n == names@.len(),
            i <= n,
            al == match allowed {
                Some(a) => Some(views(a@)),
                None => None,
            },
            task_views(tasks@) == start + named_tasks(
                ri,
                views(names@).subrange(0, i as int),
                al,
                target_views(cfg@),
            ),
        decreases n - i,
    {
        let name = names[i].as_str();
        let ghost pre = views(names@).subrange(0, i as int);
        proof {
            assert(views(names@).subrange(0, i + 1).drop_last() =~= pre);
            assert(views(names@).subrange(0, i + 1).last() == name@);
        }
        let permitted = match allowed {
            Some(a) => contains_str(a, name),
            None => true,
        };
        if permitted {
            match find_config_index(cfg, name) {
                Some(k) => {
                    let ghost before = tasks@;
                    tasks.push(BuildTask::Custom { recipe: ri, target: cfg[k].copy() });
                    proof {
                        assert(task_views(tasks@) =~= task_views(before).push(tasks@.last()@));
                    }
                },
                None => {},
            }
        }
        i = i + 1;
    }
    proof {
        assert(views(names@).subrange(0, n as int) =~= views(names@));
    }
}

/// Appends the jobs of recipe `ri` on every configured image.
fn push_every_image(tasks: &mut Vec<BuildTask>, ri: usize, cfg: &Vec<ImageTarget>)
    ensures
        task_views(final(tasks)@) == task_views(old(tasks)@) + every_image_tasks(
            ri,
            target_views(cfg@),
        ),
{
    let ghost start = task_views(tasks@);
    let n = cfg.len();
    let mut i: usize = 0;
    proof {
        assert(start + every_image_tasks(ri, target_views(cfg@.subrange(0, 0))) =~= start);
    }
    while i < n
        invariant
            n == cfg@.len(),
            i <= n,
            task_views(tasks@) == start + every_image_tasks(ri, target_views(cfg@.subrange(0, i as int))),
        decreases n - i,
    {
        let ghost before = tasks@;
        tasks.push(BuildTask::Custom { recipe: ri, target: cfg[i].copy() });
        proof {
            assert(task_views(tasks@) =~= task_views(before).push(tasks@.last()@));
            assert(every_image_tasks(ri, target_views(cfg@.subrange(0, i + 1))) =~= every_image_tasks(
                ri,
                target_views(cfg@.subrange(0, i as int)),
            ).push(TaskView::Custom { recipe: ri, target: cfg@[i as int]@ }));
        }
        i = i + 1;
    }
    proof {
        assert(cfg@.subrange(0, n as int) =~= cfg@);
    }
}

/// Expands a build request over the loaded recipes and the configured
/// images into the list of jobs to run. Image names that are not
/// configured, or that a recipe does not name, give no job.
pub fn expand_tasks(opts: &BuildOpts, recipes: &Vec<RecipeInfo>, cfg: &Vec<ImageTarget>) -> (r: Result<
    Vec<BuildTask>,
    UnknownTarget,
>)
    ensures
        match r {
            Ok(tasks) => expand_spec(*opts, recipes@, target_views(cfg@)) == Some(task_views(tasks@)),
            Err(_) => expand_spec(*opts, recipes@, target_views(cfg@)).is_none(),
        },
{
    let mut tasks: Vec<BuildTask> = Vec::new();
    let n = recipes.len();
    if !opts.all {
        match &opts.simple {
            Some(names) => {
                let m = names.len();
                let mut j: usize = 0;
                proof {
                    assert(task_views(tasks@) =~= Seq::<TaskView>::empty());
                    assert(views(names@).subrange(0, 0) =~= Seq::<Seq<char>>::empty());
                }
                while j < m
                    invariant
                        m == names@.len(),
                        n == recipes@.len(),
                        !opts.all,
                        opts.simple == Some(*names),
                        j <= m,
                        simple_tasks(views(names@).subrange(0, j as int), n as nat) == Some(
                            task_views(tasks@),
                        ),
                    decreases m - j,
                {
                    proof {
                        assert(views(names@).subrange(0, j + 1).drop_last() =~= views(names@).subrange(
                            0,
                            j as int,
                        ));
                    }
                    let t = match BuildTarget::try_from_str(names[j].as_str()) {
                        Some(t) => t,
                        None => {
                            proof {
                                assert(views(names@)[j as int] == names@[j as int]@);
                                lemma_simple_tasks_none_extends(views(names@), (j + 1) as int, n as nat);
                                assert(expand_spec(*opts, recipes@, target_views(cfg@)).is_none());
                            }
                            return Err(UnknownTarget { name: names[j].clone() });
                        },
                    };
                    let ghost row_start = task_views(tasks@);
                    let mut i: usize = 0;
                    while i < n
                        invariant
                            n == recipes@.len(),
                            i <= n,
                            task_views(tasks@) == row_start + simple_row(t, i as nat),
                        decreases n - i,
                    {
                        let ghost before = tasks@;
                        tasks.push(BuildTask::Simple { recipe: i, target: t });
                        proof {
                            assert(task_views(tasks@) =~= task_views(before).push(tasks@.last()@));
                            assert(simple_row(t, (i + 1) as nat) =~= simple_row(t, i as nat).push(
                                TaskView::Simple { recipe: i, target: t },
                            ));
                        }
                        i = i + 1;
                    }
                    j = j + 1;
                }
                proof {
                    assert(views(names@).subrange(0, m as int) =~= views(names@));
                }
                return Ok(tasks);
            },
            None => {},
        }
        match &opts.images {
            Some(opt) => {
                let mut i: usize = 0;
                proof {
                    assert(task_views(tasks@) =~= Seq::<TaskView>::empty());
                    assert(recipes@.subrange(0, 0) =~= Seq::<RecipeInfo>::empty());
                }
                while i < n
                    invariant
                        n == recipes@.len(),
                        i <= n,
                        task_views(tasks@) == image_tasks(
                            recipes@.subrange(0, i as int),
                            views(opt@),
                            target_views(cfg@),
                        ),
                    decreases n - i,
                {
                    proof {
                        assert(recipes@.subrange(0, i + 1).drop_last() =~= recipes@.subrange(0, i as int));
                    }
                    let r = &recipes[i];
                    if r.all_images {
                        push_named_tasks(&mut tasks, i, opt, None, cfg);
                    } else {
                        push_named_tasks(&mut tasks, i, opt, Some(&r.images), cfg);
                    }
                    i = i + 1;
                }
                proof {
                    assert(recipes@.subrange(0, n as int) =~= recipes@);
                }
                return Ok(tasks);
            },
            None => {},
        }
    }
    let mut i: usize = 0;
    proof {
        assert(task_views(tasks@) =~= Seq::<TaskView>::empty());
        assert(recipes@.subrange(0, 0) =~= Seq::<RecipeInfo>::empty());
    }
    while i < n
        invariant
            n == recipes@.len(),
            i <= n,
            task_views(tasks@) == default_tasks(recipes@.subrange(0, i as int), target_views(cfg@)),
        decreases n - i,
    {
        proof {
            assert(recipes@.subrange(0, i + 1).drop_last() =~= recipes@.subrange(0, i as int));
        }
        let r = &recipes[i];
        if r.all_images {
            push_every_image(&mut tasks, i, cfg);
        } else {
            push_named_tasks(&mut tasks, i, &r.images, None, cfg);
        }
        i = i + 1;
    }
    proof {
        assert(recipes@.subrange(0, n as int) =~= recipes@);
    }
    Ok(tasks)
}

/// Once a format name is unknown, every longer list of names is refused.
pub proof fn lemma_simple_tasks_none_extends(names: Seq<Seq<char>>, j: int, n: nat)
    requires
        1 <= j <= names.len(),
        target_named(names[j - 1]).is_none(),
    ensures
        simple_tasks(names, n).is_none(),
    decreases names.len(),
{
    if j < names.len() {
        lemma_simple_tasks_none_extends(names.drop_last(), j, n);
    }
}

/// Every job on a configured image names one of `cfg`.
pub open spec fn all_configured(tasks: Seq<TaskView>, cfg: Seq<ImageTargetView>) -> bool {
    forall|i: int|
        0 <= i < tasks.len() ==> (#[trigger] tasks[i] matches TaskView::Custom { target, .. }
            ==> cfg.contains(target))
}

proof fn lemma_find_config_in(cfg: Seq<ImageTargetView>, name: Seq<char>)
    ensures
        find_config(cfg, name) matches Some(t) ==> cfg.contains(t) && t.image == name,
    decreases cfg.len(),
{
    if cfg.len() > 0 {
        if cfg[0].image != name {
            lemma_find_config_in(cfg.drop_first(), name);
            if let Some(t) = find_config(cfg.drop_first(), name) {
                let k = choose|k: int| 0 <= k < cfg.drop_first().len() && cfg.drop_first()[k] == t;
                assert(cfg[k + 1] == t);
            }
        } else {
            assert(cfg[0] == cfg[0]);
        }
    }
}

proof fn lemma_concat_configured(a: Seq<TaskView>, b: Seq<TaskView>, cfg: Seq<ImageTargetView>)
    requires
        all_configured(a, cfg),
        all_configured(b, cfg),
    ensures
        all_configured(a + b, cfg),
{
    assert forall|i: int| 0 <= i < (a + b).len() implies (#[trigger] (a + b)[i] matches TaskView::Custom {
        target,
        ..
    } ==> cfg.contains(target)) by {
        if i < a.len() {
            assert((a + b)[i] == a[i]);
        } else {
            assert((a + b)[i] == b[i - a.len()]);
        }
    }
}

proof fn lemma_named_configured(
    ri: usize,
    names: Seq<Seq<char>>,
    allowed: Option<Seq<Seq<char>>>,
    cfg: Seq<ImageTargetView>,
)
    ensures
        all_configured(named_tasks(ri, names, allowed, cfg), cfg),
    decreases names.len(),
{
    if names.len() > 0 {
        lemma_named_configured(ri, names.drop_last(), allowed, cfg);
        lemma_find_config_in(cfg, names.last());
        let before = named_tasks(ri, names.drop_last(), allowed, cfg);
        if let Some(t) = find_config(cfg, names.last()) {
            let after = before.push(TaskView::Custom { recipe: ri, target: t });
            assert forall|i: int| 0 <= i < after.len() implies (#[trigger] after[i] matches TaskView::Custom {
                target,
                ..
            } ==> cfg.contains(target)) by {
                if i < before.len() {
                    assert(after[i] == before[i]);
                }
            }
        }
    }
}

proof fn lemma_recipe_configured(r: RecipeInfo, ri: usize, cfg: Seq<ImageTargetView>)
    ensures
        all_configured(recipe_tasks(r, ri, cfg), cfg),
{
    if r.all_images {
        let ts = every_image_tasks(ri, cfg);
        assert forall|i: int| 0 <= i < ts.len() implies (#[trigger] ts[i] matches TaskView::Custom {
            target,
            ..
        } ==> cfg.contains(target)) by {
            assert(ts[i] == TaskView::Custom { recipe: ri, target: cfg[i] });
        }
    } else {
        lemma_named_configured(ri, views(r.images@), None, cfg);
    }
}

proof fn lemma_default_configured(recipes: Seq<RecipeInfo>, cfg: Seq<ImageTargetView>)
    ensures
        all_configured(default_tasks(recipes, cfg), cfg),
    decreases recipes.len(),
{
    if recipes.len() > 0 {
        lemma_default_configured(recipes.drop_last(), cfg);
        lemma_recipe_configured(recipes.last(), (recipes.len() - 1) as usize, cfg);
        lemma_concat_configured(
            default_tasks(recipes.drop_last(), cfg),
            recipe_tasks(recipes.last(), (recipes.len() - 1) as usize, cfg),
            cfg,
        );
    }
}

proof fn lemma_images_configured(
    recipes: Seq<RecipeInfo>,
    opt: Seq<Seq<char>>,
    cfg: Seq<ImageTargetView>,
)
    ensures
        all_configured(image_tasks(recipes, opt, cfg), cfg),
    decreases recipes.len(),
{
    if recipes.len() > 0 {
        let r = recipes.last();
        let ri = (recipes.len() - 1) as usize;
        lemma_images_configured(recipes.drop_last(), opt, cfg);
        if r.all_images {
            lemma_named_configured(ri, opt, None, cfg);
        } else {
            lemma_named_configured(ri, opt, Some(views(r.images@)), cfg);
        }
        lemma_concat_configured(
            image_tasks(recipes.drop_last(), opt, cfg),
            recipe_tasks_on(r, ri, opt, cfg),
            cfg,
        );
    }
}

proof fn lemma_simple_configured(names: Seq<Seq<char>>, n: nat, cfg: Seq<ImageTargetView>)
    ensures
        simple_tasks(names, n) matches Some(ts) ==> all_configured(ts, cfg),
    decreases names.len(),
{
    if names.len() > 0 {
        lemma_simple_configured(names.drop_last(), n, cfg);
        if let (Some(before), Some(t)) = (simple_tasks(names.drop_last(), n), target_named(names.last())) {
            let row = simple_row(t, n);
            assert forall|i: int| 0 <= i < row.len() implies (#[trigger] row[i] matches TaskView::Custom {
                target,
                ..
            } ==> cfg.contains(target)) by {}
            lemma_concat_configured(before, row, cfg);
        }
    }
}

/// Whatever the request, every job on a configured image names one of the
/// configured images: a reference to an image that is not configured gives
/// no job.
pub proof fn lemma_expansion_uses_configured_images(
    opts: BuildOpts,
    recipes: Seq<RecipeInfo>,
    cfg: Seq<ImageTargetView>,
)
    ensures
        expand_spec(opts, recipes, cfg) matches Some(ts) ==> all_configured(ts, cfg),
{
    lemma_default_configured(recipes, cfg);
    if let Some(s) = opts.simple {
        lemma_simple_configured(views(s@), recipes.len(), cfg);
    }
    if let Some(i) = opts.images {
        lemma_images_configured(recipes, views(i@), cfg);
    }
}

/// How a job ended: with the path of its artifact, or with the reason it
/// failed. Durations are in milliseconds.
#[derive(Debug)]
pub enum JobResult {
    Success { id: String, duration_ms: u64, output: String },
    Failure { id: String, duration_ms: u64, reason: String },
}

/// The reason given for a job that had not settled when the session was
/// cancelled.
pub open spec fn cancel_reason() -> Seq<char> {
    "job cancelled by ctrl-c signal"@
}

/// The result recorded for job `id` when the session is cancelled before
/// the job settled.
pub fn cancelled_result(id: &str, duration_ms: u64) -> (r: JobResult)
    ensures
        r matches JobResult::Failure { id: i, duration_ms: d, reason } && i@ == id@ && d
            == duration_ms && reason@ == cancel_reason(),
{
    JobResult::Failure {
        id: id.to_string(),
        duration_ms,
        reason: String::from_str("job cancelled by ctrl-c signal"),
    }
}

/// Whether a result is a failure.
pub open spec fn is_failure(r: JobResult) -> bool {
    r is Failure
}

/// Settles every job of a session: a job that produced a result keeps it; a
/// job that had not settled when the session was cancelled fails with the
/// cancellation reason, under its id.
pub fn settle(ids: &Vec<String>, outcomes: Vec<Option<JobResult>>, duration_ms: u64) -> (r: Vec<JobResult>)
    requires
        ids@.len() == outcomes@.len(),
    ensures
        r@.len() == outcomes@.len(),
        forall|i: int|
            0 <= i < r@.len() ==> match #[trigger] outcomes@[i] {
                Some(res) => r@[i] == res,
                None => r@[i] matches JobResult::Failure { id, duration_ms: d, reason } && id@
                    == ids@[i]@ && d == duration_ms && reason@ == cancel_reason() && occurs_in(
                    reason@,
                    "cancelled"@,
                ),
            },
{
    proof {
        lemma_cancel_reason_mentions_cancelled();
    }
    let mut out: Vec<JobResult> = Vec::new();
    let n = outcomes.len();
    let mut rest = outcomes;
    let ghost all = rest@;
    let mut i: usize = 0;
    while i < n
        invariant
            n == all.len(),
            n == ids@.len(),
            i <= n,
            out@.len() == i,
            rest@ == all.subrange(i as int, n as int),
            forall|k: int|
                0 <= k < i ==> match #[trigger] all[k] {
                    Some(res) => out@[k] == res,
                    None => out@[k] matches JobResult::Failure { id, duration_ms: d, reason }
                        && id@ == ids@[k]@ && d == duration_ms && reason@ == cancel_reason(),
                },
        decreases n - i,
    {
        let o = rest.remove(0);
        proof {
            assert(o == all[i as int]);
            assert(rest@ =~= all.subrange(i + 1, n as int));
        }
        let res = match o {
            Some(res) => res,
            None => cancelled_result(ids[i].as_str(), duration_ms),
        };
        out.push(res);
        i = i + 1;
    }
    out
}

/// The reason given to a job settled by cancellation says it was cancelled.
pub proof fn lemma_cancel_reason_mentions_cancelled()
    ensures
        occurs_in(cancel_reason(), "cancelled"@),
{
    reveal_strlit("job cancelled by ctrl-c signal");
    reveal_strlit("cancelled");
    assert(cancel_reason().subrange(4, 13) =~= "cancelled"@);
    assert(occurs_at(cancel_reason(), "cancelled"@, 4));
}

/// Whether any job failed; the session then exits with a non-zero status.
pub fn any_failed(results: &Vec<JobResult>) -> (r: bool)
    ensures
        r == exists|i: int| 0 <= i < results@.len() && is_failure(#[trigger] results@[i]),
{
    let n = results.len();
    let mut i: usize = 0;
    while i < n
        invariant
            n == results@.len(),
            i <= n,
            forall|k: int| 0 <= k < i ==> !is_failure(#[trigger] results@[k]),
        decreases n - i,
    {
        if let JobResult::Failure { .. } = &results[i] {
            proof {
                assert(is_failure(results@[i as int]));
            }
            return true;
        }
        i = i + 1;
    }
    false
}

/// What happens once every job of a session has settled.
#[derive(Debug)]
pub struct SessionEnd {
    /// The image cache is written back.
    pub save_state: bool,
    /// The session's leftover containers are pruned.
    pub prune: bool,
    /// The process's exit status.
    pub exit_code: i32,
}

/// Closes a session: the cache is saved exactly when it changed, the
/// session's containers are always pruned, and the exit status is non-zero
/// exactly when a job failed.
pub fn finish_session(results: &Vec<JobResult>, state_changed: bool) -> (r: SessionEnd)
    ensures
        r.save_state == state_changed,
        r.prune,
        (r.exit_code != 0) == exists|i: int| 0 <= i < results@.len() && is_failure(#[trigger] results@[i]),
{
    let failed = any_failed(results);
    SessionEnd { save_state: state_changed, prune: true, exit_code: if failed { 1 } else { 0 } }
}

} // verus!
