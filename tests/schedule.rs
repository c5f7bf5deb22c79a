use pkger::schedule::{
    any_failed, cancelled_result, expand_tasks, finish_session, settle, BuildOpts, BuildTask,
    JobResult, RecipeInfo,
};
use pkger::target::{BuildTarget, ImageTarget};

fn recipe(name: &str, all_images: bool, images: &[&str]) -> RecipeInfo {
    RecipeInfo {
        name: name.to_string(),
        all_images,
        images: images.iter().map(|s| s.to_string()).collect(),
    }
}

fn config() -> Vec<ImageTarget> {
    vec![
        ImageTarget::new("debian", BuildTarget::Deb, None),
        ImageTarget::new("centos", BuildTarget::Rpm, None),
        ImageTarget::new("arch", BuildTarget::Pkg, None),
    ]
}

fn custom(tasks: &[BuildTask]) -> Vec<(usize, String)> {
    tasks
        .iter()
        .map(|t| match t {
            BuildTask::Custom { recipe, target } => (*recipe, target.image.clone()),
            BuildTask::Simple { .. } => panic!("unexpected simple task"),
        })
        .collect()
}

#[test]
fn expands_all_recipes() {
    let recipes = vec![
        recipe("a", true, &[]),
        recipe("b", false, &["arch", "missing", "debian"]),
        recipe("c", false, &[]),
    ];
    let opts = BuildOpts { all: true, simple: None, images: None };
    let tasks = expand_tasks(&opts, &recipes, &config()).unwrap();
    assert_eq!(
        custom(&tasks),
        vec![
            (0, "debian".to_string()),
            (0, "centos".to_string()),
            (0, "arch".to_string()),
            (1, "arch".to_string()),
            (1, "debian".to_string()),
        ]
    );
    // without `all`, the listed recipes are expanded the same way
    let opts = BuildOpts { all: false, simple: None, images: None };
    assert_eq!(custom(&expand_tasks(&opts, &recipes, &config()).unwrap()), custom(&tasks));
}

#[test]
fn expands_selected_images() {
    let recipes = vec![recipe("a", true, &[]), recipe("b", false, &["centos", "arch"])];
    let opts = BuildOpts {
        all: false,
        simple: None,
        images: Some(vec!["arch".to_string(), "debian".to_string(), "nowhere".to_string()]),
    };
    let tasks = expand_tasks(&opts, &recipes, &config()).unwrap();
    assert_eq!(
        custom(&tasks),
        vec![(0, "arch".to_string()), (0, "debian".to_string()), (1, "arch".to_string())]
    );
}

#[test]
fn expands_simple_targets() {
    let recipes = vec![recipe("a", false, &[]), recipe("b", false, &[])];
    let opts = BuildOpts {
        all: false,
        simple: Some(vec!["deb".to_string(), "gzip".to_string()]),
        images: None,
    };
    let tasks = expand_tasks(&opts, &recipes, &config()).unwrap();
    let simple: Vec<(usize, BuildTarget)> = tasks
        .iter()
        .map(|t| match t {
            BuildTask::Simple { recipe, target } => (*recipe, *target),
            BuildTask::Custom { .. } => panic!("unexpected custom task"),
        })
        .collect();
    assert_eq!(
        simple,
        vec![
            (0, BuildTarget::Deb),
            (1, BuildTarget::Deb),
            (0, BuildTarget::Gzip),
            (1, BuildTarget::Gzip),
        ]
    );
    let bad = BuildOpts { all: false, simple: Some(vec!["msi".to_string()]), images: None };
    assert_eq!(expand_tasks(&bad, &recipes, &config()).unwrap_err().name, "msi");
}

#[test]
fn cancellation_settles_pending_jobs() {
    let ids = vec!["job-a".to_string(), "job-b".to_string(), "job-c".to_string()];
    let outcomes = vec![
        Some(JobResult::Success { id: "job-a".to_string(), duration_ms: 5, output: "/out/a".to_string() }),
        None,
        None,
    ];
    let results = settle(&ids, outcomes, 40);
    assert_eq!(results.len(), 3);
    assert!(matches!(&results[0], JobResult::Success { .. }));
    for (i, r) in results.iter().enumerate().skip(1) {
        match r {
            JobResult::Failure { id, duration_ms, reason } => {
                assert_eq!(id, &ids[i]);
                assert_eq!(*duration_ms, 40);
                assert!(reason.contains("cancelled"));
            }
            _ => panic!("expected a failure"),
        }
    }
    assert!(any_failed(&results));
    let end = finish_session(&results, true);
    assert!(end.save_state && end.prune);
    assert_ne!(end.exit_code, 0);
}

#[test]
fn clean_session_exits_zero() {
    let results = vec![JobResult::Success { id: "x".to_string(), duration_ms: 1, output: "o".to_string() }];
    assert!(!any_failed(&results));
    let end = finish_session(&results, false);
    assert!(!end.save_state);
    assert!(end.prune);
    assert_eq!(end.exit_code, 0);
    match cancelled_result("y", 3) {
        JobResult::Failure { reason, .. } => assert_eq!(reason, "job cancelled by ctrl-c signal"),
        _ => panic!("expected a failure"),
    }
}
