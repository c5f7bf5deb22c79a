use pkger::image::{
    cache_dockerfile, find_cached_state, needs_dep_cache, same_deps, CacheError, Image, ImageState,
    Images, ImagesState,
};
use pkger::os::{os_from_release, Os};
use pkger::target::{BuildTarget, ImageTarget, RecipeTarget};

fn target(recipe: &str, image: &str, t: BuildTarget) -> RecipeTarget {
    RecipeTarget::new(recipe.to_string(), ImageTarget::new(image, t, None))
}

fn debian() -> Os {
    Os::from(Some("debian".to_string()), Some("11".to_string()))
}

fn state(tag: &str, ts: u128, deps: &[&str]) -> ImageState {
    ImageState::new(
        "sha256:abc",
        "debian-bullseye",
        tag,
        debian(),
        ts,
        deps.iter().map(|d| d.to_string()).collect(),
        false,
    )
}

#[test]
fn update_get_and_dirty_flag() {
    let mut s = ImagesState::new("/tmp/state");
    assert!(!s.has_changed());
    let key = target("hello", "debian-bullseye", BuildTarget::Gzip);
    assert!(s.get(&key).is_none());
    s.update(key.copy(), state("latest", 100, &[]));
    assert!(s.has_changed());
    assert_eq!(s.get(&key).unwrap().timestamp, 100);
    s.update(key.copy(), state("cached", 200, &["gcc"]));
    assert_eq!(s.get(&key).unwrap().timestamp, 200);
    assert_eq!(s.get(&key).unwrap().tag, "cached");
    let other = target("hello", "debian-bullseye", BuildTarget::Deb);
    assert!(s.get(&other).is_none());
    s.mark_saved();
    assert!(!s.has_changed());
    s.clear();
    assert!(s.has_changed());
    assert!(s.get(&key).is_none());
    assert_eq!(s.state_file(), "/tmp/state");
}

#[test]
fn freshness_by_modification_time() {
    let mut s = ImagesState::new("/tmp/state");
    let key = target("hello", "debian-bullseye", BuildTarget::Gzip);
    assert!(find_cached_state(&s, &key, &vec![], false).is_none());
    s.update(key.copy(), state("latest", 100, &[]));
    let hit = find_cached_state(&s, &key, &vec![Some(50), None, Some(100)], false).unwrap();
    assert_eq!(hit.timestamp, 100);
    assert_eq!(hit.tag, "latest");
    // a file touched after the build invalidates the entry
    assert!(find_cached_state(&s, &key, &vec![Some(50), Some(101)], false).is_none());
    // provided images are reused as they are
    assert!(find_cached_state(&s, &key, &vec![Some(101)], true).is_some());
}

#[test]
fn dependency_sets() {
    let a = vec!["gcc".to_string(), "make".to_string(), "gcc".to_string()];
    let b = vec!["make".to_string(), "gcc".to_string()];
    let c = vec!["make".to_string()];
    assert!(same_deps(&a, &b));
    assert!(!same_deps(&a, &c));
    assert!(!needs_dep_cache(&state("cached", 1, &["gcc", "make"]), &b));
    assert!(needs_dep_cache(&state("cached", 1, &["gcc"]), &b));
    assert!(needs_dep_cache(&state("latest", 1, &["gcc", "make"]), &b));
}

#[test]
fn second_stage_dockerfile() {
    let d = cache_dockerfile(&state("latest", 1, &[]), &vec!["gcc".to_string(), "make".to_string()]).unwrap();
    assert_eq!(
        d,
        "FROM debian-bullseye:latest\nENV DEBIAN_FRONTEND noninteractive\nRUN apt-get clean\nRUN apt-get update -y\nRUN apt-get install -y gcc make"
    );
    let unknown = ImageState::new("id", "x", "latest", Os::from(None, None), 1, vec![], false);
    assert!(matches!(cache_dockerfile(&unknown, &vec![]), Err(CacheError::NoPackageManager)));
}

#[test]
fn reads_release_files() {
    let out = "Debian GNU/Linux 11 \\n \\l\n\nPRETTY_NAME=\"Debian GNU/Linux 11 (bullseye)\"\nNAME=\"Debian GNU/Linux\"\nVERSION_ID=\"11\"\nID=debian\n";
    let os = os_from_release(out);
    assert_eq!(os.name, "debian");
    assert_eq!(os.version, "11");
    assert_eq!(os.package_manager().as_str(), "apt-get");
}

#[test]
fn images_by_name() {
    let mut images = Images::new();
    images.insert(Image::new("debian", "/images/debian"));
    images.insert(Image::new("arch", "/images/arch"));
    images.insert(Image::new("debian", "/other/debian"));
    assert_eq!(images.images().len(), 2);
    assert_eq!(images.get("debian").unwrap().path, "/other/debian");
    assert!(images.get("fedora").is_none());
}

use pkger::image::{build_outcome, image_tag, reuse_cached, BuildEvent, ImageError};

#[test]
fn reuse_decision() {
    let deps = vec!["gcc".to_string()];
    assert!(reuse_cached(&Some(state("latest", 1, &["gcc"])), &deps, true));
    assert!(!reuse_cached(&Some(state("latest", 1, &["gcc"])), &deps, false));
    assert!(!reuse_cached(&Some(state("latest", 1, &["make"])), &deps, true));
    assert!(!reuse_cached(&None, &deps, true));
    assert_eq!(image_tag("debian-bullseye", "latest"), "debian-bullseye:latest");
}

#[test]
fn build_event_outcomes() {
    let ok = vec![
        BuildEvent::Update { stream: "Step 1/2".to_string() },
        BuildEvent::Other,
        BuildEvent::Digest { id: "sha256:feed".to_string() },
        BuildEvent::Error { message: "late".to_string() },
    ];
    assert_eq!(build_outcome(&ok).unwrap(), "sha256:feed");
    let failed = vec![BuildEvent::Error { message: "no space".to_string() }];
    match build_outcome(&failed) {
        Err(ImageError::BuildFailed { message }) => assert_eq!(message, "no space"),
        _ => panic!("expected a build failure"),
    }
    assert!(matches!(build_outcome(&vec![BuildEvent::Other]), Err(ImageError::Incomplete)));
}
