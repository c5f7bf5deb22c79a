use pkger::image::{ImageState, ImagesState};
use pkger::os::Os;
use pkger::persist::{frame, unframe, FrameError};
use pkger::target::{BuildTarget, ImageTarget, RecipeTarget};

#[test]
fn frame_round_trip() {
    let payload = vec![1u8, 2, 3, 0xff];
    let framed = frame(&payload);
    assert_eq!(framed, vec![0x50, 0x4b, 0x47, 0x53, 4, 0, 0, 0, 0, 0, 0, 0, 1, 2, 3, 0xff]);
    assert_eq!(unframe(&framed).unwrap(), payload);
    assert_eq!(unframe(&frame(&vec![])).unwrap(), Vec::<u8>::new());
}

#[test]
fn corrupt_state_files_are_refused() {
    assert!(matches!(unframe(&vec![]), Err(FrameError::Corrupt)));
    assert!(matches!(unframe(&vec![0x50, 0x4b, 0x47, 0x54, 0, 0, 0, 0, 0, 0, 0, 0]), Err(FrameError::Corrupt)));
    let mut framed = frame(&vec![9, 9]);
    framed.push(0);
    assert!(matches!(unframe(&framed), Err(FrameError::Corrupt)));
}

fn state(ts: u128) -> ImageState {
    ImageState::new(
        "sha256:1",
        "debian",
        "latest",
        Os::from(Some("debian".to_string()), Some("11".to_string())),
        ts,
        vec![],
        false,
    )
}

#[test]
fn entries_round_trip() {
    let mut s = ImagesState::new("/tmp/state");
    let a = RecipeTarget::new("a".to_string(), ImageTarget::new("debian", BuildTarget::Deb, None));
    let b = RecipeTarget::new("b".to_string(), ImageTarget::new("debian", BuildTarget::Gzip, Some("debian")));
    s.update(a.copy(), state(1));
    s.update(b.copy(), state(2));
    s.update(a.copy(), state(3));
    let copied: Vec<(RecipeTarget, ImageState)> =
        s.entries().iter().map(|(k, v)| (k.copy(), v.copy())).collect();
    let loaded = ImagesState::from_entries("/tmp/state", copied);
    assert!(!loaded.has_changed());
    assert_eq!(loaded.get(&a).unwrap().timestamp, 3);
    assert_eq!(loaded.get(&b).unwrap().timestamp, 2);
    assert_eq!(loaded.entries().len(), 2);
}
