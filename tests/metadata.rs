use pkger::metadata::PackageMetadata;
use pkger::target::{BuildArch, BuildTarget};
use std::time::{SystemTime, UNIX_EPOCH};

#[test]
fn parses_deb() {
    let path = "test-instantclient-19.10-basic-1.0.0.amd64";

    assert_eq!(
        PackageMetadata::new(
            "test-instantclient-19.10-basic",
            "1.0.0",
            None,
            Some(BuildArch::x86_64),
            BuildTarget::Deb,
            None,
        ),
        PackageMetadata::try_from_str(path, BuildTarget::Deb, None).unwrap(),
    );
}

#[test]
fn parses_rpm() {
    let path = "tst-dev-tools-1.0.1-0.x86_64";

    let time = SystemTime::now().duration_since(UNIX_EPOCH).unwrap().as_nanos();

    assert_eq!(
        PackageMetadata::new(
            "tst-dev-tools",
            "1.0.1",
            Some("0"),
            Some(BuildArch::x86_64),
            BuildTarget::Rpm,
            Some(time),
        ),
        PackageMetadata::try_from_str(path, BuildTarget::Rpm, Some(time)).unwrap(),
    );
}

#[test]
fn parses_gzip() {
    let path = "tst-dev-tools-1.0.1";

    assert_eq!(
        PackageMetadata::new("tst-dev-tools", "1.0.1", None, None, BuildTarget::Gzip, None),
        PackageMetadata::try_from_str(path, BuildTarget::Gzip, None).unwrap(),
    );
}

#[test]
fn parses_pkg() {
    let path = "pkger-0.5.0-0-x86_64";

    assert_eq!(
        PackageMetadata::new(
            "pkger",
            "0.5.0",
            Some("0"),
            Some(BuildArch::x86_64),
            BuildTarget::Pkg,
            None,
        ),
        PackageMetadata::try_from_str(path, BuildTarget::Pkg, None).unwrap(),
    );
}

#[test]
fn rejects_names_without_a_version() {
    assert!(PackageMetadata::try_from_str("no-version-here", BuildTarget::Gzip, None).is_none());
    assert!(PackageMetadata::try_from_str("pkg-1.0.amd64", BuildTarget::Deb, None).is_none());
    assert!(PackageMetadata::try_from_str("", BuildTarget::Rpm, None).is_none());
}

#[test]
fn unknown_arch_is_kept_as_none() {
    let m = PackageMetadata::try_from_str("tool-2.3.4.sparc", BuildTarget::Deb, None).unwrap();
    assert_eq!(m.name(), "tool");
    assert_eq!(m.version(), "2.3.4");
    assert_eq!(m.arch(), &None);
    assert_eq!(m.release(), &None);
    assert_eq!(m.package_type(), BuildTarget::Deb);
    assert_eq!(m.created(), None);
}

#[test]
fn match_may_start_after_leading_junk() {
    let m = PackageMetadata::try_from_str("##app-1.2.3-4.noarch", BuildTarget::Rpm, None).unwrap();
    assert_eq!(m.name(), "app");
    assert_eq!(m.release(), &Some("4".to_string()));
    assert_eq!(m.arch(), &Some(BuildArch::All));
}

#[test]
fn reads_file_names() {
    let m = PackageMetadata::try_from_file_name("tst-dev-tools-1.0.1-0.x86_64.rpm", Some(5)).unwrap();
    assert_eq!(m.name(), "tst-dev-tools");
    assert_eq!(m.package_type(), BuildTarget::Rpm);
    assert_eq!(m.created(), Some(5));
    assert!(PackageMetadata::try_from_file_name("pkger-0.5.0-0-x86_64.zip", None).is_none());
    assert!(PackageMetadata::try_from_file_name(".deb", None).is_none());
    assert!(PackageMetadata::try_from_file_name("noextension", None).is_none());
}
