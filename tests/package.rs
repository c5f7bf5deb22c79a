use pkger::container::ExecError;
use pkger::package::{
    curl_cmd, deb_package_name, dpkg_deb_args, exclude_cmd, exec_failure_reason, git_clone_cmd,
    gpg_key_id, gzip_package_name, installed_size, patch_cmd, patch_location, patch_origin,
    pkg_package_name, source_kind, step_applies, PackageInfo, PatchOrigin, SourceKind,
};
use pkger::target::BuildArch;

fn info() -> PackageInfo {
    PackageInfo {
        name: "hello".to_string(),
        version: "0.1.0".to_string(),
        release: "1".to_string(),
        arch: BuildArch::x86_64,
    }
}

#[test]
fn package_names() {
    assert_eq!(gzip_package_name(&info()), "hello-0.1.0.tar.gz");
    assert_eq!(deb_package_name(&info(), true), "hello-0.1.0-1.amd64.deb");
    assert_eq!(deb_package_name(&info(), false), "hello-0.1.0-1.amd64");
    assert_eq!(pkg_package_name(&info(), true), "hello-0.1.0-1-x86_64.pkg.tar.zst");
    assert_eq!(pkg_package_name(&info(), false), "hello-0.1.0-1-x86_64");
}

#[test]
fn dpkg_deb_owner_flag_by_version() {
    assert_eq!(dpkg_deb_args("11"), "--build --root-owner-group");
    assert_eq!(dpkg_deb_args("10"), "--build --root-owner-group");
    assert_eq!(dpkg_deb_args("9"), "--build");
    assert_eq!(dpkg_deb_args("20.04"), "--build");
    assert_eq!(dpkg_deb_args("300"), "--build");
    assert_eq!(dpkg_deb_args(""), "--build");
}

#[test]
fn reads_command_output() {
    assert_eq!(installed_size("  1234\t.\n"), Some("1234".to_string()));
    assert_eq!(installed_size(" \n"), None);
    let listing = "tru::1:1700000000:0:3:1:5\npub:u:4096:1:AAAA1111:1700000000:::u:::scESC::::::23::0:\nuid:u::::1700000000::HASH::Package Signer <ps@example.com>::::::::::0:\n";
    assert_eq!(gpg_key_id(listing, "Package Signer"), "HASH");
    assert_eq!(gpg_key_id(listing, "Nobody"), "");
    assert_eq!(gpg_key_id("Package Signer:x", "Package Signer"), "");
}

#[test]
fn builds_commands() {
    let excl = vec!["share/doc".to_string(), "/etc/passwd".to_string(), "man".to_string()];
    assert_eq!(exclude_cmd(&excl), "rm -rvf share/doc man");
    assert_eq!(patch_cmd(1, "/tmp/p/fix.patch"), "patch -p1 < /tmp/p/fix.patch");
    assert_eq!(
        git_clone_cmd("main", "https://example.com/r.git", "/tmp/bld"),
        "git clone -j 8 --single-branch --branch main --recurse-submodules -- https://example.com/r.git /tmp/bld"
    );
    assert_eq!(curl_cmd("https://example.com/a.tgz"), "curl -LO https://example.com/a.tgz");
}

#[test]
fn classifies_patches_and_sources() {
    assert_eq!(patch_origin("https://example.com/x/fix.patch"), PatchOrigin::Http);
    assert_eq!(patch_origin("/home/me/fix.patch"), PatchOrigin::Absolute);
    assert_eq!(patch_origin("patches/fix.patch"), PatchOrigin::Relative);
    assert_eq!(patch_location("/tmp/p", "https://example.com/x/fix.patch"), "/tmp/p/fix.patch");
    assert_eq!(patch_location("/tmp/p", "/home/me/a.patch"), "/tmp/p/a.patch");
    assert_eq!(patch_location("/tmp/p", "patches/b.patch"), "/tmp/p/patches/b.patch");
    assert_eq!(source_kind(true, Some("https://x")), SourceKind::Git);
    assert_eq!(source_kind(false, Some("https://x")), SourceKind::Http);
    assert_eq!(source_kind(false, Some("hello.txt")), SourceKind::Fs);
    assert_eq!(source_kind(false, None), SourceKind::Nothing);
}

#[test]
fn script_steps_and_failures() {
    assert!(step_applies(&vec![], "debian"));
    assert!(step_applies(&vec!["arch".to_string(), "debian".to_string()], "debian"));
    assert!(!step_applies(&vec!["arch".to_string()], "debian"));
    let e = ExecError::NonZero { exit_code: 7, stderr_tail: "boom".to_string() };
    let reason = exec_failure_reason(&e);
    assert_eq!(reason, "command failed with exit code 7: boom");
    assert!(reason.contains("exit code 7"));
}

use pkger::os::PackageManager;
use pkger::package::{
    default_deps, dpkg_sig_cmd, dpkg_sig_cmd_as, extract_script, gpg_import_cmd, install_cmd,
    mkdir_cmd, resolve_deps, rpm_sign_cmd, session_label, untar_cmd, untar_patches_cmd,
};
use pkger::target::BuildTarget;

#[test]
fn dependency_lists() {
    assert_eq!(default_deps(BuildTarget::Deb), vec!["tar", "git", "dpkg"]);
    assert_eq!(default_deps(BuildTarget::Gzip), vec!["tar", "git", "gzip"]);
    assert_eq!(
        resolve_deps(&vec!["libssl-dev".to_string()], BuildTarget::Rpm),
        vec!["libssl-dev", "tar", "git", "rpm-build"]
    );
}

#[test]
fn container_commands() {
    assert_eq!(
        mkdir_cmd(&vec!["/tmp/a".to_string(), "/tmp/b".to_string()]),
        "mkdir -pv /tmp/a /tmp/b"
    );
    assert_eq!(
        install_cmd(PackageManager::Apt, &vec!["gcc".to_string(), "make".to_string()]),
        "apt-get install -y gcc make"
    );
    assert_eq!(install_cmd(PackageManager::Pacman, &vec!["gcc".to_string()]), "pacman -S --noconfirm gcc");
    assert_eq!(session_label("pkger.session", "1234"), "pkger.session=1234");
    assert_eq!(untar_cmd("/tmp/d/archive.tgz"), "tar -xf /tmp/d/archive.tgz");
    assert_eq!(untar_patches_cmd("/tmp/patches.tar", "/tmp/patches"), "tar xf /tmp/patches.tar -C /tmp/patches");
    assert!(extract_script("/tmp/bld").contains("tar xvf $file -C /tmp/bld"));
    assert!(extract_script("/tmp/bld").ends_with("cp -v $file /tmp/bld; fi; done"));
}

#[test]
fn signing_commands() {
    assert_eq!(
        gpg_import_cmd("secret", "/tmp/t/GPG-SIGN-KEY"),
        "gpg --pinentry-mode=loopback --passphrase secret --import /tmp/t/GPG-SIGN-KEY"
    );
    assert_eq!(
        dpkg_sig_cmd("ABCD", "secret", "Package Signer", "/root/debbuild/p.deb"),
        "dpkg-sig -k ABCD -g \"--pinentry-mode=loopback --passphrase secret\" --sign package signer /root/debbuild/p.deb"
    );
    assert_eq!(
        dpkg_sig_cmd_as("ABCD", "secret", "x", "p.deb"),
        "dpkg-sig -k ABCD -g \"--pinentry-mode=loopback --passphrase secret\" --sign x p.deb"
    );
    assert_eq!(
        rpm_sign_cmd("secret", "Signer", "/root/rpmbuild/RPMS/x86_64/p.rpm"),
        "rpm --define \"%_gpg_name Signer\" --define \"%_gpg_sign_cmd_extra_args --pinentry-mode=loopback --passphrase secret\" --addsign /root/rpmbuild/RPMS/x86_64/p.rpm"
    );
}

use pkger::package::{script_failure_reason, steps_to_run, ScriptBlock, ScriptStep};

fn step(cmd: &str, images: &[&str]) -> ScriptStep {
    ScriptStep { cmd: cmd.to_string(), images: images.iter().map(|s| s.to_string()).collect() }
}

#[test]
fn script_steps_per_image() {
    let steps = vec![step("make", &[]), step("apt-fix", &["debian"]), step("pacman-fix", &["arch"]), step("make install", &[])];
    assert_eq!(steps_to_run(&steps, "debian"), vec![0, 1, 3]);
    assert_eq!(steps_to_run(&steps, "arch"), vec![0, 2, 3]);
    assert_eq!(steps_to_run(&vec![], "arch"), Vec::<usize>::new());
}

#[test]
fn failing_script_step_reports_exit_code() {
    let e = ExecError::NonZero { exit_code: 7, stderr_tail: String::new() };
    let reason = script_failure_reason(ScriptBlock::Build, 0, &e);
    assert_eq!(reason, "build script failed at step 0: command failed with exit code 7: ");
    assert!(reason.contains("exit code 7"));
}
