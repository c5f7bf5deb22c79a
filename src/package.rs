//! Per-format package assembly: artifact names, the commands run inside the
//! container, and the values read back from their output.
use vstd::prelude::*;
use crate::container::ExecError;
use crate::os::{parse_u8, u8_value};
use crate::target::{deb_arch, pkg_arch, BuildArch, BuildTarget};
use crate::text::{
    contains, decimal, first_token, has_token, is_first_token, is_prefix, join, join_with,
    occurs_in, split_char, split_on, starts_with, u64_to_string, views,
};

verus! {

/// What a package is named after.
#[derive(Debug)]
pub struct PackageInfo {
    pub name: String,
    pub version: String,
    pub release: String,
    pub arch: BuildArch,
}

/// The file name of a gzipped tarball.
pub open spec fn gzip_name_spec(p: PackageInfo) -> Seq<char> {
    p.name@ + "-"@ + p.version@ + ".tar.gz"@
}

/// The name of a Debian package, without its extension.
pub open spec fn deb_stem_spec(p: PackageInfo) -> Seq<char> {
    p.name@ + "-"@ + p.version@ + "-"@ + p.release@ + "."@ + deb_arch(p.arch)
}

/// The name of an Arch package, without its extension.
pub open spec fn pkg_stem_spec(p: PackageInfo) -> Seq<char> {
    p.name@ + "-"@ + p.version@ + "-"@ + p.release@ + "-"@ + pkg_arch(p.arch)
}

/// The file name of a gzipped tarball: `<name>-<version>.tar.gz`.
pub fn gzip_package_name(p: &PackageInfo) -> (r: String)
    ensures
        r@ == gzip_name_spec(*p),
{
    let mut s = p.name.clone();
    s.append("-");
    s.append(p.version.as_str());
    s.append(".tar.gz");
    s
}

/// The name of a Debian package, `<name>-<version>-<release>.<arch>`,
/// followed by `.deb` when `extension` is set.
pub fn deb_package_name(p: &PackageInfo, extension: bool) -> (r: String)
    ensures
        r@ == deb_stem_spec(*p) + (if extension {
            ".deb"@
        } else {
            ""@
        }),
{
    let mut s = p.name.clone();
    s.append("-");
    s.append(p.version.as_str());
    s.append("-");
    s.append(p.release.as_str());
    s.append(".");
    s.append(p.arch.deb_name());
    if extension {
        s.append(".deb");
    } else {
        proof {
            reveal_strlit("");
            assert(s@ + ""@ =~= s@);
        }
    }
    s
}

/// The name of an Arch package, `<name>-<version>-<release>-<arch>`,
/// followed by `.pkg.tar.zst` when `extension` is set.
pub fn pkg_package_name(p: &PackageInfo, extension: bool) -> (r: String)
    ensures
        r@ == pkg_stem_spec(*p) + (if extension {
            ".pkg.tar.zst"@
        } else {
            ""@
        }),
{
    let mut s = p.name.clone();
    s.append("-");
    s.append(p.version.as_str());
    s.append("-");
    s.append(p.release.as_str());
    s.append("-");
    s.append(p.arch.pkg_name());
    if extension {
        s.append(".pkg.tar.zst");
    } else {
        proof {
            reveal_strlit("");
            assert(s@ + ""@ =~= s@);
        }
    }
    s
}

/// The arguments of `dpkg-deb`: files are owned by root on systems whose
/// version reads as 10 or more.
pub open spec fn dpkg_deb_args_spec(os_version: Seq<char>) -> Seq<char> {
    match u8_value(os_version) {
        Some(v) if v >= 10 => "--build --root-owner-group"@,
        _ => "--build"@,
    }
}

/// Chooses the arguments of `dpkg-deb` for a system version.
pub fn dpkg_deb_args(os_version: &str) -> (r: &'static str)
    ensures
        r@ == dpkg_deb_args_spec(os_version@),
{
    match parse_u8(os_version) {
        Some(v) => if v >= 10 {
            "--build --root-owner-group"
        } else {
            "--build"
        },
        None => "--build",
    }
}

/// The installed size reported by `du -s`: the first token of its output.
pub fn installed_size(du_output: &str) -> (r: Option<String>)
    ensures
        r.is_some() == has_token(du_output@),
        r matches Some(t) ==> is_first_token(du_output@, t@),
{
    first_token(du_output)
}

/// The first line of `lines` that holds `name`.
pub open spec fn first_holding(lines: Seq<Seq<char>>, name: Seq<char>) -> Option<Seq<char>>
    decreases lines.len(),
{
    if lines.len() == 0 {
        None
    } else if occurs_in(lines[0], name) {
        Some(lines[0])
    } else {
        first_holding(lines.drop_first(), name)
    }
}

/// The id of the key called `name` in the output of `gpg --list-keys
/// --with-colons`: the eighth colon-separated field of the first line that
/// holds the name, or empty when there is no such line or field.
pub open spec fn gpg_key_id_spec(out: Seq<char>, name: Seq<char>) -> Seq<char> {
    match first_holding(split_on(out, '\n'), name) {
        Some(line) => {
            let fields = split_on(line, ':');
            if fields.len() > 7 {
                fields[7]
            } else {
                Seq::empty()
            }
        },
        None => Seq::empty(),
    }
}

/// Finds the id of the key called `name` in the key listing of `gpg`.
pub fn gpg_key_id(out: &str, name: &str) -> (r: String)
    ensures
        r@ == gpg_key_id_spec(out@, name@),
{
    let lines = split_char(out, '\n');
    let ghost all = views(lines@);
    let n = lines.len();
    let mut i: usize = 0;
    proof {
        assert(all.subrange(0, n as int) =~= all);
    }
    while i < n
        invariant
            n == lines@.len(),
            all == views(lines@),
            all == split_on(out@, '\n'),
            i <= n,
            first_holding(all, name@) == first_holding(all.subrange(i as int, n as int), name@),
        decreases n - i,
    {
        let line = lines[i].as_str();
        if contains(line, name) {
            proof {
                assert(all[i as int] == line@);
                assert(all.subrange(i as int, n as int)[0] == all[i as int]);
            }
            let fields = split_char(line, ':');
            if fields.len() > 7 {
                proof {
                    assert(views(fields@)[7] == fields@[7]@);
                }
                return fields[7].clone();
            }
            return String::new();
        }
        proof {
            assert(all.subrange(i as int, n as int).drop_first() =~= all.subrange(i + 1, n as int));
        }
        i = i + 1;
    }
    String::new()
}

/// A path given as absolute.
pub open spec fn is_absolute(p: Seq<char>) -> bool {
    p.len() > 0 && p[0] == '/'
}

/// The relative paths of `paths`, in order.
pub open spec fn relative_paths(paths: Seq<Seq<char>>) -> Seq<Seq<char>>
    decreases paths.len(),
{
    if paths.len() == 0 {
        Seq::empty()
    } else if is_absolute(paths.last()) {
        relative_paths(paths.drop_last())
    } else {
        relative_paths(paths.drop_last()).push(paths.last())
    }
}

/// The command that removes the excluded paths from the output directory;
/// absolute paths are left out.
pub open spec fn exclude_cmd_spec(paths: Seq<Seq<char>>) -> Seq<char> {
    "rm -rvf "@ + join_with(relative_paths(paths), " "@)
}

/// Builds the command that removes the excluded paths, leaving out the
/// absolute ones.
pub fn exclude_cmd(paths: &Vec<String>) -> (r: String)
    ensures
        r@ == exclude_cmd_spec(views(paths@)),
{
    let mut kept: Vec<String> = Vec::new();
    let n = paths.len();
    let mut i: usize = 0;
    proof {
        assert(views(paths@).subrange(0, 0) =~= Seq::<Seq<char>>::empty());
        assert(views(kept@) =~= Seq::<Seq<char>>::empty());
    }
    while i < n
        invariant
            n == paths@.len(),
            i <= n,
            views(kept@) == relative_paths(views(paths@).subrange(0, i as int)),
        decreases n - i,
    {
        let p = paths[i].as_str();
        proof {
            assert(views(paths@).subrange(0, i + 1).drop_last() =~= views(paths@).subrange(0, i as int));
            assert(views(paths@).subrange(0, i + 1).last() == p@);
        }
        let absolute = p.unicode_len() > 0 && p.get_char(0) == '/';
        if !absolute {
            let ghost before = kept@;
            kept.push(paths[i].clone());
            proof {
                assert(views(kept@) =~= views(before).push(p@));
            }
        }
        i = i + 1;
    }
    proof {
        assert(views(paths@).subrange(0, n as int) =~= views(paths@));
    }
    let mut cmd = String::from_str("rm -rvf ");
    let joined = join(&kept, " ");
    cmd.append(joined.as_str());
    cmd
}

/// Whether a script step runs on `image`: a step with no image list runs
/// everywhere, one with a list only on the images it names.
pub open spec fn step_runs_on(images: Seq<Seq<char>>, image: Seq<char>) -> bool {
    images.len() == 0 || images.contains(image)
}

/// Decides whether a script step runs on `image`.
pub fn step_applies(images: &Vec<String>, image: &str) -> (r: bool)
    ensures
        r == step_runs_on(views(images@), image@),
{
    images.len() == 0 || crate::image::contains_str(images, image)
}

/// Where a patch comes from.
#[derive(Clone, Copy, Debug, PartialEq, Eq, Structural)]
pub enum PatchOrigin {
    /// Fetched over HTTP into the container.
    Http,
    /// A file of the host, named by an absolute path.
    Absolute,
    /// A file of the host, relative to the recipe's directory.
    Relative,
}

/// Where the patch named `src` comes from.
pub open spec fn patch_origin_spec(src: Seq<char>) -> PatchOrigin {
    if is_prefix("http"@, src) {
        PatchOrigin::Http
    } else if is_absolute(src) {
        PatchOrigin::Absolute
    } else {
        PatchOrigin::Relative
    }
}

/// The last `/`-separated component of a path.
pub open spec fn last_component(src: Seq<char>) -> Seq<char> {
    split_on(src, '/').last()
}

/// Where the patch named `src` lies inside the container, under
/// `patch_dir`: fetched and absolute patches by their file name, relative
/// ones by their relative path.
pub open spec fn patch_location_spec(patch_dir: Seq<char>, src: Seq<char>) -> Seq<char> {
    match patch_origin_spec(src) {
        PatchOrigin::Relative => patch_dir + "/"@ + src,
        _ => patch_dir + "/"@ + last_component(src),
    }
}

/// Tells where the patch named `src` comes from.
pub fn patch_origin(src: &str) -> (r: PatchOrigin)
    ensures
        r == patch_origin_spec(src@),
{
    if starts_with(src, "http") {
        PatchOrigin::Http
    } else if src.unicode_len() > 0 && src.get_char(0) == '/' {
        PatchOrigin::Absolute
    } else {
        PatchOrigin::Relative
    }
}

/// Places the patch named `src` under `patch_dir` inside the container.
pub fn patch_location(patch_dir: &str, src: &str) -> (r: String)
    ensures
        r@ == patch_location_spec(patch_dir@, src@),
{
    let mut loc = patch_dir.to_string();
    loc.append("/");
    match patch_origin(src) {
        PatchOrigin::Relative => {
            loc.append(src);
        },
        _ => {
            let parts = split_char(src, '/');
            proof {
                crate::text::lemma_split_on_nonempty(src@, '/');
            }
            let last = parts.len() - 1;
            proof {
                assert(views(parts@)[last as int] == parts@[last as int]@);
            }
            loc.append(parts[last].as_str());
        },
    }
    loc
}

/// The command that applies a patch, stripping `strip` leading components.
pub open spec fn patch_cmd_spec(strip: u64, location: Seq<char>) -> Seq<char> {
    "patch -p"@ + decimal(strip as nat) + " < "@ + location
}

/// Builds the command that applies a patch.
pub fn patch_cmd(strip: u64, location: &str) -> (r: String)
    ensures
        r@ == patch_cmd_spec(strip, location@),
{
    let mut c = String::from_str("patch -p");
    let n = u64_to_string(strip);
    c.append(n.as_str());
    c.append(" < ");
    c.append(location);
    c
}

/// The command that clones a git source into the build directory: shallow
/// in history of one branch, with its submodules, eight jobs at a time.
pub open spec fn git_clone_cmd_spec(branch: Seq<char>, url: Seq<char>, dest: Seq<char>) -> Seq<char> {
    "git clone -j 8 --single-branch --branch "@ + branch + " --recurse-submodules -- "@ + url
        + " "@ + dest
}

/// Builds the command that clones a git source.
pub fn git_clone_cmd(branch: &str, url: &str, dest: &str) -> (r: String)
    ensures
        r@ == git_clone_cmd_spec(branch@, url@, dest@),
{
    let mut c = String::from_str("git clone -j 8 --single-branch --branch ");
    c.append(branch);
    c.append(" --recurse-submodules -- ");
    c.append(url);
    c.append(" ");
    c.append(dest);
    c
}

/// The command that downloads a source over HTTP into the working directory.
pub fn curl_cmd(url: &str) -> (r: String)
    ensures
        r@ == "curl -LO "@ + url@,
{
    let mut c = String::from_str("curl -LO ");
    c.append(url);
    c
}

/// How a recipe's source is acquired.
#[derive(Clone, Copy, Debug, PartialEq, Eq, Structural)]
pub enum SourceKind {
    /// Cloned from a git repository.
    Git,
    /// Downloaded over HTTP.
    Http,
    /// Copied from the host.
    Fs,
    /// The recipe has no source.
    Nothing,
}

/// How the source is acquired: a git repository wins; otherwise a source
/// that begins with `http` is downloaded and any other is copied.
pub open spec fn source_kind_spec(has_git: bool, source: Option<Seq<char>>) -> SourceKind {
    if has_git {
        SourceKind::Git
    } else {
        match source {
            Some(s) => if is_prefix("http"@, s) {
                SourceKind::Http
            } else {
                SourceKind::Fs
            },
            None => SourceKind::Nothing,
        }
    }
}

/// Chooses how the source is acquired, given whether the recipe names a
/// git repository and its rendered source, if any.
pub fn source_kind(has_git: bool, source: Option<&str>) -> (r: SourceKind)
    ensures
        r == source_kind_spec(
            has_git,
            match source {
                Some(s) => Some(s@),
                None => None,
            },
        ),
{
    if has_git {
        SourceKind::Git
    } else {
        match source {
            Some(s) => if starts_with(s, "http") {
                SourceKind::Http
            } else {
                SourceKind::Fs
            },
            None => SourceKind::Nothing,
        }
    }
}

/// The reason recorded for a job whose command failed.
pub open spec fn exec_failure_spec(e: ExecError) -> Seq<char> {
    match e {
        ExecError::NonZero { exit_code, stderr_tail } => "command failed with exit code "@
            + decimal(exit_code as nat) + ": "@ + stderr_tail@,
    }
}

/// Describes a failed command for the job's result.
pub fn exec_failure_reason(e: &ExecError) -> (r: String)
    ensures
        r@ == exec_failure_spec(*e),
{
    match e {
        ExecError::NonZero { exit_code, stderr_tail } => {
            let mut s = String::from_str("command failed with exit code ");
            let n = u64_to_string(*exit_code);
            s.append(n.as_str());
            s.append(": ");
            s.append(stderr_tail.as_str());
            s
        },
    }
}

/// The packages every job of format `t` needs besides the recipe's own.
pub open spec fn default_deps_spec(t: BuildTarget) -> Seq<Seq<char>> {
    seq!["tar"@, "git"@, match t {
        BuildTarget::Rpm => "rpm-build"@,
        BuildTarget::Deb => "dpkg"@,
        BuildTarget::Pkg => "base-devel"@,
        BuildTarget::Gzip => "gzip"@,
    }]
}

/// The packages a job of format `t` needs besides the recipe's own.
pub fn default_deps(t: BuildTarget) -> (r: Vec<String>)
    ensures
        views(r@) == default_deps_spec(t),
{
    let mut v: Vec<String> = Vec::new();
    v.push(String::from_str("tar"));
    v.push(String::from_str("git"));
    let last = match t {
        BuildTarget::Rpm => "rpm-build",
        BuildTarget::Deb => "dpkg",
        BuildTarget::Pkg => "base-devel",
        BuildTarget::Gzip => "gzip",
    };
    v.push(String::from_str(last));
    proof {
        assert(views(v@) =~= default_deps_spec(t));
    }
    v
}

/// The dependencies a job resolves: the recipe's own for its image, then
/// the defaults of its format.
pub fn resolve_deps(recipe_deps: &Vec<String>, t: BuildTarget) -> (r: Vec<String>)
    ensures
        views(r@) == views(recipe_deps@) + default_deps_spec(t),
{
    let mut v = crate::image::copy_strings(recipe_deps);
    let mut d = default_deps(t);
    let ghost a = v@;
    let ghost b = d@;
    v.append(&mut d);
    proof {
        assert(v@ =~= a + b);
        assert(views(v@) =~= views(a) + views(b));
    }
    v
}

/// A command `<head> <parts joined by spaces>`.
pub open spec fn with_args_spec(head: Seq<char>, parts: Seq<Seq<char>>) -> Seq<char> {
    head + " "@ + join_with(parts, " "@)
}

fn with_args(head: &str, parts: &Vec<String>) -> (r: String)
    ensures
        r@ == with_args_spec(head@, views(parts@)),
{
    let mut c = head.to_string();
    c.append(" ");
    let j = join(parts, " ");
    c.append(j.as_str());
    c
}

/// The command that creates directories, parents included.
pub fn mkdir_cmd(dirs: &Vec<String>) -> (r: String)
    ensures
        r@ == with_args_spec("mkdir -pv"@, views(dirs@)),
{
    with_args("mkdir -pv", dirs)
}

/// The command that installs `deps` with package manager `m`.
pub fn install_cmd(m: crate::os::PackageManager, deps: &Vec<String>) -> (r: String)
    ensures
        r@ == with_args_spec(
            crate::os::manager_cmd(m) + " "@ + crate::os::install_spec(m),
            views(deps@),
        ),
{
    let mut head = m.as_str().to_string();
    head.append(" ");
    head.append(m.install_args());
    with_args(head.as_str(), deps)
}

/// The label that marks the containers of a session: `<key>=<session id>`.
pub fn session_label(key: &str, session_id: &str) -> (r: String)
    ensures
        r@ == key@ + "="@ + session_id@,
{
    let mut l = key.to_string();
    l.append("=");
    l.append(session_id);
    l
}

/// The command that unpacks an uploaded archive in its directory.
pub fn untar_cmd(archive: &str) -> (r: String)
    ensures
        r@ == "tar -xf "@ + archive@,
{
    let mut c = String::from_str("tar -xf ");
    c.append(archive);
    c
}

/// The command that unpacks the bundle of patches into `patch_dir`.
pub fn untar_patches_cmd(archive: &str, patch_dir: &str) -> (r: String)
    ensures
        r@ == "tar xf "@ + archive@ + " -C "@ + patch_dir@,
{
    let mut c = String::from_str("tar xf ");
    c.append(archive);
    c.append(" -C ");
    c.append(patch_dir);
    c
}

/// The command that imports the signing key at `path`.
pub fn gpg_import_cmd(pass: &str, path: &str) -> (r: String)
    ensures
        r@ == "gpg --pinentry-mode=loopback --passphrase "@ + pass@ + " --import "@ + path@,
{
    let mut c = String::from_str("gpg --pinentry-mode=loopback --passphrase ");
    c.append(pass);
    c.append(" --import ");
    c.append(path);
    c
}

/// The lowercase form of a string.
pub uninterp spec fn lower_of(s: Seq<char>) -> Seq<char>;

/// Relies on `str::to_lowercase`: the result depends on the characters alone,
/// and an empty string stays empty.
#[verifier::external_body]
fn lowercase(s: &str) -> (r: String)
    ensures
        r@ == lower_of(s@),
        s@.len() == 0 ==> r@.len() == 0,
{
    s.to_lowercase()
}

/// The command that signs a Debian package with the key `key_id` as
/// `signer`.
pub fn dpkg_sig_cmd_as(key_id: &str, pass: &str, signer: &str, package: &str) -> (r: String)
    ensures
        r@ == "dpkg-sig -k "@ + key_id@ + " -g \"--pinentry-mode=loopback --passphrase "@ + pass@
            + "\" --sign "@ + signer@ + " "@ + package@,
{
    let mut c = String::from_str("dpkg-sig -k ");
    c.append(key_id);
    c.append(" -g \"--pinentry-mode=loopback --passphrase ");
    c.append(pass);
    c.append("\" --sign ");
    c.append(signer);
    c.append(" ");
    c.append(package);
    c
}

/// The command that signs a Debian package with the key `key_id`; the
/// signer is the key's name in lowercase.
pub fn dpkg_sig_cmd(key_id: &str, pass: &str, name: &str, package: &str) -> (r: String)
    ensures
        r@ == "dpkg-sig -k "@ + key_id@ + " -g \"--pinentry-mode=loopback --passphrase "@ + pass@
            + "\" --sign "@ + lower_of(name@) + " "@ + package@,
{
    let signer = lowercase(name);
    dpkg_sig_cmd_as(key_id, pass, signer.as_str(), package)
}

/// The command that signs an RPM package with the configured key.
pub fn rpm_sign_cmd(pass: &str, signer: &str, package: &str) -> (r: String)
    ensures
        r@ == "rpm --define \"%_gpg_name "@ + signer@ + "\" --define \"%_gpg_sign_cmd_extra_args --pinentry-mode=loopback --passphrase "@
            + pass@ + "\" --addsign "@ + package@,
{
    let mut c = String::from_str("rpm --define \"%_gpg_name ");
    c.append(signer);
    c.append("\" --define \"%_gpg_sign_cmd_extra_args --pinentry-mode=loopback --passphrase ");
    c.append(pass);
    c.append("\" --addsign ");
    c.append(package);
    c
}

/// The script that unpacks every recognized archive of the working
/// directory into `bld_dir` and copies every other file there.
pub open spec fn extract_script_spec(bld_dir: Seq<char>) -> Seq<char> {
    "for file in *; do if [[ $file =~ (.*[.]tar.*|.*[.](tgz|tbz|txz|tlz|tsz|taz|tz)) ]]; then tar xvf $file -C "@
        + bld_dir + "; elif [[ $file == *.zip ]]; then unzip $file -d "@ + bld_dir
        + "; else cp -v $file "@ + bld_dir + "; fi; done"@
}

/// Builds the script that unpacks fetched sources into the build directory.
pub fn extract_script(bld_dir: &str) -> (r: String)
    ensures
        r@ == extract_script_spec(bld_dir@),
{
    let mut c = String::from_str(
        "for file in *; do if [[ $file =~ (.*[.]tar.*|.*[.](tgz|tbz|txz|tlz|tsz|taz|tz)) ]]; then tar xvf $file -C ",
    );
    c.append(bld_dir);
    c.append("; elif [[ $file == *.zip ]]; then unzip $file -d ");
    c.append(bld_dir);
    c.append("; else cp -v $file ");
    c.append(bld_dir);
    c.append("; fi; done");
    c
}

/// One step of a script block: a command and the images it is limited to.
#[derive(Debug)]
pub struct ScriptStep {
    pub cmd: String,
    pub images: Vec<String>,
}

/// The script blocks, in the order they run.
#[derive(Clone, Copy, Debug, PartialEq, Eq, Structural)]
pub enum ScriptBlock {
    Configure,
    Build,
    Install,
}

/// The positions of the steps of `steps` that run on `image`, in order.
pub open spec fn runnable_steps(steps: Seq<ScriptStep>, image: Seq<char>) -> Seq<usize>
    decreases steps.len(),
{
    if steps.len() == 0 {
        Seq::empty()
    } else {
        let before = runnable_steps(steps.drop_last(), image);
        if step_runs_on(views(steps.last().images@), image) {
            before.push((steps.len() - 1) as usize)
        } else {
            before
        }
    }
}

/// The positions of the steps of a block that run on `image`.
pub fn steps_to_run(steps: &Vec<ScriptStep>, image: &str) -> (r: Vec<usize>)
    ensures
        r@ == runnable_steps(steps@, image@),
{
    let mut out: Vec<usize> = Vec::new();
    let n = steps.len();
    let mut i: usize = 0;
    proof {
        assert(steps@.subrange(0, 0) =~= Seq::<ScriptStep>::empty());
    }
    while i < n
        invariant
            n == steps@.len(),
            i <= n,
            out@ == runnable_steps(steps@.subrange(0, i as int), image@),
        decreases n - i,
    {
        proof {
            assert(steps@.subrange(0, i + 1).drop_last() =~= steps@.subrange(0, i as int));
            assert(steps@.subrange(0, i + 1).last() == steps@[i as int]);
        }
        if step_applies(&steps[i].images, image) {
            out.push(i);
        }
        i = i + 1;
    }
    proof {
        assert(steps@.subrange(0, n as int) =~= steps@);
    }
    out
}

/// The name of a script block.
pub open spec fn block_name(b: ScriptBlock) -> Seq<char> {
    match b {
        ScriptBlock::Configure => "configure"@,
        ScriptBlock::Build => "build"@,
        ScriptBlock::Install => "install"@,
    }
}

/// The reason recorded for a job whose script step failed.
pub open spec fn script_failure_spec(b: ScriptBlock, step: usize, e: ExecError) -> Seq<char> {
    block_name(b) + " script failed at step "@ + decimal(step as nat) + ": "@ + exec_failure_spec(e)
}

/// Describes the failure of step `step` of block `b`.
pub fn script_failure_reason(b: ScriptBlock, step: usize, e: &ExecError) -> (r: String)
    ensures
        r@ == script_failure_spec(b, step, *e),
{
    let mut s = String::from_str(match b {
        ScriptBlock::Configure => "configure",
        ScriptBlock::Build => "build",
        ScriptBlock::Install => "install",
    });
    s.append(" script failed at step ");
    let n = u64_to_string(step as u64);
    s.append(n.as_str());
    s.append(": ");
    let d = exec_failure_reason(e);
    s.append(d.as_str());
    s
}

} // verus!
