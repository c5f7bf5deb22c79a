//! The operating system of an image, as read from its release files, and the
//! package manager that goes with it.
use vstd::prelude::*;
use crate::text::{
    is_prefix, split_char, split_on, starts_with, str_eq, trim_char, trim_end_char, trim_start_char,
    views,
};

verus! {

/// The operating-system families the engine knows.
#[derive(Clone, Copy, Debug, PartialEq, Eq, Structural, Hash)]
pub enum OsKind {
    Arch,
    Centos,
    Debian,
    Fedora,
    Redhat,
    Ubuntu,
    Unknown,
}

/// The family a release id names.
pub open spec fn kind_named(s: Seq<char>) -> OsKind {
    if s == "arch"@ {
        OsKind::Arch
    } else if s == "centos"@ {
        OsKind::Centos
    } else if s == "debian"@ {
        OsKind::Debian
    } else if s == "fedora"@ {
        OsKind::Fedora
    } else if s == "rhel"@ || s == "redhat"@ {
        OsKind::Redhat
    } else if s == "ubuntu"@ {
        OsKind::Ubuntu
    } else {
        OsKind::Unknown
    }
}

/// Reads an operating-system family from a release id.
pub fn kind_from_str(s: &str) -> (r: OsKind)
    ensures
        r == kind_named(s@),
{
    if str_eq(s, "arch") {
        OsKind::Arch
    } else if str_eq(s, "centos") {
        OsKind::Centos
    } else if str_eq(s, "debian") {
        OsKind::Debian
    } else if str_eq(s, "fedora") {
        OsKind::Fedora
    } else if str_eq(s, "rhel") || str_eq(s, "redhat") {
        OsKind::Redhat
    } else if str_eq(s, "ubuntu") {
        OsKind::Ubuntu
    } else {
        OsKind::Unknown
    }
}

/// The package managers the engine drives.
#[derive(Clone, Copy, Debug, PartialEq, Eq, Structural, Hash)]
pub enum PackageManager {
    Apt,
    Dnf,
    Pacman,
    Yum,
    Unknown,
}

/// The package manager of each family.
pub open spec fn manager_of(k: OsKind) -> PackageManager {
    match k {
        OsKind::Debian | OsKind::Ubuntu => PackageManager::Apt,
        OsKind::Fedora => PackageManager::Dnf,
        OsKind::Centos | OsKind::Redhat => PackageManager::Yum,
        OsKind::Arch => PackageManager::Pacman,
        OsKind::Unknown => PackageManager::Unknown,
    }
}

/// The command that runs a package manager; empty for an unknown one.
pub open spec fn manager_cmd(m: PackageManager) -> Seq<char> {
    match m {
        PackageManager::Apt => "apt-get"@,
        PackageManager::Dnf => "dnf"@,
        PackageManager::Pacman => "pacman"@,
        PackageManager::Yum => "yum"@,
        PackageManager::Unknown => ""@,
    }
}

/// The arguments that clean a package manager's cache.
pub open spec fn clean_cache_spec(m: PackageManager) -> Seq<char> {
    match m {
        PackageManager::Apt => "clean"@,
        PackageManager::Dnf | PackageManager::Yum => "clean metadata"@,
        PackageManager::Pacman => "-Sc --noconfirm"@,
        PackageManager::Unknown => ""@,
    }
}

/// The arguments that refresh a package manager's repositories.
pub open spec fn update_repos_spec(m: PackageManager) -> Seq<char> {
    match m {
        PackageManager::Apt => "update -y"@,
        PackageManager::Dnf | PackageManager::Yum => "makecache"@,
        PackageManager::Pacman => "-Sy --noconfirm"@,
        PackageManager::Unknown => ""@,
    }
}

/// The arguments that install packages, to be followed by their names.
pub open spec fn install_spec(m: PackageManager) -> Seq<char> {
    match m {
        PackageManager::Apt | PackageManager::Dnf | PackageManager::Yum => "install -y"@,
        PackageManager::Pacman => "-S --noconfirm"@,
        PackageManager::Unknown => ""@,
    }
}

impl PackageManager {
    /// The command that runs this package manager.
    pub fn as_str(&self) -> (r: &'static str)
        ensures
            r@ == manager_cmd(*self),
    {
        match self {
            PackageManager::Apt => "apt-get",
            PackageManager::Dnf => "dnf",
            PackageManager::Pacman => "pacman",
            PackageManager::Yum => "yum",
            PackageManager::Unknown => "",
        }
    }

    /// The arguments that clean its cache.
    pub fn clean_cache(&self) -> (r: &'static str)
        ensures
            r@ == clean_cache_spec(*self),
    {
        match self {
            PackageManager::Apt => "clean",
            PackageManager::Dnf | PackageManager::Yum => "clean metadata",
            PackageManager::Pacman => "-Sc --noconfirm",
            PackageManager::Unknown => "",
        }
    }

    /// The arguments that refresh its repositories.
    pub fn update_repos_args(&self) -> (r: &'static str)
        ensures
            r@ == update_repos_spec(*self),
    {
        match self {
            PackageManager::Apt => "update -y",
            PackageManager::Dnf | PackageManager::Yum => "makecache",
            PackageManager::Pacman => "-Sy --noconfirm",
            PackageManager::Unknown => "",
        }
    }

    /// The arguments that install packages.
    pub fn install_args(&self) -> (r: &'static str)
        ensures
            r@ == install_spec(*self),
    {
        match self {
            PackageManager::Apt | PackageManager::Dnf | PackageManager::Yum => "install -y",
            PackageManager::Pacman => "-S --noconfirm",
            PackageManager::Unknown => "",
        }
    }
}

/// An image's operating system: its family, the id it was read from, and
/// its version.
#[derive(Debug)]
pub struct Os {
    pub kind: OsKind,
    pub name: String,
    pub version: String,
}

impl Os {
    /// The operating system with release id `name` and version `version`;
    /// a missing value reads as empty.
    pub fn from(name: Option<String>, version: Option<String>) -> (r: Os)
        ensures
            r.name@ == (match name {
                Some(n) => n@,
                None => Seq::<char>::empty(),
            }),
            r.version@ == (match version {
                Some(v) => v@,
                None => Seq::<char>::empty(),
            }),
            r.kind == kind_named(r.name@),
    {
        let name = match name {
            Some(n) => n,
            None => String::new(),
        };
        let version = match version {
            Some(v) => v,
            None => String::new(),
        };
        let kind = kind_from_str(name.as_str());
        Os { kind, name, version }
    }

    /// The package manager of this system.
    pub open spec fn package_manager_spec(&self) -> PackageManager {
        manager_of(self.kind)
    }

    /// The package manager of this system.
    pub fn package_manager(&self) -> (r: PackageManager)
        ensures
            r == manager_of(self.kind),
            r == self.package_manager_spec(),
    {
        match self.kind {
            OsKind::Debian | OsKind::Ubuntu => PackageManager::Apt,
            OsKind::Fedora => PackageManager::Dnf,
            OsKind::Centos | OsKind::Redhat => PackageManager::Yum,
            OsKind::Arch => PackageManager::Pacman,
            OsKind::Unknown => PackageManager::Unknown,
        }
    }

    /// A copy of this value.
    pub fn copy(&self) -> (r: Os)
        ensures
            r == *self,
    {
        Os { kind: self.kind, name: self.name.clone(), version: self.version.clone() }
    }
}

/// The first line of `lines` that begins with `p`.
pub open spec fn first_with_prefix(lines: Seq<Seq<char>>, p: Seq<char>) -> Option<Seq<char>>
    decreases lines.len(),
{
    if lines.len() == 0 {
        None
    } else if is_prefix(p, lines[0]) {
        Some(lines[0])
    } else {
        first_with_prefix(lines.drop_first(), p)
    }
}

/// The value of a `KEY=value` line: surrounding double quotes are removed
/// when the value begins with one.
pub open spec fn unquote(v: Seq<char>) -> Seq<char> {
    if v.len() > 0 && v[0] == '"' {
        trim_end_char(trim_start_char(v, '"'), '"')
    } else {
        v
    }
}

/// The value that the first line of `out` of the form `key=value` gives.
pub open spec fn key_value(out: Seq<char>, key: Seq<char>) -> Option<Seq<char>> {
    let p = key + "="@;
    match first_with_prefix(split_on(out, '\n'), p) {
        Some(line) => Some(unquote(line.subrange(p.len() as int, line.len() as int))),
        None => None,
    }
}

/// Finds the value of `key` in the text of a release file.
pub fn extract_key(out: &str, key: &str) -> (r: Option<String>)
    ensures
        opt_chars(r) == key_value(out@, key@),
{
    let mut p = key.to_string();
    p.append("=");
    let lines = split_char(out, '\n');
    let ghost all = views(lines@);
    let n = lines.len();
    let mut i: usize = 0;
    proof {
        assert(all.subrange(0, n as int) =~= all);
    }
    while i < n
        invariant
            n == lines@.len(),
            p@ == key@ + "="@,
            all == views(lines@),
            all == split_on(out@, '\n'),
            i <= n,
            first_with_prefix(all, p@) == first_with_prefix(all.subrange(i as int, n as int), p@),
        decreases n - i,
    {
        let line = lines[i].as_str();
        if starts_with(line, p.as_str()) {
            let plen = p.unicode_len();
            let rest = line.substring_char(plen, line.unicode_len());
            let value = if rest.unicode_len() > 0 && rest.get_char(0) == '"' {
                trim_char(rest, '"')
            } else {
                rest.to_string()
            };
            proof {
                assert(all[i as int] == line@);
                assert(all.subrange(i as int, n as int)[0] == all[i as int]);
            }
            return Some(value);
        }
        proof {
            assert(all.subrange(i as int, n as int).drop_first() =~= all.subrange(i + 1, n as int));
        }
        i = i + 1;
    }
    None
}

/// The characters of an optional string.
pub open spec fn opt_chars(o: Option<String>) -> Option<Seq<char>> {
    match o {
        Some(s) => Some(s@),
        None => None,
    }
}

/// The operating system described by the text of `/etc/issue` and
/// `/etc/os-release`.
pub fn os_from_release(out: &str) -> (r: Os)
    ensures
        r.name@ == (match key_value(out@, "ID"@) {
            Some(n) => n,
            None => Seq::<char>::empty(),
        }),
        r.version@ == (match key_value(out@, "VERSION_ID"@) {
            Some(v) => v,
            None => Seq::<char>::empty(),
        }),
        r.kind == kind_named(r.name@),
{
    let name = extract_key(out, "ID");
    let version = extract_key(out, "VERSION_ID");
    Os::from(name, version)
}

/// The number a string of decimal digits stands for.
pub open spec fn digits_value(s: Seq<char>) -> nat
    decreases s.len(),
{
    if s.len() == 0 {
        0
    } else {
        digits_value(s.drop_last()) * 10 + (s.last() as nat - '0' as nat) as nat
    }
}

/// `s` is a non-empty run of decimal digits.
pub open spec fn all_digits(s: Seq<char>) -> bool {
    s.len() > 0 && forall|i: int| 0 <= i < s.len() ==> '0' <= #[trigger] s[i] <= '9'
}

/// The digits of a number as `u8::from_str` reads them: an optional `+`
/// before them.
pub open spec fn unsigned_digits(s: Seq<char>) -> Seq<char> {
    if s.len() > 0 && s[0] == '+' {
        s.drop_first()
    } else {
        s
    }
}

/// The byte a string denotes, as `u8::from_str` reads it.
pub open spec fn u8_value(s: Seq<char>) -> Option<u8> {
    let d = unsigned_digits(s);
    if all_digits(d) && digits_value(d) <= 255 {
        Some(digits_value(d) as u8)
    } else {
        None
    }
}

/// Reads a byte written in decimal.
pub fn parse_u8(s: &str) -> (r: Option<u8>)
    ensures
        r == u8_value(s@),
{
    let n = s.unicode_len();
    let start: usize = if n > 0 && s.get_char(0) == '+' {
        1
    } else {
        0
    };
    let ghost d = unsigned_digits(s@);
    proof {
        assert(d =~= s@.subrange(start as int, n as int));
    }
    if start == n {
        return None;
    }
    let mut value: u64 = 0;
    let mut i: usize = start;
    while i < n
        invariant
            n == s@.len(),
            start <= i <= n,
            d == s@.subrange(start as int, n as int),
            d == unsigned_digits(s@),
            forall|k: int| start <= k < i ==> '0' <= #[trigger] s@[k] <= '9',
            value == digits_value(s@.subrange(start as int, i as int)),
            value <= 255,
        decreases n - i,
    {
        let c = s.get_char(i);
        if c < '0' || c > '9' {
            proof {
                assert(d[i - start] == c);
                assert(!all_digits(d));
            }
            return None;
        }
        proof {
            assert(s@.subrange(start as int, i + 1).drop_last() =~= s@.subrange(start as int, i as int));
        }
        let next = value * 10 + (c as u64 - '0' as u64);
        if next > 255 {
            proof {
                let j = (i + 1 - start) as int;
                assert forall|k: int| 0 <= k < j implies '0' <= #[trigger] d[k] <= '9' by {
                    assert(d[k] == s@[start + k]);
                }
                lemma_digits_prefix_bound(d, j);
                assert(s@.subrange(start as int, i + 1) =~= d.subrange(0, j));
                assert(digits_value(d.subrange(0, j)) == next);
            }
            return None;
        }
        value = next;
        i = i + 1;
    }
    proof {
        assert(s@.subrange(start as int, n as int) =~= d);
    }
    Some(value as u8)
}

/// A number written with more digits is no smaller than its prefix.
pub proof fn lemma_digits_prefix_bound(d: Seq<char>, j: int)
    requires
        0 <= j <= d.len(),
        forall|i: int| 0 <= i < j ==> '0' <= #[trigger] d[i] <= '9',
    ensures
        digits_value(d.subrange(0, j)) <= digits_value(d) || !all_digits(d),
    decreases d.len() - j,
{
    if j < d.len() && all_digits(d) {
        lemma_digits_prefix_bound(d, j + 1);
        assert(d.subrange(0, j + 1).drop_last() =~= d.subrange(0, j));
    }
    if j == d.len() {
        assert(d.subrange(0, j) =~= d);
    }
}

} // verus!
