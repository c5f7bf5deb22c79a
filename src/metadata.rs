//! Reading what a built package is from its file name.
use vstd::prelude::*;
use crate::container::{alphanumeric, is_alphanumeric};
use crate::target::{arch_named, BuildArch, BuildTarget};

verus! {

/// Whether the character-class test of the host calls `c` whitespace.
pub uninterp spec fn whitespace(c: char) -> bool;

/// Relies on `char::is_whitespace`: the Unicode White_Space property, which
/// holds of the ASCII space, tab, line feed, form feed and carriage return.
#[verifier::external_body]
fn is_whitespace(c: char) -> (r: bool)
    ensures
        r == whitespace(c),
        (c == ' ' || c == '\t' || c == '\n' || c == '\x0C' || c == '\r') ==> r,
{
    c.is_whitespace()
}

/// A word character: alphanumeric or an underscore.
pub open spec fn word(c: char) -> bool {
    alphanumeric(c) || c == '_'
}

/// A decimal digit.
pub open spec fn digit(c: char) -> bool {
    '0' <= c <= '9'
}

/// A character that may appear in a package name of format `t`.
pub open spec fn name_class(t: BuildTarget, c: char) -> bool {
    match t {
        BuildTarget::Deb | BuildTarget::Rpm => word(c) || c == '.' || c == '-',
        BuildTarget::Pkg => word(c) || c == '.' || c == '+' || c == '@' || c == '-',
        BuildTarget::Gzip => !whitespace(c),
    }
}

/// A character that may appear in an architecture.
pub open spec fn arch_class(c: char) -> bool {
    word(c) || c == '-'
}

/// The end of the run of digits that starts at `p`.
pub open spec fn digits_end(s: Seq<char>, p: int) -> int
    decreases s.len() - p,
{
    if 0 <= p < s.len() && digit(s[p]) {
        digits_end(s, p + 1)
    } else {
        p
    }
}

/// The end of the run of architecture characters that starts at `p`.
pub open spec fn arch_end(s: Seq<char>, p: int) -> int
    decreases s.len() - p,
{
    if 0 <= p < s.len() && arch_class(s[p]) {
        arch_end(s, p + 1)
    } else {
        p
    }
}

/// Where a version `N.N.N` that starts at `p` ends.
pub open spec fn version_end(s: Seq<char>, p: int) -> Option<int> {
    let a = digits_end(s, p);
    let b = digits_end(s, a + 1);
    let c = digits_end(s, b + 1);
    if a > p && a < s.len() && s[a] == '.' && b > a + 1 && b < s.len() && s[b] == '.' && c > b + 1 {
        Some(c)
    } else {
        None
    }
}

/// The positions that split what follows a package name: where the
/// version ends, where the release ends and where the architecture ends.
/// Formats without a release or an architecture repeat the previous end.
pub struct Tail {
    pub ver_end: usize,
    pub rel_end: usize,
    pub arch_end: usize,
}

/// What follows a package name of format `t` that ends at `p`:
/// `-VERSION.ARCH` for Debian, `-VERSION-RELEASE.ARCH` for RPM,
/// `-VERSION-RELEASE-ARCH` for Arch and `-VERSION` for tarballs.
pub open spec fn tail_at(t: BuildTarget, s: Seq<char>, p: int) -> Option<(int, int, int)> {
    if !(0 <= p < s.len() && s[p] == '-') {
        None
    } else {
        match version_end(s, p + 1) {
            None => None,
            Some(v) => match t {
                BuildTarget::Gzip => Some((v, v, v)),
                BuildTarget::Deb => {
                    let a = arch_end(s, v + 1);
                    if v < s.len() && s[v] == '.' && a > v + 1 {
                        Some((v, v, a))
                    } else {
                        None
                    }
                },
                _ => {
                    let r = digits_end(s, v + 1);
                    let sep = if t == BuildTarget::Rpm {
                        '.'
                    } else {
                        '-'
                    };
                    let a = arch_end(s, r + 1);
                    if v < s.len() && s[v] == '-' && r > v + 1 && r < s.len() && s[r] == sep && a
                        > r + 1 {
                        Some((v, r, a))
                    } else {
                        None
                    }
                },
            },
        }
    }
}

/// The characters in `[st, st + len)` all belong to the name class of `t`.
pub open spec fn name_ok(t: BuildTarget, s: Seq<char>, st: int, len: int) -> bool {
    forall|k: int| st <= k < st + len ==> name_class(t, #[trigger] s[k])
}

/// The shortest name length of at least `len` with which a match starts at
/// `st`.
pub open spec fn search_len(t: BuildTarget, s: Seq<char>, st: int, len: int) -> Option<int>
    decreases s.len() + 1 - st - len,
{
    if len < 1 || st + len > s.len() {
        None
    } else if name_ok(t, s, st, len) && tail_at(t, s, st + len).is_some() {
        Some(len)
    } else {
        search_len(t, s, st, len + 1)
    }
}

/// The leftmost start at or after `st` where a match exists, with its
/// shortest name length.
pub open spec fn search_start(t: BuildTarget, s: Seq<char>, st: int) -> Option<(int, int)>
    decreases s.len() - st,
{
    if st < 0 || st >= s.len() {
        None
    } else {
        match search_len(t, s, st, 1) {
            Some(len) => Some((st, len)),
            None => search_start(t, s, st + 1),
        }
    }
}

/// A built package as told by its file name: name, version, release and
/// architecture where the format has them, the format, and when the file
/// was created (nanoseconds since the Unix epoch), if known.
#[derive(Debug, PartialEq)]
pub struct PackageMetadata {
    name: String,
    version: String,
    release: Option<String>,
    arch: Option<BuildArch>,
    package_type: BuildTarget,
    created: Option<u128>,
}

/// The characters of `s` in `[a, b)`.
pub open spec fn cut(s: Seq<char>, a: int, b: int) -> Seq<char> {
    s.subrange(a, b)
}

/// The metadata read from file stem `s` of format `t`: the first match of
/// the format's pattern, with the shortest name at the leftmost position.
pub open spec fn metadata_spec(
    s: Seq<char>,
    t: BuildTarget,
) -> Option<(Seq<char>, Seq<char>, Option<Seq<char>>, Option<BuildArch>)> {
    match search_start(t, s, 0) {
        None => None,
        Some((st, len)) => {
            let (v, r, a) = tail_at(t, s, st + len).unwrap();
            let name = cut(s, st, st + len);
            let version = cut(s, st + len + 1, v);
            match t {
                BuildTarget::Gzip => Some((name, version, None, None)),
                BuildTarget::Deb => Some((name, version, None, arch_named(cut(s, v + 1, a)))),
                _ => Some((name, version, Some(cut(s, v + 1, r)), arch_named(cut(s, r + 1, a)))),
            }
        },
    }
}

impl PackageMetadata {
    /// The package's name.
    pub fn name(&self) -> (r: &str)
        ensures
            r@ == self.spec_name(),
    {
        self.name.as_str()
    }

    /// The package's version.
    pub fn version(&self) -> (r: &str)
        ensures
            r@ == self.spec_version(),
    {
        self.version.as_str()
    }

    /// The package's release, where the format has one.
    pub fn release(&self) -> (r: &Option<String>)
        ensures
            *r == self.spec_release(),
    {
        &self.release
    }

    /// The package's architecture, where the format has one and it is known.
    pub fn arch(&self) -> (r: &Option<BuildArch>)
        ensures
            *r == self.spec_arch(),
    {
        &self.arch
    }

    /// The package's format.
    pub fn package_type(&self) -> (r: BuildTarget)
        ensures
            r == self.spec_package_type(),
    {
        self.package_type
    }

    /// When the package file was created, if known.
    pub fn created(&self) -> (r: Option<u128>)
        ensures
            r == self.spec_created(),
    {
        self.created
    }

    pub closed spec fn spec_name(&self) -> Seq<char> {
        self.name@
    }

    pub closed spec fn spec_version(&self) -> Seq<char> {
        self.version@
    }

    pub closed spec fn spec_release(&self) -> Option<String> {
        self.release
    }

    pub closed spec fn spec_arch(&self) -> Option<BuildArch> {
        self.arch
    }

    pub closed spec fn spec_package_type(&self) -> BuildTarget {
        self.package_type
    }

    pub closed spec fn spec_created(&self) -> Option<u128> {
        self.created
    }

    /// Metadata from its parts.
    pub fn new(
        name: &str,
        version: &str,
        release: Option<&str>,
        arch: Option<BuildArch>,
        package_type: BuildTarget,
        created: Option<u128>,
    ) -> (r: PackageMetadata)
        ensures
            r.spec_name() == name@,
            r.spec_version() == version@,
            r.spec_release().is_some() == release.is_some(),
            release matches Some(x) ==> r.spec_release().unwrap()@ == x@,
            r.spec_arch() == arch,
            r.spec_package_type() == package_type,
            r.spec_created() == created,
    {
        let release = match release {
            Some(x) => Some(x.to_string()),
            None => None,
        };
        PackageMetadata {
            name: name.to_string(),
            version: version.to_string(),
            release,
            arch,
            package_type,
            created,
        }
    }

    /// Reads the metadata of a package of format `package_type` from the
    /// stem of its file name; `None` when the name does not follow the
    /// format's scheme.
    pub fn try_from_str(s: &str, package_type: BuildTarget, created: Option<u128>) -> (r: Option<
        PackageMetadata,
    >)
        requires
            s@.len() < usize::MAX,
        ensures
            r.is_some() == metadata_spec(s@, package_type).is_some(),
            r matches Some(m) ==> {
                let (name, version, release, arch) = metadata_spec(s@, package_type).unwrap();
                &&& m.spec_name() == name
                &&& m.spec_version() == version
                &&& m.spec_release().is_some() == release.is_some()
                &&& release matches Some(x) ==> m.spec_release().unwrap()@ == x
                &&& m.spec_arch() == arch
                &&& m.spec_package_type() == package_type
                &&& m.spec_created() == created
            },
    {
        let chars = to_chars(s);
        match find_match(&chars, package_type) {
            None => None,
            Some((st, len, tail)) => {
                let ghost sv = s@;
                let name = s.substring_char(st, st + len).to_string();
                let version = s.substring_char(st + len + 1, tail.ver_end).to_string();
                let (release, arch) = match package_type {
                    BuildTarget::Gzip => (None, None),
                    BuildTarget::Deb => (
                        None,
                        BuildArch::try_from_str(s.substring_char(tail.ver_end + 1, tail.arch_end)),
                    ),
                    _ => (
                        Some(s.substring_char(tail.ver_end + 1, tail.rel_end).to_string()),
                        BuildArch::try_from_str(s.substring_char(tail.rel_end + 1, tail.arch_end)),
                    ),
                };
                Some(PackageMetadata { name, version, release, arch, package_type, created })
            },
        }
    }
}

/// The position of the dot that starts a file name's extension: the last
/// dot, unless it is the first character.
pub open spec fn extension_dot(name: Seq<char>) -> Option<int> {
    if exists|k: int| 0 < k < name.len() && name[k] == '.' {
        Some(choose|k: int| 0 < k < name.len() && name[k] == '.' && forall|j: int| k < j < name.len() ==> name[j] != '.')
    } else {
        None
    }
}

/// The last dot of `name` past its first character.
fn find_extension_dot(name: &Vec<char>) -> (r: Option<usize>)
    ensures
        match r {
            Some(k) => 0 < k < name@.len() && name@[k as int] == '.' && forall|j: int| k < j < name@.len() ==> name@[j] != '.',
            None => forall|k: int| 0 < k < name@.len() ==> name@[k] != '.',
        },
{
    let mut i = name.len();
    while i > 1
        invariant
            i <= name@.len(),
            forall|j: int| i <= j < name@.len() ==> name@[j] != '.',
        decreases i,
    {
        if name[i - 1] == '.' {
            return Some(i - 1);
        }
        i = i - 1;
    }
    None
}

impl PackageMetadata {
    /// Reads the metadata of a package from its file name: the extension
    /// names the format and the stem follows the format's scheme.
    pub fn try_from_file_name(file_name: &str, created: Option<u128>) -> (r: Option<PackageMetadata>)
        requires
            file_name@.len() < usize::MAX,
        ensures
            r is Some ==> extension_dot(file_name@) is Some,
            r matches Some(m) ==> {
                let k = extension_dot(file_name@).unwrap();
                let stem = file_name@.subrange(0, k);
                let target = crate::target::target_named(file_name@.subrange(k + 1, file_name@.len() as int));
                &&& target == Some(m.spec_package_type())
                &&& metadata_spec(stem, m.spec_package_type()) matches Some((name, version, release, arch))
                &&& m.spec_name() == name
                &&& m.spec_version() == version
                &&& m.spec_release().is_some() == release.is_some()
                &&& (release matches Some(x) ==> m.spec_release().unwrap()@ == x)
                &&& m.spec_arch() == arch
                &&& m.spec_created() == created
            },
            extension_dot(file_name@) matches Some(k) ==> (r is Some <==> (crate::target::target_named(
                file_name@.subrange(k + 1, file_name@.len() as int),
            ) matches Some(t) && metadata_spec(file_name@.subrange(0, k), t) is Some)),
    {
        let chars = to_chars(file_name);
        let k = match find_extension_dot(&chars) {
            Some(k) => k,
            None => {
                return None;
            },
        };
        proof {
            let kk = extension_dot(file_name@).unwrap();
            assert(0 < k < file_name@.len() && file_name@[k as int] == '.');
            assert(kk == k as int) by {
                if kk < k {
                    assert(file_name@[k as int] != '.');
                } else if kk > k {
                    assert(file_name@[kk] != '.');
                }
            }
        }
        let n = chars.len();
        let ext = file_name.substring_char(k + 1, n);
        let stem = file_name.substring_char(0, k);
        match crate::target::BuildTarget::try_from_str(ext) {
            Some(t) => PackageMetadata::try_from_str(stem, t, created),
            None => None,
        }
    }
}

/// The characters of a string.
fn to_chars(s: &str) -> (r: Vec<char>)
    ensures
        r@ == s@,
{
    let n = s.unicode_len();
    let mut v: Vec<char> = Vec::new();
    let mut i: usize = 0;
    while i < n
        invariant
            n == s@.len(),
            i <= n,
            v@ == s@.subrange(0, i as int),
        decreases n - i,
    {
        v.push(s.get_char(i));
        proof {
            assert(v@ =~= s@.subrange(0, i + 1));
        }
        i = i + 1;
    }
    proof {
        assert(s@.subrange(0, n as int) =~= s@);
    }
    v
}

/// Whether `c` may appear in a name of format `t`.
fn in_name_class(t: BuildTarget, c: char) -> (r: bool)
    ensures
        r == name_class(t, c),
{
    match t {
        BuildTarget::Deb | BuildTarget::Rpm => is_alphanumeric(c) || c == '_' || c == '.' || c
            == '-',
        BuildTarget::Pkg => is_alphanumeric(c) || c == '_' || c == '.' || c == '+' || c == '@'
            || c == '-',
        BuildTarget::Gzip => !is_whitespace(c),
    }
}

/// The end of the run of digits starting at `p`.
fn scan_digits(s: &Vec<char>, p: usize) -> (r: usize)
    requires
        p <= s@.len(),
    ensures
        r as int == digits_end(s@, p as int),
        p <= r <= s@.len(),
{
    let mut i = p;
    while i < s.len() && '0' <= s[i] && s[i] <= '9'
        invariant
            p <= i <= s@.len(),
            digits_end(s@, p as int) == digits_end(s@, i as int),
        decreases s@.len() - i,
    {
        i = i + 1;
    }
    i
}

/// The end of the run of architecture characters starting at `p`.
fn scan_arch(s: &Vec<char>, p: usize) -> (r: usize)
    requires
        p <= s@.len(),
    ensures
        r as int == arch_end(s@, p as int),
        p <= r <= s@.len(),
{
    let mut i = p;
    while i < s.len() && (is_alphanumeric(s[i]) || s[i] == '_' || s[i] == '-')
        invariant
            p <= i <= s@.len(),
            arch_end(s@, p as int) == arch_end(s@, i as int),
        decreases s@.len() - i,
    {
        i = i + 1;
    }
    i
}

/// Where a version starting at `p` ends.
fn scan_version(s: &Vec<char>, p: usize) -> (r: Option<usize>)
    requires
        p <= s@.len(),
    ensures
        match r {
            Some(e) => version_end(s@, p as int) == Some(e as int) && e <= s@.len(),
            None => version_end(s@, p as int).is_none(),
        },
{
    let n = s.len();
    let a = scan_digits(s, p);
    if !(a > p && a < n && s[a] == '.') {
        return None;
    }
    let b = scan_digits(s, a + 1);
    if !(b > a + 1 && b < n && s[b] == '.') {
        return None;
    }
    let c = scan_digits(s, b + 1);
    if c > b + 1 {
        Some(c)
    } else {
        None
    }
}

/// What follows a name of format `t` ending at `p`.
fn scan_tail(t: BuildTarget, s: &Vec<char>, p: usize) -> (r: Option<Tail>)
    requires
        p <= s@.len(),
    ensures
        match r {
            Some(x) => tail_at(t, s@, p as int) == Some(
                (x.ver_end as int, x.rel_end as int, x.arch_end as int),
            ) && x.ver_end <= x.rel_end <= x.arch_end <= s@.len() && p < x.ver_end,
            None => tail_at(t, s@, p as int).is_none(),
        },
{
    let n = s.len();
    if !(p < n && s[p] == '-') {
        return None;
    }
    let v = match scan_version(s, p + 1) {
        Some(v) => v,
        None => return None,
    };
    proof {
        assert(digits_end(s@, (p + 1) as int) > (p + 1) as int);
    }
    match t {
        BuildTarget::Gzip => Some(Tail { ver_end: v, rel_end: v, arch_end: v }),
        BuildTarget::Deb => {
            if !(v < n && s[v] == '.') {
                return None;
            }
            let a = scan_arch(s, v + 1);
            if a > v + 1 {
                Some(Tail { ver_end: v, rel_end: v, arch_end: a })
            } else {
                None
            }
        },
        _ => {
            if !(v < n && s[v] == '-') {
                return None;
            }
            let r = scan_digits(s, v + 1);
            let sep = if matches!(t, BuildTarget::Rpm) {
                '.'
            } else {
                '-'
            };
            if !(r > v + 1 && r < n && s[r] == sep) {
                return None;
            }
            let a = scan_arch(s, r + 1);
            if a > r + 1 {
                Some(Tail { ver_end: v, rel_end: r, arch_end: a })
            } else {
                None
            }
        },
    }
}

/// Skipping lengths whose name holds a character outside the class.
proof fn lemma_search_len_skip(t: BuildTarget, s: Seq<char>, st: int, len: int, bad: int)
    requires
        st <= bad < st + len,
        0 <= bad < s.len(),
        !name_class(t, s[bad]),
        len >= 1,
    ensures
        search_len(t, s, st, len) == None::<int>,
    decreases s.len() + 1 - st - len,
{
    if !(len < 1 || st + len > s.len()) {
        assert(!name_ok(t, s, st, len));
        lemma_search_len_skip(t, s, st, len + 1, bad);
    }
}

/// Finds the leftmost match with the shortest name: its start, its name
/// length and what follows the name.
fn find_match(s: &Vec<char>, t: BuildTarget) -> (r: Option<(usize, usize, Tail)>)
    requires
        s@.len() < usize::MAX,
    ensures
        match r {
            Some((st, len, x)) => search_start(t, s@, 0) == Some((st as int, len as int)) && tail_at(
                t,
                s@,
                st + len,
            ) == Some((x.ver_end as int, x.rel_end as int, x.arch_end as int)) && st + len
                < x.ver_end && x.ver_end <= x.rel_end <= x.arch_end <= s@.len(),
            None => search_start(t, s@, 0).is_none(),
        },
{
    let n = s.len();
    let mut st: usize = 0;
    while st < n
        invariant
            n == s@.len(),
            n < usize::MAX,
            st <= n,
            search_start(t, s@, 0) == search_start(t, s@, st as int),
        decreases n - st,
    {
        let mut len: usize = 1;
        let mut stop = false;
        while st + len <= n && !stop
            invariant
                n == s@.len(),
                n < usize::MAX,
                st < n,
                1 <= len,
                st + len <= n + 1,
                search_start(t, s@, 0) == search_start(t, s@, st as int),
                !stop ==> name_ok(t, s@, st as int, (len - 1) as int),
                stop ==> search_len(t, s@, st as int, len as int) == None::<int>,
                search_len(t, s@, st as int, 1) == search_len(t, s@, st as int, len as int),
            decreases n + 1 - st - len + (if stop { 0int } else { 1int }),
        {
            let c = s[st + len - 1];
            if !in_name_class(t, c) {
                proof {
                    lemma_search_len_skip(t, s@, st as int, len as int, (st + len - 1) as int);
                }
                stop = true;
            } else {
                proof {
                    assert(name_ok(t, s@, st as int, len as int));
                }
                match scan_tail(t, s, st + len) {
                    Some(x) => {
                        return Some((st, len, x));
                    },
                    None => {},
                }
                len = len + 1;
            }
        }
        proof {
            if st + len > n {
                assert(search_len(t, s@, st as int, len as int) == None::<int>);
            }
        }
        st = st + 1;
    }
    None
}

} // verus!
