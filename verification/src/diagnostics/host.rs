//! Host identity (`uname`) and the number of installed packages.

use vstd::prelude::*;
use crate::text::{chars_eq, chars_of, has_prefix, lines, split_lines, starts_with};

verus! {

/// What `uname` says of the system.
#[derive(Debug)]
pub struct Utsname {
    pub sysname: String,
    pub nodename: String,
    pub release: String,
    pub version: String,
    pub machine: String,
}

/// The host's identity and package count.
#[derive(Debug)]
pub struct HostReport {
    pub hostname: String,
    pub os_type: String,
    pub kernel_release: String,
    pub kernel_version: String,
    pub arch: String,
    pub packages: Option<u64>,
    pub package_manager: Option<String>,
}

/// What was found where a package manager keeps its database.
#[derive(Debug)]
pub enum Listing<T> {
    /// Nothing is there.
    Absent,
    /// It is there but could not be read.
    Unreadable,
    /// It is there, with these contents.
    Read(T),
}

/// What the package databases hold, as far as the count needs it.
#[derive(Debug)]
pub struct PackageProbe {
    /// pacman: the number of entries of `/var/lib/pacman/local`.
    pub pacman: Listing<u64>,
    /// dpkg: the file names in `/var/lib/dpkg/info`.
    pub dpkg: Listing<Vec<String>>,
    /// apk: the text of `/lib/apk/db/installed`.
    pub apk: Listing<String>,
}

/// The position of the last `'.'` before `j` in `t`.
pub open spec fn last_dot(t: Seq<char>, j: int) -> Option<int>
    decreases j,
{
    if j <= 0 || j > t.len() {
        None
    } else if t[j - 1] == '.' {
        Some(j - 1)
    } else {
        last_dot(t, j - 1)
    }
}

/// `Path::extension` of a file name: what follows its last `'.'`, unless
/// there is none, the name begins with its only dot, or it is `..`.
pub open spec fn extension(name: Seq<char>) -> Option<Seq<char>> {
    if name == seq!['.', '.'] {
        None
    } else {
        match last_dot(name, name.len() as int) {
            None => None,
            Some(p) => if p == 0 {
                None
            } else {
                Some(name.subrange(p + 1, name.len() as int))
            },
        }
    }
}

/// A dpkg file list: a name with the extension `list`.
pub open spec fn is_file_list(name: Seq<char>) -> bool {
    extension(name) == Some(seq!['l', 'i', 's', 't'])
}

/// The number of file lists among `names`.
pub open spec fn file_list_count(names: Seq<Seq<char>>) -> nat
    decreases names.len(),
{
    if names.len() == 0 {
        0
    } else {
        file_list_count(names.drop_last()) + if is_file_list(names.last()) {
            1nat
        } else {
            0nat
        }
    }
}

/// The number of lines among `ls` that begin with `P:`, which is how an
/// apk database starts a package.
pub open spec fn package_line_count(ls: Seq<Seq<char>>) -> nat
    decreases ls.len(),
{
    if ls.len() == 0 {
        0
    } else {
        package_line_count(ls.drop_last()) + if has_prefix(ls.last(), seq!['P', ':']) {
            1nat
        } else {
            0nat
        }
    }
}

/// The count that a listing gives, if it was read.
pub open spec fn listing_count<T>(l: Listing<T>, count: spec_fn(T) -> nat) -> Option<nat> {
    match l {
        Listing::Absent => None,
        Listing::Unreadable => None,
        Listing::Read(x) => Some(count(x)),
    }
}

/// `r` is the package count that `p` gives: the first package manager whose
/// database is there, in the order pacman, dpkg, apk, with its count
/// (`None` where the database could not be read); neither where none is
/// there.
pub open spec fn packages_of(p: PackageProbe, r: (Option<u64>, Option<String>)) -> bool {
    let names = |v: Vec<String>| file_list_count(v@.map_values(|s: String| s@));
    let pkgs = |s: String| package_line_count(lines(s@));
    if !(p.pacman is Absent) {
        &&& r.1 matches Some(m) && m@ == "pacman"@
        &&& r.0 == match p.pacman {
            Listing::Read(n) => Some(n),
            _ => None::<u64>,
        }
    } else if !(p.dpkg is Absent) {
        &&& r.1 matches Some(m) && m@ == "dpkg"@
        &&& match listing_count(p.dpkg, names) {
            Some(n) => r.0 == Some(n as u64),
            None => r.0 is None,
        }
    } else if !(p.apk is Absent) {
        &&& r.1 matches Some(m) && m@ == "apk"@
        &&& match listing_count(p.apk, pkgs) {
            Some(n) => r.0 == Some(n as u64),
            None => r.0 is None,
        }
    } else {
        r.0 is None && r.1 is None
    }
}

fn file_list(name: &[char]) -> (b: bool)
    ensures
        b == is_file_list(name@),
{
    let n = name.len();
    let dots = vec!['.', '.'];
    let list = vec!['l', 'i', 's', 't'];
    assert(dots@ =~= seq!['.', '.']);
    assert(list@ =~= seq!['l', 'i', 's', 't']);
    if chars_eq(name, dots.as_slice()) {
        return false;
    }
    let mut j: usize = n;
    while j > 0 && name[j - 1] != '.'
        invariant
            n == name@.len(),
            j <= n,
            last_dot(name@, n as int) == last_dot(name@, j as int),
        decreases j,
    {
        j = j - 1;
    }
    if j <= 1 {
        return false;
    }
    chars_eq(vstd::slice::slice_subrange(name, j, n), list.as_slice())
}

fn count_file_lists(names: &Vec<String>) -> (res: u64)
    ensures
        res == file_list_count(names@.map_values(|s: String| s@)),
{
    let ghost v = names@.map_values(|s: String| s@);
    let mut count: u64 = 0;
    let mut i: usize = 0;
    while i < names.len()
        invariant
            v == names@.map_values(|s: String| s@),
            i <= names@.len(),
            count == file_list_count(v.subrange(0, i as int)),
            count <= i,
        decreases names@.len() - i,
    {
        let name = chars_of(names[i].as_str());
        assert(v.subrange(0, i + 1).drop_last() =~= v.subrange(0, i as int));
        assert(v[i as int] == names@[i as int]@);
        if file_list(name.as_slice()) {
            count = count + 1;
        }
        i = i + 1;
    }
    assert(v.subrange(0, names@.len() as int) =~= v);
    count
}

fn count_package_lines(content: &str) -> (res: u64)
    ensures
        res == package_line_count(lines(content@)),
{
    let chars = chars_of(content);
    let ls = split_lines(chars.as_slice());
    let ghost l = lines(content@);
    let p = vec!['P', ':'];
    assert(p@ =~= seq!['P', ':']);
    let mut count: u64 = 0;
    let mut i: usize = 0;
    while i < ls.len()
        invariant
            ls@.len() == l.len(),
            l == lines(content@),
            forall|j: int| 0 <= j < l.len() ==> (#[trigger] ls@[j])@ == l[j],
            p@ == seq!['P', ':'],
            i <= l.len(),
            count == package_line_count(l.subrange(0, i as int)),
            count <= i,
        decreases l.len() - i,
    {
        assert(l.subrange(0, i + 1).drop_last() =~= l.subrange(0, i as int));
        if starts_with(ls[i], p.as_slice()) {
            count = count + 1;
        }
        i = i + 1;
    }
    assert(l.subrange(0, l.len() as int) =~= l);
    count
}

/// The number of installed packages and the package manager that counts
/// them: see [`packages_of`].
pub fn count_packages(probe: &PackageProbe) -> (res: (Option<u64>, Option<String>))
    ensures
        packages_of(*probe, res),
{
    match &probe.pacman {
        Listing::Read(n) => return (Some(*n), Some("pacman".to_owned())),
        Listing::Unreadable => return (None, Some("pacman".to_owned())),
        Listing::Absent => {},
    }
    match &probe.dpkg {
        Listing::Read(names) => return (Some(count_file_lists(names)), Some("dpkg".to_owned())),
        Listing::Unreadable => return (None, Some("dpkg".to_owned())),
        Listing::Absent => {},
    }
    match &probe.apk {
        Listing::Read(content) => return (
            Some(count_package_lines(content.as_str())),
            Some("apk".to_owned()),
        ),
        Listing::Unreadable => return (None, Some("apk".to_owned())),
        Listing::Absent => {},
    }
    (None, None)
}

/// The host report: the `uname` fields, and the package count of `probe`.
pub fn collect(uts: Utsname, probe: &PackageProbe) -> (res: HostReport)
    ensures
        res.hostname == uts.nodename,
        res.os_type == uts.sysname,
        res.kernel_release == uts.release,
        res.kernel_version == uts.version,
        res.arch == uts.machine,
        packages_of(*probe, (res.packages, res.package_manager)),
{
    let (packages, package_manager) = count_packages(probe);
    HostReport {
        hostname: uts.nodename,
        os_type: uts.sysname,
        kernel_release: uts.release,
        kernel_version: uts.version,
        arch: uts.machine,
        packages,
        package_manager,
    }
}

} // verus!
