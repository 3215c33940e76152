//! Java runtimes: reading versions, keeping a list of distinct installations,
//! and planning a download of a runtime.
use vstd::prelude::*;
use vstd::string::*;
use crate::paths::{path_join, join_path, path_components, components, components_prefix};
use crate::text::{
    views, split_where, lemma_split_nonempty, parse_u32_spec, parse_u32_chars, chars_of, chars_eq,
    text_eq, text_from, concat2, concat3, push_text, decimal, decimal_text,
};

verus! {

/// A Java installation found on this machine.
#[derive(Debug, Clone)]
pub struct JavaInfo {
    /// The `java` executable.
    pub path: String,
    /// The major version, such as 8 or 17.
    pub major_version: u32,
    /// The full version text, such as `17.0.8`.
    pub full_version: String,
}

impl View for JavaInfo {
    type V = (Seq<char>, u32, Seq<char>);

    open spec fn view(&self) -> (Seq<char>, u32, Seq<char>) {
        (self.path@, self.major_version, self.full_version@)
    }
}

impl JavaInfo {
    /// A copy of this installation record.
    pub fn clone_info(&self) -> (r: JavaInfo)
        ensures
            r == *self,
    {
        JavaInfo {
            path: self.path.clone(),
            major_version: self.major_version,
            full_version: self.full_version.clone(),
        }
    }
}

/// The separators between the numbers of a Java version text.
pub open spec fn version_seps() -> Seq<char> {
    seq!['.', '_']
}

/// The major version in a Java version text: `1.8.0_382` gives 8 and `17.0.8`
/// gives 17. Texts of Java 8 and older start with `1.`, later ones with the
/// major version itself.
pub open spec fn major_version_of(s: Seq<char>) -> Option<u32> {
    let parts = split_where(s, version_seps());
    if parts[0] == seq!['1'] && parts.len() > 1 {
        parse_u32_spec(parts[1])
    } else {
        parse_u32_spec(parts[0])
    }
}

/// Reads the major version from a Java version text.
pub fn parse_major_version(version_str: &str) -> (r: Option<u32>)
    ensures
        r == major_version_of(version_str@),
{
    let cs = chars_of(version_str);
    let seps: Vec<char> = vec!['.', '_'];
    assert(seps@ =~= version_seps());
    let parts = crate::paths::split_chars(&cs, &seps);
    proof {
        lemma_split_nonempty(version_str@, version_seps());
    }
    assert(crate::text::views(parts@)[0] == parts@[0]@);
    let one: Vec<char> = vec!['1'];
    assert(one@ =~= seq!['1']);
    assert(crate::text::views(parts@).len() == parts@.len());
    if chars_eq(&parts[0], &one) && parts.len() > 1 {
        assert(crate::text::views(parts@)[1] == parts@[1]@);
        parse_u32_chars(&parts[1])
    } else {
        parse_u32_chars(&parts[0])
    }
}

/// The text that opens a version number in the output of `java -version`.
pub open spec fn version_marker() -> Seq<char> {
    seq!['v', 'e', 'r', 's', 'i', 'o', 'n', ' ', '"']
}

/// The position of the first `"` in `t` at or after `k`.
pub open spec fn first_quote_from(t: Seq<char>, k: int) -> Option<int>
    decreases t.len() - k,
{
    if k < 0 || k >= t.len() {
        None
    } else if t[k] == '"' {
        Some(k)
    } else {
        first_quote_from(t, k + 1)
    }
}

/// Whether the pattern `version "([^"]+)"` matches `t` starting at `i`.
pub open spec fn version_match_at(t: Seq<char>, i: int) -> bool {
    &&& 0 <= i
    &&& i + 9 <= t.len()
    &&& t.subrange(i, i + 9) == version_marker()
    &&& first_quote_from(t, i + 9) matches Some(q) && q > i + 9
}

/// What the group of the leftmost match of `version "([^"]+)"` in `t` holds,
/// searching from position `i` on.
pub open spec fn version_capture_from(t: Seq<char>, i: int) -> Option<Seq<char>>
    decreases t.len() - i,
{
    if i < 0 || i + 9 > t.len() {
        None
    } else if version_match_at(t, i) {
        Some(t.subrange(i + 9, first_quote_from(t, i + 9)->0))
    } else {
        version_capture_from(t, i + 1)
    }
}

/// What the group of the leftmost match of `version "([^"]+)"` in `t` holds:
/// the first run of one or more characters other than `"` that stands between
/// `version "` and a closing `"`.
pub open spec fn version_capture(t: Seq<char>) -> Option<Seq<char>> {
    version_capture_from(t, 0)
}

/// The position of the first `"` in `t` at or after `k`.
fn first_quote(t: &Vec<char>, k: usize) -> (r: Option<usize>)
    ensures
        r matches Some(q) ==> first_quote_from(t@, k as int) == Some(q as int) && k <= q < t@.len(),
        r is None ==> first_quote_from(t@, k as int) is None,
{
    let mut j: usize = k;
    if j >= t.len() {
        return None;
    }
    while j < t.len()
        invariant
            k <= j,
            first_quote_from(t@, k as int) == first_quote_from(t@, j as int),
        decreases t.len() - j,
    {
        if t[j] == '"' {
            return Some(j);
        }
        j = j + 1;
    }
    None
}

/// Whether `version "` stands in `t` at position `i`.
fn marker_at(t: &Vec<char>, i: usize) -> (r: bool)
    ensures
        r == (i + 9 <= t@.len() && t@.subrange(i as int, i + 9) == version_marker()),
{
    if i > t.len() || t.len() - i < 9 {
        return false;
    }
    let m: Vec<char> = vec!['v', 'e', 'r', 's', 'i', 'o', 'n', ' ', '"'];
    assert(m@ =~= version_marker());
    let mut k: usize = 0;
    while k < 9
        invariant
            i + 9 <= t.len(),
            m@ == version_marker(),
            k <= 9,
            forall|x: int| 0 <= x < k ==> t@[i + x] == m@[x],
        decreases 9 - k,
    {
        if t[i + k] != m[k] {
            assert(t@.subrange(i as int, i + 9)[k as int] != m@[k as int]);
            return false;
        }
        k = k + 1;
    }
    assert(t@.subrange(i as int, i + 9) =~= m@);
    true
}

/// The text of the group of the leftmost match of `version "([^"]+)"` in
/// `text`: the version that `java -version` reports.
pub fn capture_java_version(text: &str) -> (r: Option<String>)
    ensures
        r matches Some(c) ==> version_capture(text@) == Some(c@),
        r is None ==> version_capture(text@) is None,
{
    let t = chars_of(text);
    let mut i: usize = 0;
    while i < t.len() && t.len() - i >= 9
        invariant
            t@ == text@,
            version_capture(text@) == version_capture_from(t@, i as int),
        decreases t.len() - i,
    {
        if marker_at(&t, i) {
            match first_quote(&t, i + 9) {
                Some(q) => {
                    if q > i + 9 {
                        assert(version_match_at(t@, i as int));
                        return Some(text_from(text.substring_char(i + 9, q)));
                    }
                },
                None => {},
            }
        }
        assert(!version_match_at(t@, i as int));
        i = i + 1;
    }
    None
}

/// What `java -version` reports about the executable at `path`, read from its
/// error output: the full version text and its major version.
pub open spec fn java_info_of(path: Seq<char>, stderr: Seq<char>) -> Option<(Seq<char>, u32, Seq<char>)> {
    match version_capture(stderr) {
        Some(full) => match major_version_of(full) {
            Some(major) => Some((path, major, full)),
            None => None,
        },
        None => None,
    }
}

/// Reads the Java version from the error output of `java -version` run on the
/// executable at `path`.
pub fn java_info_from_output(path: &str, stderr: &str) -> (r: Option<JavaInfo>)
    ensures
        r matches Some(info) ==> java_info_of(path@, stderr@) == Some(info@),
        r is None ==> java_info_of(path@, stderr@) is None,
{
    match capture_java_version(stderr) {
        Some(full_version) => match parse_major_version(full_version.as_str()) {
            Some(major_version) => Some(
                JavaInfo { path: text_from(path), major_version, full_version },
            ),
            None => None,
        },
        None => None,
    }
}

/// Whether two installations count as the same: executables at the same path
/// (compared component by component, as `PathBuf` compares), or the same
/// major and full version.
pub open spec fn same_java(a: (Seq<char>, u32, Seq<char>), b: (Seq<char>, u32, Seq<char>)) -> bool {
    path_components(a.0) == path_components(b.0) || (a.1 == b.1 && a.2 == b.2)
}

/// Whether some installation in `s` counts as the same as `x`.
pub open spec fn has_same_java(s: Seq<(Seq<char>, u32, Seq<char>)>, x: (Seq<char>, u32, Seq<char>)) -> bool {
    exists|i: int| 0 <= i < s.len() && same_java(#[trigger] s[i], x)
}

/// The installations in `s`, each one dropped when an earlier kept one counts
/// as the same.
pub open spec fn distinct_javas(s: Seq<(Seq<char>, u32, Seq<char>)>) -> Seq<(Seq<char>, u32, Seq<char>)>
    decreases s.len(),
{
    if s.len() == 0 {
        Seq::empty()
    } else {
        let d = distinct_javas(s.drop_last());
        if has_same_java(d, s.last()) {
            d
        } else {
            d.push(s.last())
        }
    }
}

/// The views of a list of installations.
pub open spec fn java_views(v: Seq<JavaInfo>) -> Seq<(Seq<char>, u32, Seq<char>)> {
    Seq::new(v.len(), |i: int| v[i]@)
}

/// Whether two installations count as the same.
pub fn is_same_java(a: &JavaInfo, b: &JavaInfo) -> (r: bool)
    ensures
        r == same_java(a@, b@),
{
    same_path(a.path.as_str(), b.path.as_str()) || (a.major_version == b.major_version && text_eq(
        a.full_version.as_str(),
        b.full_version.as_str(),
    ))
}

/// Whether two paths have the same components, as `PathBuf` equality decides.
pub fn same_path(a: &str, b: &str) -> (r: bool)
    ensures
        r == (path_components(a@) == path_components(b@)),
{
    let ca = components(a);
    let cb = components(b);
    let ghost va = views(ca@);
    let ghost vb = views(cb@);
    assert(va.len() == ca@.len() && vb.len() == cb@.len());
    if ca.len() != cb.len() {
        assert(va.len() != vb.len());
        return false;
    }
    let r = components_prefix(&ca, &cb);
    assert(va.subrange(0, vb.len() as int) =~= va);
    r
}

/// Adds `new_java` to `javas` unless an installation already there counts as
/// the same.
pub fn add_if_new(javas: &mut Vec<JavaInfo>, new_java: JavaInfo)
    ensures
        java_views(final(javas)@) == if has_same_java(java_views(old(javas)@), new_java@) {
            java_views(old(javas)@)
        } else {
            java_views(old(javas)@).push(new_java@)
        },
{
    let ghost before = java_views(javas@);
    let mut i: usize = 0;
    while i < javas.len()
        invariant
            i <= javas@.len(),
            before == java_views(javas@),
            forall|j: int| 0 <= j < i ==> !same_java(#[trigger] before[j], new_java@),
        decreases javas.len() - i,
    {
        if is_same_java(&javas[i], &new_java) {
            assert(same_java(before[i as int], new_java@));
            return;
        }
        i = i + 1;
    }
    assert(!has_same_java(before, new_java@));
    javas.push(new_java);
    assert(java_views(javas@) =~= before.push(new_java@));
}

/// The candidates in order, each one dropped when an earlier kept one counts as
/// the same.
pub fn merge_java_candidates(candidates: Vec<JavaInfo>) -> (r: Vec<JavaInfo>)
    ensures
        java_views(r@) == distinct_javas(java_views(candidates@)),
{
    let mut r: Vec<JavaInfo> = Vec::new();
    let mut cands = candidates;
    let ghost all = java_views(cands@);
    let n = cands.len();
    let mut taken: Vec<JavaInfo> = Vec::new();
    // Reverse so that popping yields the candidates in their original order.
    while cands.len() > 0
        invariant
            cands@.len() + taken@.len() == n,
            all.len() == n,
            forall|j: int| 0 <= j < cands@.len() ==> #[trigger] cands@[j]@ == all[j],
            forall|j: int| 0 <= j < taken@.len() ==> #[trigger] taken@[j]@ == all[n - 1 - j],
        decreases cands.len(),
    {
        let x = cands.pop().unwrap();
        taken.push(x);
    }
    let mut k: usize = 0;
    assert(all.subrange(0, 0) =~= Seq::<(Seq<char>, u32, Seq<char>)>::empty());
    while taken.len() > 0
        invariant
            taken@.len() + k == n,
            all.len() == n,
            forall|j: int| 0 <= j < taken@.len() ==> #[trigger] taken@[j]@ == all[n - 1 - j],
            java_views(r@) == distinct_javas(all.subrange(0, k as int)),
        decreases taken.len(),
    {
        let x = taken.pop().unwrap();
        assert(x@ == all[k as int]);
        let ghost sub = all.subrange(0, k + 1);
        assert(sub.drop_last() =~= all.subrange(0, k as int));
        assert(sub.last() == x@);
        add_if_new(&mut r, x);
        k = k + 1;
    }
    assert(all.subrange(0, n as int) =~= all);
    r
}

/// The position of the first installation of `javas` with the given major
/// version.
pub fn find_java_for(javas: &Vec<JavaInfo>, major: u32) -> (r: Option<usize>)
    ensures
        r matches Some(i) ==> i < javas@.len() && javas@[i as int].major_version == major
            && forall|j: int| 0 <= j < i ==> #[trigger] javas@[j].major_version != major,
        r is None ==> forall|j: int| 0 <= j < javas@.len() ==> #[trigger] javas@[j].major_version != major,
{
    let mut i: usize = 0;
    while i < javas.len()
        invariant
            i <= javas@.len(),
            forall|j: int| 0 <= j < i ==> #[trigger] javas@[j].major_version != major,
        decreases javas.len() - i,
    {
        if javas[i].major_version == major {
            return Some(i);
        }
        i = i + 1;
    }
    None
}

/// The `java` executable inside a Java home or runtime directory.
pub open spec fn java_bin_of(dir: Seq<char>) -> Seq<char> {
    path_join(dir, "bin/java"@)
}

/// The `java` executable inside a Java home or runtime directory.
pub fn java_bin_in(dir: &str) -> (r: String)
    ensures
        r@ == java_bin_of(dir@),
{
    join_path(dir, "bin/java")
}

/// The directories whose entries are searched for Java runtimes, in order: the
/// launcher's runtimes directory, then the given extra directory, then the
/// system's `/usr/lib/jvm`.
pub open spec fn java_scan_dirs_of(runtimes_dir: Seq<char>, extra: Option<Seq<char>>) -> Seq<Seq<char>> {
    match extra {
        Some(e) => seq![runtimes_dir, e, "/usr/lib/jvm"@],
        None => seq![runtimes_dir, "/usr/lib/jvm"@],
    }
}

/// The directories whose entries are searched for Java runtimes, in order.
pub fn java_scan_dirs(runtimes_dir: &str, extra: Option<&str>) -> (r: Vec<String>)
    ensures
        crate::text::texts(r@) == java_scan_dirs_of(runtimes_dir@, match extra {
            Some(e) => Some(e@),
            None => None,
        }),
{
    let mut r: Vec<String> = Vec::new();
    r.push(text_from(runtimes_dir));
    match extra {
        Some(e) => r.push(text_from(e)),
        None => {},
    }
    r.push(text_from("/usr/lib/jvm"));
    assert(crate::text::texts(r@) =~= java_scan_dirs_of(runtimes_dir@, match extra {
        Some(e) => Some(e@),
        None => None,
    }));
    r
}

/// How a Java runtime is fetched and unpacked.
#[derive(Debug, Clone)]
pub struct JavaDownloadPlan {
    /// The Adoptium address of the archive.
    pub url: String,
    /// The directory the runtime is unpacked into.
    pub target_dir: String,
    /// Where the archive is stored while it is unpacked.
    pub archive_path: String,
    /// Whether the archive is a zip file (else a gzip-compressed tar file).
    pub is_zip: bool,
}

/// The operating system name that the Adoptium API uses for a Rust OS name.
pub open spec fn adoptium_os_of(os: Seq<char>) -> Seq<char> {
    if os == "windows"@ {
        "windows"@
    } else if os == "macos"@ {
        "mac"@
    } else {
        "linux"@
    }
}

/// The architecture name that the Adoptium API uses for a Rust architecture name.
pub open spec fn adoptium_arch_of(arch: Seq<char>) -> Seq<char> {
    if arch == "aarch64"@ {
        "aarch64"@
    } else {
        "x64"@
    }
}

/// The Adoptium address of the latest JRE archive for a major version.
pub open spec fn adoptium_url_of(major: u32, os: Seq<char>, arch: Seq<char>) -> Seq<char> {
    "https://api.adoptium.net/v3/binary/latest/"@ + decimal(major as nat) + "/ga/"@
        + adoptium_os_of(os) + "/"@ + adoptium_arch_of(arch) + "/jre/hotspot/normal/eclipse"@
}

/// The plan to fetch a JRE of the given major version for the given OS and
/// architecture into `runtimes_dir`.
pub open spec fn java_download_plan_of(
    major: u32,
    os: Seq<char>,
    arch: Seq<char>,
    runtimes_dir: Seq<char>,
) -> (Seq<char>, Seq<char>, Seq<char>, bool) {
    let zip = adoptium_os_of(os) == "windows"@;
    let ext = if zip { "zip"@ } else { "tar.gz"@ };
    (
        adoptium_url_of(major, os, arch),
        path_join(runtimes_dir, "jre-"@ + decimal(major as nat)),
        path_join(runtimes_dir, "temp_java_"@ + decimal(major as nat) + "."@ + ext),
        zip,
    )
}

/// The operating system name that the Adoptium API uses.
pub fn adoptium_os(os: &str) -> (r: &'static str)
    ensures
        r@ == adoptium_os_of(os@),
{
    if text_eq(os, "windows") {
        "windows"
    } else if text_eq(os, "macos") {
        "mac"
    } else {
        "linux"
    }
}

/// The architecture name that the Adoptium API uses.
pub fn adoptium_arch(arch: &str) -> (r: &'static str)
    ensures
        r@ == adoptium_arch_of(arch@),
{
    if text_eq(arch, "aarch64") {
        "aarch64"
    } else {
        "x64"
    }
}

/// Plans the download of a JRE of the given major version for the given OS and
/// architecture (as Rust names them) into `runtimes_dir`.
pub fn plan_java_download(major: u32, os: &str, arch: &str, runtimes_dir: &str) -> (r: JavaDownloadPlan)
    ensures
        (r.url@, r.target_dir@, r.archive_path@, r.is_zip) == java_download_plan_of(
            major,
            os@,
            arch@,
            runtimes_dir@,
        ),
{
    let num = decimal_text(major as u64);
    let os_name = adoptium_os(os);
    let arch_name = adoptium_arch(arch);
    let mut url = concat3("https://api.adoptium.net/v3/binary/latest/", num.as_str(), "/ga/");
    push_text(&mut url, os_name);
    push_text(&mut url, "/");
    push_text(&mut url, arch_name);
    push_text(&mut url, "/jre/hotspot/normal/eclipse");
    let is_zip = text_eq(os_name, "windows");
    let ext = if is_zip { "zip" } else { "tar.gz" };
    let dir_name = concat2("jre-", num.as_str());
    let target_dir = join_path(runtimes_dir, dir_name.as_str());
    let mut archive_name = concat3("temp_java_", num.as_str(), ".");
    push_text(&mut archive_name, ext);
    let archive_path = join_path(runtimes_dir, archive_name.as_str());
    assert(url@ =~= adoptium_url_of(major, os@, arch@));
    JavaDownloadPlan { url, target_dir, archive_path, is_zip }
}

/// No two installations in a merged list count as the same, and every
/// candidate is represented by one that counts as the same.
pub proof fn lemma_distinct_javas(s: Seq<(Seq<char>, u32, Seq<char>)>)
    ensures
        forall|i: int, j: int|
            0 <= i < j < distinct_javas(s).len() ==> !same_java(
                #[trigger] distinct_javas(s)[i],
                #[trigger] distinct_javas(s)[j],
            ),
        forall|k: int| 0 <= k < s.len() ==> has_same_java(distinct_javas(s), #[trigger] s[k]),
        forall|i: int|
            0 <= i < distinct_javas(s).len() ==> s.contains(#[trigger] distinct_javas(s)[i]),
    decreases s.len(),
{
    if s.len() > 0 {
        let p = s.drop_last();
        lemma_distinct_javas(p);
        let d = distinct_javas(p);
        let x = s.last();
        assert forall|i: int, j: int|
            0 <= i < j < distinct_javas(s).len() implies !same_java(
                #[trigger] distinct_javas(s)[i],
                #[trigger] distinct_javas(s)[j],
            ) by {
            if j < d.len() {
                assert(distinct_javas(s)[i] == d[i] && distinct_javas(s)[j] == d[j]);
            } else {
                assert(!has_same_java(d, x));
                assert(distinct_javas(s)[j] == x);
                assert(distinct_javas(s)[i] == d[i]);
                assert(!same_java(d[i], x));
            }
        }
        assert forall|k: int| 0 <= k < s.len() implies has_same_java(distinct_javas(s), #[trigger] s[k]) by {
            if k < p.len() {
                assert(p[k] == s[k]);
                assert(has_same_java(d, p[k]));
                let w = choose|w: int| 0 <= w < d.len() && same_java(#[trigger] d[w], p[k]);
                if !has_same_java(d, x) {
                    assert(distinct_javas(s)[w] == d[w]);
                }
            } else {
                if has_same_java(d, x) {
                } else {
                    assert(distinct_javas(s)[d.len() as int] == x);
                    assert(same_java(x, x));
                }
            }
        }
        assert forall|i: int|
            0 <= i < distinct_javas(s).len() implies s.contains(#[trigger] distinct_javas(s)[i]) by {
            if i < d.len() {
                assert(p.contains(d[i]));
                let w = choose|w: int| 0 <= w < p.len() && p[w] == d[i];
                assert(s[w] == p[w]);
            } else {
                assert(s[s.len() - 1] == x);
            }
        }
    }
}

/// The merged list keeps every kept installation where it was: merging a
/// merged list again changes nothing.
pub proof fn lemma_distinct_javas_idempotent(s: Seq<(Seq<char>, u32, Seq<char>)>)
    ensures
        distinct_javas(distinct_javas(s)) == distinct_javas(s),
{
    lemma_distinct_javas(s);
    lemma_distinct_prefix_fixed(distinct_javas(s));
}

/// A list with no two installations that count as the same is its own merge.
pub proof fn lemma_distinct_prefix_fixed(d: Seq<(Seq<char>, u32, Seq<char>)>)
    ensures
        (forall|i: int, j: int| 0 <= i < j < d.len() ==> !same_java(#[trigger] d[i], #[trigger] d[j]))
            ==> distinct_javas(d) == d,
    decreases d.len(),
{
    if d.len() > 0 && (forall|i: int, j: int| 0 <= i < j < d.len() ==> !same_java(#[trigger] d[i], #[trigger] d[j])) {
        let p = d.drop_last();
        assert forall|i: int, j: int| 0 <= i < j < p.len() implies !same_java(#[trigger] p[i], #[trigger] p[j]) by {
            assert(p[i] == d[i] && p[j] == d[j]);
        }
        lemma_distinct_prefix_fixed(p);
        if has_same_java(p, d.last()) {
            let w = choose|w: int| 0 <= w < p.len() && same_java(#[trigger] p[w], d.last());
            assert(d[w] == p[w]);
            assert(!same_java(d[w], d[d.len() - 1]));
        }
        assert(p.push(d.last()) =~= d);
    }
}


/// The archive of a Java download is a zip exactly when the OS is Windows;
/// on every other OS it is a gzip-compressed tar file. It is stored in the
/// runtimes directory as `temp_java_<major>` with that extension, and the
/// runtime is unpacked next to it into `jre-<major>`.
pub proof fn lemma_java_archive_kind(major: u32, os: Seq<char>, arch: Seq<char>, runtimes_dir: Seq<char>)
    ensures
        java_download_plan_of(major, os, arch, runtimes_dir).3 <==> os == "windows"@,
        java_download_plan_of(major, os, arch, runtimes_dir).2 == path_join(
            runtimes_dir,
            "temp_java_"@ + decimal(major as nat) + if os == "windows"@ {
                ".zip"@
            } else {
                ".tar.gz"@
            },
        ),
        java_download_plan_of(major, os, arch, runtimes_dir).1 == path_join(
            runtimes_dir,
            "jre-"@ + decimal(major as nat),
        ),
{
    reveal_strlit("windows");
    reveal_strlit("mac");
    reveal_strlit("linux");
    reveal_strlit("macos");
    reveal_strlit("zip");
    reveal_strlit("tar.gz");
    reveal_strlit(".zip");
    reveal_strlit(".tar.gz");
    reveal_strlit(".");
    assert("mac"@ != "windows"@) by {
        assert("mac"@.len() != "windows"@.len());
    }
    assert("linux"@ != "windows"@) by {
        assert("linux"@.len() != "windows"@.len());
    }
    let d = decimal(major as nat);
    assert("temp_java_"@ + d + "."@ + "zip"@ =~= "temp_java_"@ + d + ".zip"@);
    assert("temp_java_"@ + d + "."@ + "tar.gz"@ =~= "temp_java_"@ + d + ".tar.gz"@);
}

/// The first `"` at or after `k` is at `q` when `t[q]` is one and none comes
/// between `k` and `q`.
proof fn lemma_first_quote_at(t: Seq<char>, k: int, q: int)
    requires
        0 <= k <= q < t.len(),
        t[q] == '"',
        forall|x: int| k <= x < q ==> t[x] != '"',
    ensures
        first_quote_from(t, k) == Some(q),
    decreases q - k,
{
    if k < q {
        lemma_first_quote_at(t, k + 1, q);
    }
}

/// The version is read from the leftmost `version "…"` in the whole text,
/// whatever comes before it (other lines included): when `version "` stands at
/// `i`, is followed by one or more characters other than `"` and then a `"`
/// at `q`, and no such match starts earlier, the capture is the text between.
pub proof fn lemma_capture_leftmost(t: Seq<char>, i: int, q: int)
    requires
        0 <= i,
        i + 9 < q < t.len(),
        t.subrange(i, i + 9) == seq!['v', 'e', 'r', 's', 'i', 'o', 'n', ' ', '"'],
        t[q] == '"',
        forall|x: int| i + 9 <= x < q ==> t[x] != '"',
        forall|j: int| 0 <= j < i ==> !version_match_at(t, j),
    ensures
        version_capture(t) == Some(t.subrange(i + 9, q)),
{
    lemma_first_quote_at(t, i + 9, q);
    assert(version_match_at(t, i));
    lemma_capture_from_before(t, 0, i, q);
}

/// Searching from any position before the leftmost match finds that match.
proof fn lemma_capture_from_before(t: Seq<char>, j: int, i: int, q: int)
    requires
        0 <= j <= i,
        i + 9 < q < t.len(),
        version_match_at(t, i),
        first_quote_from(t, i + 9) == Some(q),
        forall|k: int| 0 <= k < i ==> !version_match_at(t, k),
    ensures
        version_capture_from(t, j) == Some(t.subrange(i + 9, q)),
    decreases i - j,
{
    if j < i {
        assert(!version_match_at(t, j));
        lemma_capture_from_before(t, j + 1, i, q);
    }
}

/// Whatever is captured is one or more characters other than `"` that stand in
/// the text between `version "` and a closing `"`.
pub proof fn lemma_capture_is_quoted(t: Seq<char>)
    ensures
        version_capture(t) matches Some(c) ==> c.len() > 0 && (forall|x: int| 0 <= x < c.len() ==> c[x] != '"')
            && exists|i: int|
            0 <= i && i + 9 + c.len() < t.len() && #[trigger] t.subrange(i, i + 9) == seq![
                'v',
                'e',
                'r',
                's',
                'i',
                'o',
                'n',
                ' ',
                '"',
            ] && t.subrange(i + 9, i + 9 + c.len()) == c && t[i + 9 + c.len()] == '"',
{
    lemma_capture_from_quoted(t, 0);
}

/// A capture found from position `j` on is quoted text of `t`.
proof fn lemma_capture_from_quoted(t: Seq<char>, j: int)
    ensures
        version_capture_from(t, j) matches Some(c) ==> c.len() > 0 && (forall|x: int|
            0 <= x < c.len() ==> c[x] != '"') && exists|i: int|
            0 <= i && i + 9 + c.len() < t.len() && #[trigger] t.subrange(i, i + 9) == seq![
                'v',
                'e',
                'r',
                's',
                'i',
                'o',
                'n',
                ' ',
                '"',
            ] && t.subrange(i + 9, i + 9 + c.len()) == c && t[i + 9 + c.len()] == '"',
    decreases t.len() - j,
{
    if j < 0 || j + 9 > t.len() {
    } else if version_match_at(t, j) {
        let q = first_quote_from(t, j + 9)->0;
        lemma_first_quote_props(t, j + 9);
        let c = t.subrange(j + 9, q);
        assert(t.subrange(j + 9, j + 9 + c.len()) =~= c);
        assert forall|x: int| 0 <= x < c.len() implies c[x] != '"' by {
            assert(c[x] == t[j + 9 + x]);
        }
        assert(t.subrange(j, j + 9) == version_marker());
    } else {
        lemma_capture_from_quoted(t, j + 1);
    }
}

/// The first `"` at or after `k`, when there is one, is a `"` with none before
/// it from `k` on.
proof fn lemma_first_quote_props(t: Seq<char>, k: int)
    ensures
        first_quote_from(t, k) matches Some(q) ==> 0 <= k <= q < t.len() && t[q] == '"' && forall|x: int|
            k <= x < q ==> t[x] != '"',
    decreases t.len() - k,
{
    if 0 <= k < t.len() && t[k] != '"' {
        lemma_first_quote_props(t, k + 1);
    }
}

/// The merged list of installations only ever grows as candidates are added.
proof fn lemma_distinct_grows(s: Seq<(Seq<char>, u32, Seq<char>)>, x: (Seq<char>, u32, Seq<char>))
    ensures
        distinct_javas(s.push(x)) == distinct_javas(s) || distinct_javas(s.push(x)) == distinct_javas(
            s,
        ).push(x),
{
    assert(s.push(x).drop_last() =~= s);
}

/// Merging keeps every installation that shares neither its path (component by
/// component) nor its major and full version with any other candidate.
pub proof fn lemma_merge_keeps_unrelated(s: Seq<(Seq<char>, u32, Seq<char>)>, k: int)
    requires
        0 <= k < s.len(),
        forall|j: int|
            0 <= j < s.len() && j != k ==> path_components(#[trigger] s[j].0) != path_components(s[k].0)
                && !(s[j].1 == s[k].1 && s[j].2 == s[k].2),
    ensures
        distinct_javas(s).contains(s[k]),
    decreases s.len(),
{
    let p = s.drop_last();
    assert(p.push(s.last()) =~= s);
    lemma_distinct_grows(p, s.last());
    if k == s.len() - 1 {
        lemma_distinct_javas(p);
        let d = distinct_javas(p);
        assert forall|w: int| 0 <= w < d.len() implies !same_java(#[trigger] d[w], s[k]) by {
            assert(p.contains(d[w]));
            let j = choose|j: int| 0 <= j < p.len() && p[j] == d[w];
            assert(s[j] == p[j]);
        }
        assert(!has_same_java(d, s.last()));
        assert(distinct_javas(s) == d.push(s.last()));
        assert(distinct_javas(s)[d.len() as int] == s[k]);
    } else {
        assert forall|j: int|
            0 <= j < p.len() && j != k implies path_components(#[trigger] p[j].0) != path_components(p[k].0)
                && !(p[j].1 == p[k].1 && p[j].2 == p[k].2) by {
            assert(p[j] == s[j]);
        }
        lemma_merge_keeps_unrelated(p, k);
        assert(p[k] == s[k]);
        let w = choose|w: int| 0 <= w < distinct_javas(p).len() && distinct_javas(p)[w] == s[k];
        if distinct_javas(s) != distinct_javas(p) {
            assert(distinct_javas(s)[w] == s[k]);
        }
    }
}
} // verus!
