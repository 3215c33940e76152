//! Where the launcher keeps its files: the `.minecraft` directory and the
//! places inside it.
use vstd::prelude::*;
use vstd::string::*;
use crate::paths::{
    path_join, path_starts_with, path_components, path_segments, kept_segments, is_absolute,
    join_path, starts_with, is_plain_name, lemma_join_plain_components, lemma_join_components,
    lemma_join_starts_with, lemma_kept_relative, lemma_starts_with_trans,
};
use crate::text::{texts, concat2};

verus! {

/// The launcher's directory under a home directory.
pub open spec fn minecraft_dir_of(home: Seq<char>) -> Seq<char> {
    path_join(home, ".minecraft"@)
}

/// Whether `d` is the launcher's directory under some home directory.
pub open spec fn is_minecraft_dir(d: Seq<char>) -> bool {
    exists|h: Seq<char>| #[trigger] minecraft_dir_of(h) == d
}

/// The shared library directory.
pub open spec fn libraries_dir_of(mc: Seq<char>) -> Seq<char> {
    path_join(mc, "libraries"@)
}

/// Where a library jar with the given relative path is kept.
pub open spec fn library_path_of(mc: Seq<char>, rel: Seq<char>) -> Seq<char> {
    path_join(libraries_dir_of(mc), rel)
}

/// The directory holding one game directory per version.
pub open spec fn versions_dir_of(mc: Seq<char>) -> Seq<char> {
    path_join(mc, "versions"@)
}

/// The directory holding one directory of client files per version.
pub open spec fn clients_dir_of(mc: Seq<char>) -> Seq<char> {
    path_join(mc, "clients"@)
}

/// The directory holding server files.
pub open spec fn servers_dir_of(mc: Seq<char>) -> Seq<char> {
    path_join(mc, "servers"@)
}

/// The shared asset directory.
pub open spec fn assets_dir_of(mc: Seq<char>) -> Seq<char> {
    path_join(mc, "assets"@)
}

/// The directory of managed Java runtimes.
pub open spec fn runtimes_dir_of(mc: Seq<char>) -> Seq<char> {
    path_join(mc, "runtimes"@)
}

/// The folders the workspace consists of, in the order they are created.
pub open spec fn workspace_folders_of(mc: Seq<char>) -> Seq<Seq<char>> {
    seq![
        mc,
        clients_dir_of(mc),
        servers_dir_of(mc),
        versions_dir_of(mc),
        libraries_dir_of(mc),
        assets_dir_of(mc),
        path_join(mc, "assets/indexes"@),
        path_join(mc, "assets/objects"@),
        runtimes_dir_of(mc),
    ]
}

/// The isolated game directory of one version: saves, mods and options live here.
pub open spec fn version_game_dir(mc: Seq<char>, id: Seq<char>) -> Seq<char> {
    path_join(versions_dir_of(mc), id)
}

/// The directory of client files of a version.
pub open spec fn client_dir_of(mc: Seq<char>, id: Seq<char>) -> Seq<char> {
    path_join(clients_dir_of(mc), id)
}

/// Where the client jar of a version is kept.
pub open spec fn client_jar_path_of(mc: Seq<char>, id: Seq<char>) -> Seq<char> {
    path_join(client_dir_of(mc, id), id + ".jar"@)
}

/// Where the asset index with the given id is kept.
pub open spec fn asset_index_path_of(mc: Seq<char>, id: Seq<char>) -> Seq<char> {
    path_join(path_join(assets_dir_of(mc), "indexes"@), id + ".json"@)
}

/// Where downloaded asset objects are kept.
pub open spec fn objects_dir_of(mc: Seq<char>) -> Seq<char> {
    path_join(assets_dir_of(mc), "objects"@)
}

/// Calls `home::home_dir`, rendering the path as text. The home directory comes
/// from the environment, so nothing is promised of it.
#[verifier::external_body]
fn home_dir_text() -> (r: Option<String>) {
    home::home_dir().map(|p| p.to_string_lossy().into_owned())
}

/// The launcher's directory under the given home directory.
pub fn minecraft_dir_under(home: &str) -> (r: String)
    ensures
        r@ == minecraft_dir_of(home@),
{
    join_path(home, ".minecraft")
}

/// The launcher's directory under the current user's home directory. `None`
/// stands for the case where the environment names no home directory, in which
/// the launcher cannot work at all: its callers stop there with "Could not get
/// home dir".
pub fn get_minecraft_dir() -> (r: Option<String>)
    ensures
        r matches Some(d) ==> is_minecraft_dir(d@),
{
    match home_dir_text() {
        Some(h) => {
            let d = minecraft_dir_under(h.as_str());
            assert(minecraft_dir_of(h@) == d@);
            Some(d)
        },
        None => None,
    }
}

/// Where a library jar with the given relative path is kept, under `mc`.
pub fn library_path_in(mc: &str, relative_path: &str) -> (r: String)
    ensures
        r@ == library_path_of(mc@, relative_path@),
{
    let libs = join_path(mc, "libraries");
    join_path(libs.as_str(), relative_path)
}

/// Where a library jar with the given relative path is kept, under the
/// current user's launcher directory.
pub fn get_library_path(relative_path: &str) -> (r: Option<String>)
    ensures
        r matches Some(p) ==> exists|mc: Seq<char>|
            is_minecraft_dir(mc) && p@ == #[trigger] library_path_of(mc, relative_path@),
{
    match get_minecraft_dir() {
        Some(mc) => {
            let p = library_path_in(mc.as_str(), relative_path);
            assert(is_minecraft_dir(mc@) && p@ == library_path_of(mc@, relative_path@));
            Some(p)
        },
        None => None,
    }
}

/// The clients directory under `mc`.
pub fn clients_dir_in(mc: &str) -> (r: String)
    ensures
        r@ == clients_dir_of(mc@),
{
    join_path(mc, "clients")
}

/// The clients directory of the current user's launcher directory.
pub fn get_clients_dir() -> (r: Option<String>)
    ensures
        r matches Some(p) ==> exists|mc: Seq<char>|
            is_minecraft_dir(mc) && p@ == #[trigger] clients_dir_of(mc),
{
    match get_minecraft_dir() {
        Some(mc) => {
            let p = clients_dir_in(mc.as_str());
            assert(is_minecraft_dir(mc@) && p@ == clients_dir_of(mc@));
            Some(p)
        },
        None => None,
    }
}

/// The servers directory under `mc`.
pub fn servers_dir_in(mc: &str) -> (r: String)
    ensures
        r@ == servers_dir_of(mc@),
{
    join_path(mc, "servers")
}

/// The servers directory of the current user's launcher directory.
pub fn get_servers_dir() -> (r: Option<String>)
    ensures
        r matches Some(p) ==> exists|mc: Seq<char>|
            is_minecraft_dir(mc) && p@ == #[trigger] servers_dir_of(mc),
{
    match get_minecraft_dir() {
        Some(mc) => {
            let p = servers_dir_in(mc.as_str());
            assert(is_minecraft_dir(mc@) && p@ == servers_dir_of(mc@));
            Some(p)
        },
        None => None,
    }
}

/// The shared asset directory under `mc`.
pub fn assets_dir_in(mc: &str) -> (r: String)
    ensures
        r@ == assets_dir_of(mc@),
{
    join_path(mc, "assets")
}

/// The Java runtimes directory under `mc`.
pub fn runtimes_dir_in(mc: &str) -> (r: String)
    ensures
        r@ == runtimes_dir_of(mc@),
{
    join_path(mc, "runtimes")
}

/// The folders that make up the workspace under `mc`, in creation order.
pub fn workspace_folders_in(mc: &str) -> (r: Vec<String>)
    ensures
        texts(r@) == workspace_folders_of(mc@),
{
    let mut r: Vec<String> = Vec::new();
    r.push(concat2(mc, ""));
    r.push(clients_dir_in(mc));
    r.push(servers_dir_in(mc));
    r.push(join_path(mc, "versions"));
    r.push(join_path(mc, "libraries"));
    r.push(assets_dir_in(mc));
    r.push(join_path(mc, "assets/indexes"));
    r.push(join_path(mc, "assets/objects"));
    r.push(runtimes_dir_in(mc));
    proof {
        reveal_strlit("");
        assert(mc@ + ""@ =~= mc@);
    }
    assert(texts(r@) =~= workspace_folders_of(mc@));
    r
}

/// The folders that make up the workspace under the current user's launcher
/// directory, in creation order.
pub fn get_workspace_folders() -> (r: Option<Vec<String>>)
    ensures
        r matches Some(v) ==> exists|mc: Seq<char>|
            is_minecraft_dir(mc) && texts(v@) == #[trigger] workspace_folders_of(mc),
{
    match get_minecraft_dir() {
        Some(mc) => {
            let v = workspace_folders_in(mc.as_str());
            assert(is_minecraft_dir(mc@) && texts(v@) == workspace_folders_of(mc@));
            Some(v)
        },
        None => None,
    }
}

/// Whether `target` lies inside `mc`.
pub fn is_path_safe_in(mc: &str, target: &str) -> (r: bool)
    ensures
        r == path_starts_with(target@, mc@),
{
    starts_with(target, mc)
}

/// Whether `target` lies inside the current user's launcher directory, or
/// `None` when the environment names no home directory.
pub fn is_path_safe(target: &str) -> (r: Option<bool>)
    ensures
        r matches Some(b) ==> exists|mc: Seq<char>|
            is_minecraft_dir(mc) && b == #[trigger] path_starts_with(target@, mc),
{
    match get_minecraft_dir() {
        Some(mc) => {
            let b = is_path_safe_in(mc.as_str(), target);
            assert(is_minecraft_dir(mc@) && b == path_starts_with(target@, mc@));
            Some(b)
        },
        None => None,
    }
}

/// The isolated game directory of version `id` under `mc`.
pub fn version_game_dir_in(mc: &str, id: &str) -> (r: String)
    ensures
        r@ == version_game_dir(mc@, id@),
{
    let versions = join_path(mc, "versions");
    join_path(versions.as_str(), id)
}

/// Where the client jar of version `id` is kept under `mc`.
pub fn client_jar_path_in(mc: &str, id: &str) -> (r: String)
    ensures
        r@ == client_jar_path_of(mc@, id@),
{
    let clients = clients_dir_in(mc);
    let dir = join_path(clients.as_str(), id);
    let name = concat2(id, ".jar");
    join_path(dir.as_str(), name.as_str())
}

/// Where the asset index `id` is kept under `mc`.
pub fn asset_index_path_in(mc: &str, id: &str) -> (r: String)
    ensures
        r@ == asset_index_path_of(mc@, id@),
{
    let assets = assets_dir_in(mc);
    let indexes = join_path(assets.as_str(), "indexes");
    let name = concat2(id, ".json");
    join_path(indexes.as_str(), name.as_str())
}

/// Where asset objects are kept under `mc`.
pub fn objects_dir_in(mc: &str) -> (r: String)
    ensures
        r@ == objects_dir_of(mc@),
{
    let assets = assets_dir_in(mc);
    join_path(assets.as_str(), "objects")
}

/// Joining a plain name keeps the result under the original path.
pub proof fn lemma_join_plain_starts_with(base: Seq<char>, seg: Seq<char>)
    requires
        is_plain_name(seg),
    ensures
        path_starts_with(path_join(base, seg), base),
{
    lemma_join_plain_components(base, seg);
    let b = path_components(base);
    assert(b.push(seg).subrange(0, b.len() as int) =~= b);
}

/// A name of letters alone is a plain name.
proof fn lemma_word_is_plain(w: Seq<char>)
    requires
        w.len() > 0,
        w[0] != '.',
        forall|i: int| 0 <= i < w.len() ==> w[i] != '/',
    ensures
        is_plain_name(w),
{
    if w.contains('/') {
        let k = choose|k: int| 0 <= k < w.len() && w[k] == '/';
    }
}

/// A plain name followed by a suffix of two or more characters and no
/// separator is a plain name.
proof fn lemma_plain_with_suffix(a: Seq<char>, suffix: Seq<char>)
    requires
        is_plain_name(a),
        suffix.len() >= 2,
        forall|i: int| 0 <= i < suffix.len() ==> suffix[i] != '/',
    ensures
        is_plain_name(a + suffix),
{
    let w = a + suffix;
    assert forall|i: int| 0 <= i < w.len() implies w[i] != '/' by {
        if i < a.len() {
            assert(w[i] == a[i]);
            if a[i] == '/' {
                assert(a.contains('/'));
            }
        } else {
            assert(w[i] == suffix[i - a.len()]);
        }
    }
    if w.contains('/') {
        let k = choose|k: int| 0 <= k < w.len() && w[k] == '/';
    }
    assert(w.len() >= 3);
}

/// The launcher directory under any home directory is not empty.
proof fn lemma_minecraft_dir_nonempty(home: Seq<char>)
    ensures
        minecraft_dir_of(home).len() > 0,
{
    reveal_strlit(".minecraft");
    let m = ".minecraft"@;
    assert(m[0] == '.');
    assert(!is_absolute(m));
}

/// The launcher directory is the `.minecraft` folder directly inside the
/// home directory it is made from: its components are the home's followed by
/// `.minecraft`, so homes with different components give different launcher
/// directories.
pub proof fn lemma_minecraft_dir_in_home(home: Seq<char>, other: Seq<char>)
    ensures
        path_components(minecraft_dir_of(home)) == path_components(home).push(".minecraft"@),
        path_starts_with(minecraft_dir_of(home), home),
        path_components(home) != path_components(other) ==> minecraft_dir_of(home) != minecraft_dir_of(other),
{
    reveal_strlit(".minecraft");
    let m = ".minecraft"@;
    assert(m.len() == 10 && m[0] == '.' && m[1] == 'm');
    assert forall|i: int| 0 <= i < m.len() implies m[i] != '/' by {}
    if m.contains('/') {
        let k = choose|k: int| 0 <= k < m.len() && m[k] == '/';
    }
    assert(is_plain_name(m));
    lemma_join_plain_components(home, m);
    lemma_join_plain_components(other, m);
    let h = path_components(home);
    assert(h.push(m).subrange(0, h.len() as int) =~= h);
    if path_components(home) != path_components(other) && minecraft_dir_of(home) == minecraft_dir_of(other) {
        assert(path_components(home).push(m).drop_last() =~= path_components(home));
        assert(path_components(other).push(m).drop_last() =~= path_components(other));
    }
}

/// Version isolation: every version whose id is a plain name gets its own game
/// directory under the versions folder of the launcher directory, two
/// different versions never share a game directory, and the client jar of a
/// version lies in that version's own folder under the clients folder.
pub proof fn lemma_version_isolation(mc: Seq<char>, a: Seq<char>, b: Seq<char>)
    requires
        is_plain_name(a),
        is_plain_name(b),
    ensures
        path_starts_with(version_game_dir(mc, a), versions_dir_of(mc)),
        path_starts_with(version_game_dir(mc, a), mc),
        path_components(version_game_dir(mc, a)).len() == path_components(mc).len() + 2,
        path_starts_with(client_jar_path_of(mc, a), client_dir_of(mc, a)),
        a != b ==> version_game_dir(mc, a) != version_game_dir(mc, b),
{
    reveal_strlit("versions");
    reveal_strlit("clients");
    reveal_strlit(".jar");
    let v = "versions"@;
    let c = "clients"@;
    assert(v[0] == 'v' && v.len() == 8);
    assert(c[0] == 'c' && c.len() == 7);
    lemma_word_is_plain(v);
    lemma_word_is_plain(c);
    lemma_join_plain_components(mc, v);
    lemma_join_plain_components(versions_dir_of(mc), a);
    lemma_join_plain_components(versions_dir_of(mc), b);
    let mcc = path_components(mc);
    let vc = mcc.push(v);
    assert(vc.push(a).subrange(0, mcc.len() as int) =~= mcc);
    assert(vc.push(a).subrange(0, vc.len() as int) =~= vc);
    let jar = a + ".jar"@;
    let suffix = ".jar"@;
    assert(suffix.len() == 4 && suffix[0] == '.');
    assert(suffix[1] == 'j' && suffix[2] == 'a' && suffix[3] == 'r');
    lemma_plain_with_suffix(a, suffix);
    lemma_join_plain_starts_with(client_dir_of(mc, a), jar);
    if a != b {
        assert(vc.push(a).last() != vc.push(b).last());
    }
}

/// Every place the layout names lies inside the launcher directory: the
/// directory itself, the library jar at any relative path that does not start
/// at the root, and the clients and servers directories.
pub proof fn lemma_layout_paths_are_safe(home: Seq<char>, rel: Seq<char>)
    requires
        !is_absolute(rel),
    ensures
        path_starts_with(minecraft_dir_of(home), minecraft_dir_of(home)),
        path_starts_with(library_path_of(minecraft_dir_of(home), rel), minecraft_dir_of(home)),
        path_starts_with(clients_dir_of(minecraft_dir_of(home)), minecraft_dir_of(home)),
        path_starts_with(servers_dir_of(minecraft_dir_of(home)), minecraft_dir_of(home)),
{
    let mc = minecraft_dir_of(home);
    lemma_minecraft_dir_nonempty(home);
    reveal_strlit("libraries");
    reveal_strlit("clients");
    reveal_strlit("servers");
    assert("libraries"@[0] == 'l');
    assert("clients"@[0] == 'c');
    assert("servers"@[0] == 's');
    let m = path_components(mc);
    assert(m.subrange(0, m.len() as int) =~= m);
    lemma_join_starts_with(mc, "libraries"@);
    lemma_join_starts_with(libraries_dir_of(mc), rel);
    lemma_starts_with_trans(library_path_of(mc, rel), libraries_dir_of(mc), mc);
    lemma_join_starts_with(mc, "clients"@);
    lemma_join_starts_with(mc, "servers"@);
}

/// A library jar lies in the library directory, and its path relative to that
/// directory is the relative path it was made from, component by component,
/// unless that path begins with a `.` segment, which joining drops.
pub proof fn lemma_library_path_strips(home: Seq<char>, rel: Seq<char>)
    requires
        !is_absolute(rel),
    ensures
        path_starts_with(
            library_path_of(minecraft_dir_of(home), rel),
            libraries_dir_of(minecraft_dir_of(home)),
        ),
        path_segments(rel)[0] != seq!['.'] ==> path_components(
            library_path_of(minecraft_dir_of(home), rel),
        ).skip(path_components(libraries_dir_of(minecraft_dir_of(home))).len() as int)
            == path_components(rel),
{
    let mc = minecraft_dir_of(home);
    lemma_minecraft_dir_nonempty(home);
    reveal_strlit("libraries");
    assert("libraries"@[0] == 'l');
    lemma_join_starts_with(mc, "libraries"@);
    let libs = libraries_dir_of(mc);
    lemma_join_starts_with(libs, rel);
    lemma_join_components(libs, rel);
    let l = path_components(libs);
    let k = kept_segments(path_segments(rel));
    assert((l + k).skip(l.len() as int) =~= k);
    if path_segments(rel)[0] != seq!['.'] {
        lemma_kept_relative(rel);
    }
}

} // verus!
