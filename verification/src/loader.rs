//! The Fabric mod loader: picking a loader version and placing its libraries.
use vstd::prelude::*;
use vstd::string::*;
use crate::layout::{library_path_of, library_path_in};
use crate::text::{
    split_where, split_text, replace_char, replace_text, text_from, concat2, concat3, push_text,
    texts,
};

verus! {

/// One entry of the Fabric loader list for a game version.
#[derive(Debug)]
pub struct FabricLoaderResponse {
    /// The loader it describes.
    pub loader: FabricLoader,
}

/// A Fabric loader release.
#[derive(Debug)]
pub struct FabricLoader {
    /// The loader version.
    pub version: String,
    /// Whether the release is stable.
    pub stable: bool,
}

/// The launch profile of a loader for a game version.
#[derive(Debug)]
pub struct FabricProfile {
    /// The class that starts the game with the loader.
    pub main_class: String,
    /// The libraries the loader needs.
    pub libraries: Vec<FabricLibrary>,
}

/// A library of a Fabric profile.
#[derive(Debug)]
pub struct FabricLibrary {
    /// The Maven coordinates.
    pub name: String,
    /// The Maven repository it is published in.
    pub url: String,
}

/// Why the loader could not be chosen.
#[derive(Debug, Clone, PartialEq, Eq)]
pub enum LoaderError {
    /// The list holds no stable loader.
    NoStableLoader,
}

impl LoaderError {
    /// The text that reports this error.
    pub fn message(&self) -> (r: String)
        ensures
            r@ == "Cannot find latest stable Fabric Loader"@,
    {
        match self {
            LoaderError::NoStableLoader => text_from("Cannot find latest stable Fabric Loader"),
        }
    }
}

/// The version of the first stable loader of the list, which the service
/// orders newest first.
pub fn latest_stable_loader(resp: &Vec<FabricLoaderResponse>) -> (r: Result<String, LoaderError>)
    ensures
        r matches Ok(v) ==> exists|i: int|
            0 <= i < resp@.len() && #[trigger] resp@[i].loader.stable && v@ == resp@[i].loader.version@
                && forall|j: int| 0 <= j < i ==> !(#[trigger] resp@[j]).loader.stable,
        r is Err ==> forall|j: int| 0 <= j < resp@.len() ==> !(#[trigger] resp@[j]).loader.stable,
        r matches Err(e) ==> e == LoaderError::NoStableLoader,
{
    let mut i: usize = 0;
    while i < resp.len()
        invariant
            i <= resp@.len(),
            forall|j: int| 0 <= j < i ==> !(#[trigger] resp@[j]).loader.stable,
        decreases resp.len() - i,
    {
        if resp[i].loader.stable {
            let v = text_from(resp[i].loader.version.as_str());
            assert(resp@[i as int].loader.stable);
            return Ok(v);
        }
        i = i + 1;
    }
    Err(LoaderError::NoStableLoader)
}

/// The address of the loader list for a game version.
pub fn loader_list_url(game_version: &str) -> (r: String)
    ensures
        r@ == "https://meta.fabricmc.net/v2/versions/loader/"@ + game_version@,
{
    concat2("https://meta.fabricmc.net/v2/versions/loader/", game_version)
}

/// The address of the launch profile of a loader for a game version.
pub fn fabric_profile_url(game_version: &str, loader_version: &str) -> (r: String)
    ensures
        r@ == "https://meta.fabricmc.net/v2/versions/loader/"@ + game_version@ + "/"@
            + loader_version@ + "/profile/json"@,
{
    let mut r = concat3("https://meta.fabricmc.net/v2/versions/loader/", game_version, "/");
    push_text(&mut r, loader_version);
    push_text(&mut r, "/profile/json");
    r
}

/// The repository path of a jar named by Maven coordinates `group:artifact:version`:
/// `group/with/slashes/artifact/version/artifact-version.jar`.
pub open spec fn maven_path_of(name: Seq<char>) -> Option<Seq<char>> {
    let parts = split_where(name, seq![':']);
    if parts.len() == 3 {
        let group = replace_char(parts[0], '.', "/"@);
        Some(group + "/"@ + parts[1] + "/"@ + parts[2] + "/"@ + parts[1] + "-"@ + parts[2] + ".jar"@)
    } else {
        None
    }
}

/// The repository path of a jar named by Maven coordinates, or `None` when the
/// name is not of the form `group:artifact:version`.
pub fn maven_to_path(name: &str) -> (r: Option<String>)
    ensures
        r matches Some(p) ==> maven_path_of(name@) == Some(p@),
        r is None ==> maven_path_of(name@) is None,
{
    let parts = split_text(name, ':');
    if parts.len() != 3 {
        return None;
    }
    assert(texts(parts@)[0] == parts@[0]@);
    assert(texts(parts@)[1] == parts@[1]@);
    assert(texts(parts@)[2] == parts@[2]@);
    let group = replace_text(parts[0].as_str(), '.', "/");
    let mut r = concat3(group.as_str(), "/", parts[1].as_str());
    push_text(&mut r, "/");
    push_text(&mut r, parts[2].as_str());
    push_text(&mut r, "/");
    push_text(&mut r, parts[1].as_str());
    push_text(&mut r, "-");
    push_text(&mut r, parts[2].as_str());
    push_text(&mut r, ".jar");
    Some(r)
}

/// A Fabric library jar to fetch.
#[derive(Debug, Clone)]
pub struct FabricLibraryTask {
    /// The library's Maven coordinates.
    pub name: String,
    /// Where the jar is published.
    pub url: String,
    /// Where the jar is kept.
    pub path: String,
}

/// What installing a profile's libraries involves: one fetch per library whose
/// name is Maven coordinates, and the names that are not.
#[derive(Debug)]
pub struct FabricInstallPlan {
    /// The jars to fetch, in the profile's order.
    pub tasks: Vec<FabricLibraryTask>,
    /// The names that are not Maven coordinates.
    pub unresolved: Vec<String>,
}

/// Whether `task` fetches `lib` from its repository into its place under `mc`.
pub open spec fn fabric_task_matches(task: FabricLibraryTask, mc: Seq<char>, lib: FabricLibrary) -> bool {
    let rel = maven_path_of(lib.name@)->0;
    &&& task.name@ == lib.name@
    &&& task.url@ == lib.url@ + rel
    &&& task.path@ == library_path_of(mc, rel)
}

/// The libraries of a profile whose names are Maven coordinates, in order.
pub open spec fn resolvable_libraries(libs: Seq<FabricLibrary>) -> Seq<FabricLibrary>
    decreases libs.len(),
{
    if libs.len() == 0 {
        Seq::empty()
    } else if maven_path_of(libs.last().name@) is Some {
        resolvable_libraries(libs.drop_last()).push(libs.last())
    } else {
        resolvable_libraries(libs.drop_last())
    }
}

/// The names of the libraries of a profile that are not Maven coordinates, in order.
pub open spec fn unresolvable_names(libs: Seq<FabricLibrary>) -> Seq<Seq<char>>
    decreases libs.len(),
{
    if libs.len() == 0 {
        Seq::empty()
    } else if maven_path_of(libs.last().name@) is Some {
        unresolvable_names(libs.drop_last())
    } else {
        unresolvable_names(libs.drop_last()).push(libs.last().name@)
    }
}

/// Plans the installation of a profile's libraries under `mc`: each library is
/// fetched from its repository at its Maven path and kept at that path under
/// the libraries directory.
pub fn plan_fabric_libraries(profile: &FabricProfile, mc: &str) -> (r: FabricInstallPlan)
    ensures
        r.tasks@.len() == resolvable_libraries(profile.libraries@).len(),
        forall|i: int|
            0 <= i < r.tasks@.len() ==> fabric_task_matches(
                #[trigger] r.tasks@[i],
                mc@,
                resolvable_libraries(profile.libraries@)[i],
            ),
        texts(r.unresolved@) == unresolvable_names(profile.libraries@),
{
    let ghost libs = profile.libraries@;
    let mut tasks: Vec<FabricLibraryTask> = Vec::new();
    let mut unresolved: Vec<String> = Vec::new();
    let mut i: usize = 0;
    assert(libs.subrange(0, 0) =~= Seq::<FabricLibrary>::empty());
    assert(texts(unresolved@) =~= Seq::<Seq<char>>::empty());
    while i < profile.libraries.len()
        invariant
            libs == profile.libraries@,
            i <= libs.len(),
            tasks@.len() == resolvable_libraries(libs.subrange(0, i as int)).len(),
            forall|k: int|
                0 <= k < tasks@.len() ==> fabric_task_matches(
                    #[trigger] tasks@[k],
                    mc@,
                    resolvable_libraries(libs.subrange(0, i as int))[k],
                ),
            texts(unresolved@) == unresolvable_names(libs.subrange(0, i as int)),
        decreases profile.libraries.len() - i,
    {
        let lib = &profile.libraries[i];
        let ghost sub = libs.subrange(0, i + 1);
        assert(sub.drop_last() =~= libs.subrange(0, i as int));
        assert(sub.last() == *lib);
        let ghost before_names = texts(unresolved@);
        match maven_to_path(lib.name.as_str()) {
            Some(rel) => {
                let url = concat2(lib.url.as_str(), rel.as_str());
                let path = library_path_in(mc, rel.as_str());
                tasks.push(FabricLibraryTask { name: text_from(lib.name.as_str()), url, path });
            },
            None => {
                unresolved.push(text_from(lib.name.as_str()));
                assert(texts(unresolved@) =~= before_names.push(lib.name@));
            },
        }
        i = i + 1;
    }
    assert(libs.subrange(0, libs.len() as int) =~= libs);
    FabricInstallPlan { tasks, unresolved }
}

} // verus!
