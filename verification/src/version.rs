//! Game versions as Mojang publishes them, and the files a version needs.
use vstd::prelude::*;
use vstd::string::*;
use crate::paths::{path_join, join_path};
use crate::layout::{library_path_of, library_path_in};
use crate::text::{text_from, text_eq, concat3, push_text};

verus! {

/// The list of published versions.
#[derive(Debug)]
pub struct VersionManifest {
    /// The newest release and snapshot.
    pub latest: Latest,
    /// Every published version.
    pub versions: Vec<Version>,
}

/// The newest release and snapshot ids.
#[derive(Debug)]
pub struct Latest {
    /// The newest release id.
    pub release: String,
    /// The newest snapshot id.
    pub snapshot: String,
}

/// One published version.
#[derive(Debug)]
pub struct Version {
    /// The version id, such as `1.20.1`.
    pub id: String,
    /// The kind of version, such as `release`.
    pub version_type: String,
    /// Where the version's details are published.
    pub url: String,
    /// When the entry was last changed.
    pub time: String,
    /// When the version was released.
    pub release_time: String,
}

/// The details of one version.
#[derive(Debug)]
pub struct VersionDetail {
    /// The version id.
    pub id: String,
    /// The client and server jars.
    pub downloads: Downloads,
    /// The libraries the game needs.
    pub libraries: Vec<Library>,
    /// The class that starts the game.
    pub main_class: String,
    /// The launch arguments, as the JSON text they are published in.
    pub arguments: String,
    /// The asset index.
    pub asset_index: AssetIndex,
    /// The id of the asset set.
    pub assets: String,
    /// The compliance level.
    pub compliance_level: u64,
    /// The Java version the game wants.
    pub java_version: JavaVersion,
    /// The logging configuration.
    pub logging: Logging,
    /// The oldest launcher format that handles this version.
    pub minimum_launcher_version: u64,
    /// When the version was released.
    pub release_time: String,
    /// When the entry was last changed.
    pub time: String,
    /// The kind of version, such as `release`.
    pub type_: String,
}

/// The logging configuration of a version.
#[derive(Debug)]
pub struct Logging {
    /// The client logging configuration.
    pub client: Client,
}

/// The client logging configuration.
#[derive(Debug)]
pub struct Client {
    /// The JVM argument that points to the configuration file.
    pub argument: String,
    /// The configuration file.
    pub file: File,
    /// The kind of configuration.
    pub type_: String,
}

/// A downloadable file.
#[derive(Debug)]
pub struct File {
    /// The file id.
    pub id: String,
    /// The published SHA-1 digest.
    pub sha1: String,
    /// The size in bytes.
    pub size: u64,
    /// Where the file is published.
    pub url: String,
}

/// The Java version a game version wants.
#[derive(Debug)]
pub struct JavaVersion {
    /// The runtime component name.
    pub component: String,
    /// The major version.
    pub major_version: u64,
}

/// The asset index of a version.
#[derive(Debug)]
pub struct AssetIndex {
    /// The index id, such as `5`.
    pub id: String,
    /// The published SHA-1 digest of the index.
    pub sha1: String,
    /// The size of the index in bytes.
    pub size: u64,
    /// The size of all assets in bytes.
    pub total_size: u64,
    /// Where the index is published.
    pub url: String,
}

/// The client and server jars of a version.
#[derive(Debug)]
pub struct Downloads {
    /// The client jar.
    pub client: DownloadInfo,
    /// The server jar.
    pub server: DownloadInfo,
}

/// A downloadable jar.
#[derive(Debug)]
pub struct DownloadInfo {
    /// The published SHA-1 digest.
    pub sha1: String,
    /// The size in bytes.
    pub size: u64,
    /// Where the jar is published.
    pub url: String,
}

/// A library a version needs.
#[derive(Debug, Clone)]
pub struct Library {
    /// The Maven coordinates.
    pub name: String,
    /// Its downloads.
    pub downloads: LibDownloads,
}

/// The downloads of a library.
#[derive(Debug, Clone)]
pub struct LibDownloads {
    /// The jar, when the library has one.
    pub artifact: Option<Artifact>,
}

/// A library jar.
#[derive(Debug, Clone)]
pub struct Artifact {
    /// The path of the jar relative to the libraries directory.
    pub path: String,
    /// The published SHA-1 digest.
    pub sha1: String,
    /// The size in bytes.
    pub size: u64,
    /// Where the jar is published.
    pub url: String,
}

/// The assets listed by an asset index, by name, in the order the index lists
/// them.
#[derive(Debug)]
pub struct AssetIndexManifest {
    /// Each asset's name and object.
    pub objects: Vec<(String, AssetObject)>,
}

impl AssetIndexManifest {
    /// Whether no name occurs twice: the index is published as a map from
    /// names to objects.
    pub open spec fn names_distinct(&self) -> bool {
        forall|i: int, j: int|
            0 <= i < j < self.objects@.len() ==> #[trigger] self.objects@[i].0@ != #[trigger] self.objects@[j].0@
    }

    /// An index with no assets.
    pub fn new() -> (r: AssetIndexManifest)
        ensures
            r.objects@.len() == 0,
            r.names_distinct(),
    {
        AssetIndexManifest { objects: Vec::new() }
    }

    /// Records `object` under `name`: it takes the place of the object already
    /// under that name, or comes last when the name is new.
    pub fn insert(&mut self, name: String, object: AssetObject)
        requires
            old(self).names_distinct(),
        ensures
            final(self).names_distinct(),
            forall|i: int|
                0 <= i < old(self).objects@.len() && #[trigger] old(self).objects@[i].0@ == name@
                    ==> final(self).objects@ == old(self).objects@.update(i, (name, object)),
            (forall|i: int| 0 <= i < old(self).objects@.len() ==> #[trigger] old(self).objects@[i].0@ != name@)
                ==> final(self).objects@ == old(self).objects@.push((name, object)),
    {
        let mut i: usize = 0;
        while i < self.objects.len()
            invariant
                i <= self.objects@.len(),
                self.objects@ == old(self).objects@,
                old(self).names_distinct(),
                forall|k: int| 0 <= k < i ==> #[trigger] self.objects@[k].0@ != name@,
            decreases self.objects.len() - i,
        {
            if text_eq(self.objects[i].0.as_str(), name.as_str()) {
                let ghost before = self.objects@;
                let ghost at = i as int;
                self.objects.set(i, (name, object));
                assert forall|k: int| 0 <= k < self.objects@.len() implies #[trigger] self.objects@[k].0@
                    == before[k].0@ by {}
                assert forall|a: int, b: int|
                    0 <= a < b < self.objects@.len() implies #[trigger] self.objects@[a].0@
                        != #[trigger] self.objects@[b].0@ by {
                    assert(self.objects@[a].0@ == before[a].0@);
                    assert(self.objects@[b].0@ == before[b].0@);
                    assert(before[a].0@ != before[b].0@);
                }
                assert forall|j: int|
                    0 <= j < before.len() && #[trigger] before[j].0@ == name@ implies j == at by {
                    if j < at {
                        assert(before[j].0@ != before[at].0@);
                    } else if j > at {
                        assert(before[at].0@ != before[j].0@);
                    }
                }
                return;
            }
            i = i + 1;
        }
        let ghost before = self.objects@;
        self.objects.push((name, object));
        assert forall|a: int, b: int|
            0 <= a < b < self.objects@.len() implies #[trigger] self.objects@[a].0@
                != #[trigger] self.objects@[b].0@ by {
            if b < before.len() {
                assert(self.objects@[a] == before[a]);
                assert(self.objects@[b] == before[b]);
                assert(before[a].0@ != before[b].0@);
            } else {
                assert(self.objects@[a] == before[a]);
                assert(before[a].0@ != name@);
            }
        }
    }
}

/// One asset object.
#[derive(Debug, Clone)]
pub struct AssetObject {
    /// The SHA-1 digest of the object, which also names it.
    pub hash: String,
    /// The size in bytes.
    pub size: u64,
}

/// The position of the first version of the manifest with the given id.
pub fn find_version(manifest: &VersionManifest, id: &str) -> (r: Option<usize>)
    ensures
        r matches Some(i) ==> i < manifest.versions@.len() && manifest.versions@[i as int].id@ == id@
            && forall|j: int| 0 <= j < i ==> #[trigger] manifest.versions@[j].id@ != id@,
        r is None ==> forall|j: int|
            0 <= j < manifest.versions@.len() ==> #[trigger] manifest.versions@[j].id@ != id@,
{
    let mut i: usize = 0;
    while i < manifest.versions.len()
        invariant
            i <= manifest.versions@.len(),
            forall|j: int| 0 <= j < i ==> #[trigger] manifest.versions@[j].id@ != id@,
        decreases manifest.versions.len() - i,
    {
        if text_eq(manifest.versions[i].id.as_str(), id) {
            return Some(i);
        }
        i = i + 1;
    }
    None
}

/// The libraries that have a jar, each with its name and jar, in order.
pub open spec fn library_artifacts(libs: Seq<Library>) -> Seq<(Seq<char>, Artifact)>
    decreases libs.len(),
{
    if libs.len() == 0 {
        Seq::empty()
    } else {
        let rest = library_artifacts(libs.drop_last());
        match libs.last().downloads.artifact {
            Some(a) => rest.push((libs.last().name@, a)),
            None => rest,
        }
    }
}

/// A library jar to fetch.
#[derive(Debug, Clone)]
pub struct LibraryTask {
    /// The library's Maven coordinates.
    pub name: String,
    /// Where the jar is published.
    pub url: String,
    /// Where the jar is kept.
    pub path: String,
    /// The published SHA-1 digest.
    pub sha1: String,
}

/// The class path of a version's libraries and the jars to fetch for it.
#[derive(Debug)]
pub struct LibraryPlan {
    /// Where each library jar is kept, in the version's order.
    pub classpath: Vec<String>,
    /// One task per library jar, in the same order.
    pub tasks: Vec<LibraryTask>,
}

/// Whether `task` fetches `artifact` of the library `name` into its place under `mc`.
pub open spec fn library_task_matches(task: LibraryTask, mc: Seq<char>, name: Seq<char>, artifact: Artifact) -> bool {
    &&& task.name@ == name
    &&& task.url@ == artifact.url@
    &&& task.path@ == library_path_of(mc, artifact.path@)
    &&& task.sha1@ == artifact.sha1@
}

/// The class path and fetch tasks for the libraries of a version: every
/// library with a jar, in order, kept under `mc`.
pub fn plan_libraries(detail: &VersionDetail, mc: &str) -> (r: LibraryPlan)
    ensures
        r.classpath@.len() == library_artifacts(detail.libraries@).len(),
        r.tasks@.len() == library_artifacts(detail.libraries@).len(),
        forall|i: int|
            0 <= i < r.tasks@.len() ==> {
                let (name, artifact) = library_artifacts(detail.libraries@)[i];
                &&& library_task_matches(#[trigger] r.tasks@[i], mc@, name, artifact)
                &&& r.classpath@[i]@ == library_path_of(mc@, artifact.path@)
            },
{
    let mut classpath: Vec<String> = Vec::new();
    let mut tasks: Vec<LibraryTask> = Vec::new();
    let mut i: usize = 0;
    let ghost libs = detail.libraries@;
    assert(libs.subrange(0, 0) =~= Seq::<Library>::empty());
    while i < detail.libraries.len()
        invariant
            libs == detail.libraries@,
            i <= libs.len(),
            classpath@.len() == library_artifacts(libs.subrange(0, i as int)).len(),
            tasks@.len() == classpath@.len(),
            forall|k: int|
                0 <= k < tasks@.len() ==> {
                    let (name, artifact) = library_artifacts(libs.subrange(0, i as int))[k];
                    &&& library_task_matches(#[trigger] tasks@[k], mc@, name, artifact)
                    &&& classpath@[k]@ == library_path_of(mc@, artifact.path@)
                },
        decreases detail.libraries.len() - i,
    {
        let lib = &detail.libraries[i];
        let ghost sub = libs.subrange(0, i + 1);
        assert(sub.drop_last() =~= libs.subrange(0, i as int));
        assert(sub.last() == *lib);
        let ghost before = library_artifacts(libs.subrange(0, i as int));
        match &lib.downloads.artifact {
            Some(a) => {
                let path = library_path_in(mc, a.path.as_str());
                let task = LibraryTask {
                    name: text_from(lib.name.as_str()),
                    url: text_from(a.url.as_str()),
                    path: text_from(path.as_str()),
                    sha1: text_from(a.sha1.as_str()),
                };
                classpath.push(path);
                tasks.push(task);
                assert(library_artifacts(sub) == before.push((lib.name@, *a)));
            },
            None => {
                assert(library_artifacts(sub) == before);
            },
        }
        i = i + 1;
    }
    assert(libs.subrange(0, libs.len() as int) =~= libs);
    LibraryPlan { classpath, tasks }
}

/// The width, in UTF-8 bytes, of a character.
pub open spec fn utf8_width(c: char) -> nat {
    if (c as u32) < 0x80 {
        1
    } else if (c as u32) < 0x800 {
        2
    } else if (c as u32) < 0x10000 {
        3
    } else {
        4
    }
}

/// The characters of the first two UTF-8 bytes of `h`, when those bytes end
/// on a character boundary; slicing `h[0..2]` fails otherwise.
pub open spec fn two_byte_prefix(h: Seq<char>) -> Option<Seq<char>> {
    if h.len() >= 1 && utf8_width(h[0]) == 2 {
        Some(h.subrange(0, 1))
    } else if h.len() >= 2 && utf8_width(h[0]) == 1 && utf8_width(h[1]) == 1 {
        Some(h.subrange(0, 2))
    } else {
        None
    }
}

/// Where asset objects are published.
pub open spec fn asset_base_url() -> Seq<char> {
    "https://resources.download.minecraft.net"@
}

/// An asset object to fetch.
#[derive(Debug, Clone)]
pub struct AssetTask {
    /// Where the object is published.
    pub url: String,
    /// Where the object is kept.
    pub path: String,
    /// The object's SHA-1 digest.
    pub hash: String,
}

/// Whether `task` fetches the object with digest `hash` into `objects_dir`:
/// objects are grouped in directories named by the first two bytes of their
/// digest, both where they are published and where they are kept.
pub open spec fn asset_task_matches(task: AssetTask, objects_dir: Seq<char>, hash: Seq<char>) -> bool {
    let prefix = two_byte_prefix(hash)->0;
    &&& task.url@ == asset_base_url() + "/"@ + prefix + "/"@ + hash
    &&& task.path@ == path_join(path_join(objects_dir, prefix), hash)
    &&& task.hash@ == hash
}

/// The first two bytes of a digest, as text.
pub fn hash_prefix(hash: &str) -> (r: String)
    requires
        two_byte_prefix(hash@) is Some,
    ensures
        r@ == two_byte_prefix(hash@)->0,
{
    let c0 = hash.get_char(0);
    if (c0 as u32) >= 0x80 {
        text_from(hash.substring_char(0, 1))
    } else {
        text_from(hash.substring_char(0, 2))
    }
}

/// The fetch task for the asset object with digest `hash`.
pub fn asset_task(objects_dir: &str, hash: &str) -> (r: AssetTask)
    requires
        two_byte_prefix(hash@) is Some,
    ensures
        asset_task_matches(r, objects_dir@, hash@),
{
    let prefix = hash_prefix(hash);
    let dir = join_path(objects_dir, prefix.as_str());
    let path = join_path(dir.as_str(), hash);
    let mut url = concat3("https://resources.download.minecraft.net", "/", prefix.as_str());
    push_text(&mut url, "/");
    push_text(&mut url, hash);
    AssetTask { url, path, hash: text_from(hash) }
}

/// The fetch tasks for every object of an asset index, in its order.
pub fn plan_assets(index: &AssetIndexManifest, objects_dir: &str) -> (r: Vec<AssetTask>)
    requires
        forall|i: int|
            0 <= i < index.objects@.len() ==> (two_byte_prefix(#[trigger] index.objects@[i].1.hash@) is Some),
    ensures
        r@.len() == index.objects@.len(),
        forall|i: int|
            0 <= i < r@.len() ==> asset_task_matches(#[trigger] r@[i], objects_dir@, index.objects@[i].1.hash@),
{
    let mut r: Vec<AssetTask> = Vec::new();
    let mut i: usize = 0;
    while i < index.objects.len()
        invariant
            i <= index.objects@.len(),
            r@.len() == i,
            forall|k: int|
                0 <= k < index.objects@.len() ==> (two_byte_prefix(#[trigger] index.objects@[k].1.hash@) is Some),
            forall|k: int|
                0 <= k < i ==> asset_task_matches(#[trigger] r@[k], objects_dir@, index.objects@[k].1.hash@),
        decreases index.objects.len() - i,
    {
        let t = asset_task(objects_dir, index.objects[i].1.hash.as_str());
        r.push(t);
        i = i + 1;
    }
    r
}

/// Whether an asset digest can name its directory (its first two bytes end on
/// a character boundary).
pub fn has_hash_prefix(hash: &str) -> (r: bool)
    ensures
        r == two_byte_prefix(hash@) is Some,
{
    let n = hash.unicode_len();
    if n >= 1 {
        let c0 = hash.get_char(0);
        if (c0 as u32) >= 0x80 && (c0 as u32) < 0x800 {
            return true;
        }
        if n >= 2 && (c0 as u32) < 0x80 {
            let c1 = hash.get_char(1);
            return (c1 as u32) < 0x80;
        }
    }
    false
}


/// The most asset downloads that run at once: more may get the launcher
/// disconnected, fewer slow it down.
pub const MAX_CONCURRENT_DOWNLOADS: usize = 32;

/// Whether another asset download may start while `running` are under way.
pub fn download_slot_free(running: usize) -> (r: bool)
    ensures
        r == (running < MAX_CONCURRENT_DOWNLOADS),
{
    running < MAX_CONCURRENT_DOWNLOADS
}

/// What the asset queue says to do next.
#[derive(Debug)]
pub enum AssetStep {
    /// Start fetching this object.
    Start(AssetTask),
    /// Wait until a running fetch finishes.
    Wait,
    /// Every fetch has been started and has finished.
    Done,
}

/// The fetches of an asset index's objects, handed out in plan order so that
/// no more than `MAX_CONCURRENT_DOWNLOADS` run at once.
pub struct AssetQueue {
    /// The tasks not started yet, the next one last.
    pending: Vec<AssetTask>,
    /// How many started fetches have not finished.
    running: usize,
}

impl AssetQueue {
    /// The tasks not started yet, in the order they will start.
    pub closed spec fn remaining(&self) -> Seq<AssetTask> {
        Seq::new(self.pending@.len(), |i: int| self.pending@[self.pending@.len() - 1 - i])
    }

    /// How many started fetches have not finished.
    pub closed spec fn in_flight(&self) -> nat {
        self.running as nat
    }

    /// No more fetches run than the limit allows.
    #[verifier::type_invariant]
    spec fn within_limit(self) -> bool {
        self.running <= MAX_CONCURRENT_DOWNLOADS
    }

    /// A queue of the given tasks with none started.
    pub fn new(tasks: Vec<AssetTask>) -> (r: AssetQueue)
        ensures
            r.remaining() == tasks@,
            r.in_flight() == 0,
    {
        let ghost all = tasks@;
        let mut tasks = tasks;
        let mut pending: Vec<AssetTask> = Vec::new();
        while tasks.len() > 0
            invariant
                tasks@.len() <= all.len(),
                tasks@ == all.subrange(0, tasks@.len() as int),
                pending@.len() == all.len() - tasks@.len(),
                forall|k: int| 0 <= k < pending@.len() ==> #[trigger] pending@[k] == all[all.len() - 1 - k],
            decreases tasks@.len(),
        {
            let t = tasks.pop().unwrap();
            pending.push(t);
        }
        let r = AssetQueue { pending, running: 0 };
        assert(r.remaining() =~= all);
        r
    }

    /// How many started fetches have not finished; never more than the limit.
    pub fn running(&self) -> (r: usize)
        ensures
            r == self.in_flight(),
            r <= MAX_CONCURRENT_DOWNLOADS,
    {
        proof {
            use_type_invariant(self);
        }
        self.running
    }

    /// The next thing to do: start the next task when one is left and a slot
    /// is free, wait while fetches run, and report the end once none is left
    /// and none runs.
    pub fn next(&mut self) -> (r: AssetStep)
        ensures
            final(self).in_flight() <= MAX_CONCURRENT_DOWNLOADS,
            (old(self).remaining().len() > 0 && old(self).in_flight() < MAX_CONCURRENT_DOWNLOADS) ==> (r
                == AssetStep::Start(old(self).remaining()[0]) && final(self).remaining() == old(
                self,
            ).remaining().drop_first() && final(self).in_flight() == old(self).in_flight() + 1),
            !(old(self).remaining().len() > 0 && old(self).in_flight() < MAX_CONCURRENT_DOWNLOADS) ==> (
            final(self).remaining() == old(self).remaining() && final(self).in_flight() == old(
                self,
            ).in_flight()),
            (old(self).remaining().len() > 0 && old(self).in_flight() == MAX_CONCURRENT_DOWNLOADS) ==> r is Wait,
            (old(self).remaining().len() == 0 && old(self).in_flight() > 0) ==> r is Wait,
            (old(self).remaining().len() == 0 && old(self).in_flight() == 0) ==> r is Done,
    {
        proof {
            use_type_invariant(&*self);
        }
        if self.pending.len() > 0 && download_slot_free(self.running) {
            let ghost before = self.remaining();
            let mut pending: Vec<AssetTask> = Vec::new();
            std::mem::swap(&mut pending, &mut self.pending);
            let task = pending.pop().unwrap();
            self.pending = pending;
            self.running = self.running + 1;
            assert(self.remaining() =~= before.drop_first());
            AssetStep::Start(task)
        } else if self.running > 0 {
            AssetStep::Wait
        } else {
            AssetStep::Done
        }
    }

    /// Notes that a started fetch finished.
    pub fn finished(&mut self)
        ensures
            final(self).remaining() == old(self).remaining(),
            final(self).in_flight() == if old(self).in_flight() > 0 {
                old(self).in_flight() - 1
            } else {
                0
            },
    {
        proof {
            use_type_invariant(&*self);
        }
        if self.running > 0 {
            self.running = self.running - 1;
        }
    }
}

/// The fetches of every object of an asset index, queued in the index's order.
/// Objects are only known once the index has been read, so no object fetch can
/// come before the index.
pub fn queue_assets(index: &AssetIndexManifest, objects_dir: &str) -> (r: AssetQueue)
    requires
        forall|i: int|
            0 <= i < index.objects@.len() ==> (two_byte_prefix(#[trigger] index.objects@[i].1.hash@) is Some),
    ensures
        r.in_flight() == 0,
        r.remaining().len() == index.objects@.len(),
        forall|i: int|
            0 <= i < r.remaining().len() ==> asset_task_matches(
                #[trigger] r.remaining()[i],
                objects_dir@,
                index.objects@[i].1.hash@,
            ),
{
    AssetQueue::new(plan_assets(index, objects_dir))
}
} // verus!
