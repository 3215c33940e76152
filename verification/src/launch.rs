//! Launching the game: the launch settings, the game's command line, and the
//! decisions of a launch from the version list to the running game.
use vstd::prelude::*;
use vstd::string::*;
use crate::java::{JavaInfo, find_java_for};
use crate::config::LauncherConfig;
use crate::layout::{version_game_dir, assets_dir_of, version_game_dir_in, assets_dir_in};
use crate::text::{decimal, decimal_text, all_digits, digits_value, lemma_decimal_reads_back, join_with, text_from, concat2, concat3, push_text, texts};
use crate::version::{VersionManifest, VersionDetail, Version, find_version};

verus! {

/// What the user asked to launch.
#[derive(Debug, Clone)]
pub struct Cli {
    /// The version to launch.
    pub game_version: String,
    /// The player name to use in the game.
    pub player_name: String,
    /// The most memory the game may use, in megabytes.
    pub max_memory: u32,
    /// Whether to search for Java again instead of using the recorded one.
    pub force_scan: bool,
}

/// Everything a launch of one version needs.
#[derive(Debug, Clone)]
pub struct LaunchContext {
    /// The version id, such as `1.20.1-fabric`.
    pub version_id: String,
    /// The checked Java executable.
    pub java_path: Option<String>,
    /// The core jar of the version.
    pub core_jar: String,
    /// Whether the player plays offline.
    pub offline: bool,
    /// The player.
    pub user: UserContext,
    /// The most memory the game may use, in megabytes.
    pub max_memory: Option<u32>,
    /// The class that starts the game.
    pub main_class: String,
    /// The jars of the class path.
    pub libraries: Vec<String>,
    /// The asset index id.
    pub asset_index_id: String,
}

/// The player of a launch.
#[derive(Debug, Clone)]
pub struct UserContext {
    /// The player name.
    pub username: String,
    /// The player's id.
    pub uuid: String,
    /// The access token, when the player signed in.
    pub access_token: Option<String>,
}

impl UserContext {
    /// A player with no name, id or token.
    pub fn new() -> (r: UserContext)
        ensures
            r.username@.len() == 0,
            r.uuid@.len() == 0,
            r.access_token is None,
    {
        UserContext { username: String::new(), uuid: String::new(), access_token: None }
    }
}

impl Default for UserContext {
    fn default() -> (r: UserContext)
        ensures
            r.username@.len() == 0,
            r.uuid@.len() == 0,
            r.access_token is None,
    {
        UserContext::new()
    }
}

impl LaunchContext {
    /// A launch with nothing chosen yet.
    pub fn new() -> (r: LaunchContext)
        ensures
            r.version_id@.len() == 0,
            r.java_path is None,
            r.core_jar@.len() == 0,
            !r.offline,
            r.user.username@.len() == 0,
            r.user.uuid@.len() == 0,
            r.user.access_token is None,
            r.max_memory is None,
            r.main_class@.len() == 0,
            r.libraries@.len() == 0,
            r.asset_index_id@.len() == 0,
    {
        LaunchContext {
            max_memory: None,
            version_id: String::new(),
            java_path: None,
            core_jar: String::new(),
            offline: false,
            user: UserContext::new(),
            main_class: String::new(),
            libraries: Vec::new(),
            asset_index_id: String::new(),
        }
    }
}

impl Default for LaunchContext {
    fn default() -> (r: LaunchContext)
        ensures
            r.version_id@.len() == 0,
            r.java_path is None,
            r.core_jar@.len() == 0,
            !r.offline,
            r.user.username@.len() == 0,
            r.user.uuid@.len() == 0,
            r.user.access_token is None,
            r.max_memory is None,
            r.main_class@.len() == 0,
            r.libraries@.len() == 0,
            r.asset_index_id@.len() == 0,
    {
        LaunchContext::new()
    }
}

/// The class path: the library jars in order, then the client jar, joined
/// with `:`.
pub open spec fn classpath_of(libraries: Seq<Seq<char>>, client_jar: Seq<char>) -> Seq<char> {
    join_with(libraries.push(client_jar), ":"@)
}

/// The game's command-line arguments after the `java` executable.
pub open spec fn game_args_of(
    max_memory: u32,
    classpath: Seq<char>,
    main_class: Seq<char>,
    player_name: Seq<char>,
    game_version: Seq<char>,
    game_dir: Seq<char>,
    assets_dir: Seq<char>,
    asset_index: Seq<char>,
) -> Seq<Seq<char>> {
    seq![
        "-Xmx"@ + decimal(max_memory as nat) + "M"@,
        "-XX:+UseG1GC"@,
        "-cp"@,
        classpath,
        main_class,
        "--username"@,
        player_name,
        "--version"@,
        game_version,
        "--gameDir"@,
        game_dir,
        "--assetsDir"@,
        assets_dir,
        "--assetIndex"@,
        asset_index,
        "--uuid"@,
        "00000000-0000-0000-0000-000000000000"@,
        "--accessToken"@,
        "offline_token"@,
        "--userType"@,
        "mojang"@,
        "--versionType"@,
        "release"@,
    ]
}

/// The command that starts the game.
#[derive(Debug)]
pub struct GameCommand {
    /// The `java` executable to run.
    pub program: String,
    /// The arguments after it.
    pub args: Vec<String>,
    /// The version's isolated game directory, which must exist before the start.
    pub game_dir: String,
}

/// The class path of the given library jars followed by the client jar.
pub fn build_classpath(libraries: &Vec<String>, client_jar: &str) -> (r: String)
    ensures
        r@ == classpath_of(texts(libraries@), client_jar@),
{
    let ghost parts = texts(libraries@).push(client_jar@);
    let mut r = String::new();
    let mut i: usize = 0;
    assert(parts.subrange(0, 0) =~= Seq::<Seq<char>>::empty());
    while i < libraries.len()
        invariant
            parts == texts(libraries@).push(client_jar@),
            i <= libraries@.len(),
            r@ == join_with(parts.subrange(0, i as int), ":"@),
        decreases libraries.len() - i,
    {
        let ghost sub = parts.subrange(0, i + 1);
        assert(sub.drop_last() =~= parts.subrange(0, i as int));
        assert(sub.last() == libraries@[i as int]@);
        if i > 0 {
            push_text(&mut r, ":");
        } else {
            assert(r@ =~= Seq::<char>::empty());
        }
        push_text(&mut r, libraries[i].as_str());
        proof {
            if i == 0 {
                assert(r@ =~= sub[0]);
            }
        }
        i = i + 1;
    }
    let ghost n = libraries@.len();
    let ghost sub = parts.subrange(0, (n + 1) as int);
    assert(sub.drop_last() =~= parts.subrange(0, n as int));
    assert(sub =~= parts);
    if libraries.len() > 0 {
        push_text(&mut r, ":");
    } else {
        assert(r@ =~= Seq::<char>::empty());
    }
    push_text(&mut r, client_jar);
    proof {
        if n == 0 {
            assert(r@ =~= sub[0]);
        }
    }
    r
}

/// The command that starts the game of version `detail` with the given jars,
/// Java executable and settings, under the launcher directory `mc`. The game
/// plays in the version's own directory and shares the global assets.
pub fn build_game_command(
    detail: &VersionDetail,
    client_jar: &str,
    libraries: &Vec<String>,
    java_executable: &str,
    cli: &Cli,
    mc: &str,
) -> (r: GameCommand)
    ensures
        r.program@ == java_executable@,
        r.game_dir@ == version_game_dir(mc@, detail.id@),
        texts(r.args@) == game_args_of(
            cli.max_memory,
            classpath_of(texts(libraries@), client_jar@),
            detail.main_class@,
            cli.player_name@,
            cli.game_version@,
            version_game_dir(mc@, detail.id@),
            assets_dir_of(mc@),
            detail.asset_index.id@,
        ),
{
    let classpath = build_classpath(libraries, client_jar);
    let game_dir = version_game_dir_in(mc, detail.id.as_str());
    let assets_dir = assets_dir_in(mc);
    let memory = decimal_text(cli.max_memory as u64);
    let mut args: Vec<String> = Vec::new();
    args.push(concat3("-Xmx", memory.as_str(), "M"));
    args.push(text_from("-XX:+UseG1GC"));
    args.push(text_from("-cp"));
    args.push(classpath);
    args.push(text_from(detail.main_class.as_str()));
    args.push(text_from("--username"));
    args.push(text_from(cli.player_name.as_str()));
    args.push(text_from("--version"));
    args.push(text_from(cli.game_version.as_str()));
    args.push(text_from("--gameDir"));
    args.push(text_from(game_dir.as_str()));
    args.push(text_from("--assetsDir"));
    args.push(assets_dir);
    args.push(text_from("--assetIndex"));
    args.push(text_from(detail.asset_index.id.as_str()));
    args.push(text_from("--uuid"));
    args.push(text_from("00000000-0000-0000-0000-000000000000"));
    args.push(text_from("--accessToken"));
    args.push(text_from("offline_token"));
    args.push(text_from("--userType"));
    args.push(text_from("mojang"));
    args.push(text_from("--versionType"));
    args.push(text_from("release"));
    assert(texts(args@) =~= game_args_of(
        cli.max_memory,
        classpath_of(texts(libraries@), client_jar@),
        detail.main_class@,
        cli.player_name@,
        cli.game_version@,
        version_game_dir(mc@, detail.id@),
        assets_dir_of(mc@),
        detail.asset_index.id@,
    ));
    GameCommand { program: text_from(java_executable), args, game_dir }
}


/// The heap limit the game is started with is exactly the memory asked for:
/// the first argument is `-Xmx`, then the requested number of megabytes as
/// plain decimal digits, then `M`, for every request.
pub proof fn lemma_heap_limit_is_requested(
    max_memory: u32,
    classpath: Seq<char>,
    main_class: Seq<char>,
    player_name: Seq<char>,
    game_version: Seq<char>,
    game_dir: Seq<char>,
    assets_dir: Seq<char>,
    asset_index: Seq<char>,
)
    ensures
        ({
            let a = game_args_of(
                max_memory,
                classpath,
                main_class,
                player_name,
                game_version,
                game_dir,
                assets_dir,
                asset_index,
            )[0];
            &&& a.len() >= 6
            &&& a.subrange(0, 4) == seq!['-', 'X', 'm', 'x']
            &&& a.last() == 'M'
            &&& all_digits(a.subrange(4, a.len() - 1))
            &&& digits_value(a.subrange(4, a.len() - 1)) == max_memory
        }),
{
    reveal_strlit("-Xmx");
    reveal_strlit("M");
    lemma_decimal_reads_back(max_memory as nat);
    let d = decimal(max_memory as nat);
    let a = "-Xmx"@ + d + "M"@;
    assert(a.subrange(0, 4) =~= seq!['-', 'X', 'm', 'x']);
    assert(a.subrange(4, a.len() - 1) =~= d);
}

/// The fixed choices of one launch.
#[derive(Debug, Clone)]
pub struct LaunchSettings {
    /// The version to launch.
    pub game_version: String,
    /// Whether to search for Java even when a recorded executable still works.
    pub force_scan: bool,
}

/// Where a launch stands. From the moment the version's details arrive, a
/// phase holds them together with `major`, the Java major version they ask for.
#[derive(Debug)]
pub enum LaunchPhase {
    /// Nothing has happened yet.
    Start,
    /// The version list is being fetched.
    AwaitManifest,
    /// The wanted version's details are being fetched.
    AwaitDetail,
    /// The executable recorded for `major` is being checked.
    AwaitCachedJava { detail: VersionDetail, major: u32 },
    /// Java installations are being searched for; `after_download` tells
    /// whether a runtime was just downloaded.
    AwaitScan { detail: VersionDetail, major: u32, after_download: bool },
    /// A Java runtime of `major` is being downloaded.
    AwaitJavaDownload { detail: VersionDetail, major: u32 },
    /// The chosen installation is being recorded in the settings.
    AwaitSave { detail: VersionDetail, major: u32, java: JavaInfo },
    /// The game is running.
    AwaitGame,
    /// The launch is over.
    Finished,
}

/// What the outside world reports back to a launch.
#[derive(Debug)]
pub enum LaunchEvent {
    /// The launch begins.
    Begin,
    /// The version list arrived.
    ManifestFetched(VersionManifest),
    /// The wanted version's details arrived.
    DetailFetched(VersionDetail),
    /// The executable recorded for the major version, with what running it
    /// reported (`None` when it did not run); `None` when none is recorded.
    CachedJavaChecked(Option<(String, Option<JavaInfo>)>),
    /// The Java installations found, in search order, without duplicates.
    JavaScanned(Vec<JavaInfo>),
    /// A runtime was downloaded and unpacked into this directory.
    JavaDownloaded(String),
    /// The settings were written.
    ConfigSaved,
    /// The game exited.
    GameExited,
    /// The last action failed with this report.
    Failed(String),
}

/// What a launch asks the outside world to do next.
#[derive(Debug)]
pub enum LaunchAction {
    /// Fetch the version list.
    FetchManifest,
    /// Fetch the version's details from `url`.
    FetchDetail { url: String },
    /// Run the executable recorded for this major version and report what it says.
    CheckCachedJava { major: u32 },
    /// Search for Java installations, also inside `extra_dir` when given.
    ScanJava { extra_dir: Option<String> },
    /// Download a runtime of this major version.
    DownloadJava { major: u32 },
    /// Record `path` as the executable of this major version and write the settings.
    SaveJava { major: u32, path: String },
    /// Fetch the files the version needs and start its game with `java`.
    RunGame { detail: VersionDetail, java: String },
    /// End the launch successfully.
    Finish,
    /// End the launch with this report.
    Fail { message: String },
}

/// The Java major version a version's details ask for.
pub open spec fn java_major_of(detail: VersionDetail) -> int {
    detail.java_version.major_version as int
}

/// Whether a phase is consistent: the major version it holds is the one its
/// version details ask for, and an installation it holds runs that version.
pub open spec fn phase_ok(phase: LaunchPhase) -> bool {
    match phase {
        LaunchPhase::AwaitCachedJava { detail, major } => major == java_major_of(detail),
        LaunchPhase::AwaitScan { detail, major, .. } => major == java_major_of(detail),
        LaunchPhase::AwaitJavaDownload { detail, major } => major == java_major_of(detail),
        LaunchPhase::AwaitSave { detail, major, java } => major == java_major_of(detail)
            && java.major_version == major,
        _ => true,
    }
}

/// Whether `url` is where the first version of `versions` with id `id` is
/// published (`None` when no version has that id).
pub open spec fn version_url_for(versions: Seq<Version>, id: Seq<char>, url: Option<String>) -> bool {
    match url {
        Some(u) => exists|i: int|
            0 <= i < versions.len() && #[trigger] versions[i].id@ == id && u == versions[i].url
                && forall|j: int| 0 <= j < i ==> #[trigger] versions[j].id@ != id,
        None => forall|j: int| 0 <= j < versions.len() ==> #[trigger] versions[j].id@ != id,
    }
}

/// Whether `java` is the first installation of `found` with the given major version.
pub open spec fn first_java_with(found: Seq<JavaInfo>, major: u32, java: JavaInfo) -> bool {
    exists|i: int|
        0 <= i < found.len() && #[trigger] found[i] == java && java.major_version == major
            && forall|j: int| 0 <= j < i ==> #[trigger] found[j].major_version != major
}

/// The report when no runtime of the required version turns up after a download.
pub open spec fn not_found_after_download(major: u32) -> Seq<char> {
    "Failed to locate Java executable after downloading version "@ + decimal(major as nat)
}

/// The report when a version asks for a Java major version past `u32::MAX`.
pub open spec fn unsupported_java(major: u64) -> Seq<char> {
    "Unsupported Java major version "@ + decimal(major as nat)
}

/// The report when an event comes that the phase does not expect.
pub open spec fn unexpected_event() -> Seq<char> {
    "unexpected launch event"@
}

/// Whether a phase waits for this kind of event (a failure report is always
/// taken).
pub open spec fn event_expected(phase: LaunchPhase, event: LaunchEvent) -> bool {
    ||| event is Failed
    ||| (phase is Start && event is Begin)
    ||| (phase is AwaitManifest && event is ManifestFetched)
    ||| (phase is AwaitDetail && event is DetailFetched)
    ||| (phase is AwaitCachedJava && event is CachedJavaChecked)
    ||| (phase is AwaitScan && event is JavaScanned)
    ||| (phase is AwaitJavaDownload && event is JavaDownloaded)
    ||| (phase is AwaitSave && event is ConfigSaved)
    ||| (phase is AwaitGame && event is GameExited)
}

/// The end of a launch on an event its phase does not wait for.
fn unexpected() -> (r: (LaunchPhase, LaunchAction))
    ensures
        r.0 is Finished,
        r.1 matches LaunchAction::Fail { message } && message@ == unexpected_event(),
{
    (LaunchPhase::Finished, LaunchAction::Fail { message: text_from("unexpected launch event") })
}

/// Decides the next step of a launch from where it stands and what was reported.
///
/// A launch fetches the version list and then the wanted version's details,
/// which name the Java major version the game needs; when the list does not
/// hold the version, the launch ends. Then the Java executable for that major
/// version is settled: the recorded one when it still runs that version and no
/// new search is forced, else the first installation of that version that a
/// search finds, downloading a runtime and searching again when none is found;
/// an executable found by a search is recorded. Then the game runs with it.
/// Any failure ends the launch with its report.
pub fn launch_step(settings: &LaunchSettings, phase: LaunchPhase, event: LaunchEvent) -> (r: (LaunchPhase, LaunchAction))
    requires
        phase_ok(phase),
    ensures
        phase_ok(r.0),
        // Failures end the launch with their report.
        event matches LaunchEvent::Failed(m) ==> r.0 is Finished && r.1 == (LaunchAction::Fail { message: m }),
        (phase is Start && event is Begin) ==> r.0 is AwaitManifest && r.1 is FetchManifest,
        // The wanted version's details are fetched from where the list publishes them.
        (phase is AwaitManifest && event is ManifestFetched) ==> match r.1 {
            LaunchAction::FetchDetail { url } => r.0 is AwaitDetail && version_url_for(
                event->ManifestFetched_0.versions@,
                settings.game_version@,
                Some(url),
            ),
            LaunchAction::Finish => r.0 is Finished && version_url_for(
                event->ManifestFetched_0.versions@,
                settings.game_version@,
                None,
            ),
            _ => false,
        },
        // The details name the Java major version to settle.
        (phase is AwaitDetail && event is DetailFetched) ==> if event->DetailFetched_0.java_version.major_version
            <= u32::MAX {
            r.0 == (LaunchPhase::AwaitCachedJava {
                detail: event->DetailFetched_0,
                major: event->DetailFetched_0.java_version.major_version as u32,
            }) && r.1 == (LaunchAction::CheckCachedJava {
                major: event->DetailFetched_0.java_version.major_version as u32,
            })
        } else {
            r.0 is Finished && (r.1 matches LaunchAction::Fail { message } && message@ == unsupported_java(
                event->DetailFetched_0.java_version.major_version,
            ))
        },
        // The recorded executable serves only when it ran and reported the
        // major version, and no new search is forced.
        phase matches LaunchPhase::AwaitCachedJava { detail, major } ==> (event is CachedJavaChecked ==> 
        if !settings.force_scan && (event->CachedJavaChecked_0 matches Some((_, Some(info)))
            && info.major_version == major) {
            r.0 is AwaitGame && r.1 == (LaunchAction::RunGame {
                detail,
                java: (event->CachedJavaChecked_0->0).0,
            })
        } else {
            r.0 == (LaunchPhase::AwaitScan { detail, major, after_download: false }) && r.1 == (
            LaunchAction::ScanJava { extra_dir: None })
        }),
        // A search settles on the first installation of the major version.
        phase matches LaunchPhase::AwaitScan { detail, major, after_download } ==> (event is JavaScanned
            ==> match r.0 {
            LaunchPhase::AwaitSave { detail: d, major: m, java } => d == detail && m == major
                && first_java_with(event->JavaScanned_0@, major, java) && r.1 == (LaunchAction::SaveJava {
                major,
                path: java.path,
            }),
            LaunchPhase::AwaitJavaDownload { detail: d, major: m } => !after_download && d == detail && m
                == major && r.1 == (LaunchAction::DownloadJava { major }) && forall|j: int|
                0 <= j < event->JavaScanned_0@.len() ==> #[trigger] event->JavaScanned_0@[j].major_version
                    != major,
            LaunchPhase::Finished => after_download && (r.1 matches LaunchAction::Fail { message }
                && message@ == not_found_after_download(major)) && forall|j: int|
                0 <= j < event->JavaScanned_0@.len() ==> #[trigger] event->JavaScanned_0@[j].major_version
                    != major,
            _ => false,
        }),
        phase matches LaunchPhase::AwaitJavaDownload { detail, major } ==> (event is JavaDownloaded ==> 
        r.0 == (LaunchPhase::AwaitScan { detail, major, after_download: true }) && r.1 == (
        LaunchAction::ScanJava { extra_dir: Some(event->JavaDownloaded_0) })),
        // A recorded installation is the one the game runs with.
        phase matches LaunchPhase::AwaitSave { detail, java, .. } ==> (event is ConfigSaved ==> r.0 is AwaitGame
            && r.1 == (LaunchAction::RunGame { detail, java: java.path })),
        (phase is AwaitGame && event is GameExited) ==> r.0 is Finished && r.1 is Finish,
        // An event the phase does not wait for ends the launch.
        !event_expected(phase, event) ==> (r.0 is Finished && (r.1 matches LaunchAction::Fail { message }
            && message@ == unexpected_event())),
        // Every Java action is about the major version the version's details ask for.
        r.1 matches LaunchAction::CheckCachedJava { major } ==> (r.0 matches LaunchPhase::AwaitCachedJava {
            detail,
            major: m,
        } && m == major && major == java_major_of(detail)),
        r.1 matches LaunchAction::DownloadJava { major } ==> (r.0 matches LaunchPhase::AwaitJavaDownload {
            detail,
            major: m,
        } && m == major && major == java_major_of(detail)),
        r.1 matches LaunchAction::SaveJava { major, path } ==> (r.0 matches LaunchPhase::AwaitSave {
            detail,
            major: m,
            java,
        } && m == major && major == java_major_of(detail) && java.major_version == major && java.path
            == path),
        // The game runs with an installation of the major version its details
        // ask for: the checked recorded one (when no new search is forced) or
        // the one just recorded.
        r.1 matches LaunchAction::RunGame { detail, java } ==> ((phase matches LaunchPhase::AwaitCachedJava {
            detail: d,
            ..
        } && d == detail && !settings.force_scan && (event matches LaunchEvent::CachedJavaChecked(
            Some((p, Some(info))),
        ) && p == java && info.major_version == java_major_of(detail))) || (
        phase matches LaunchPhase::AwaitSave { detail: d, java: info, .. } && d == detail && info.path == java
            && info.major_version == java_major_of(detail) && event is ConfigSaved)),
{
    match event {
        LaunchEvent::Failed(m) => (LaunchPhase::Finished, LaunchAction::Fail { message: m }),
        LaunchEvent::Begin => match phase {
            LaunchPhase::Start => (LaunchPhase::AwaitManifest, LaunchAction::FetchManifest),
            _ => unexpected(),
        },
        LaunchEvent::ManifestFetched(manifest) => match phase {
            LaunchPhase::AwaitManifest => match find_version(&manifest, settings.game_version.as_str()) {
                Some(i) => (
                    LaunchPhase::AwaitDetail,
                    LaunchAction::FetchDetail { url: manifest.versions[i].url.clone() },
                ),
                None => (LaunchPhase::Finished, LaunchAction::Finish),
            },
            _ => unexpected(),
        },
        LaunchEvent::DetailFetched(detail) => match phase {
            LaunchPhase::AwaitDetail => {
                let wanted = detail.java_version.major_version;
                if wanted <= 0xffff_ffffu64 {
                    let major = wanted as u32;
                    (LaunchPhase::AwaitCachedJava { detail, major }, LaunchAction::CheckCachedJava { major })
                } else {
                    let num = decimal_text(wanted);
                    let message = concat2("Unsupported Java major version ", num.as_str());
                    (LaunchPhase::Finished, LaunchAction::Fail { message })
                }
            },
            _ => unexpected(),
        },
        LaunchEvent::CachedJavaChecked(checked) => match phase {
            LaunchPhase::AwaitCachedJava { detail, major } => {
                match checked {
                    Some((path, report)) => {
                        if !settings.force_scan {
                            match LauncherConfig::java_if_valid(path, major, report) {
                                Some(java) => {
                                    return (LaunchPhase::AwaitGame, LaunchAction::RunGame { detail, java });
                                },
                                None => {},
                            }
                        }
                    },
                    None => {},
                }
                (LaunchPhase::AwaitScan { detail, major, after_download: false }, LaunchAction::ScanJava {
                    extra_dir: None,
                })
            },
            _ => unexpected(),
        },
        LaunchEvent::JavaScanned(found) => match phase {
            LaunchPhase::AwaitScan { detail, major, after_download } => {
                match find_java_for(&found, major) {
                    Some(i) => {
                        let java = found[i].clone_info();
                        let path = java.path.clone();
                        (LaunchPhase::AwaitSave { detail, major, java }, LaunchAction::SaveJava { major, path })
                    },
                    None => {
                        if after_download {
                            let num = decimal_text(major as u64);
                            let message = concat2(
                                "Failed to locate Java executable after downloading version ",
                                num.as_str(),
                            );
                            (LaunchPhase::Finished, LaunchAction::Fail { message })
                        } else {
                            (LaunchPhase::AwaitJavaDownload { detail, major }, LaunchAction::DownloadJava { major })
                        }
                    },
                }
            },
            _ => unexpected(),
        },
        LaunchEvent::JavaDownloaded(dir) => match phase {
            LaunchPhase::AwaitJavaDownload { detail, major } => (
                LaunchPhase::AwaitScan { detail, major, after_download: true },
                LaunchAction::ScanJava { extra_dir: Some(dir) },
            ),
            _ => unexpected(),
        },
        LaunchEvent::ConfigSaved => match phase {
            LaunchPhase::AwaitSave { detail, java, .. } => {
                let path = java.path;
                (LaunchPhase::AwaitGame, LaunchAction::RunGame { detail, java: path })
            },
            _ => unexpected(),
        },
        LaunchEvent::GameExited => match phase {
            LaunchPhase::AwaitGame => (LaunchPhase::Finished, LaunchAction::Finish),
            _ => unexpected(),
        },
    }
}
} // verus!
