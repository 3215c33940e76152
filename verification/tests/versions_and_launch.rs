use nexus_launcher::java::JavaInfo;
use nexus_launcher::launch::{
    build_classpath, build_game_command, launch_step, Cli, LaunchAction, LaunchContext, LaunchEvent,
    LaunchPhase, LaunchSettings, UserContext,
};
use nexus_launcher::loader::{
    fabric_profile_url, latest_stable_loader, loader_list_url, maven_to_path, plan_fabric_libraries,
    FabricLibrary, FabricLoader, FabricLoaderResponse, FabricProfile, LoaderError,
};
use nexus_launcher::version::{
    asset_task, download_slot_free, find_version, has_hash_prefix, plan_assets, plan_libraries,
    queue_assets, AssetQueue, AssetStep, AssetTask, Artifact, AssetIndex, AssetIndexManifest, AssetObject, Client, DownloadInfo, Downloads, File,
    JavaVersion, Latest, LibDownloads, Library, Logging, Version, VersionDetail, VersionManifest,
};

fn version(id: &str, url: &str) -> Version {
    Version {
        id: id.into(),
        version_type: "release".into(),
        url: url.into(),
        time: "t".into(),
        release_time: "r".into(),
    }
}

fn manifest() -> VersionManifest {
    VersionManifest {
        latest: Latest { release: "1.20.1".into(), snapshot: "23w01a".into() },
        versions: vec![version("1.20.1", "https://x/1.20.1.json"), version("1.8.9", "https://x/1.8.9.json")],
    }
}

fn info(s: &str) -> DownloadInfo {
    DownloadInfo { sha1: s.into(), size: 1, url: format!("https://x/{}", s) }
}

fn detail() -> VersionDetail {
    detail_with_java(17)
}

fn detail_with_java(major: u64) -> VersionDetail {
    VersionDetail {
        id: "1.20.1".into(),
        downloads: Downloads { client: info("c"), server: info("s") },
        libraries: vec![
            Library {
                name: "org.a:a:1".into(),
                downloads: LibDownloads {
                    artifact: Some(Artifact { path: "org/a/a/1/a-1.jar".into(), sha1: "h1".into(), size: 1, url: "https://l/a".into() }),
                },
            },
            Library { name: "native:only:1".into(), downloads: LibDownloads { artifact: None } },
            Library {
                name: "org.b:b:2".into(),
                downloads: LibDownloads {
                    artifact: Some(Artifact { path: "org/b/b/2/b-2.jar".into(), sha1: "h2".into(), size: 1, url: "https://l/b".into() }),
                },
            },
        ],
        main_class: "net.minecraft.client.main.Main".into(),
        arguments: "{}".into(),
        asset_index: AssetIndex { id: "5".into(), sha1: "ai".into(), size: 1, total_size: 2, url: "https://x/5.json".into() },
        assets: "5".into(),
        compliance_level: 1,
        java_version: JavaVersion { component: "java-runtime-gamma".into(), major_version: major },
        logging: Logging {
            client: Client {
                argument: "-Dlog".into(),
                file: File { id: "client-1.12.xml".into(), sha1: "f".into(), size: 1, url: "https://x/f".into() },
                type_: "log4j2-xml".into(),
            },
        },
        minimum_launcher_version: 21,
        release_time: "r".into(),
        time: "t".into(),
        type_: "release".into(),
    }
}

#[test]
fn version_lookup_by_id() {
    let m = manifest();
    assert_eq!(find_version(&m, "1.8.9"), Some(1));
    assert_eq!(find_version(&m, "1.7"), None);
}

#[test]
fn library_plan_skips_libraries_without_jar() {
    let p = plan_libraries(&detail(), "/h/.minecraft");
    assert_eq!(
        p.classpath,
        vec!["/h/.minecraft/libraries/org/a/a/1/a-1.jar", "/h/.minecraft/libraries/org/b/b/2/b-2.jar"]
    );
    assert_eq!(p.tasks.len(), 2);
    assert_eq!(p.tasks[1].name, "org.b:b:2");
    assert_eq!(p.tasks[1].url, "https://l/b");
    assert_eq!(p.tasks[1].sha1, "h2");
    assert_eq!(p.tasks[1].path, p.classpath[1]);
}

#[test]
fn asset_objects_grouped_by_prefix() {
    let t = asset_task("/h/.minecraft/assets/objects", "bdf48ef6b5d0d23bbb02e17d04865216179f510a");
    assert_eq!(t.url, "https://resources.download.minecraft.net/bd/bdf48ef6b5d0d23bbb02e17d04865216179f510a");
    assert_eq!(t.path, "/h/.minecraft/assets/objects/bd/bdf48ef6b5d0d23bbb02e17d04865216179f510a");
    assert!(has_hash_prefix("ab"));
    assert!(!has_hash_prefix("a"));
    assert!(has_hash_prefix("éx"));
    assert!(!has_hash_prefix("aé"));
    let idx = AssetIndexManifest {
        objects: vec![
            ("a".into(), AssetObject { hash: "0011".into(), size: 1 }),
            ("b".into(), AssetObject { hash: "ff22".into(), size: 1 }),
        ],
    };
    let ts = plan_assets(&idx, "/o");
    assert_eq!(ts.len(), 2);
    assert_eq!(ts[1].path, "/o/ff/ff22");
    assert!(download_slot_free(31));
    assert!(!download_slot_free(32));
}

#[test]
fn classpath_and_game_command() {
    assert_eq!(build_classpath(&vec![], "/c.jar"), "/c.jar");
    assert_eq!(build_classpath(&vec!["/a.jar".into(), "/b.jar".into()], "/c.jar"), "/a.jar:/b.jar:/c.jar");
    let cli = Cli { game_version: "1.20.1".into(), player_name: "AuroBreeze".into(), max_memory: 2048, force_scan: false };
    let cmd = build_game_command(&detail(), "/h/.minecraft/clients/1.20.1/1.20.1.jar", &vec!["/l/a.jar".into()], "/usr/bin/java", &cli, "/h/.minecraft");
    assert_eq!(cmd.program, "/usr/bin/java");
    assert_eq!(cmd.game_dir, "/h/.minecraft/versions/1.20.1");
    assert_eq!(
        cmd.args,
        vec![
            "-Xmx2048M", "-XX:+UseG1GC", "-cp", "/l/a.jar:/h/.minecraft/clients/1.20.1/1.20.1.jar",
            "net.minecraft.client.main.Main", "--username", "AuroBreeze", "--version", "1.20.1",
            "--gameDir", "/h/.minecraft/versions/1.20.1", "--assetsDir", "/h/.minecraft/assets",
            "--assetIndex", "5", "--uuid", "00000000-0000-0000-0000-000000000000", "--accessToken",
            "offline_token", "--userType", "mojang", "--versionType", "release",
        ]
    );
}

#[test]
fn empty_contexts() {
    let c = LaunchContext::new();
    assert!(c.version_id.is_empty() && c.java_path.is_none() && c.libraries.is_empty() && !c.offline);
    let d = LaunchContext::default();
    assert!(d.version_id.is_empty() && d.java_path.is_none() && d.core_jar.is_empty() && !d.offline);
    assert!(d.user.username.is_empty() && d.user.uuid.is_empty() && d.user.access_token.is_none());
    assert!(d.max_memory.is_none() && d.main_class.is_empty() && d.libraries.is_empty());
    assert!(d.asset_index_id.is_empty());
    let u = UserContext::new();
    assert!(u.username.is_empty() && u.uuid.is_empty() && u.access_token.is_none());
}

#[test]
fn fabric_loader_choice_and_paths() {
    let resp = vec![
        FabricLoaderResponse { loader: FabricLoader { version: "0.16.0-beta".into(), stable: false } },
        FabricLoaderResponse { loader: FabricLoader { version: "0.15.11".into(), stable: true } },
        FabricLoaderResponse { loader: FabricLoader { version: "0.15.10".into(), stable: true } },
    ];
    assert_eq!(latest_stable_loader(&resp), Ok("0.15.11".to_string()));
    assert_eq!(latest_stable_loader(&resp[..1].iter().map(|r| FabricLoaderResponse { loader: FabricLoader { version: r.loader.version.clone(), stable: r.loader.stable } }).collect()), Err(LoaderError::NoStableLoader));
    assert_eq!(LoaderError::NoStableLoader.message(), "Cannot find latest stable Fabric Loader");
    assert_eq!(loader_list_url("1.20.1"), "https://meta.fabricmc.net/v2/versions/loader/1.20.1");
    assert_eq!(fabric_profile_url("1.20.1", "0.15.11"), "https://meta.fabricmc.net/v2/versions/loader/1.20.1/0.15.11/profile/json");
    assert_eq!(maven_to_path("net.fabricmc:fabric-loader:0.15.11"), Some("net/fabricmc/fabric-loader/0.15.11/fabric-loader-0.15.11.jar".to_string()));
    assert_eq!(maven_to_path("bad"), None);
    let profile = FabricProfile {
        main_class: "net.fabricmc.loader.impl.launch.knot.KnotClient".into(),
        libraries: vec![
            FabricLibrary { name: "org.ow2.asm:asm:9.6".into(), url: "https://maven.fabricmc.net/".into() },
            FabricLibrary { name: "broken".into(), url: "https://x/".into() },
        ],
    };
    let plan = plan_fabric_libraries(&profile, "/h/.minecraft");
    assert_eq!(plan.tasks.len(), 1);
    assert_eq!(plan.tasks[0].url, "https://maven.fabricmc.net/org/ow2/asm/asm/9.6/asm-9.6.jar");
    assert_eq!(plan.tasks[0].path, "/h/.minecraft/libraries/org/ow2/asm/asm/9.6/asm-9.6.jar");
    assert_eq!(plan.unresolved, vec!["broken".to_string()]);
}

fn settings(force_scan: bool) -> LaunchSettings {
    LaunchSettings { game_version: "1.20.1".into(), force_scan }
}

fn java(path: &str, major: u32) -> JavaInfo {
    JavaInfo { path: path.into(), major_version: major, full_version: format!("{}.0.1", major) }
}

/// Runs a launch from the start up to the check of the recorded Java.
fn up_to_cached_check(s: &LaunchSettings, major: u64) -> LaunchPhase {
    let (p, a) = launch_step(s, LaunchPhase::Start, LaunchEvent::Begin);
    assert!(matches!(a, LaunchAction::FetchManifest));
    let (p, a) = launch_step(s, p, LaunchEvent::ManifestFetched(manifest()));
    match &a {
        LaunchAction::FetchDetail { url } => assert_eq!(url, "https://x/1.20.1.json"),
        other => panic!("unexpected {:?}", other),
    }
    assert!(matches!(p, LaunchPhase::AwaitDetail));
    let (p, a) = launch_step(s, p, LaunchEvent::DetailFetched(detail_with_java(major)));
    match a {
        LaunchAction::CheckCachedJava { major: m } => assert_eq!(m as u64, major),
        other => panic!("unexpected {:?}", other),
    }
    p
}

#[test]
fn launch_uses_valid_cached_java() {
    let s = settings(false);
    let p = up_to_cached_check(&s, 17);
    let (p, a) = launch_step(&s, p, LaunchEvent::CachedJavaChecked(Some(("/usr/bin/java".into(), Some(java("/usr/bin/java", 17))))));
    match a {
        LaunchAction::RunGame { detail, java } => {
            assert_eq!(detail.id, "1.20.1");
            assert_eq!(detail.java_version.major_version, 17);
            assert_eq!(java, "/usr/bin/java");
        }
        other => panic!("unexpected {:?}", other),
    }
    let (p, a) = launch_step(&s, p, LaunchEvent::GameExited);
    assert!(matches!(a, LaunchAction::Finish));
    assert!(matches!(p, LaunchPhase::Finished));
}

#[test]
fn forced_scan_ignores_cache_and_downloads_when_needed() {
    let s = settings(true);
    let p = up_to_cached_check(&s, 17);
    let (p, a) = launch_step(&s, p, LaunchEvent::CachedJavaChecked(Some(("/usr/bin/java".into(), Some(java("/usr/bin/java", 17))))));
    assert!(matches!(a, LaunchAction::ScanJava { extra_dir: None }));
    let (p, a) = launch_step(&s, p, LaunchEvent::JavaScanned(vec![java("/j8", 8)]));
    assert!(matches!(a, LaunchAction::DownloadJava { major: 17 }));
    let (p, a) = launch_step(&s, p, LaunchEvent::JavaDownloaded("/rt/jre-17".into()));
    match &a {
        LaunchAction::ScanJava { extra_dir: Some(d) } => assert_eq!(d, "/rt/jre-17"),
        other => panic!("unexpected {:?}", other),
    }
    let (p, a) = launch_step(&s, p, LaunchEvent::JavaScanned(vec![java("/j8", 8), java("/rt/jre-17/bin/java", 17)]));
    match &a {
        LaunchAction::SaveJava { major: 17, path } => assert_eq!(path, "/rt/jre-17/bin/java"),
        other => panic!("unexpected {:?}", other),
    }
    let (_, a) = launch_step(&s, p, LaunchEvent::ConfigSaved);
    match a {
        LaunchAction::RunGame { java, detail } => {
            assert_eq!(java, "/rt/jre-17/bin/java");
            assert_eq!(detail.id, "1.20.1");
        }
        other => panic!("unexpected {:?}", other),
    }
}

#[test]
fn java_follows_the_version_details() {
    // A version that asks for Java 8, as 1.8.9 does: a recorded Java 17 does
    // not serve, and the search settles on the Java 8 it finds.
    let s = settings(false);
    let p = up_to_cached_check(&s, 8);
    let (p, a) = launch_step(&s, p, LaunchEvent::CachedJavaChecked(Some(("/j17".into(), Some(java("/j17", 17))))));
    assert!(matches!(a, LaunchAction::ScanJava { extra_dir: None }));
    let (p, a) = launch_step(&s, p, LaunchEvent::JavaScanned(vec![java("/j17", 17), java("/j8", 8)]));
    match &a {
        LaunchAction::SaveJava { major: 8, path } => assert_eq!(path, "/j8"),
        other => panic!("unexpected {:?}", other),
    }
    let (_, a) = launch_step(&s, p, LaunchEvent::ConfigSaved);
    match a {
        LaunchAction::RunGame { java, .. } => assert_eq!(java, "/j8"),
        other => panic!("unexpected {:?}", other),
    }
    let p = up_to_cached_check(&s, 21);
    let (_, a) = launch_step(&s, p, LaunchEvent::JavaScanned(vec![]));
    assert!(matches!(a, LaunchAction::Fail { .. }));
    let p = up_to_cached_check(&s, 21);
    let (p, a) = launch_step(&s, p, LaunchEvent::CachedJavaChecked(Some(("/gone".into(), None))));
    assert!(matches!(a, LaunchAction::ScanJava { extra_dir: None }));
    let q = up_to_cached_check(&s, 21);
    let (_, b) = launch_step(&s, q, LaunchEvent::CachedJavaChecked(None));
    assert!(matches!(b, LaunchAction::ScanJava { extra_dir: None }));
    let (_, a) = launch_step(&s, p, LaunchEvent::JavaScanned(vec![java("/j8", 8)]));
    assert!(matches!(a, LaunchAction::DownloadJava { major: 21 }));
}

#[test]
fn launch_rejects_java_major_past_u32() {
    let s = settings(false);
    let (_, a) = launch_step(&s, LaunchPhase::AwaitDetail, LaunchEvent::DetailFetched(detail_with_java(5_000_000_000)));
    match a {
        LaunchAction::Fail { message } => assert_eq!(message, "Unsupported Java major version 5000000000"),
        other => panic!("unexpected {:?}", other),
    }
}

#[test]
fn launch_fails_when_downloaded_java_is_missing() {
    let s = settings(false);
    let p = LaunchPhase::AwaitScan { detail: detail(), major: 17, after_download: true };
    let (p, a) = launch_step(&s, p, LaunchEvent::JavaScanned(vec![]));
    match a {
        LaunchAction::Fail { message } => assert_eq!(message, "Failed to locate Java executable after downloading version 17"),
        other => panic!("unexpected {:?}", other),
    }
    assert!(matches!(p, LaunchPhase::Finished));
}

#[test]
fn unknown_version_ends_without_game() {
    let s = LaunchSettings { game_version: "0.0".into(), force_scan: false };
    let (p, a) = launch_step(&s, LaunchPhase::AwaitManifest, LaunchEvent::ManifestFetched(manifest()));
    assert!(matches!(a, LaunchAction::Finish));
    assert!(matches!(p, LaunchPhase::Finished));
    let (_, a) = launch_step(&s, LaunchPhase::AwaitGame, LaunchEvent::Failed("boom".into()));
    match a {
        LaunchAction::Fail { message } => assert_eq!(message, "boom"),
        other => panic!("unexpected {:?}", other),
    }
    let (_, a) = launch_step(&s, LaunchPhase::AwaitDetail, LaunchEvent::GameExited);
    match a {
        LaunchAction::Fail { message } => assert_eq!(message, "unexpected launch event"),
        other => panic!("unexpected {:?}", other),
    }
}

fn task(n: usize) -> AssetTask {
    AssetTask { url: format!("https://x/{}", n), path: format!("/o/{}", n), hash: format!("{:04}", n) }
}

#[test]
fn asset_queue_keeps_at_most_the_limit_running() {
    let tasks: Vec<AssetTask> = (0..40).map(task).collect();
    let mut q = AssetQueue::new(tasks);
    let mut started: Vec<String> = Vec::new();
    let mut running = 0usize;
    let mut most = 0usize;
    let mut waits = 0usize;
    loop {
        match q.next() {
            AssetStep::Start(t) => {
                started.push(t.url);
                running += 1;
            }
            AssetStep::Wait => {
                waits += 1;
                assert!(running > 0);
                q.finished();
                running -= 1;
            }
            AssetStep::Done => break,
        }
        assert_eq!(q.running(), running);
        most = most.max(running);
    }
    assert_eq!(most, 32);
    assert_eq!(waits, 40);
    assert_eq!(started, (0..40).map(|n| format!("https://x/{}", n)).collect::<Vec<_>>());
    let mut empty = AssetQueue::new(vec![]);
    assert!(matches!(empty.next(), AssetStep::Done));
}

#[test]
fn asset_queue_follows_the_index() {
    let idx = AssetIndexManifest {
        objects: vec![
            ("a".into(), AssetObject { hash: "0011".into(), size: 1 }),
            ("b".into(), AssetObject { hash: "ff22".into(), size: 1 }),
        ],
    };
    let mut q = queue_assets(&idx, "/o");
    assert_eq!(q.running(), 0);
    match q.next() {
        AssetStep::Start(t) => assert_eq!(t.path, "/o/00/0011"),
        other => panic!("unexpected {:?}", other),
    }
    match q.next() {
        AssetStep::Start(t) => assert_eq!(t.url, "https://resources.download.minecraft.net/ff/ff22"),
        other => panic!("unexpected {:?}", other),
    }
    assert!(matches!(q.next(), AssetStep::Wait));
}

#[test]
fn asset_index_keeps_one_object_per_name() {
    let mut idx = AssetIndexManifest::new();
    idx.insert("a".into(), AssetObject { hash: "0011".into(), size: 1 });
    idx.insert("b".into(), AssetObject { hash: "ff22".into(), size: 2 });
    idx.insert("a".into(), AssetObject { hash: "3344".into(), size: 3 });
    assert_eq!(idx.objects.len(), 2);
    assert_eq!(idx.objects[0].0, "a");
    assert_eq!(idx.objects[0].1.hash, "3344");
    assert_eq!(idx.objects[1].0, "b");
}
