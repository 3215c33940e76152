use nexus_launcher::config::LauncherConfig;
use nexus_launcher::java::{
    add_if_new, find_java_for, java_bin_in, java_info_from_output, java_scan_dirs,
    capture_java_version, is_same_java, merge_java_candidates, parse_major_version, plan_java_download, same_path, JavaInfo,
};

fn info(path: &str, major: u32, full: &str) -> JavaInfo {
    JavaInfo { path: path.to_string(), major_version: major, full_version: full.to_string() }
}

#[test]
fn major_version_of_old_and_new_java() {
    assert_eq!(parse_major_version("1.8.0_382"), Some(8));
    assert_eq!(parse_major_version("17.0.8"), Some(17));
    assert_eq!(parse_major_version("21"), Some(21));
    assert_eq!(parse_major_version("1"), Some(1));
    assert_eq!(parse_major_version("1.x"), None);
    assert_eq!(parse_major_version("abc"), None);
    assert_eq!(parse_major_version(""), None);
}

#[test]
fn version_read_from_java_output() {
    let out = "openjdk version \"17.0.8\" 2023-07-18\nOpenJDK Runtime Environment";
    let i = java_info_from_output("/usr/bin/java", out).unwrap();
    assert_eq!(i.path, "/usr/bin/java");
    assert_eq!(i.major_version, 17);
    assert_eq!(i.full_version, "17.0.8");

    let old = "java version \"1.8.0_382\"\nJava(TM) SE Runtime Environment";
    let i = java_info_from_output("java", old).unwrap();
    assert_eq!(i.major_version, 8);
    assert_eq!(i.full_version, "1.8.0_382");

    assert!(java_info_from_output("java", "no version here").is_none());
    assert!(java_info_from_output("java", "version \"\" then version \"11.0.2\"").is_some());
    assert_eq!(java_info_from_output("java", "version \"\" then version \"11.0.2\"").unwrap().major_version, 11);
    assert!(java_info_from_output("java", "version \"unterminated").is_none());
    assert!(java_info_from_output("java", "version \"weird\"").is_none());
}

#[test]
fn duplicates_are_dropped_in_order() {
    let a = info("/a/java", 17, "17.0.8");
    let same_path = info("/a/java", 21, "21.0.1");
    let same_version = info("/b/java", 17, "17.0.8");
    let other = info("/c/java", 8, "1.8.0_382");
    let merged = merge_java_candidates(vec![a.clone(), same_path, same_version, other.clone()]);
    assert_eq!(merged.len(), 2);
    assert_eq!(merged[0].path, a.path);
    assert_eq!(merged[1].path, other.path);

    let again = merge_java_candidates(merged.clone());
    assert_eq!(again.len(), merged.len());

    let mut v = Vec::new();
    add_if_new(&mut v, info("/x", 11, "11.0.2"));
    add_if_new(&mut v, info("/x", 12, "12"));
    add_if_new(&mut v, info("/y", 12, "12"));
    assert_eq!(v.len(), 2);
}

#[test]
fn first_java_of_a_major_version() {
    let v = vec![info("/a", 8, "1.8"), info("/b", 17, "17"), info("/c", 17, "17.1")];
    assert_eq!(find_java_for(&v, 17), Some(1));
    assert_eq!(find_java_for(&v, 21), None);
}

#[test]
fn java_paths_and_scan_dirs() {
    assert_eq!(java_bin_in("/usr/lib/jvm/java-17"), "/usr/lib/jvm/java-17/bin/java");
    assert_eq!(java_scan_dirs("/h/.minecraft/runtimes", None), vec!["/h/.minecraft/runtimes", "/usr/lib/jvm"]);
    assert_eq!(
        java_scan_dirs("/h/r", Some("/h/r/jre-17")),
        vec!["/h/r", "/h/r/jre-17", "/usr/lib/jvm"]
    );
}

#[test]
fn adoptium_download_plan() {
    let p = plan_java_download(17, "linux", "x86_64", "/h/.minecraft/runtimes");
    assert_eq!(p.url, "https://api.adoptium.net/v3/binary/latest/17/ga/linux/x64/jre/hotspot/normal/eclipse");
    assert_eq!(p.target_dir, "/h/.minecraft/runtimes/jre-17");
    assert_eq!(p.archive_path, "/h/.minecraft/runtimes/temp_java_17.tar.gz");
    assert!(!p.is_zip);

    let w = plan_java_download(21, "windows", "aarch64", "C:rt");
    assert_eq!(w.url, "https://api.adoptium.net/v3/binary/latest/21/ga/windows/aarch64/jre/hotspot/normal/eclipse");
    assert_eq!(w.archive_path, "C:rt/temp_java_21.zip");
    assert!(w.is_zip);

    let m = plan_java_download(8, "macos", "x86_64", "/rt");
    assert!(m.url.contains("/ga/mac/x64/"));
    let f = plan_java_download(8, "freebsd", "riscv64", "/rt");
    assert!(f.url.contains("/ga/linux/x64/"));
}

#[test]
fn config_remembers_java() {
    let mut c = LauncherConfig::new();
    assert_eq!(c.cached_java_path(17), None);
    c.remember_java(17, "/usr/bin/java".to_string());
    c.remember_java(8, "/opt/java8/bin/java".to_string());
    assert_eq!(c.cached_java_path(17), Some("/usr/bin/java".to_string()));
    c.remember_java(17, "/opt/jre-17/bin/java".to_string());
    assert_eq!(c.cached_java_path(17), Some("/opt/jre-17/bin/java".to_string()));
    assert_eq!(c.cached_java_path(8), Some("/opt/java8/bin/java".to_string()));
    assert_eq!(LauncherConfig::config_path_in("/h/.minecraft"), "/h/.minecraft/nexus_config.toml");
    assert!(LauncherConfig::default().java_paths.is_empty());
}

#[test]
fn cached_java_checked_against_its_major_version() {
    let p = "/usr/bin/java".to_string();
    assert_eq!(LauncherConfig::java_if_valid(p.clone(), 17, Some(info("/usr/bin/java", 17, "17.0.8"))), Some(p.clone()));
    assert_eq!(LauncherConfig::java_if_valid(p.clone(), 17, Some(info("/usr/bin/java", 21, "21"))), None);
    assert_eq!(LauncherConfig::java_if_valid(p, 17, None), None);
}

#[test]
fn installations_compare_paths_by_component() {
    for (a, b) in [("/a//b", "/a/b"), ("/a/b/", "/a/b"), ("/a/./b", "/a/b"), ("a/b", "./a/b"), ("/a/b", "/a/c"), ("/a", "a")] {
        assert_eq!(same_path(a, b), std::path::PathBuf::from(a) == std::path::PathBuf::from(b), "{:?} {:?}", a, b);
    }
    assert!(is_same_java(&info("/usr/lib/jvm//bin/java", 17, "17.0.8"), &info("/usr/lib/jvm/bin/java", 21, "21")));
    assert!(!is_same_java(&info("/x/java", 17, "17.0.8"), &info("/y/java", 17, "17.0.9")));
    let merged = merge_java_candidates(vec![info("/a//java", 17, "17.0.8"), info("/a/java", 21, "21.0.1")]);
    assert_eq!(merged.len(), 1);
}

#[test]
fn version_capture_follows_the_pattern() {
    let re = regex::Regex::new(r#"version "([^"]+)""#).unwrap();
    let cases = [
        "openjdk version \"17.0.8\" 2023-07-18\nOpenJDK Runtime Environment",
        "java version \"1.8.0_382\"\nJava(TM) SE Runtime Environment",
        "version \"\" then version \"21\"",
        "version \"a\nb\"",
        "version \"unterminated",
        "no version here",
        "versionversion \"9\"",
        "",
        "version \"é\"",
    ];
    for t in cases {
        let expected = re.captures(t).map(|c| c[1].to_string());
        assert_eq!(capture_java_version(t), expected, "{:?}", t);
    }
    assert_eq!(capture_java_version("openjdk version \"17.0.8\""), Some("17.0.8".to_string()));
}