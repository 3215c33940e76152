use nexus_launcher::layout::{
    asset_index_path_in, client_jar_path_in, clients_dir_in, is_path_safe_in, library_path_in,
    minecraft_dir_under, objects_dir_in, servers_dir_in, version_game_dir_in, workspace_folders_in,
};
use nexus_launcher::paths::{components, join_path, starts_with};
use nexus_launcher::text::{decimal_text, parse_u32, replace_text, split_text};

#[test]
fn decimal_text_writes_numbers() {
    assert_eq!(decimal_text(0), "0");
    assert_eq!(decimal_text(7), "7");
    assert_eq!(decimal_text(2048), "2048");
    assert_eq!(decimal_text(u64::MAX), "18446744073709551615");
}

#[test]
fn parse_u32_follows_std() {
    for s in ["0", "17", "+8", "4294967295", "", "+", "-1", "4294967296", "1a", " 1", "08"] {
        assert_eq!(parse_u32(s), s.parse::<u32>().ok(), "input {:?}", s);
    }
}

#[test]
fn split_text_keeps_empty_pieces() {
    assert_eq!(split_text("a:b:c", ':'), vec!["a", "b", "c"]);
    assert_eq!(split_text("", ':'), vec![""]);
    assert_eq!(split_text(":x:", ':'), vec!["", "x", ""]);
}

#[test]
fn replace_text_replaces_every_occurrence() {
    assert_eq!(replace_text("net.fabricmc.loader", '.', "/"), "net/fabricmc/loader");
    assert_eq!(replace_text("plain", '.', "/"), "plain");
}

#[test]
fn join_path_matches_std() {
    let cases = [
        ("/home/u", ".minecraft"),
        ("/home/u/", ".minecraft"),
        ("", "rel"),
        ("/base", "/abs/path"),
        ("a", "b/c"),
        ("/", "x"),
    ];
    for (base, rel) in cases {
        let expected = std::path::Path::new(base).join(rel);
        assert_eq!(join_path(base, rel), expected.to_str().unwrap(), "{:?} {:?}", base, rel);
    }
}

#[test]
fn components_match_std() {
    let cases = ["/home/u/.minecraft", "a//b/./c/.", "./a/b", "/", "", ".", "../x", "a/b/", "//x"];
    for p in cases {
        let ours: Vec<String> = components(p).into_iter().map(|c| c.into_iter().collect()).collect();
        let std_comps: Vec<String> = std::path::Path::new(p)
            .components()
            .map(|c| match c {
                std::path::Component::RootDir => "/".to_string(),
                std::path::Component::CurDir => ".".to_string(),
                std::path::Component::ParentDir => "..".to_string(),
                std::path::Component::Normal(s) => s.to_str().unwrap().to_string(),
                std::path::Component::Prefix(_) => unreachable!(),
            })
            .collect();
        assert_eq!(ours, std_comps, "path {:?}", p);
    }
}

#[test]
fn starts_with_matches_std() {
    let cases = [
        ("/home/u/.minecraft/libraries/x.jar", "/home/u/.minecraft"),
        ("/home/u/.minecraft2/x", "/home/u/.minecraft"),
        ("/home/u/.minecraft", "/home/u/.minecraft/"),
        ("/home/u//.minecraft/./a", "/home/u/.minecraft"),
        ("relative/x", "/home/u/.minecraft"),
        ("/etc/passwd", "/home/u/.minecraft"),
    ];
    for (t, b) in cases {
        assert_eq!(starts_with(t, b), std::path::Path::new(t).starts_with(b), "{:?} {:?}", t, b);
    }
}

#[test]
fn layout_places() {
    let mc = minecraft_dir_under("/home/steve");
    assert_eq!(mc, "/home/steve/.minecraft");
    assert_eq!(library_path_in(&mc, "org/a/b/1.0/b-1.0.jar"), "/home/steve/.minecraft/libraries/org/a/b/1.0/b-1.0.jar");
    assert_eq!(clients_dir_in(&mc), "/home/steve/.minecraft/clients");
    assert_eq!(servers_dir_in(&mc), "/home/steve/.minecraft/servers");
    assert_eq!(version_game_dir_in(&mc, "1.20.1"), "/home/steve/.minecraft/versions/1.20.1");
    assert_eq!(client_jar_path_in(&mc, "1.20.1"), "/home/steve/.minecraft/clients/1.20.1/1.20.1.jar");
    assert_eq!(asset_index_path_in(&mc, "5"), "/home/steve/.minecraft/assets/indexes/5.json");
    assert_eq!(objects_dir_in(&mc), "/home/steve/.minecraft/assets/objects");
}

#[test]
fn workspace_folders_in_creation_order() {
    let v = workspace_folders_in("/h/.minecraft");
    assert_eq!(
        v,
        vec![
            "/h/.minecraft",
            "/h/.minecraft/clients",
            "/h/.minecraft/servers",
            "/h/.minecraft/versions",
            "/h/.minecraft/libraries",
            "/h/.minecraft/assets",
            "/h/.minecraft/assets/indexes",
            "/h/.minecraft/assets/objects",
            "/h/.minecraft/runtimes",
        ]
    );
}

#[test]
fn path_safety_inside_and_outside() {
    assert!(is_path_safe_in("/h/.minecraft", "/h/.minecraft/clients/1.20.1"));
    assert!(!is_path_safe_in("/h/.minecraft", "/h/.minecraft-old/x"));
    assert!(!is_path_safe_in("/h/.minecraft", "/etc"));
}

#[test]
fn versions_are_isolated() {
    let a = version_game_dir_in("/h/.minecraft", "1.20.1");
    let b = version_game_dir_in("/h/.minecraft", "1.8.9");
    assert_ne!(a, b);
    assert!(is_path_safe_in("/h/.minecraft", &a));
    assert!(starts_with(&a, "/h/.minecraft/versions"));
    assert!(starts_with(&client_jar_path_in("/h/.minecraft", "1.20.1"), "/h/.minecraft/clients/1.20.1"));
}

#[test]
fn library_paths_stay_inside_and_strip_back() {
    let mc = minecraft_dir_under("/home/steve");
    let libs = join_path(&mc, "libraries");
    for rel in ["org/a/b/1.0/b-1.0.jar", "a//b/", "x", "", "../escape", "./a/b"] {
        let p = library_path_in(&mc, rel);
        assert!(is_path_safe_in(&mc, &p), "{:?}", rel);
        assert!(starts_with(&p, &libs), "{:?}", rel);
        let std_strip = std::path::Path::new(&p).strip_prefix(&libs).unwrap().to_path_buf();
        let back: Vec<Vec<char>> = components(std_strip.to_str().unwrap());
        if !rel.starts_with("./") {
            assert_eq!(std_strip, std::path::Path::new(rel), "{:?}", rel);
            assert_eq!(back, components(rel), "{:?}", rel);
        } else {
            assert_ne!(std_strip, std::path::Path::new(rel));
        }
    }
    assert!(is_path_safe_in(&mc, &clients_dir_in(&mc)));
    assert!(is_path_safe_in(&mc, &servers_dir_in(&mc)));
    assert!(is_path_safe_in(&mc, &mc));
}
