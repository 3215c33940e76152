use nexus_launcher::auth::{derive_key_and_nonce, derive_key_and_nonce_with, open_refresh_token, seal_refresh_token};
use nexus_launcher::config::LauncherConfig;
use nexus_launcher::layout::{
    get_clients_dir, get_library_path, get_minecraft_dir, get_servers_dir, get_workspace_folders,
    is_path_safe,
};

#[test]
fn launcher_directory_under_home() {
    if let Some(mc) = get_minecraft_dir() {
        assert!(mc.ends_with("/.minecraft"));
        assert_eq!(get_library_path("a/b.jar").unwrap(), format!("{}/libraries/a/b.jar", mc));
        assert_eq!(get_clients_dir().unwrap(), format!("{}/clients", mc));
        assert_eq!(get_servers_dir().unwrap(), format!("{}/servers", mc));
        assert_eq!(LauncherConfig::get_config_path().unwrap(), format!("{}/nexus_config.toml", mc));
        let folders = get_workspace_folders().unwrap();
        assert_eq!(folders.len(), 9);
        assert_eq!(folders[0], mc);
        assert_eq!(is_path_safe(&get_clients_dir().unwrap()), Some(true));
        assert_eq!(is_path_safe("/definitely/elsewhere"), Some(false));
    }
}

#[test]
fn vault_on_this_machine() {
    let (key, nonce) = derive_key_and_nonce("uuid-7");
    assert_eq!(key.len(), 32);
    assert_eq!(nonce, derive_key_and_nonce_with(None, "uuid-7").1);
    let sealed = seal_refresh_token("uuid-7", "token-7").unwrap();
    assert_eq!(open_refresh_token("uuid-7", &sealed), Ok("token-7".to_string()));
}
