use confsync::config::{
    _remove_tracking_file, add_tracking_file, config_file_in, default_config_path, get_path_from_alias, is_tracked, load_config, Config,
    PathProbe, StoredConfig, Storage, Tracking,
};
use confsync::error::SyncError;

fn empty_config() -> Config {
    Config {
        storage: Storage { local: true, repo_url: String::new(), profile: None },
        tracking: Tracking::new(),
    }
}

fn file(p: &str) -> PathProbe {
    PathProbe::File(p.to_string())
}

#[test]
fn add_then_resolve_gives_canonical_path() {
    let mut c = empty_config();
    assert_eq!(add_tracking_file(&mut c, file("/home/u/.bashrc"), "bash".to_string()), Ok(()));
    assert_eq!(get_path_from_alias(&c, "bash"), Ok("/home/u/.bashrc".to_string()));
    assert!(is_tracked(&c, "bash"));
    assert!(!is_tracked(&c, "zsh"));
}

#[test]
fn same_path_under_second_alias_is_duplicate_path() {
    let mut c = empty_config();
    add_tracking_file(&mut c, file("/etc/a.conf"), "a".to_string()).unwrap();
    assert_eq!(add_tracking_file(&mut c, file("/etc/a.conf"), "b".to_string()), Err(SyncError::DuplicatePath));
    assert!(!is_tracked(&c, "b"));
}

#[test]
fn reused_alias_is_duplicate_alias() {
    let mut c = empty_config();
    add_tracking_file(&mut c, file("/etc/a.conf"), "a".to_string()).unwrap();
    assert_eq!(add_tracking_file(&mut c, file("/etc/b.conf"), "a".to_string()), Err(SyncError::DuplicateAlias));
    assert_eq!(get_path_from_alias(&c, "a"), Ok("/etc/a.conf".to_string()));
}

#[test]
fn duplicate_path_is_reported_before_duplicate_alias() {
    let mut c = empty_config();
    add_tracking_file(&mut c, file("/etc/a.conf"), "a".to_string()).unwrap();
    assert_eq!(add_tracking_file(&mut c, file("/etc/a.conf"), "a".to_string()), Err(SyncError::DuplicatePath));
}

#[test]
fn missing_path_is_not_found_and_directory_is_not_a_file() {
    let mut c = empty_config();
    assert_eq!(add_tracking_file(&mut c, PathProbe::Missing, "x".to_string()), Err(SyncError::NotFound));
    assert_eq!(
        add_tracking_file(&mut c, PathProbe::NotAFile("/etc".to_string()), "x".to_string()),
        Err(SyncError::NotAFile)
    );
    assert!(!is_tracked(&c, "x"));
}

#[test]
fn resolving_unknown_alias_is_not_found() {
    let c = empty_config();
    assert_eq!(get_path_from_alias(&c, "nope"), Err(SyncError::NotFound));
}

#[test]
fn remove_untracks_and_unknown_alias_is_not_found() {
    let mut c = empty_config();
    add_tracking_file(&mut c, file("/etc/a.conf"), "a".to_string()).unwrap();
    assert_eq!(_remove_tracking_file(&mut c, "a".to_string()), Ok(()));
    assert!(!is_tracked(&c, "a"));
    assert_eq!(_remove_tracking_file(&mut c, "a".to_string()), Err(SyncError::NotFound));
    // the path may then be tracked again under another alias
    assert_eq!(add_tracking_file(&mut c, file("/etc/a.conf"), "b".to_string()), Ok(()));
}

#[test]
fn initial_config_tracks_itself() {
    let c = Config::initial("/home/u/.config/confsync/config.toml".to_string());
    assert!(c.storage.local);
    assert_eq!(c.storage.repo_url, "");
    assert_eq!(c.storage.profile, Some("default".to_string()));
    assert_eq!(get_path_from_alias(&c, "confsync"), Ok("/home/u/.config/confsync/config.toml".to_string()));
    assert_eq!(c.tracking.entries().len(), 1);
}

#[test]
fn default_config_has_self_entry() {
    let c = Config::default();
    assert!(is_tracked(&c, "confsync"));
    assert_eq!(c.storage.profile, Some("default".to_string()));
}

#[test]
fn load_policy() {
    let absent = load_config(StoredConfig::Absent).unwrap();
    assert!(is_tracked(&absent, "confsync"));
    assert_eq!(
        load_config(StoredConfig::Malformed("bad toml".to_string())).unwrap_err(),
        SyncError::ConfigCorrupt("bad toml".to_string())
    );
    assert_eq!(
        load_config(StoredConfig::Unreadable("denied".to_string())).unwrap_err(),
        SyncError::IoFailure("denied".to_string())
    );
    let mut c = empty_config();
    add_tracking_file(&mut c, file("/x"), "x".to_string()).unwrap();
    let parsed = load_config(StoredConfig::Parsed(c)).unwrap();
    assert!(is_tracked(&parsed, "x"));
}

#[test]
fn from_pairs_rejects_repeated_alias() {
    let ok = Tracking::from_pairs(vec![("a".to_string(), "/a".to_string()), ("b".to_string(), "/b".to_string())]);
    assert_eq!(ok.unwrap().entries().len(), 2);
    let dup = Tracking::from_pairs(vec![("a".to_string(), "/a".to_string()), ("a".to_string(), "/b".to_string())]);
    assert_eq!(dup.unwrap_err(), SyncError::DuplicateAlias);
}

#[test]
fn config_document_is_named_config_toml() {
    if let Some(p) = default_config_path() {
        assert!(p.ends_with("/config.toml"));
        assert!(p.len() > "/config.toml".len());
    }
}

#[test]
fn config_file_is_joined_to_directory() {
    assert_eq!(config_file_in("/home/u/.config/confsync"), "/home/u/.config/confsync/config.toml");
}

#[test]
fn initial_for_falls_back_to_config_toml() {
    let found = Config::initial_for(Some("/etc/confsync/config.toml".to_string()));
    assert_eq!(get_path_from_alias(&found, "confsync"), Ok("/etc/confsync/config.toml".to_string()));
    let fallback = Config::initial_for(None);
    assert_eq!(get_path_from_alias(&fallback, "confsync"), Ok("config.toml".to_string()));
    assert!(fallback.storage.local);
}
