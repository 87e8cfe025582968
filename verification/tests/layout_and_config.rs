use lolcate::config::{
    collect_dirs, deserialize, get_types_map, Config, ConfigError, GlobalConfig, Skip, TypesMap,
};
use lolcate::layout::{
    both_homes, config_dir, config_fn, db_dir, db_fn, db_part_fn, global_config_fn, homes,
    ignores_fn, join_path, lolcate_config_path, lolcate_data_path,
};
use lolcate::update::{check_db_config, database_names, require_config, BuildError, DirStatus, Listed};

fn config_with(dirs: Vec<&str>) -> Config {
    Config {
        description: String::from("sample"),
        dirs: dirs.into_iter().map(String::from).collect(),
        skip: Skip::Nothing,
        ignore_symlinks: false,
        ignore_hidden: false,
        gitignore: false,
    }
}

#[test]
fn skip_defaults_to_nothing() {
    assert_eq!(Skip::default(), Skip::Nothing);
}

#[test]
fn join_adds_one_separator() {
    assert_eq!(join_path("/home/u", "lolcate"), "/home/u/lolcate");
    assert_eq!(join_path("/home/u/", "lolcate"), "/home/u/lolcate");
    assert_eq!(join_path("", "lolcate"), "lolcate");
    assert_eq!(join_path("/", "x"), "/x");
    assert_eq!(join_path("/home/u", ""), "/home/u/");
}

#[test]
fn join_lets_a_rooted_part_stand_alone() {
    assert_eq!(join_path("/home/u", "/etc"), "/etc");
    assert_eq!(join_path("", "/"), "/");
}

#[test]
fn application_directories() {
    assert_eq!(lolcate_config_path("/home/u/.config"), "/home/u/.config/lolcate");
    assert_eq!(lolcate_data_path("/home/u/.local/share"), "/home/u/.local/share/lolcate");
}

#[test]
fn files_of_a_database() {
    assert_eq!(global_config_fn("/c"), "/c/lolcate/config.toml");
    assert_eq!(config_fn("/c", "default"), "/c/lolcate/default/config.toml");
    assert_eq!(ignores_fn("/c", "default"), "/c/lolcate/default/ignores");
    assert_eq!(db_fn("/d", "default"), "/d/lolcate/default/db.lz4");
    assert_eq!(db_part_fn("/d", "default"), "/d/lolcate/default/db.lz4.part");
    assert_eq!(db_dir("/d", "default"), "/d/lolcate/default");
    assert_eq!(config_dir("/c", "default"), "/c/lolcate/default");
}

#[test]
fn types_map_finds_what_was_defined() {
    let mut types = TypesMap::new();
    assert_eq!(types.get("img"), None);
    types.insert(String::from("img"), String::from(r".*\.(jpg|png)$"));
    types.insert(String::from("doc"), String::from(r".*\.(pdf|txt)$"));
    assert_eq!(types.get("img").map(|s| s.as_str()), Some(r".*\.(jpg|png)$"));
    assert_eq!(types.get("doc").map(|s| s.as_str()), Some(r".*\.(pdf|txt)$"));
    assert_eq!(types.get("video"), None);
    assert_eq!(types.get(""), None);
}

#[test]
fn types_map_keeps_the_last_definition() {
    let mut types = TypesMap::new();
    types.insert(String::from("img"), String::from("old"));
    types.insert(String::from("doc"), String::from("other"));
    types.insert(String::from("img"), String::from("new"));
    assert_eq!(types.get("img").map(|s| s.as_str()), Some("new"));
    assert_eq!(types.get("doc").map(|s| s.as_str()), Some("other"));
}

#[test]
fn types_map_of_the_shared_settings() {
    let mut types = TypesMap::new();
    types.insert(String::from("audio"), String::from(r".*\.(mp3|ogg)$"));
    let found = get_types_map(GlobalConfig { types });
    assert_eq!(found.get("audio").map(|s| s.as_str()), Some(r".*\.(mp3|ogg)$"));
}

#[test]
fn settings_file_is_required() {
    assert_eq!(require_config(true), Ok(()));
    assert_eq!(require_config(false), Err(BuildError::ConfigNotFound));
}

#[test]
fn settings_without_directories_are_refused() {
    let config = config_with(vec![]);
    assert_eq!(check_db_config(&config, &vec![]), Err(BuildError::NoDirs));
    assert_eq!(check_db_config(&config, &vec![DirStatus::Directory]), Err(BuildError::NoDirs));
}

#[test]
fn settings_with_directories_pass() {
    let config = config_with(vec!["/a", "/b"]);
    let probed = vec![DirStatus::Directory, DirStatus::Directory];
    assert_eq!(check_db_config(&config, &probed), Ok(()));
}

#[test]
fn first_unusable_directory_is_named() {
    let config = config_with(vec!["/a", "/b", "/c"]);
    let probed = vec![DirStatus::Directory, DirStatus::Missing, DirStatus::NotDirectory];
    assert_eq!(
        check_db_config(&config, &probed),
        Err(BuildError::MissingDir(String::from("/b")))
    );
    let probed = vec![DirStatus::Directory, DirStatus::NotDirectory, DirStatus::Missing];
    assert_eq!(
        check_db_config(&config, &probed),
        Err(BuildError::NotADirectory(String::from("/b")))
    );
}

#[test]
fn unprobed_directory_counts_as_missing() {
    let config = config_with(vec!["/a", "/b"]);
    let probed = vec![DirStatus::Directory];
    assert_eq!(
        check_db_config(&config, &probed),
        Err(BuildError::MissingDir(String::from("/b")))
    );
}

#[test]
fn build_diagnostics_name_what_is_wrong() {
    assert_eq!(
        BuildError::ConfigNotFound.message("work", "/c/lolcate/work/config.toml"),
        "Config file not found for database work. Perhaps you forgot to run lolcate --create work ?"
    );
    assert_eq!(
        BuildError::NoDirs.message("work", "/c/lolcate/work/config.toml"),
        "Please edit file /c/lolcate/work/config.toml and add at least a directory to scan."
    );
    assert_eq!(
        BuildError::MissingDir(String::from("/gone")).message("work", "f"),
        "The specified dir /gone doesn't exist."
    );
    assert_eq!(
        BuildError::NotADirectory(String::from("/etc/passwd")).message("work", "f"),
        "The specified path /etc/passwd is not a directory or cannot be accessed."
    );
}

#[test]
fn databases_are_the_listed_directories() {
    let entries = vec![
        Listed { name: Some(String::from("default")), is_dir: true },
        Listed { name: Some(String::from("config.toml")), is_dir: false },
        Listed { name: None, is_dir: true },
        Listed { name: Some(String::from("work")), is_dir: true },
    ];
    assert_eq!(database_names(&entries), vec![String::from("default"), String::from("work")]);
    assert_eq!(database_names(&vec![]), Vec::<String>::new());
}

#[test]
fn directories_without_tilde_are_taken_as_written() {
    let dirs = vec![String::from("/a/b"), String::from("rel/c"), String::from(""), String::from("/x~y")];
    assert_eq!(deserialize(dirs.clone()), Ok(dirs));
    assert_eq!(deserialize(vec![]), Ok(vec![]));
}

#[test]
fn tilde_is_never_left_standing() {
    if let Ok(dirs) = deserialize(vec![String::from("~"), String::from("~/music")]) {
        assert_eq!(dirs.len(), 2);
        assert_ne!(dirs[0], "~");
        assert!(!dirs[1].starts_with('~'));
        assert!(dirs[1].ends_with("music"));
    }
}

#[test]
fn expanded_directories_are_all_there_or_none() {
    let all = vec![Ok(String::from("/a")), Ok(String::from("/home/u/b"))];
    assert_eq!(collect_dirs(all), Ok(vec![String::from("/a"), String::from("/home/u/b")]));
    let some = vec![
        Ok(String::from("/a")),
        Err(String::from("no home directory is set")),
        Err(String::from("later")),
    ];
    assert_eq!(
        collect_dirs(some),
        Err(ConfigError::NoHome(String::from("no home directory is set")))
    );
    assert_eq!(collect_dirs(vec![]), Ok(vec![]));
}

#[test]
fn both_directories_of_the_user_are_needed() {
    let found = both_homes(Some(String::from("/c")), Some(String::from("/d"))).unwrap();
    assert_eq!(found.config, "/c");
    assert_eq!(found.data, "/d");
    assert!(both_homes(None, Some(String::from("/d"))).is_none());
    assert!(both_homes(Some(String::from("/c")), None).is_none());
    assert!(both_homes(None, None).is_none());
}

#[test]
fn directories_of_the_user_lead_to_the_files() {
    if let Some(found) = homes() {
        assert!(config_fn(&found.config, "db").ends_with("lolcate/db/config.toml"));
        assert!(db_fn(&found.data, "db").ends_with("lolcate/db/db.lz4"));
    }
}
