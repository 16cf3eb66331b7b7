use std::path::PathBuf;

use gest::cli::App;
use gest::config;
use gest::config::{DatabaseSettings, Settings, StorageSettings};
use gest::store::{open, open_with_gest_dir, Db, Error, Location, Pragma};

fn settings(url: Option<&str>, token: Option<&str>, data_dir: Option<PathBuf>) -> Settings<PathBuf> {
    Settings {
        database: DatabaseSettings {
            url: url.map(String::from),
            auth_token: token.map(String::from),
        },
        storage: StorageSettings { data_dir_override: data_dir },
    }
}

fn db_path(location: Location<PathBuf>) -> PathBuf {
    match location {
        Location::Local { dir, file } => dir.join(file),
        Location::Remote { url, .. } => panic!("remote database at {url}"),
    }
}

#[test]
fn it_defaults_initialized_local_projects_to_the_gest_sqlite_cache() {
    let dir = tempfile::TempDir::new().expect("temp dir");

    let init = App::try_parse_from(["gest", "init", "--local"]).unwrap();
    assert!(init.initializes_local_project());
    let gest_dir = dir.path().join(".gest/project.yaml").parent().unwrap().to_path_buf();

    let create = App::try_parse_from(["gest", "task", "create", "Project-local storage"]).unwrap();
    assert!(!create.initializes_local_project());
    let global = dir.path().join(".xdg-data/gest");
    let location = open_with_gest_dir(settings(None, None, None), Some(gest_dir), Ok(global));
    let path = db_path(location.unwrap());

    assert_eq!(
        path,
        dir.path().join(".gest/gest.db"),
        "initialized local projects should use .gest/gest.db by default"
    );
    assert_ne!(
        path,
        dir.path().join(".xdg-data/gest/gest.db"),
        "default local project commands should not keep using the global XDG data store"
    );
}

#[test]
fn it_preserves_explicit_storage_data_dir_overrides() {
    let dir = tempfile::TempDir::new().expect("temp dir");
    let data_dir = dir.path().join("Explicit data dir");

    let location = open_with_gest_dir(
        settings(None, None, Some(data_dir.clone())),
        Some(dir.path().join(".gest")),
        Ok(dir.path().join("global")),
    );
    let path = db_path(location.unwrap());

    assert_eq!(path, data_dir.join("gest.db"));
    assert_ne!(
        path,
        dir.path().join(".gest/gest.db"),
        "GEST_STORAGE__DATA_DIR should opt out of project-local sqlite"
    );
}

#[test]
fn a_url_comes_before_all_directories() {
    let location = open_with_gest_dir(
        settings(Some("libsql://db"), Some("secret"), Some(PathBuf::from("/data"))),
        Some(PathBuf::from("/project/.gest")),
        Ok(PathBuf::from("/global")),
    )
    .unwrap();
    assert!(matches!(
        location,
        Location::Remote { url, auth_token } if url == "libsql://db" && auth_token == "secret"
    ));
    let location = open(settings(Some("libsql://db"), None, None), Ok(PathBuf::from("/global")));
    assert!(matches!(
        location.unwrap(),
        Location::Remote { auth_token, .. } if auth_token.is_empty()
    ));
}

#[test]
fn the_default_directory_is_the_last_resort() {
    let location = open(settings(None, None, None), Ok(PathBuf::from("/global")));
    assert_eq!(db_path(location.unwrap()), PathBuf::from("/global/gest.db"));
    let missing = open(
        settings(None, None, None),
        Err::<PathBuf, config::Error>(config::Error::XDGDirNotFound("data")),
    );
    assert!(matches!(missing, Err(Error::Config(config::Error::XDGDirNotFound("data")))));
    let unused = open_with_gest_dir(
        settings(None, None, None),
        Some(PathBuf::from("/p/.gest")),
        Err(config::Error::XDGDirNotFound("data")),
    );
    assert_eq!(db_path(unused.unwrap()), PathBuf::from("/p/.gest/gest.db"));
}

#[test]
fn only_files_are_written_ahead() {
    let local = Location::Local { dir: PathBuf::from("/d"), file: "gest.db" }.opened();
    assert_eq!(local.connect(), vec![Pragma::WriteAheadLog, Pragma::ForeignKeys]);
    let remote: Location<PathBuf> =
        Location::Remote { url: "libsql://db".into(), auth_token: String::new() };
    assert_eq!(remote.opened().connect(), vec![Pragma::ForeignKeys]);
    assert_eq!(Pragma::WriteAheadLog.sql(), "PRAGMA journal_mode = WAL");
    assert_eq!(Pragma::ForeignKeys.sql(), "PRAGMA foreign_keys = ON");
}

#[test]
fn files_are_imported_once() {
    let mut db: Db<PathBuf> = Db::opened(true);
    assert!(!db.import_if_needed());
    assert!(db.export_if_needed().is_none());
    db.configure_sync("p".into(), PathBuf::from("/p/.gest"));
    assert!(db.import_if_needed());
    assert!(!db.import_if_needed());
    db.configure_sync("q".into(), PathBuf::from("/q/.gest"));
    assert!(!db.import_if_needed());
}

#[test]
fn the_first_sync_stays() {
    let mut db: Db<PathBuf> = Db::opened(true);
    db.configure_sync("p".into(), PathBuf::from("/p/.gest"));
    db.configure_sync("q".into(), PathBuf::from("/q/.gest"));
    let (project_id, gest_dir) = db.export_if_needed().unwrap();
    assert_eq!(project_id, "p");
    assert_eq!(gest_dir, &PathBuf::from("/p/.gest"));
}

#[test]
fn errors_of_the_store_have_messages() {
    let text = |error: Error| error.message();
    assert_eq!(
        text(Error::Ambiguous("abc".into(), 3)).unwrap(),
        "ambiguous id prefix 'abc': matches 3 entities"
    );
    assert_eq!(text(Error::InvalidPrefix("xx".into())).unwrap(), "xx");
    assert_eq!(text(Error::InvalidValue("bad row".into())).unwrap(), "invalid value: bad row");
    assert_eq!(text(Error::NotFound("task abc".into())).unwrap(), "not found: task abc");
    assert_eq!(text(Error::NothingToUndo).unwrap(), "nothing to undo");
    assert!(text(Error::Config(config::Error::Invalid("x".into()))).is_none());
    assert!(text(Error::Database(libsql::Error::QueryReturnedNoRows)).is_none());
    let io = std::io::Error::new(std::io::ErrorKind::Other, "boom");
    assert!(text(Error::Io(io)).is_none());
}

#[test]
fn outside_errors_become_errors_of_the_store() {
    let io = std::io::Error::new(std::io::ErrorKind::Other, "boom");
    assert!(matches!(Error::from(io), Error::Io(_)));
    let json = serde_json::from_str::<serde_json::Value>("{not json").unwrap_err();
    assert!(matches!(Error::from(json), Error::Serialization(_)));
    let yaml = yaml_serde::from_str::<u32>("not a number").unwrap_err();
    assert!(matches!(Error::from(yaml), Error::Yaml(_)));
    assert!(matches!(Error::from(libsql::Error::QueryReturnedNoRows), Error::Database(_)));
    let config = config::Error::XDGDirNotFound("data");
    assert!(matches!(Error::from(config), Error::Config(_)));
}
