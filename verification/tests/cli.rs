use gest::cli::args::{move_flags, parse, Chosen, Matches, Parted};
use gest::cli::{
    long_about, long_about_with, notify_web_reload_if_possible, App, Call, Command, Ended, Error,
};
use gest::config;
use gest::store;

fn assert_exit_code(err: Error, expected: u8) {
    let actual = err.exit_code_u8();

    assert_eq!(actual, expected, "variant {err:?} -> expected {expected}, got {actual}");
}

#[test]
fn it_defaults_no_pager_to_false() {
    let app = App::try_parse_from(["gest", "version"]).unwrap();

    assert!(!*app.no_pager());
}

#[test]
fn it_parses_no_pager_flag() {
    let app = App::try_parse_from(["gest", "--no-pager", "version"]).unwrap();

    assert!(*app.no_pager());
}

#[test]
fn it_parses_no_pager_flag_after_subcommand() {
    let app = App::try_parse_from(["gest", "version", "--no-pager"]).unwrap();

    assert!(*app.no_pager());
}

#[test]
fn it_maps_argument_to_64() {
    assert_exit_code(Error::Argument("bad flag".into()), 64);
}

#[test]
fn it_maps_config_to_78() {
    let err = Error::Config(config::Error::XDGDirNotFound("config"));

    assert_exit_code(err, 78);
}

#[test]
fn it_maps_editor_to_70() {
    assert_exit_code(Error::Editor("editor failed".into()), 70);
}

#[test]
fn it_maps_invalid_state_to_69() {
    assert_exit_code(Error::InvalidState("iteration is not active".into()), 69);
}

#[test]
fn it_maps_io_to_74() {
    let io_err = std::io::Error::new(std::io::ErrorKind::Other, "boom");

    assert_exit_code(Error::Io(io_err), 74);
}

#[test]
fn it_maps_meta_key_not_found_to_66() {
    assert_exit_code(Error::MetaKeyNotFound("foo.bar".into()), 66);
}

#[test]
fn it_maps_no_tasks_available_to_75() {
    assert_exit_code(Error::NoTasksAvailable, 75);
}

#[test]
fn it_maps_not_found_to_66() {
    assert_exit_code(Error::NotFound("project not found".into()), 66);
}

#[test]
fn it_maps_serialize_to_65() {
    let json_err = serde_json::from_str::<serde_json::Value>("{not json").unwrap_err();

    assert_exit_code(Error::Serialize(json_err), 65);
}

#[test]
fn it_maps_store_io_to_74() {
    let io_err = std::io::Error::new(std::io::ErrorKind::Other, "db gone");
    let store_err = store::Error::Io(io_err);

    assert_exit_code(Error::Store(store_err), 74);
}

#[test]
fn it_maps_store_invalid_value_to_74() {
    assert_exit_code(Error::Store(store::Error::InvalidValue("bad row".into())), 74);
}

#[test]
fn it_maps_store_invalid_prefix_to_64() {
    assert_exit_code(Error::Store(store::Error::InvalidPrefix("xx".into())), 64);
}

#[test]
fn it_maps_store_not_found_to_66() {
    assert_exit_code(Error::Store(store::Error::NotFound("task abc".into())), 66);
}

#[test]
fn it_maps_store_ambiguous_to_66() {
    assert_exit_code(Error::Store(store::Error::Ambiguous("abc".into(), 3)), 66);
}

#[test]
fn it_maps_store_nothing_to_undo_to_69() {
    assert_exit_code(Error::Store(store::Error::NothingToUndo), 69);
}

#[test]
fn it_maps_store_serialization_to_65() {
    let json_err = serde_json::from_str::<serde_json::Value>("{not json").unwrap_err();

    assert_exit_code(Error::Store(store::Error::Serialization(json_err)), 65);
}

#[test]
fn it_maps_store_config_to_78() {
    let cfg_err = config::Error::XDGDirNotFound("config");

    assert_exit_code(Error::Store(store::Error::Config(cfg_err)), 78);
}

#[test]
fn it_maps_toml_serialize_to_65() {
    // A bare integer is no table, so it cannot stand at the top level.
    let toml_err = toml::to_string(&42_i32).unwrap_err();

    assert_exit_code(Error::TomlSerialize(toml_err), 65);
}

#[test]
fn it_maps_uninitialized_project_to_78() {
    assert_exit_code(Error::UninitializedProject, 78);
}

fn parsed<const N: usize>(line: [&str; N]) -> App {
    App::try_parse_from(line).unwrap()
}

#[test]
fn it_dispatches_version_flag() {
    for line in [["gest", "--version"], ["gest", "-V"]] {
        let app = App::try_parse_from(line).unwrap();
        assert!(matches!(app.call(&None, true), Ok(Call::Version)));
    }
    let app = App::new(Some(Command::Task(Vec::new())), false, false, true, 0);
    assert!(matches!(app.call(&None, true), Ok(Call::Version)));
}

#[test]
fn it_prints_long_help_when_no_command() {
    let app = App::new(None, false, false, false, 0);
    assert!(matches!(app.call(&None, true), Ok(Call::LongHelp)));
    assert!(matches!(parsed(["gest"]).call(&Some("p".into()), true), Ok(Call::LongHelp)));
}

#[test]
fn it_dispatches_to_subcommand() {
    let app = parsed(["gest", "version"]);
    assert!(matches!(app.call(&None, true), Ok(Call::Run(_))));
    assert!(matches!(app.command(), Some(Command::Version)));
}

#[test]
fn subcommands_that_need_a_project_fail_without_one() {
    for name in ["artifact", "iteration", "search", "serve", "task", "tag"] {
        let app = App::try_parse_from(["gest", name]).unwrap();
        let refused = app.call(&None, true);
        assert!(matches!(refused, Err(Error::UninitializedProject)), "{name}");
        assert!(matches!(app.call(&Some("p".into()), true), Ok(Call::Ask(_))), "{name}");
    }
    for name in ["config", "generate", "init", "migrate", "project", "purge", "self-update", "undo"] {
        let app = App::try_parse_from(["gest", name]).unwrap();
        assert!(matches!(app.call(&None, true), Ok(Call::Run(_))), "{name}");
    }
    let tag = parsed(["gest", "tag", "list"]);
    assert!(matches!(tag.call(&None, false), Ok(Call::Run(_))));
}

#[test]
fn aliases_lead_to_subcommands() {
    assert!(matches!(parsed(["gest", "a"]).command(), Some(Command::Artifact(_))));
    assert!(matches!(parsed(["gest", "i"]).command(), Some(Command::Iteration(_))));
    assert!(matches!(parsed(["gest", "p"]).command(), Some(Command::Project(_))));
    assert!(matches!(parsed(["gest", "grep"]).command(), Some(Command::Search(_))));
    assert!(matches!(parsed(["gest", "s"]).command(), Some(Command::Serve(_))));
    assert!(matches!(parsed(["gest", "t"]).command(), Some(Command::Task(_))));
    assert!(matches!(parsed(["gest", "u"]).command(), Some(Command::Undo(_))));
}

#[test]
fn flags_are_read() {
    let app = parsed(["gest", "-vv", "--no-color", "task", "list", "--all"]);
    assert_eq!(*app.verbosity_level(), 2);
    assert!(app.no_color());
    assert!(!*app.no_pager());
    assert!(matches!(app.command(), Some(Command::Task(list)) if list == &["list", "--all"]));
    assert_eq!(*parsed(["gest", "config", "--verbose"]).verbosity_level(), 1);
}

#[test]
fn flags_are_read_anywhere() {
    let app = parsed(["gest", "-v", "task", "list", "--no-pager", "--all", "-vv", "--no-color"]);
    assert!(*app.no_pager());
    assert!(app.no_color());
    assert_eq!(*app.verbosity_level(), 2);
    assert!(matches!(app.command(), Some(Command::Task(list)) if list == &["list", "--all"]));
    assert_eq!(*parsed(["gest", "search", "-v", "foo", "-v"]).verbosity_level(), 2);
    let app = parsed(["gest", "task", "note", "--", "--no-pager"]);
    assert!(!*app.no_pager());
    assert!(matches!(
        app.command(),
        Some(Command::Task(list)) if list == &["note", "--", "--no-pager"]
    ));
    let app = parsed(["gest", "task", "--", "--no-pager"]);
    assert!(!*app.no_pager());
    assert!(matches!(app.command(), Some(Command::Task(list)) if list == &["--no-pager"]));
    let app = parsed(["gest", "task", "list", "-a", "--title=--no-pager", "-", ""]);
    assert!(matches!(
        app.command(),
        Some(Command::Task(list)) if list == &["list", "-a", "--title=--no-pager", "-", ""]
    ));
}

#[test]
fn local_initialization_is_recognized() {
    assert!(parsed(["gest", "init", "--local"]).initializes_local_project());
    assert!(!parsed(["gest", "init"]).initializes_local_project());
    assert!(!parsed(["gest", "task", "--local"]).initializes_local_project());
    assert!(parsed(["gest", "init", "--no-pager", "--local"]).initializes_local_project());
    assert!(!parsed(["gest", "task", "here", "--local"]).initializes_local_project());
}

#[test]
fn bad_command_lines_are_refused() {
    let unknown = App::try_parse_from(["gest", "frobnicate"]).unwrap_err();
    assert!(unknown.to_stderr);
    assert!(unknown.text.contains("frobnicate"));
    assert!(App::try_parse_from(["gest", "--no-pager", "--no-pager"]).is_err());
    assert!(App::try_parse_from(["gest", "version", "extra"]).is_err());
    assert!(App::try_parse_from(["gest", "init", "--local", "--bogus"]).is_err());
    let repeated = App::try_parse_from(["gest", "task", "list", "--no-pager", "--no-pager"]);
    assert!(repeated.unwrap_err().text.contains("--no-pager"));
}

#[test]
fn help_shows_the_descriptions() {
    let line = vec!["gest".to_string(), "--help".to_string()];
    let about = "short".to_string();
    let long_about = long_about_with("BANNER", "short", "LINK");
    let help = App::try_parse_described(&line, &about, &long_about).unwrap_err();
    assert!(!help.to_stderr);
    assert!(help.text.contains("BANNER"));
    assert!(help.text.contains("self-update"));
    let line = vec!["gest".to_string(), "-h".to_string()];
    let help = App::try_parse_described(&line, &about, &long_about).unwrap_err();
    assert!(help.text.starts_with("short"));
}

#[test]
fn help_describes_flags_and_subcommands() {
    let help = App::try_parse_from(["gest", "--help"]).unwrap_err();
    for text in [
        "Disable ANSI color output",
        "Disable paging of long command output",
        "Increase log verbosity (`-v` = info, `-vv` = debug, `-vvv` = trace)",
        "Print the current version, platform info, and check for available updates",
        "Manage artifacts",
        "View or modify configuration",
        "Generate shell completions and man pages",
        "Initialize gest for the current directory",
        "Manage iterations",
        "Import v0.4.x flat-file data into the current project store",
        "Show or manage the current project",
        "Purge terminal, archived, and orphaned data from the store",
        "Search across all entity types",
        "Download and install the latest release from GitHub",
        "Start the web dashboard server",
        "List all tags",
        "Manage tasks",
        "Undo the last command",
    ] {
        assert!(help.text.contains(text), "{text}");
    }
}

#[test]
fn subcommands_are_asked_for_their_own_help() {
    let app = parsed(["gest", "task", "--help"]);
    assert!(matches!(app.command(), Some(Command::Task(list)) if list == &["--help"]));
    let app = parsed(["gest", "task", "list", "-h"]);
    assert!(matches!(app.command(), Some(Command::Task(list)) if list == &["list", "-h"]));
    assert!(!App::try_parse_from(["gest", "version", "--help"]).unwrap_err().to_stderr);
    assert!(!App::try_parse_from(["gest", "init", "-h"]).unwrap_err().to_stderr);
}

#[test]
fn only_committed_changes_are_notified() {
    let app = parsed(["gest", "task", "create", "x"]);
    let ask = |before: Option<&str>, outcome| match app.call(&Some("p".into()), true) {
        Ok(Call::Ask(waiting)) => waiting.latest(before.map(String::from)).finish(outcome),
        other => panic!("{other:?}"),
    };
    match ask(Some("tx1"), Ok(())) {
        Ended::Ask(after) => {
            assert!(!after.notifies(&Some("tx1".into())));
            assert!(after.notifies(&Some("tx2".into())));
            assert!(after.notifies(&None));
        }
        other => panic!("{other:?}"),
    }
    match ask(None, Ok(())) {
        Ended::Ask(after) => {
            assert!(!after.notifies(&None));
            assert!(after.notifies(&Some("tx1".into())));
        }
        other => panic!("{other:?}"),
    }
    let failed = ask(Some("tx1"), Err(Error::NoTasksAvailable));
    assert!(matches!(failed, Ended::Done(Err(Error::NoTasksAvailable))));
}

#[test]
fn without_a_project_nothing_is_asked_for() {
    let app = parsed(["gest", "config"]);
    match app.call(&None, true) {
        Ok(Call::Run(running)) => assert!(matches!(running.finish(Ok(())), Ended::Done(Ok(())))),
        other => panic!("{other:?}"),
    }
}

#[test]
fn notices_need_a_data_directory() {
    let notice = notify_web_reload_if_possible(Some("/p/.gest"), Ok("/data"));
    assert_eq!(notice, Some((Some("/p/.gest"), "/data")));
    let missing = Err(config::Error::XDGDirNotFound("data"));
    assert_eq!(notify_web_reload_if_possible(Some("/p/.gest"), missing), None);
}

#[test]
fn errors_have_messages() {
    let text = |error: Error| error.message();
    assert_eq!(text(Error::Argument("bad flag".into())).unwrap(), "bad flag");
    assert_eq!(text(Error::Editor("editor failed".into())).unwrap(), "editor failed");
    assert_eq!(text(Error::InvalidState("not active".into())).unwrap(), "not active");
    assert_eq!(text(Error::NotFound("nothing".into())).unwrap(), "nothing");
    assert_eq!(
        text(Error::MetaKeyNotFound("foo.bar".into())).unwrap(),
        "metadata key not found: foo.bar"
    );
    assert_eq!(text(Error::NoTasksAvailable).unwrap(), "no available tasks");
    assert_eq!(
        text(Error::UninitializedProject).unwrap(),
        "not a gest project (run `gest init` to initialize)"
    );
    assert_eq!(
        text(Error::Store(store::Error::NotFound("x".into()))).unwrap(),
        "not found: x"
    );
    assert!(text(Error::Config(config::Error::XDGDirNotFound("data"))).is_none());
}

#[test]
fn outside_errors_become_errors_of_the_program() {
    let io = std::io::Error::new(std::io::ErrorKind::Other, "boom");
    assert!(matches!(Error::from(io), Error::Io(_)));
    let json = serde_json::from_str::<serde_json::Value>("{not json").unwrap_err();
    assert!(matches!(Error::from(json), Error::Serialize(_)));
    let toml = toml::to_string(&42_i32).unwrap_err();
    assert!(matches!(Error::from(toml), Error::TomlSerialize(_)));
    assert!(matches!(Error::from(store::Error::NothingToUndo), Error::Store(_)));
    let config = config::Error::XDGDirNotFound("data");
    assert!(matches!(Error::from(config), Error::Config(_)));
}

#[test]
fn yaml_and_database_failures_have_codes() {
    let yaml = yaml_serde::from_str::<u32>("not a number").unwrap_err();
    assert_exit_code(Error::Store(store::Error::Yaml(yaml)), 65);
    let database = libsql::Error::QueryReturnedNoRows;
    assert_exit_code(Error::Store(store::Error::Database(database)), 74);
}

#[test]
fn the_long_description_is_put_together() {
    let text = long_about_with("BANNER", "DESCRIPTION", "LINK");
    assert!(text.starts_with("\nBANNER\n\nDESCRIPTION\n\nLINK\n\nGest provides a lightweight, "));
    assert!(text.contains("right inside your repo — so every decision"));
    assert!(text.ends_with("integrates naturally into agent-driven workflows."));
    let painted = long_about("B", "D", yansi::Style::new().bold());
    assert!(painted.starts_with("\nB\n\nD\n\n"));
    assert!(painted.contains("https://gest.aaronmallen.dev"));
    let hidden = yansi::Style::new().mask().whenever(yansi::Condition::NEVER);
    assert!(long_about("B", "D", hidden).contains("https://gest.aaronmallen.dev"));
    assert!(painted.len() > long_about_with("B", "D", "https://gest.aaronmallen.dev").len());
}

#[test]
fn what_was_found_makes_the_program() {
    let found = Matches {
        switches: vec![false, true, false],
        count: 3,
        command: Some(Chosen {
            name: "undo".into(),
            own: None,
            rest: Some(vec!["2".into()]),
        }),
    };
    let app = App::from_matches(found);
    assert!(!app.no_color());
    assert!(*app.no_pager());
    assert_eq!(*app.verbosity_level(), 3);
    assert!(matches!(app.command(), Some(Command::Undo(list)) if list == &["2"]));
    let nothing = Matches { switches: vec![true, false, true], count: 0, command: None };
    let app = App::from_matches(nothing);
    assert!(app.no_color());
    assert!(app.command().is_none());
    assert!(matches!(app.call(&None, true), Ok(Call::Version)));
}

#[test]
fn words_are_parted_into_flags_and_arguments() {
    let mut parted = Parted::none();
    parted.push(&"x".into(), false);
    parted.push(&"-v".into(), true);
    parted.push(&"--".into(), true);
    parted.push(&"-v".into(), true);
    assert_eq!(parted.flags, vec!["-v"]);
    assert_eq!(parted.arguments, vec!["x", "--", "-v"]);
    assert!(parted.ended);
}

fn words(line: &str) -> Vec<String> {
    line.split(' ').map(String::from).collect()
}

#[test]
fn flags_are_moved_in_front_of_arguments() {
    let parted = || Parted {
        flags: words("-v"),
        arguments: words("list --all"),
        ended: false,
    };
    let line = words("gest task list -v --all");
    assert_eq!(move_flags(&line, 3, parted()), words("gest task -v list --all"));
    let behind = words("gest task -- list -v --all");
    assert_eq!(move_flags(&behind, 3, parted()), behind);
    let none = Parted { flags: Vec::new(), arguments: words("list"), ended: false };
    assert_eq!(move_flags(&line, 1, none), line);
}

#[test]
fn refusals_name_the_descriptions() {
    let line = words("gest --help");
    let (about, long) = ("ABOUT".to_string(), "LONG".to_string());
    let help = parse(&line, &about, &long).unwrap_err();
    assert!(help.text.starts_with("LONG"));
    let help = parse(&words("gest -h"), &about, &long).unwrap_err();
    assert!(help.text.starts_with("ABOUT"));
    assert!(!help.to_stderr);
    assert!(help.styled.contains("ABOUT"));
}
