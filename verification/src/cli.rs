//! The command line of `gest`: the program's arguments, which subcommand they
//! lead to, and what its outcome is answered with.
pub mod answers;
pub mod args;
pub mod laws;

use vstd::prelude::*;
use yansi::{Paint, Style};

use crate::cli::args::{
    app_grammar, arranged, is_command_name, parse_arranged, read, refused, Chosen, ChosenView,
    Matches, MatchesView, Refusal,
};
use crate::config;
use crate::store;
use crate::text::{same, texts};

verus! {

/// How a stretch of text is painted.
#[verifier::external_type_specification]
#[verifier::external_body]
pub struct ExStyle(Style);

/// The `init` subcommand.
#[derive(Debug)]
pub struct InitCommand {
    local: bool,
}

impl InitCommand {
    /// Whether `--local` is given.
    pub closed spec fn is_local(self) -> bool {
        self.local
    }

    pub fn new(local: bool) -> (command: InitCommand)
        ensures
            command.is_local() == local,
    {
        InitCommand { local }
    }

    /// Tells whether `--local` is given.
    pub fn local(&self) -> (local: bool)
        ensures
            local == self.is_local(),
    {
        self.local
    }
}

/// A subcommand with its own arguments as they were given.
#[derive(Debug)]
pub enum Command {
    /// Manages artifacts.
    Artifact(Vec<String>),
    /// Views or changes settings.
    Config(Vec<String>),
    /// Generates shell completions and man pages.
    Generate(Vec<String>),
    /// Makes the current directory a project.
    Init(InitCommand),
    /// Manages iterations.
    Iteration(Vec<String>),
    /// Imports flat-file data of v0.4.x.
    Migrate(Vec<String>),
    /// Shows or manages the current project.
    Project(Vec<String>),
    /// Removes terminal, archived and orphaned data.
    Purge(Vec<String>),
    /// Searches all kinds of entities.
    Search(Vec<String>),
    /// Installs the latest release.
    SelfUpdate(Vec<String>),
    /// Starts the web dashboard.
    Serve(Vec<String>),
    /// Lists tags.
    Tag(Vec<String>),
    /// Manages tasks.
    Task(Vec<String>),
    /// Undoes the last command.
    Undo(Vec<String>),
    /// Prints the version.
    Version,
}

/// What a [`Command`] holds.
#[verifier::ext_equal]
pub struct CommandView {
    pub name: Seq<char>,
    pub local: bool,
    pub arguments: Seq<Seq<char>>,
}

impl View for Command {
    type V = CommandView;

    open spec fn view(&self) -> CommandView {
        match self {
            Command::Artifact(list) => CommandView::plain("artifact"@, texts(list@)),
            Command::Config(list) => CommandView::plain("config"@, texts(list@)),
            Command::Generate(list) => CommandView::plain("generate"@, texts(list@)),
            Command::Init(init) => CommandView {
                name: "init"@,
                local: init.is_local(),
                arguments: Seq::empty(),
            },
            Command::Iteration(list) => CommandView::plain("iteration"@, texts(list@)),
            Command::Migrate(list) => CommandView::plain("migrate"@, texts(list@)),
            Command::Project(list) => CommandView::plain("project"@, texts(list@)),
            Command::Purge(list) => CommandView::plain("purge"@, texts(list@)),
            Command::Search(list) => CommandView::plain("search"@, texts(list@)),
            Command::SelfUpdate(list) => CommandView::plain("self-update"@, texts(list@)),
            Command::Serve(list) => CommandView::plain("serve"@, texts(list@)),
            Command::Tag(list) => CommandView::plain("tag"@, texts(list@)),
            Command::Task(list) => CommandView::plain("task"@, texts(list@)),
            Command::Undo(list) => CommandView::plain("undo"@, texts(list@)),
            Command::Version => CommandView::plain("version"@, Seq::empty()),
        }
    }
}

impl CommandView {
    /// A subcommand other than `init`.
    pub open spec fn plain(name: Seq<char>, arguments: Seq<Seq<char>>) -> CommandView {
        CommandView { name, local: false, arguments }
    }

    /// The subcommand that a command line chose.
    pub open spec fn chosen(chosen: ChosenView) -> CommandView {
        CommandView {
            name: chosen.name,
            local: chosen.name == "init"@ && chosen.own == Some(true),
            arguments: match chosen.rest {
                Some(rest) if chosen.name != "init"@ && chosen.name != "version"@ => rest,
                _ => Seq::empty(),
            },
        }
    }
}

impl Command {
    /// Whether the subcommand needs a project, given whether `tag` does with
    /// its arguments.
    pub open spec fn needs_project(self, tag_does: bool) -> bool {
        match self {
            Command::Artifact(_) | Command::Iteration(_) | Command::Search(_) | Command::Serve(_)
            | Command::Task(_) => true,
            Command::Tag(_) => tag_does,
            _ => false,
        }
    }

    /// Tells whether the subcommand needs a project, given whether `tag` does
    /// with its arguments.
    pub fn requires_project(&self, tag_does: bool) -> (res: bool)
        ensures
            res == self.needs_project(tag_does),
    {
        match self {
            Command::Config(_) | Command::Generate(_) | Command::Init(_) | Command::Migrate(_)
            | Command::Project(_) | Command::Purge(_) | Command::SelfUpdate(_) | Command::Undo(_)
            | Command::Version => false,
            Command::Tag(_) => tag_does,
            Command::Artifact(_) | Command::Iteration(_) | Command::Search(_) | Command::Serve(_)
            | Command::Task(_) => true,
        }
    }

    /// The subcommand that a command line chose.
    pub fn from_chosen(chosen: Chosen) -> (command: Command)
        requires
            is_command_name(chosen.name@),
        ensures
            command@ == CommandView::chosen(chosen@),
    {
        let ghost given = chosen@;
        let local = match chosen.own {
            Some(local) => local,
            None => false,
        };
        let rest = match chosen.rest {
            Some(rest) => rest,
            None => Vec::new(),
        };
        proof {
            reveal_strlit("init");
            reveal_strlit("version");
            assert("init"@.len() != "version"@.len());
            assert(texts(Seq::<String>::empty()) =~= Seq::<Seq<char>>::empty());
            assert(texts(rest@) == match given.rest {
                Some(rest) => rest,
                None => Seq::empty(),
            });
        }
        let name = chosen.name.as_str();
        if same(name, "init") {
            return Command::Init(InitCommand::new(local));
        }
        if same(name, "version") {
            return Command::Version;
        }
        if same(name, "artifact") {
            Command::Artifact(rest)
        } else if same(name, "config") {
            Command::Config(rest)
        } else if same(name, "generate") {
            Command::Generate(rest)
        } else if same(name, "iteration") {
            Command::Iteration(rest)
        } else if same(name, "migrate") {
            Command::Migrate(rest)
        } else if same(name, "project") {
            Command::Project(rest)
        } else if same(name, "purge") {
            Command::Purge(rest)
        } else if same(name, "search") {
            Command::Search(rest)
        } else if same(name, "self-update") {
            Command::SelfUpdate(rest)
        } else if same(name, "serve") {
            Command::Serve(rest)
        } else if same(name, "tag") {
            Command::Tag(rest)
        } else if same(name, "task") {
            Command::Task(rest)
        } else {
            proof {
                let k = choose|k: int|
                    0 <= k < app_grammar().commands.len() && (
                    #[trigger] app_grammar().commands[k]).name == given.name;
                assert(k == 13);
            }
            Command::Undo(rest)
        }
    }
}

/// The program as it was called.
#[derive(Debug)]
pub struct App {
    command: Option<Command>,
    no_color: bool,
    no_pager: bool,
    print_version: bool,
    verbosity_level: u8,
}

/// What an [`App`] holds.
#[verifier::ext_equal]
pub struct AppView {
    pub command: Option<CommandView>,
    pub no_color: bool,
    pub no_pager: bool,
    pub print_version: bool,
    pub verbosity_level: u8,
}

impl View for App {
    type V = AppView;

    closed spec fn view(&self) -> AppView {
        AppView {
            command: match self.command {
                Some(command) => Some(command@),
                None => None,
            },
            no_color: self.no_color,
            no_pager: self.no_pager,
            print_version: self.print_version,
            verbosity_level: self.verbosity_level,
        }
    }
}

impl AppView {
    /// The program as a command line calls it, given what clap finds on it.
    pub open spec fn of(found: MatchesView) -> AppView {
        AppView {
            command: match found.command {
                Some(chosen) => Some(CommandView::chosen(chosen)),
                None => None,
            },
            no_color: found.switches[0],
            no_pager: found.switches[1],
            print_version: found.switches[2],
            verbosity_level: found.count,
        }
    }
}

impl App {
    /// The subcommand.
    pub closed spec fn subcommand(self) -> Option<Command> {
        self.command
    }

    pub fn new(
        command: Option<Command>,
        no_color: bool,
        no_pager: bool,
        print_version: bool,
        verbosity_level: u8,
    ) -> (app: App)
        ensures
            app.subcommand() == command,
            app@.no_color == no_color,
            app@.no_pager == no_pager,
            app@.print_version == print_version,
            app@.verbosity_level == verbosity_level,
            app@.command == match command {
                Some(command) => Some(command@),
                None => None,
            },
    {
        App { command, no_color, no_pager, print_version, verbosity_level }
    }

    /// Reads the command line of the program, its name first.
    pub fn try_parse_from<const N: usize>(line: [&str; N]) -> (res: Result<App, Refusal>)
        ensures
            ({
                let words = arranged(line@.map_values(|arg: &str| arg@));
                match res {
                    Ok(app) => read(words) matches Some(found) && app@ == AppView::of(found),
                    Err(refusal) => read(words) is None && refusal@ == refused(
                        app_grammar(),
                        (Seq::empty(), Seq::empty()),
                        words,
                    ),
                }
            }),
    {
        let mut list: Vec<String> = Vec::new();
        let mut i: usize = 0;
        while i < N
            invariant
                i <= N,
                list.len() == i,
                forall|k: int| 0 <= k < i ==> (#[trigger] list@[k])@ == line@[k]@,
            decreases N - i,
        {
            list.push(line[i].to_owned());
            i += 1;
        }
        assert(texts(list@) =~= line@.map_values(|arg: &str| arg@));
        App::try_parse_described(&list, &String::new(), &String::new())
    }

    /// Reads the command line of the program, its name first. The two texts
    /// are the short and the long description in its help. A subcommand's own
    /// words are kept for the subcommand to read, a flag that asks for help
    /// among them; only the flags that may stand anywhere are read here, all
    /// those behind the name of the subcommand as if they stood right there.
    pub fn try_parse_described(line: &Vec<String>, about: &String, long_about: &String) -> (res:
        Result<App, Refusal>)
        ensures
            ({
                let words = arranged(texts(line@));
                match res {
                    Ok(app) => read(words) matches Some(found) && app@ == AppView::of(found),
                    Err(refusal) => read(words) is None && refusal@ == refused(
                        app_grammar(),
                        (about@, long_about@),
                        words,
                    ),
                }
            }),
    {
        match parse_arranged(line, about, long_about) {
            Ok(found) => Ok(App::from_matches(found)),
            Err(refusal) => Err(refusal),
        }
    }

    /// The program as a command line calls it, given what was found on the
    /// line.
    pub fn from_matches(found: Matches) -> (app: App)
        requires
            found.switches@.len() == 3,
            found@.command matches Some(chosen) ==> is_command_name(chosen.name),
        ensures
            app@ == AppView::of(found@),
    {
        let no_color = found.switches[0];
        let no_pager = found.switches[1];
        let print_version = found.switches[2];
        let verbosity_level: u8 = found.count;
        let command = match found.command {
            Some(chosen) => Some(Command::from_chosen(chosen)),
            None => None,
        };
        App { command, no_color, no_pager, print_version, verbosity_level }
    }

    /// Whether long output is not to be paged.
    pub fn no_pager(&self) -> (no_pager: &bool)
        ensures
            *no_pager == self@.no_pager,
    {
        &self.no_pager
    }

    /// How verbose the log is: 1 for info, 2 for debug, 3 for trace.
    pub fn verbosity_level(&self) -> (level: &u8)
        ensures
            *level == self@.verbosity_level,
    {
        &self.verbosity_level
    }

    /// Whether output is not to be colored.
    pub fn no_color(&self) -> (no_color: bool)
        ensures
            no_color == self@.no_color,
    {
        self.no_color
    }

    /// Tells whether `.gest/` is to be created before the store is opened.
    pub fn initializes_local_project(&self) -> (res: bool)
        ensures
            res == (self@.command matches Some(command) && command.name == "init"@
                && command.local),
    {
        match &self.command {
            Some(Command::Init(command)) => command.local(),
            _ => false,
        }
    }

    /// Decides what the program does, given the current project, if any, and
    /// whether `tag` needs one with its arguments.
    pub fn call(&self, project_id: &Option<String>, tag_does: bool) -> (res: Result<Call, Error>)
        ensures
            match res {
                Ok(Call::Version) => self@.print_version,
                Ok(Call::LongHelp) => !self@.print_version && self.subcommand() is None,
                Ok(Call::Ask(_)) => !self@.print_version && (self.subcommand() matches Some(command)
                    && project_id is Some),
                Ok(Call::Run(running)) => !self@.print_version && (self.subcommand() matches Some(
                    command,
                ) && project_id is None && !command.needs_project(tag_does)) && running@
                    == WatermarkView::Unknown,
                Err(error) => !self@.print_version && (self.subcommand() matches Some(command)
                    && project_id is None && command.needs_project(tag_does)) && error
                    == Error::UninitializedProject,
            },
    {
        if self.print_version {
            return Ok(Call::Version);
        }
        let command = match &self.command {
            Some(command) => command,
            None => {
                return Ok(Call::LongHelp);
            },
        };
        if command.requires_project(tag_does) && project_id.is_none() {
            return Err(Error::UninitializedProject);
        }
        if project_id.is_none() {
            Ok(Call::Run(Running { watermark: Watermark::Unknown }))
        } else {
            Ok(Call::Ask(Before {  }))
        }
    }

    /// The subcommand to run.
    pub fn command(&self) -> (command: &Option<Command>)
        ensures
            *command == self.subcommand(),
    {
        &self.command
    }
}

/// The view of a call shows the subcommand.
pub proof fn the_view_shows_the_subcommand(app: App)
    ensures
        app@.command == match app.subcommand() {
            Some(command) => Some(command@),
            None => None,
        },
{
}

/// What the program does first.
#[derive(Debug)]
pub enum Call {
    /// Prints the version.
    Version,
    /// Prints the long help.
    LongHelp,
    /// Asks for the newest transaction of the project that can be undone.
    Ask(Before),
    /// Runs the subcommand.
    Run(Running),
}

/// The newest transaction that could be undone before the subcommand ran:
/// unknown where there is no project to have one.
#[derive(Debug)]
enum Watermark {
    Unknown,
    Known(Option<String>),
}

/// What is known of the newest transaction before the subcommand ran.
#[verifier::ext_equal]
pub enum WatermarkView {
    Unknown,
    Known(Option<Seq<char>>),
}

/// The id of a transaction, if there is one.
pub open spec fn transaction(id: Option<String>) -> Option<Seq<char>> {
    match id {
        Some(id) => Some(id@),
        None => None,
    }
}

/// A call that waits for the newest transaction.
#[derive(Debug)]
pub struct Before {}

impl Before {
    /// Takes the id of the newest transaction, and runs the subcommand.
    pub fn latest(self, latest: Option<String>) -> (running: Running)
        ensures
            running@ == WatermarkView::Known(transaction(latest)),
    {
        Running { watermark: Watermark::Known(latest) }
    }
}

/// A call whose subcommand runs.
#[derive(Debug)]
pub struct Running {
    watermark: Watermark,
}

impl View for Running {
    type V = WatermarkView;

    closed spec fn view(&self) -> WatermarkView {
        match self.watermark {
            Watermark::Unknown => WatermarkView::Unknown,
            Watermark::Known(latest) => WatermarkView::Known(transaction(latest)),
        }
    }
}

/// What is left to do when the subcommand has ended.
#[derive(Debug)]
pub enum Ended {
    /// The call has this outcome.
    Done(Result<(), Error>),
    /// It succeeded; the newest transaction is asked for again.
    Ask(After),
}

impl Running {
    /// Takes the outcome of the subcommand: a failure is the outcome of the
    /// call.
    pub fn finish(self, outcome: Result<(), Error>) -> (ended: Ended)
        ensures
            match ended {
                Ended::Done(res) => res == outcome && (outcome is Err || self@
                    is Unknown),
                Ended::Ask(after) => outcome is Ok && self@ == WatermarkView::Known(after@),
            },
    {
        match (outcome, self.watermark) {
            (Ok(()), Watermark::Known(before)) => Ended::Ask(After { before }),
            (outcome, _) => Ended::Done(outcome),
        }
    }
}

/// A call whose subcommand has succeeded.
#[derive(Debug)]
pub struct After {
    before: Option<String>,
}

impl View for After {
    type V = Option<Seq<char>>;

    closed spec fn view(&self) -> Option<Seq<char>> {
        transaction(self.before)
    }
}

impl After {
    /// Takes the id of the newest transaction, and tells whether a running
    /// web server is to be notified: it is where the subcommand has committed
    /// a change.
    pub fn notifies(&self, latest: &Option<String>) -> (notify: bool)
        ensures
            notify == (transaction(*latest) != self@),
    {
        match (&self.before, latest) {
            (Some(before), Some(latest)) => !same(before.as_str(), latest.as_str()),
            (None, None) => false,
            _ => true,
        }
    }
}

/// Names the directories by which a running web server is notified of a
/// change: that of the project, if it has one, and the data directory. Where
/// there is no data directory, nothing is notified.
pub fn notify_web_reload_if_possible<D>(
    gest_dir: Option<D>,
    data_dir: Result<D, config::Error>,
) -> (notice: Option<(Option<D>, D)>)
    ensures
        notice == match data_dir {
            Ok(dir) => Some((gest_dir, dir)),
            Err(_) => None,
        },
{
    match data_dir {
        Ok(dir) => Some((gest_dir, dir)),
        Err(_) => None,
    }
}

/// What can go wrong in a call of the program.
#[derive(Debug)]
pub enum Error {
    /// An argument that is not accepted.
    Argument(String),
    /// Settings could not be loaded.
    Config(config::Error),
    /// The editor could not be run.
    Editor(String),
    /// The target is not in a state that accepts the transition.
    InvalidState(String),
    /// A file could not be read or written.
    Io(std::io::Error),
    /// The entity has no such metadata key.
    MetaKeyNotFound(String),
    /// There is no task to claim.
    NoTasksAvailable,
    /// There is no such entity.
    NotFound(String),
    /// State could not be written as JSON.
    Serialize(serde_json::Error),
    /// The store failed.
    Store(store::Error),
    /// Settings could not be written as TOML.
    TomlSerialize(toml::ser::Error),
    /// The current directory belongs to no project.
    UninitializedProject,
}

impl Error {
    /// The exit code of the error, as sysexits.h has it: 64 for a usage
    /// error, 65 for bad data, 66 for a missing input, 69 for what is
    /// unavailable, 70 for an internal failure, 74 for a failure of input or
    /// output, 75 for what may work later and 78 for bad settings. An error
    /// of the store has the code of what went wrong in it.
    pub open spec fn code(self) -> u8 {
        match self {
            Error::Argument(_) => 64,
            Error::Store(store::Error::InvalidPrefix(_)) => 64,
            Error::Serialize(_) => 65,
            Error::TomlSerialize(_) => 65,
            Error::Store(store::Error::Serialization(_)) => 65,
            Error::Store(store::Error::Yaml(_)) => 65,
            Error::NotFound(_) => 66,
            Error::MetaKeyNotFound(_) => 66,
            Error::Store(store::Error::NotFound(_)) => 66,
            Error::Store(store::Error::Ambiguous(_, _)) => 66,
            Error::InvalidState(_) => 69,
            Error::Store(store::Error::NothingToUndo) => 69,
            Error::Editor(_) => 70,
            Error::Io(_) => 74,
            Error::Store(store::Error::Database(_)) => 74,
            Error::Store(store::Error::InvalidValue(_)) => 74,
            Error::Store(store::Error::Io(_)) => 74,
            Error::NoTasksAvailable => 75,
            Error::Config(_) => 78,
            Error::UninitializedProject => 78,
            Error::Store(store::Error::Config(_)) => 78,
        }
    }

    /// The exit code of the error.
    pub fn exit_code_u8(&self) -> (code: u8)
        ensures
            code == self.code(),
    {
        match self {
            Error::Argument(_) => 64,
            Error::Serialize(_) | Error::TomlSerialize(_) => 65,
            Error::MetaKeyNotFound(_) | Error::NotFound(_) => 66,
            Error::InvalidState(_) => 69,
            Error::Editor(_) => 70,
            Error::Io(_) => 74,
            Error::Store(inner) => match inner {
                store::Error::InvalidPrefix(_) => 64,
                store::Error::Serialization(_) | store::Error::Yaml(_) => 65,
                store::Error::Ambiguous(_, _) | store::Error::NotFound(_) => 66,
                store::Error::NothingToUndo => 69,
                store::Error::Config(_) => 78,
                store::Error::Database(_) | store::Error::InvalidValue(_) | store::Error::Io(_)
                => 74,
            },
            Error::NoTasksAvailable => 75,
            Error::Config(_) | Error::UninitializedProject => 78,
        }
    }

    /// The message of the error; `None` where the message is that of the
    /// error inside.
    pub open spec fn text(self) -> Option<Seq<char>> {
        match self {
            Error::Argument(reason) => Some(reason@),
            Error::Editor(reason) => Some(reason@),
            Error::InvalidState(reason) => Some(reason@),
            Error::NotFound(what) => Some(what@),
            Error::MetaKeyNotFound(key) => Some("metadata key not found: "@ + key@),
            Error::NoTasksAvailable => Some("no available tasks"@),
            Error::UninitializedProject => Some(
                "not a gest project (run `gest init` to initialize)"@,
            ),
            Error::Store(inner) => inner.text(),
            Error::Config(_) | Error::Io(_) | Error::Serialize(_) | Error::TomlSerialize(_) => None,
        }
    }

    /// Writes the message of the error; `None` where the message is that of
    /// the error inside.
    pub fn message(&self) -> (text: Option<String>)
        ensures
            match text {
                Some(t) => self.text() == Some(t@),
                None => self.text() is None,
            },
    {
        match self {
            Error::Argument(reason) => Some(reason.clone()),
            Error::Editor(reason) => Some(reason.clone()),
            Error::InvalidState(reason) => Some(reason.clone()),
            Error::NotFound(what) => Some(what.clone()),
            Error::MetaKeyNotFound(key) => Some(
                "metadata key not found: ".to_owned().concat(key.as_str()),
            ),
            Error::NoTasksAvailable => Some("no available tasks".to_owned()),
            Error::UninitializedProject => Some(
                "not a gest project (run `gest init` to initialize)".to_owned(),
            ),
            Error::Store(inner) => inner.message(),
            Error::Config(_) | Error::Io(_) | Error::Serialize(_) | Error::TomlSerialize(_) => None,
        }
    }
}

/// Every error exits with one of the codes of sysexits.h, never with that of
/// success.
pub proof fn exit_codes_are_those_of_sysexits(error: Error)
    ensures
        error.code() == 64 || error.code() == 65 || error.code() == 66 || error.code() == 69
            || error.code() == 70 || error.code() == 74 || error.code() == 75 || error.code() == 78,
        error.code() != 0,
{
}

impl From<config::Error> for Error {
    fn from(error: config::Error) -> (res: Error) {
        Error::Config(error)
    }
}

impl vstd::std_specs::convert::FromSpecImpl<config::Error> for Error {
    open spec fn obeys_from_spec() -> bool {
        true
    }

    open spec fn from_spec(error: config::Error) -> Error {
        Error::Config(error)
    }
}

impl From<std::io::Error> for Error {
    fn from(error: std::io::Error) -> (res: Error) {
        Error::Io(error)
    }
}

impl vstd::std_specs::convert::FromSpecImpl<std::io::Error> for Error {
    open spec fn obeys_from_spec() -> bool {
        true
    }

    open spec fn from_spec(error: std::io::Error) -> Error {
        Error::Io(error)
    }
}

impl From<serde_json::Error> for Error {
    fn from(error: serde_json::Error) -> (res: Error) {
        Error::Serialize(error)
    }
}

impl vstd::std_specs::convert::FromSpecImpl<serde_json::Error> for Error {
    open spec fn obeys_from_spec() -> bool {
        true
    }

    open spec fn from_spec(error: serde_json::Error) -> Error {
        Error::Serialize(error)
    }
}

impl From<store::Error> for Error {
    fn from(error: store::Error) -> (res: Error) {
        Error::Store(error)
    }
}

impl vstd::std_specs::convert::FromSpecImpl<store::Error> for Error {
    open spec fn obeys_from_spec() -> bool {
        true
    }

    open spec fn from_spec(error: store::Error) -> Error {
        Error::Store(error)
    }
}

impl From<toml::ser::Error> for Error {
    fn from(error: toml::ser::Error) -> (res: Error) {
        Error::TomlSerialize(error)
    }
}

impl vstd::std_specs::convert::FromSpecImpl<toml::ser::Error> for Error {
    open spec fn obeys_from_spec() -> bool {
        true
    }

    open spec fn from_spec(error: toml::ser::Error) -> Error {
        Error::TomlSerialize(error)
    }
}

/// Whether a part stands somewhere in a text.
pub open spec fn shows(text: Seq<char>, part: Seq<char>) -> bool {
    exists|i: int|
        0 <= i <= text.len() - part.len() && #[trigger] text.subrange(i, i + part.len()) == part
}

/// What yansi writes for a URL that is painted in a style and made a link to
/// itself, given whether painting was on when the link was opened, and when
/// the URL was painted.
pub uninterp spec fn painted(url: Seq<char>, style: Style, on: bool, shown: bool) -> Seq<char>;

/// Paints a URL with `yansi::Paint::paint`, makes it a link to itself with
/// `yansi::Painted::link`, and writes it out. What is written rests on the
/// URL, the style, and whether painting is on, by yansi's global switch and
/// the style's own condition, when the link is opened and when the URL is
/// painted. The URL stands in it, unless the style hides it, and then nothing
/// is written.
#[verifier::external_body]
fn painted_link(url: &str, style: Style) -> (text: String)
    requires
        !url@.contains('\u{1b}'),
    ensures
        text@.len() == 0 || shows(text@, url@),
        exists|on: bool, shown: bool| text@ == #[trigger] painted(url@, style, on, shown),
{
    url.paint(style).link(url).to_string()
}

/// The long description of the program: the banner, the short description,
/// the link to the documentation, and what the program is for.
pub open spec fn long_about_text(
    banner: Seq<char>,
    description: Seq<char>,
    link: Seq<char>,
) -> Seq<char> {
    "\n"@ + banner + "\n\n"@ + description + "\n\n"@ + link + "\n\n"@
        + "Gest provides a lightweight, file-based system for organizing the artifacts, specs, ADRs, and task backlogs that AI coding agents produce. Instead of letting generated context scatter across chat logs and throwaway files, gest stores it in a structured, version-controlled directory right inside your repo — so every decision, plan, and backlog item travels with the code it describes. It includes a local web dashboard for browsing and managing your project's knowledge base, and a CLI that integrates naturally into agent-driven workflows."@
}

/// Writes the long description of the program around a link to the
/// documentation.
pub fn long_about_with(banner: &str, description: &str, link: &str) -> (text: String)
    ensures
        text@ == long_about_text(banner@, description@, link@),
{
    "\n".to_owned().concat(banner).concat("\n\n").concat(description).concat("\n\n").concat(link).concat(
        "\n\n",
    ).concat(
        "Gest provides a lightweight, file-based system for organizing the artifacts, specs, ADRs, and task backlogs that AI coding agents produce. Instead of letting generated context scatter across chat logs and throwaway files, gest stores it in a structured, version-controlled directory right inside your repo — so every decision, plan, and backlog item travels with the code it describes. It includes a local web dashboard for browsing and managing your project's knowledge base, and a CLI that integrates naturally into agent-driven workflows.",
    )
}

/// Writes the long description of the program, with the link to the
/// documentation painted in the given style.
pub fn long_about(banner: &str, description: &str, style: Style) -> (text: String)
    ensures
        exists|on: bool, shown: bool|
            text@ == long_about_text(
                banner@,
                description@,
                #[trigger] painted("https://gest.aaronmallen.dev"@, style, on, shown),
            ),
        exists|link: Seq<char>|
            (link.len() == 0 || shows(link, "https://gest.aaronmallen.dev"@)) && text@
                == #[trigger] long_about_text(banner@, description@, link),
{
    proof {
        reveal_strlit("https://gest.aaronmallen.dev");
    }
    let link = painted_link("https://gest.aaronmallen.dev", style);
    long_about_with(banner, description, link.as_str())
}

} // verus!
