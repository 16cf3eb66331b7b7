//! The store: what is asked of the database, and what becomes of the answers.
pub mod answers;
pub mod repo;
pub mod statement;

use vstd::prelude::*;

use crate::config;
use crate::text::{decimal, decimal_text};

verus! {

/// What can go wrong anywhere in the store.
#[derive(Debug)]
pub enum Error {
    /// An id prefix that several entities match, and how many do.
    Ambiguous(String, usize),
    /// A setting, such as the data directory, could not be read.
    Config(config::Error),
    /// The database driver failed.
    Database(libsql::Error),
    /// An id prefix that no id can have.
    InvalidPrefix(String),
    /// A value of a row could not be read as what it stands for.
    InvalidValue(String),
    /// A file could not be read or written.
    Io(std::io::Error),
    /// There is no such entity.
    NotFound(String),
    /// There is no transaction left to undo.
    NothingToUndo,
    /// A payload could not be read or written as JSON.
    Serialization(serde_json::Error),
    /// A file of the `.gest` directory could not be read or written as YAML.
    Yaml(yaml_serde::Error),
}

impl Error {
    /// The message of the error; `None` where the message is that of the
    /// error inside.
    pub open spec fn text(self) -> Option<Seq<char>> {
        match self {
            Error::Ambiguous(prefix, count) => Some(
                "ambiguous id prefix '"@ + prefix@ + "': matches "@ + decimal_text(count as nat)
                    + " entities"@,
            ),
            Error::InvalidPrefix(reason) => Some(reason@),
            Error::InvalidValue(reason) => Some("invalid value: "@ + reason@),
            Error::NotFound(what) => Some("not found: "@ + what@),
            Error::NothingToUndo => Some("nothing to undo"@),
            Error::Config(_) | Error::Database(_) | Error::Io(_) | Error::Serialization(_)
            | Error::Yaml(_) => None,
        }
    }

    /// Writes the message of the error; `None` where the message is that of
    /// the error inside.
    pub fn message(&self) -> (text: Option<String>)
        ensures
            match text {
                Some(t) => self.text() == Some(t@),
                None => self.text() is None,
            },
    {
        match self {
            Error::Ambiguous(prefix, count) => {
                let number = decimal(*count as u128);
                Some(
                    "ambiguous id prefix '".to_owned().concat(prefix.as_str()).concat(
                        "': matches ",
                    ).concat(number.as_str()).concat(" entities"),
                )
            },
            Error::InvalidPrefix(reason) => Some(reason.clone()),
            Error::InvalidValue(reason) => Some("invalid value: ".to_owned().concat(reason.as_str())),
            Error::NotFound(what) => Some("not found: ".to_owned().concat(what.as_str())),
            Error::NothingToUndo => Some("nothing to undo".to_owned()),
            Error::Config(_) | Error::Database(_) | Error::Io(_) | Error::Serialization(_)
            | Error::Yaml(_) => None,
        }
    }
}

impl From<config::Error> for Error {
    fn from(error: config::Error) -> (res: Error) {
        Error::Config(error)
    }
}

impl vstd::std_specs::convert::FromSpecImpl<config::Error> for Error {
    open spec fn obeys_from_spec() -> bool {
        true
    }

    open spec fn from_spec(error: config::Error) -> Error {
        Error::Config(error)
    }
}

impl From<libsql::Error> for Error {
    fn from(error: libsql::Error) -> (res: Error) {
        Error::Database(error)
    }
}

impl vstd::std_specs::convert::FromSpecImpl<libsql::Error> for Error {
    open spec fn obeys_from_spec() -> bool {
        true
    }

    open spec fn from_spec(error: libsql::Error) -> Error {
        Error::Database(error)
    }
}

impl From<std::io::Error> for Error {
    fn from(error: std::io::Error) -> (res: Error) {
        Error::Io(error)
    }
}

impl vstd::std_specs::convert::FromSpecImpl<std::io::Error> for Error {
    open spec fn obeys_from_spec() -> bool {
        true
    }

    open spec fn from_spec(error: std::io::Error) -> Error {
        Error::Io(error)
    }
}

impl From<serde_json::Error> for Error {
    fn from(error: serde_json::Error) -> (res: Error) {
        Error::Serialization(error)
    }
}

impl vstd::std_specs::convert::FromSpecImpl<serde_json::Error> for Error {
    open spec fn obeys_from_spec() -> bool {
        true
    }

    open spec fn from_spec(error: serde_json::Error) -> Error {
        Error::Serialization(error)
    }
}

impl From<yaml_serde::Error> for Error {
    fn from(error: yaml_serde::Error) -> (res: Error) {
        Error::Yaml(error)
    }
}

impl vstd::std_specs::convert::FromSpecImpl<yaml_serde::Error> for Error {
    open spec fn obeys_from_spec() -> bool {
        true
    }

    open spec fn from_spec(error: yaml_serde::Error) -> Error {
        Error::Yaml(error)
    }
}

/// Where a database is opened.
#[derive(Debug)]
pub enum Location<D> {
    /// At a URL, with a token.
    Remote { url: String, auth_token: String },
    /// In a file of a directory, which is made if it is missing.
    Local { dir: D, file: &'static str },
}

/// The directory of a local database: the one that was set, else the `.gest`
/// directory of the project, else the default data directory.
pub open spec fn local_dir<D>(
    settings: config::Settings<D>,
    gest_dir: Option<D>,
    default_dir: Result<D, config::Error>,
) -> Result<D, config::Error> {
    match (settings.storage.data_dir_override, gest_dir) {
        (Some(dir), _) => Ok(dir),
        (None, Some(dir)) => Ok(dir),
        (None, None) => default_dir,
    }
}

/// Decides where the database is opened. A URL in the settings comes before
/// all else; without one, the database is the file `gest.db` of a local
/// directory.
pub fn open_with_gest_dir<D>(
    settings: config::Settings<D>,
    gest_dir: Option<D>,
    default_dir: Result<D, config::Error>,
) -> (location: Result<Location<D>, Error>)
    ensures
        match location {
            Ok(Location::Remote { url, auth_token }) => settings.database.url == Some(url)
                && auth_token@ == match settings.database.auth_token {
                Some(token) => token@,
                None => Seq::empty(),
            },
            Ok(Location::Local { dir, file }) => settings.database.url is None && local_dir(
                settings,
                gest_dir,
                default_dir,
            ) == Ok::<D, config::Error>(dir) && file@ == "gest.db"@,
            Err(error) => settings.database.url is None && (local_dir(
                settings,
                gest_dir,
                default_dir,
            ) matches Err(reason) && error == Error::Config(reason)),
        },
        settings.database.url is Some <==> location matches Ok(Location::Remote { .. }),
        settings.database.url is None && settings.storage.data_dir_override is Some ==> location
            == Ok::<Location<D>, Error>(
            Location::Local { dir: settings.storage.data_dir_override->0, file: "gest.db" },
        ),
        settings.database.url is None && settings.storage.data_dir_override is None
            && gest_dir is Some ==> location == Ok::<Location<D>, Error>(
            Location::Local { dir: gest_dir->0, file: "gest.db" },
        ),
        settings.database.url is None && settings.storage.data_dir_override is None
            && gest_dir is None ==> location == match default_dir {
            Ok(dir) => Ok::<Location<D>, Error>(Location::Local { dir, file: "gest.db" }),
            Err(reason) => Err(Error::Config(reason)),
        },
{
    if let Some(url) = settings.database.url {
        let auth_token = match settings.database.auth_token {
            Some(token) => token,
            None => String::new(),
        };
        return Ok(Location::Remote { url, auth_token });
    }
    let dir = match settings.storage.data_dir_override {
        Some(dir) => dir,
        None => match gest_dir {
            Some(dir) => dir,
            None => match default_dir {
                Ok(dir) => dir,
                Err(reason) => {
                    return Err(Error::Config(reason));
                },
            },
        },
    };
    Ok(Location::Local { dir, file: "gest.db" })
}

/// Decides where the database is opened outside of any project.
pub fn open<D>(settings: config::Settings<D>, default_dir: Result<D, config::Error>) -> (location:
    Result<Location<D>, Error>)
    ensures
        match location {
            Ok(Location::Remote { url, auth_token }) => settings.database.url == Some(url)
                && auth_token@ == match settings.database.auth_token {
                Some(token) => token@,
                None => Seq::empty(),
            },
            Ok(Location::Local { dir, file }) => settings.database.url is None && local_dir(
                settings,
                None,
                default_dir,
            ) == Ok::<D, config::Error>(dir) && file@ == "gest.db"@,
            Err(error) => settings.database.url is None && (local_dir(
                settings,
                None,
                default_dir,
            ) matches Err(reason) && error == Error::Config(reason)),
        },
        settings.database.url is Some <==> location matches Ok(Location::Remote { .. }),
        settings.database.url is None && settings.storage.data_dir_override is Some ==> location
            == Ok::<Location<D>, Error>(
            Location::Local { dir: settings.storage.data_dir_override->0, file: "gest.db" },
        ),
        settings.database.url is None && settings.storage.data_dir_override is None ==> location
            == match default_dir {
            Ok(dir) => Ok::<Location<D>, Error>(Location::Local { dir, file: "gest.db" }),
            Err(reason) => Err(Error::Config(reason)),
        },
{
    open_with_gest_dir(settings, None, default_dir)
}

/// A directory that was set explicitly is where a local database is, whether
/// or not there is a `.gest` directory, and whatever the default is. Without
/// one it is the `.gest` directory, and only without both does the default
/// matter.
pub proof fn a_directory_that_was_set_comes_first<D>(
    settings: config::Settings<D>,
    dir: D,
    gest_dir: Option<D>,
    default_dir: Result<D, config::Error>,
)
    ensures
        settings.storage.data_dir_override == Some(dir) ==> local_dir(
            settings,
            gest_dir,
            default_dir,
        ) == Ok::<D, config::Error>(dir),
        settings.storage.data_dir_override is None && gest_dir == Some(dir) ==> local_dir(
            settings,
            gest_dir,
            default_dir,
        ) == Ok::<D, config::Error>(dir),
        settings.storage.data_dir_override is None && gest_dir is None ==> local_dir(
            settings,
            gest_dir,
            default_dir,
        ) == default_dir,
{
}

/// A statement that a new connection is prepared with.
#[derive(Clone, Copy, Debug, PartialEq, Eq, Structural)]
pub enum Pragma {
    /// References between rows are enforced.
    ForeignKeys,
    /// Changes are written ahead to a log. It answers with rows, which are
    /// to be read to their end.
    WriteAheadLog,
}

impl Pragma {
    /// The text of the statement.
    pub open spec fn text(self) -> Seq<char> {
        match self {
            Pragma::ForeignKeys => "PRAGMA foreign_keys = ON"@,
            Pragma::WriteAheadLog => "PRAGMA journal_mode = WAL"@,
        }
    }

    /// The text of the statement.
    pub fn sql(self) -> (sql: &'static str)
        ensures
            sql@ == self.text(),
    {
        match self {
            Pragma::ForeignKeys => "PRAGMA foreign_keys = ON",
            Pragma::WriteAheadLog => "PRAGMA journal_mode = WAL",
        }
    }
}

/// What is known of an open database: whether it is a local file, the project
/// and the `.gest` directory that it is kept in step with, and whether it was
/// brought in step in this process.
#[derive(Debug)]
pub struct Db<D> {
    file_backed: bool,
    imported: bool,
    sync_ctx: Option<(String, D)>,
}

/// What a [`Db`] holds.
#[verifier::ext_equal]
#[verifier::reject_recursive_types(D)]
pub struct DbView<D> {
    pub file_backed: bool,
    pub imported: bool,
    pub sync_ctx: Option<(Seq<char>, D)>,
}

impl<D> View for Db<D> {
    type V = DbView<D>;

    closed spec fn view(&self) -> DbView<D> {
        DbView {
            file_backed: self.file_backed,
            imported: self.imported,
            sync_ctx: match self.sync_ctx {
                Some((project_id, gest_dir)) => Some((project_id@, gest_dir)),
                None => None,
            },
        }
    }
}

impl<D> DbView<D> {
    /// A database that was just opened.
    pub open spec fn opened(file_backed: bool) -> DbView<D> {
        DbView { file_backed, imported: false, sync_ctx: None }
    }

    /// The database once a project and its directory are given to keep in
    /// step with: the first that are given stay.
    pub open spec fn configured(self, project_id: Seq<char>, gest_dir: D) -> DbView<D> {
        match self.sync_ctx {
            Some(_) => self,
            None => DbView { sync_ctx: Some((project_id, gest_dir)), ..self },
        }
    }

    /// Whether the files of the directory are still to be imported.
    pub open spec fn imports(self) -> bool {
        self.sync_ctx is Some && !self.imported
    }

    /// The database once it was asked to import what is to be imported.
    pub open spec fn asked_to_import(self) -> DbView<D> {
        DbView { imported: self.imported || self.imports(), ..self }
    }
}

impl<D> Location<D> {
    /// The database that is opened there.
    pub fn opened(&self) -> (db: Db<D>)
        ensures
            db@ == DbView::<D>::opened(self is Local),
    {
        match self {
            Location::Remote { .. } => Db::opened(false),
            Location::Local { .. } => Db::opened(true),
        }
    }
}

impl<D> Db<D> {
    /// A database that was just opened.
    pub fn opened(file_backed: bool) -> (db: Db<D>)
        ensures
            db@ == DbView::<D>::opened(file_backed),
    {
        Db { file_backed, imported: false, sync_ctx: None }
    }

    /// What a new connection is prepared with, in order.
    pub fn connect(&self) -> (pragmas: Vec<Pragma>)
        ensures
            pragmas@ == if self@.file_backed {
                seq![Pragma::WriteAheadLog, Pragma::ForeignKeys]
            } else {
                seq![Pragma::ForeignKeys]
            },
    {
        let mut pragmas: Vec<Pragma> = Vec::new();
        if self.file_backed {
            pragmas.push(Pragma::WriteAheadLog);
        }
        pragmas.push(Pragma::ForeignKeys);
        pragmas
    }

    /// Gives a project and its `.gest` directory to keep in step with. Only
    /// the first call has an effect.
    pub fn configure_sync(&mut self, project_id: String, gest_dir: D)
        ensures
            final(self)@ == old(self)@.configured(project_id@, gest_dir),
    {
        if self.sync_ctx.is_none() {
            self.sync_ctx = Some((project_id, gest_dir));
        }
    }

    /// Tells whether the files of the directory are to be imported now, which
    /// they are once at most.
    pub fn import_if_needed(&mut self) -> (import: bool)
        ensures
            import == old(self)@.imports(),
            final(self)@ == old(self)@.asked_to_import(),
    {
        let import = self.sync_ctx.is_some() && !self.imported;
        if import {
            self.imported = true;
        }
        import
    }

    /// The project and the directory to export to, or to import from; `None`
    /// where none were given.
    pub fn export_if_needed(&self) -> (context: Option<(&String, &D)>)
        ensures
            match context {
                Some((project_id, gest_dir)) => self@.sync_ctx == Some((project_id@, *gest_dir)),
                None => self@.sync_ctx is None,
            },
    {
        match &self.sync_ctx {
            Some((project_id, gest_dir)) => Some((project_id, gest_dir)),
            None => None,
        }
    }
}

/// Something that happens to an open database.
#[verifier::reject_recursive_types(D)]
pub enum DbEvent<D> {
    Configure(Seq<char>, D),
    Import,
}

impl<D> DbView<D> {
    /// The database after all that happened, in order, and how often files
    /// were imported.
    pub open spec fn after(self, events: Seq<DbEvent<D>>) -> (DbView<D>, nat)
        decreases events.len(),
    {
        if events.len() == 0 {
            (self, 0)
        } else {
            let (before, imports) = self.after(events.drop_last());
            match events.last() {
                DbEvent::Configure(project_id, gest_dir) => (
                    before.configured(project_id, gest_dir),
                    imports,
                ),
                DbEvent::Import => (
                    before.asked_to_import(),
                    if before.imports() {
                        imports + 1
                    } else {
                        imports
                    },
                ),
            }
        }
    }
}

/// A database that was just opened has nothing to keep in step with. What is
/// given first to keep in step with stays, and nothing else changes with it.
pub proof fn only_the_first_sync_is_taken<D>(
    db: DbView<D>,
    file_backed: bool,
    project_id: Seq<char>,
    gest_dir: D,
)
    ensures
        DbView::<D>::opened(file_backed).file_backed == file_backed,
        !DbView::<D>::opened(file_backed).imported,
        DbView::<D>::opened(file_backed).sync_ctx is None,
        db.configured(project_id, gest_dir).file_backed == db.file_backed,
        db.configured(project_id, gest_dir).imported == db.imported,
        db.sync_ctx is Some ==> db.configured(project_id, gest_dir).sync_ctx == db.sync_ctx,
        db.sync_ctx is None ==> db.configured(project_id, gest_dir).sync_ctx == Some(
            (project_id, gest_dir),
        ),
{
}

/// Files are imported where there is a directory to import from and it was not
/// done before; once that was asked for it is not done again, and nothing else
/// changes with it.
pub proof fn an_import_is_asked_for_once<D>(db: DbView<D>)
    ensures
        db.imports() <==> db.sync_ctx is Some && !db.imported,
        !db.asked_to_import().imports(),
        db.asked_to_import().imported <==> db.imported || db.sync_ctx is Some,
        db.asked_to_import().file_backed == db.file_backed,
        db.asked_to_import().sync_ctx == db.sync_ctx,
{
}

/// What happens to a database happens step by step.
pub proof fn a_database_changes_step_by_step<D>(
    db: DbView<D>,
    events: Seq<DbEvent<D>>,
    project_id: Seq<char>,
    gest_dir: D,
)
    ensures
        db.after(Seq::empty()) == (db, 0nat),
        db.after(events.push(DbEvent::Configure(project_id, gest_dir))) == (
            db.after(events).0.configured(project_id, gest_dir),
            db.after(events).1,
        ),
        db.after(events.push(DbEvent::Import)).0 == db.after(events).0.asked_to_import(),
        db.after(events.push(DbEvent::Import)).1 == db.after(events).1 + if db.after(
            events,
        ).0.imports() {
            1nat
        } else {
            0nat
        },
{
    assert(events.push(DbEvent::Configure(project_id, gest_dir)).drop_last() =~= events);
    assert(events.push(DbEvent::Import).drop_last() =~= events);
}

/// References are enforced on every connection, and a local file is written
/// ahead to a log.
pub proof fn pragmas_are_written_out()
    ensures
        Pragma::ForeignKeys.text() == "PRAGMA foreign_keys = ON"@,
        Pragma::WriteAheadLog.text() == "PRAGMA journal_mode = WAL"@,
{
}

/// Each error of the store's own says what went wrong and with what; the
/// others leave that to the error inside.
pub proof fn errors_say_what_went_wrong(what: String, count: usize, error: Error)
    ensures
        Error::Ambiguous(what, count).text() == Some(
            "ambiguous id prefix '"@ + what@ + "': matches "@ + decimal_text(count as nat)
                + " entities"@,
        ),
        Error::InvalidPrefix(what).text() == Some(what@),
        Error::InvalidValue(what).text() == Some("invalid value: "@ + what@),
        Error::NotFound(what).text() == Some("not found: "@ + what@),
        Error::NothingToUndo.text() == Some("nothing to undo"@),
        error is Config || error is Database || error is Io || error is Serialization
            || error is Yaml ==> error.text() is None,
{
}

/// Whatever happens to a database that was just opened, files are imported
/// once at most, and not before there is something to import.
pub proof fn files_are_imported_once<D>(file_backed: bool, events: Seq<DbEvent<D>>)
    ensures
        ({
            let (db, imports) = DbView::<D>::opened(file_backed).after(events);
            &&& imports <= 1
            &&& db.imported <==> imports == 1
            &&& db.imported ==> db.sync_ctx is Some
            &&& db.file_backed == file_backed
        }),
    decreases events.len(),
{
    if events.len() > 0 {
        files_are_imported_once(file_backed, events.drop_last());
    }
}

/// Once a database has a project and a directory to keep in step with, it
/// keeps them, whatever happens.
pub proof fn the_first_sync_stays<D>(db: DbView<D>, events: Seq<DbEvent<D>>)
    requires
        db.sync_ctx is Some,
    ensures
        db.after(events).0.sync_ctx == db.sync_ctx,
    decreases events.len(),
{
    if events.len() > 0 {
        the_first_sync_stays(db, events.drop_last());
    }
}

} // verus!
