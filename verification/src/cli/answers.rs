//! What each operation on a command line returns, whatever it is given.
use vstd::prelude::*;
use yansi::Style;

use crate::cli::args::{
    app_grammar, arranged, flags_first, grammar, move_flags, parse, parse_arranged, read, refused,
    Chosen, Grammar, Matches, Parted, Refusal,
};
use crate::cli::{
    long_about, long_about_text, long_about_with, notify_web_reload_if_possible, painted, shows,
    After, App, AppView, Before, Call, Command, CommandView, Ended, Error, InitCommand, Running,
    WatermarkView,
};
use crate::config;
use crate::store;
use crate::text::texts;

verus! {

/// A subcommand is told by its name, and tells whether it needs a project.
pub proof fn subcommands_tell_what_they_need(
    local: bool,
    init: InitCommand,
    command: Command,
    chosen: Chosen,
    res: bool,
)
    ensures
        call_ensures(InitCommand::new, (local,), init) ==> init.is_local() == local,
        call_ensures(InitCommand::local, (&init,), res) ==> res == init.is_local(),
        call_ensures(Command::requires_project, (&command, local), res) ==> res
            == command.needs_project(local),
        call_ensures(Command::from_chosen, (chosen,), command) ==> command@
            == CommandView::chosen(chosen@),
{
}

/// A call tells what it was made with.
pub proof fn calls_tell_what_they_were_made_with(
    command: Option<Command>,
    no_color: bool,
    no_pager: bool,
    print_version: bool,
    level: u8,
    app: App,
    found: Matches,
    flag: &bool,
    counted: &u8,
    kept: &Option<Command>,
    res: bool,
)
    ensures
        call_ensures(App::new, (command, no_color, no_pager, print_version, level), app)
            ==> app.subcommand() == command && app@.no_color == no_color && app@.no_pager
            == no_pager && app@.print_version == print_version && app@.verbosity_level == level,
        call_ensures(App::from_matches, (found,), app) ==> app@ == AppView::of(found@),
        call_ensures(App::no_pager, (&app,), flag) ==> *flag == app@.no_pager,
        call_ensures(App::verbosity_level, (&app,), counted) ==> *counted == app@.verbosity_level,
        call_ensures(App::no_color, (&app,), res) ==> res == app@.no_color,
        call_ensures(App::command, (&app,), kept) ==> *kept == app.subcommand(),
        call_ensures(App::initializes_local_project, (&app,), res) ==> (res
            <==> app@.command is Some && app@.command->0.name == "init"@
            && app@.command->0.local),
{
}

/// A command line is read with its flags in front; what it does not accept it
/// answers with what clap says.
pub proof fn lines_are_read_with_flags_in_front(
    line: &Vec<String>,
    about: &String,
    long: &String,
    res: Result<App, Refusal>,
)
    requires
        call_ensures(App::try_parse_described, (line, about, long), res),
    ensures
        res is Ok <==> read(arranged(texts(line@))) is Some,
        res is Ok ==> res->Ok_0@ == AppView::of(read(arranged(texts(line@)))->0),
        res is Err ==> res->Err_0@ == refused(
            app_grammar(),
            (about@, long@),
            arranged(texts(line@)),
        ),
{
}

/// A command line of any length is read the same way, with no descriptions.
pub proof fn lines_of_any_length_are_read<const N: usize>(
    line: [&str; N],
    res: Result<App, Refusal>,
)
    requires
        call_ensures(App::try_parse_from::<N>, (line,), res),
    ensures
        ({
            let words = arranged(line@.map_values(|arg: &str| arg@));
            &&& res is Ok <==> read(words) is Some
            &&& res is Ok ==> res->Ok_0@ == AppView::of(read(words)->0)
            &&& res is Err ==> res->Err_0@ == refused(
                app_grammar(),
                (Seq::empty(), Seq::empty()),
                words,
            )
        }),
{
}

/// What is found on a line is what clap finds by the program's own grammar:
/// on the line as it stands, or on the line as it is arranged.
pub proof fn lines_are_matched_by_the_grammar(
    line: &Vec<String>,
    about: &String,
    long: &String,
    res: Result<Matches, Refusal>,
    whole: Grammar,
    own: usize,
    parted: Parted,
    moved: Vec<String>,
)
    ensures
        call_ensures(grammar, (), whole) ==> whole@ == app_grammar(),
        call_ensures(parse, (line, about, long), res) ==> (res is Ok ==> read(texts(line@)) == Some(
            res->Ok_0@,
        )) && (res is Err ==> read(texts(line@)) is None && res->Err_0@ == refused(
            app_grammar(),
            (about@, long@),
            texts(line@),
        )),
        call_ensures(parse_arranged, (line, about, long), res) ==> (res is Ok ==> read(
            arranged(texts(line@)),
        ) == Some(res->Ok_0@)) && (res is Err ==> read(arranged(texts(line@))) is None
            && res->Err_0@ == refused(app_grammar(), (about@, long@), arranged(texts(line@)))),
        call_ensures(move_flags, (line, own, parted), moved) ==> texts(moved@) == flags_first(
            texts(line@),
            own as nat,
            parted@,
        ),
{
}

/// Words are taken one by one.
pub proof fn words_are_taken_one_by_one(
    none: Parted,
    parted: &mut Parted,
    word: &String,
    flag: bool,
)
    ensures
        call_ensures(Parted::none, (), none) ==> none@.flags.len() == 0 && none@.arguments.len()
            == 0 && !none@.ended,
        call_ensures(Parted::push, (parted, word, flag), ()) && flag && !old(parted).ended && word@
            != "--"@ ==> final(parted)@.flags == old(parted)@.flags.push(word@)
            && final(parted)@.arguments == old(parted)@.arguments && !final(parted)@.ended,
        call_ensures(Parted::push, (parted, word, flag), ()) && !(flag && !old(parted).ended
            && word@ != "--"@) ==> final(parted)@.flags == old(parted)@.flags
            && final(parted)@.arguments == old(parted)@.arguments.push(word@) && (
        final(parted)@.ended <==> old(parted)@.ended || word@ == "--"@),
{
}

/// The version comes before all else, and the help before any subcommand. A
/// subcommand that needs a project is refused without one; every other runs,
/// and within a project the newest transaction is asked for first.
pub proof fn calls_do_what_comes_first(
    app: &App,
    project_id: &Option<String>,
    tag_does: bool,
    res: Result<Call, Error>,
)
    requires
        call_ensures(App::call, (app, project_id, tag_does), res),
    ensures
        app@.print_version <==> res matches Ok(Call::Version),
        !app@.print_version && app.subcommand() is None <==> res matches Ok(Call::LongHelp),
        !app@.print_version && app.subcommand() is Some && project_id is None
            && app.subcommand()->0.needs_project(tag_does) <==> res is Err,
        res is Err ==> res->Err_0 is UninitializedProject,
        !app@.print_version && app.subcommand() is Some && project_id is Some <==> res matches Ok(
            Call::Ask(_),
        ),
        !app@.print_version && app.subcommand() is Some && project_id is None
            && !app.subcommand()->0.needs_project(tag_does) <==> res matches Ok(Call::Run(_)),
{
}

/// A running web server is notified where the subcommand succeeded within a
/// project and the newest transaction is another than before, and only there.
pub proof fn changes_are_notified(
    waiting: Before,
    first: Option<String>,
    running: Running,
    outcome: Result<(), Error>,
    ended: Ended,
    after: &After,
    second: &Option<String>,
    notify: bool,
)
    requires
        call_ensures(Before::latest, (waiting, first), running),
        call_ensures(Running::finish, (running, outcome), ended),
    ensures
        outcome is Err ==> ended == Ended::Done(outcome),
        outcome is Ok ==> ended is Ask,
        ended is Ask && ended->Ask_0 == *after && call_ensures(
            After::notifies,
            (after, second),
            notify,
        ) ==> notify == match (first, *second) {
            (Some(a), Some(b)) => a@ != b@,
            (None, None) => false,
            _ => true,
        },
{
}

/// A subcommand that runs outside of any project has its own outcome.
pub proof fn outcomes_outside_a_project_stand(
    running: Running,
    outcome: Result<(), Error>,
    ended: Ended,
)
    requires
        running@ == WatermarkView::Unknown,
        call_ensures(Running::finish, (running, outcome), ended),
    ensures
        ended == Ended::Done(outcome),
{
}

/// A notice names the project's directory, if it has one, and the data
/// directory; without a data directory there is none.
pub proof fn notices_name_both_directories<D>(
    gest_dir: Option<D>,
    data_dir: Result<D, config::Error>,
    notice: Option<(Option<D>, D)>,
)
    requires
        call_ensures(notify_web_reload_if_possible::<D>, (gest_dir, data_dir), notice),
    ensures
        notice is None <==> data_dir is Err,
        data_dir is Ok ==> notice == Some((gest_dir, data_dir->Ok_0)),
{
}

/// An error tells its exit code and its message.
pub proof fn errors_tell_code_and_message(error: &Error, code: u8, text: Option<String>)
    ensures
        call_ensures(Error::exit_code_u8, (error,), code) ==> code == error.code(),
        call_ensures(Error::message, (error,), text) ==> match text {
            Some(t) => error.text() == Some(t@),
            None => error.text() is None,
        },
{
}

/// An error of another kind becomes the error of a call that holds it.
pub proof fn errors_are_taken_over(
    settings: config::Error,
    io: std::io::Error,
    json: serde_json::Error,
    inner: store::Error,
    toml: toml::ser::Error,
    res: Error,
)
    ensures
        call_ensures(<Error as From<config::Error>>::from, (settings,), res) ==> res
            == Error::Config(settings),
        call_ensures(<Error as From<std::io::Error>>::from, (io,), res) ==> res == Error::Io(io),
        call_ensures(<Error as From<serde_json::Error>>::from, (json,), res) ==> res
            == Error::Serialize(json),
        call_ensures(<Error as From<store::Error>>::from, (inner,), res) ==> res == Error::Store(
            inner,
        ),
        call_ensures(<Error as From<toml::ser::Error>>::from, (toml,), res) ==> res
            == Error::TomlSerialize(toml),
{
}

/// The long description is written around the link to the documentation, as
/// yansi paints it.
pub proof fn the_long_description_is_written(
    banner: &str,
    description: &str,
    link: &str,
    style: Style,
    text: String,
)
    ensures
        call_ensures(long_about_with, (banner, description, link), text) ==> text@
            == long_about_text(banner@, description@, link@),
        call_ensures(long_about, (banner, description, style), text) ==> (exists|
            on: bool,
            shown: bool,
        |
            text@ == long_about_text(
                banner@,
                description@,
                #[trigger] painted("https://gest.aaronmallen.dev"@, style, on, shown),
            )) && (exists|l: Seq<char>|
            (l.len() == 0 || shows(l, "https://gest.aaronmallen.dev"@)) && text@
                == #[trigger] long_about_text(banner@, description@, l)),
{
}

} // verus!
