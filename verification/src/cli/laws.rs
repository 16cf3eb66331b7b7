//! What the command line offers, and what a call of the program does.
use vstd::prelude::*;

use crate::cli::args::{
    app_grammar, app_wanted, arg_shapes, arranged, command_shapes, flags_first, flags_grammar,
    flags_wanted, has_command, is_command_name, is_flag, matched, names, parted, read, Action,
    ArgShape, ArgShapeView, Chosen, ChosenView, CommandShape, Grammar, Matches, MatchesView, Parted,
    PartedView, Refusal, Wanted,
};
use crate::cli::{
    long_about_text, shows, transaction, AppView, Command, CommandView, Error, InitCommand,
};
use crate::store;
use crate::text::texts;

verus! {

/// A subcommand is seen by its name and its own arguments.
pub proof fn subcommands_are_seen_by_name(list: Vec<String>, init: InitCommand)
    ensures
        Command::Artifact(list)@.name == "artifact"@,
        Command::Config(list)@.name == "config"@,
        Command::Generate(list)@.name == "generate"@,
        Command::Iteration(list)@.name == "iteration"@,
        Command::Migrate(list)@.name == "migrate"@,
        Command::Project(list)@.name == "project"@,
        Command::Purge(list)@.name == "purge"@,
        Command::Search(list)@.name == "search"@,
        Command::SelfUpdate(list)@.name == "self-update"@,
        Command::Serve(list)@.name == "serve"@,
        Command::Tag(list)@.name == "tag"@,
        Command::Task(list)@.name == "task"@,
        Command::Undo(list)@.name == "undo"@,
        Command::Init(init)@.name == "init"@,
        Command::Version@.name == "version"@,
        Command::Artifact(list)@.arguments == texts(list@) && !Command::Artifact(list)@.local,
        Command::Config(list)@.arguments == texts(list@) && !Command::Config(list)@.local,
        Command::Generate(list)@.arguments == texts(list@) && !Command::Generate(list)@.local,
        Command::Iteration(list)@.arguments == texts(list@) && !Command::Iteration(list)@.local,
        Command::Migrate(list)@.arguments == texts(list@) && !Command::Migrate(list)@.local,
        Command::Project(list)@.arguments == texts(list@) && !Command::Project(list)@.local,
        Command::Purge(list)@.arguments == texts(list@) && !Command::Purge(list)@.local,
        Command::Search(list)@.arguments == texts(list@) && !Command::Search(list)@.local,
        Command::SelfUpdate(list)@.arguments == texts(list@) && !Command::SelfUpdate(list)@.local,
        Command::Serve(list)@.arguments == texts(list@) && !Command::Serve(list)@.local,
        Command::Tag(list)@.arguments == texts(list@) && !Command::Tag(list)@.local,
        Command::Task(list)@.arguments == texts(list@) && !Command::Task(list)@.local,
        Command::Undo(list)@.arguments == texts(list@) && !Command::Undo(list)@.local,
        Command::Init(init)@.arguments.len() == 0,
        Command::Init(init)@.local == init.is_local(),
        Command::Version@.arguments.len() == 0,
        !Command::Version@.local,
{
}

/// The subcommand that was chosen keeps its name. It keeps all words that were
/// given to it, but for `init` and `version`, which take none; and only `init`
/// is told whether it is local.
pub proof fn a_chosen_subcommand_keeps_what_it_was_given(chosen: ChosenView)
    ensures
        ({
            let command = CommandView::chosen(chosen);
            &&& command.name == chosen.name
            &&& chosen.name == "init"@ ==> command.arguments.len() == 0 && (command.local
                <==> chosen.own == Some(true))
            &&& chosen.name == "version"@ ==> command.arguments.len() == 0 && !command.local
            &&& chosen.name != "init"@ && chosen.name != "version"@ ==> !command.local
                && match chosen.rest {
                Some(rest) => command.arguments == rest,
                None => command.arguments.len() == 0,
            }
        }),
{
    reveal_strlit("init");
    reveal_strlit("version");
    assert("init"@.len() != "version"@.len());
}

/// Work on artifacts, iterations and tasks, a search and the dashboard need a
/// project; `tag` does where its own arguments do; nothing else does.
pub proof fn work_on_entities_needs_a_project(command: Command, tag_does: bool)
    ensures
        command is Tag ==> command.needs_project(tag_does) == tag_does,
        command is Artifact || command is Iteration || command is Search || command is Serve
            || command is Task ==> command.needs_project(tag_does),
        command is Config || command is Generate || command is Init || command is Migrate
            || command is Project || command is Purge || command is SelfUpdate || command is Undo
            || command is Version ==> !command.needs_project(tag_does),
{
}

/// The program is called as its command line says: each flag stands for
/// itself, and the log is as verbose as was counted.
pub proof fn a_call_is_what_the_line_says(found: MatchesView)
    ensures
        AppView::of(found).no_color == found.switches[0],
        AppView::of(found).no_pager == found.switches[1],
        AppView::of(found).print_version == found.switches[2],
        AppView::of(found).verbosity_level == found.count,
        found.command is None <==> AppView::of(found).command is None,
        found.command is Some ==> AppView::of(found).command == Some(
            CommandView::chosen(found.command->0),
        ),
{
}

/// What each error exits with: 64 for a usage error, 65 for bad data, 66 for
/// a missing input, 69 for what is unavailable, 70 for an internal failure,
/// 74 for a failure of input or output, 75 for what may work later and 78 for
/// bad settings.
pub proof fn errors_exit_by_what_went_wrong(error: Error)
    ensures
        error is Argument ==> error.code() == 64,
        error is Serialize || error is TomlSerialize ==> error.code() == 65,
        error is NotFound || error is MetaKeyNotFound ==> error.code() == 66,
        error is InvalidState ==> error.code() == 69,
        error is Editor ==> error.code() == 70,
        error is Io ==> error.code() == 74,
        error is NoTasksAvailable ==> error.code() == 75,
        error is Config || error is UninitializedProject ==> error.code() == 78,
        error is Store ==> {
            let inner = error->Store_0;
            &&& inner is InvalidPrefix ==> error.code() == 64
            &&& inner is Serialization || inner is Yaml ==> error.code() == 65
            &&& inner is NotFound || inner is Ambiguous ==> error.code() == 66
            &&& inner is NothingToUndo ==> error.code() == 69
            &&& inner is Database || inner is InvalidValue || inner is Io ==> error.code() == 74
            &&& inner is Config ==> error.code() == 78
        },
{
}

/// What each error says; an error of the store speaks for itself, and those of
/// outside are left to say it.
pub proof fn errors_say_what_went_wrong(what: String, inner: store::Error, error: Error)
    ensures
        Error::Argument(what).text() == Some(what@),
        Error::Editor(what).text() == Some(what@),
        Error::InvalidState(what).text() == Some(what@),
        Error::NotFound(what).text() == Some(what@),
        Error::MetaKeyNotFound(what).text() == Some("metadata key not found: "@ + what@),
        Error::NoTasksAvailable.text() == Some("no available tasks"@),
        Error::UninitializedProject.text() == Some(
            "not a gest project (run `gest init` to initialize)"@,
        ),
        Error::Store(inner).text() == inner.text(),
        error is Config || error is Io || error is Serialize || error is TomlSerialize
            ==> error.text() is None,
{
}

/// Two transactions are the same where both have the same id, or neither is
/// there.
pub proof fn transactions_are_told_apart_by_id(a: Option<String>, b: Option<String>)
    ensures
        transaction(a) is None <==> a is None,
        a is Some && b is Some ==> (transaction(a) == transaction(b) <==> a->0@ == b->0@),
        a is Some ==> transaction(a) == Some(a->0@),
{
}

/// The long description holds the banner, the short description, the link and
/// what the program is for, in this order, each a paragraph of its own.
pub proof fn the_long_description_holds_its_paragraphs(
    banner: Seq<char>,
    description: Seq<char>,
    link: Seq<char>,
)
    ensures
        long_about_text(banner, description, link) == "\n"@ + banner + "\n\n"@ + description
            + "\n\n"@ + link + "\n\n"@
            + "Gest provides a lightweight, file-based system for organizing the artifacts, specs, ADRs, and task backlogs that AI coding agents produce. Instead of letting generated context scatter across chat logs and throwaway files, gest stores it in a structured, version-controlled directory right inside your repo — so every decision, plan, and backlog item travels with the code it describes. It includes a local web dashboard for browsing and managing your project's knowledge base, and a CLI that integrates naturally into agent-driven workflows."@,
{
}

/// A text shows a part where the part stands in it, whatever is around it.
pub proof fn a_text_shows_what_stands_in_it(
    before: Seq<char>,
    part: Seq<char>,
    behind: Seq<char>,
    text: Seq<char>,
)
    ensures
        shows(before + part + behind, part),
        shows(text, part) ==> exists|a: Seq<char>, b: Seq<char>| #[trigger] (a + part + b) == text,
{
    let all = before + part + behind;
    let n = before.len() as int;
    assert(all.subrange(n, n + part.len()) =~= part);
    if shows(text, part) {
        let i = choose|i: int|
            0 <= i <= text.len() - part.len() && #[trigger] text.subrange(i, i + part.len())
                == part;
        let a = text.take(i);
        let b = text.skip(i + part.len());
        assert forall|k: int| 0 <= k < part.len() implies text[i + k] == #[trigger] part[k] by {
            assert(text.subrange(i, i + part.len())[k] == text[i + k]);
        }
        assert(a + part + b =~= text);
    }
}

/// The program offers these subcommands, under these names and with these
/// descriptions in its help.
pub proof fn subcommands_are_offered_by_name()
    ensures
        app_grammar().name == "gest"@,
        app_grammar().commands.len() == 15,
        app_grammar().commands[0].name == "artifact"@,
        app_grammar().commands[1].name == "config"@,
        app_grammar().commands[2].name == "generate"@,
        app_grammar().commands[3].name == "init"@,
        app_grammar().commands[4].name == "iteration"@,
        app_grammar().commands[5].name == "migrate"@,
        app_grammar().commands[6].name == "project"@,
        app_grammar().commands[7].name == "purge"@,
        app_grammar().commands[8].name == "search"@,
        app_grammar().commands[9].name == "self-update"@,
        app_grammar().commands[10].name == "serve"@,
        app_grammar().commands[11].name == "tag"@,
        app_grammar().commands[12].name == "task"@,
        app_grammar().commands[13].name == "undo"@,
        app_grammar().commands[14].name == "version"@,
        app_grammar().commands[0].about == "Manage artifacts"@,
        app_grammar().commands[1].about == "View or modify configuration"@,
        app_grammar().commands[2].about == "Generate shell completions and man pages"@,
        app_grammar().commands[3].about == "Initialize gest for the current directory"@,
        app_grammar().commands[4].about == "Manage iterations"@,
        app_grammar().commands[5].about == "Import v0.4.x flat-file data into the current project store"@,
        app_grammar().commands[6].about == "Show or manage the current project"@,
        app_grammar().commands[7].about == "Purge terminal, archived, and orphaned data from the store"@,
        app_grammar().commands[8].about == "Search across all entity types"@,
        app_grammar().commands[9].about == "Download and install the latest release from GitHub"@,
        app_grammar().commands[10].about == "Start the web dashboard server"@,
        app_grammar().commands[11].about == "List all tags"@,
        app_grammar().commands[12].about == "Manage tasks"@,
        app_grammar().commands[13].about == "Undo the last command"@,
        app_grammar().commands[14].about == "Print the current version, platform info, and check for available updates"@,
{
}

/// Subcommands that are used often have a short name too.
pub proof fn subcommands_have_short_names()
    ensures
        app_grammar().commands[0].alias == Some("a"@),
        app_grammar().commands[0].visible_alias == None::<Seq<char>>,
        app_grammar().commands[1].alias == None::<Seq<char>>,
        app_grammar().commands[1].visible_alias == None::<Seq<char>>,
        app_grammar().commands[2].alias == None::<Seq<char>>,
        app_grammar().commands[2].visible_alias == None::<Seq<char>>,
        app_grammar().commands[3].alias == None::<Seq<char>>,
        app_grammar().commands[3].visible_alias == None::<Seq<char>>,
        app_grammar().commands[4].alias == Some("i"@),
        app_grammar().commands[4].visible_alias == None::<Seq<char>>,
        app_grammar().commands[5].alias == None::<Seq<char>>,
        app_grammar().commands[5].visible_alias == None::<Seq<char>>,
        app_grammar().commands[6].alias == None::<Seq<char>>,
        app_grammar().commands[6].visible_alias == Some("p"@),
        app_grammar().commands[7].alias == None::<Seq<char>>,
        app_grammar().commands[7].visible_alias == None::<Seq<char>>,
        app_grammar().commands[8].alias == Some("grep"@),
        app_grammar().commands[8].visible_alias == None::<Seq<char>>,
        app_grammar().commands[9].alias == None::<Seq<char>>,
        app_grammar().commands[9].visible_alias == None::<Seq<char>>,
        app_grammar().commands[10].alias == Some("s"@),
        app_grammar().commands[10].visible_alias == None::<Seq<char>>,
        app_grammar().commands[11].alias == None::<Seq<char>>,
        app_grammar().commands[11].visible_alias == None::<Seq<char>>,
        app_grammar().commands[12].alias == Some("t"@),
        app_grammar().commands[12].visible_alias == None::<Seq<char>>,
        app_grammar().commands[13].alias == Some("u"@),
        app_grammar().commands[13].visible_alias == None::<Seq<char>>,
        app_grammar().commands[14].alias == None::<Seq<char>>,
        app_grammar().commands[14].visible_alias == None::<Seq<char>>,
{
}

/// `init` takes a flag and `version` takes nothing. Every other subcommand
/// takes any words, those with hyphens among them, and reads a flag that asks
/// for help itself.
pub proof fn subcommands_take_their_own_words(i: int)
    requires
        0 <= i < 15,
    ensures
        ({
            let command = app_grammar().commands[i];
            &&& command.no_help_flag <==> i != 3 && i != 14
            &&& i == 14 ==> command.args.len() == 0
            &&& i == 3 ==> command.args.len() == 1 && command.args[0].id == "local"@
                && command.args[0].long == Some("local"@) && command.args[0].short is None
                && command.args[0].help is None && !command.args[0].global
                && !command.args[0].hyphens && command.args[0].action == Action::SetTrue
            &&& i != 3 && i != 14 ==> command.args.len() == 1 && command.args[0].id
                == "arguments"@ && command.args[0].long is None && command.args[0].short is None
                && command.args[0].help is None && !command.args[0].global
                && command.args[0].hyphens && command.args[0].action == Action::Append
        }),
{
}

/// The program has four flags of its own, all but that for the version
/// allowed behind a subcommand too, and the log's may be repeated.
pub proof fn the_program_has_four_flags()
    ensures
        ({
            let args = app_grammar().args;
            &&& args.len() == 4
            &&& args[0].id == "no-color"@ && args[0].long == Some("no-color"@)
                && args[0].short is None && args[0].help == Some("Disable ANSI color output"@)
                && args[0].global && !args[0].hyphens && args[0].action == Action::SetTrue
            &&& args[1].id == "no-pager"@ && args[1].long == Some("no-pager"@)
                && args[1].short is None && args[1].help == Some(
                "Disable paging of long command output"@,
            ) && args[1].global && !args[1].hyphens && args[1].action == Action::SetTrue
            &&& args[2].id == "version"@ && args[2].long == Some("version"@) && args[2].short
                == Some('V') && args[2].help == Some(
                "Print the current version, platform info, and check for available updates"@,
            ) && !args[2].global && !args[2].hyphens && args[2].action == Action::SetTrue
            &&& args[3].id == "verbose"@ && args[3].long == Some("verbose"@) && args[3].short
                == Some('v') && args[3].help == Some(
                "Increase log verbosity (`-v` = info, `-vv` = debug, `-vvv` = trace)"@,
            ) && args[3].global && !args[3].hyphens && args[3].action == Action::Count
        }),
{
}

/// The flags that may stand anywhere are those of the program that may stand
/// behind a subcommand too, and they are read the same way by themselves.
pub proof fn flags_read_the_same_anywhere()
    ensures
        flags_grammar().name == app_grammar().name,
        flags_grammar().commands.len() == 0,
        flags_grammar().args == app_grammar().args.filter(|arg: ArgShapeView| arg.global),
{
    reveal(Seq::filter);
    let args = app_grammar().args;
    let global = |arg: ArgShapeView| arg.global;
    let a = args.drop_last();
    let b = a.drop_last();
    let c = b.drop_last();
    assert(c.drop_last() =~= Seq::<ArgShapeView>::empty());
    assert(c.drop_last().filter(global) =~= Seq::<ArgShapeView>::empty());
    assert(c.filter(global) =~= seq![args[0]]);
    assert(b.filter(global) =~= seq![args[0], args[1]]);
    assert(a.filter(global) =~= seq![args[0], args[1]]);
    assert(args.filter(global) =~= seq![args[0], args[1], args[3]]);
    assert(flags_grammar().args =~= seq![args[0], args[1], args[3]]);
}

/// What is read off a command line: the three switches of the program and its
/// counter, and of a subcommand its own switch and its own words.
pub proof fn what_is_read_off_a_line()
    ensures
        app_wanted().switches == seq!["no-color"@, "no-pager"@, "version"@],
        app_wanted().counter == "verbose"@,
        app_wanted().own == "local"@,
        app_wanted().rest == "arguments"@,
        flags_wanted().switches == seq!["no-color"@, "no-pager"@],
        flags_wanted().counter == "verbose"@,
        flags_wanted().own == "local"@,
        flags_wanted().rest == "arguments"@,
{
}

/// A line is read by all that the program offers, and a word is a flag where
/// the flags that may stand anywhere accept it as their only word.
pub proof fn lines_are_read_by_what_is_offered(line: Seq<Seq<char>>, word: Seq<char>)
    ensures
        read(line) == matched(app_grammar(), app_wanted(), line),
        is_flag(word) <==> matched(flags_grammar(), flags_wanted(), seq!["gest"@, word]) is Some,
{
}

/// A name is that of a subcommand where one of those offered has it.
pub proof fn names_of_subcommands_are_those_offered(name: Seq<char>, i: int)
    ensures
        0 <= i < 15 ==> is_command_name(app_grammar().commands[i].name),
        is_command_name(name) ==> exists|k: int|
            0 <= k < 15 && (#[trigger] app_grammar().commands[k]).name == name,
{
    if 0 <= i < 15 {
        assert(app_grammar().commands[i].name == app_grammar().commands[i].name);
        assert(has_command(app_grammar(), app_grammar().commands[i].name));
    }
}

/// Words are parted one by one. A flag joins the flags until `--` has come;
/// every other word, and every word from `--` on, joins the arguments. Both
/// keep their order.
pub proof fn words_are_parted_one_by_one(words: Seq<Seq<char>>, word: Seq<char>)
    ensures
        parted(Seq::empty()).flags.len() == 0,
        parted(Seq::empty()).arguments.len() == 0,
        parted(words).ended <==> words.contains("--"@),
        is_flag(word) && word != "--"@ && !words.contains("--"@) ==> parted(words.push(word)).flags
            == parted(words).flags.push(word) && parted(words.push(word)).arguments == parted(
            words,
        ).arguments,
        !is_flag(word) || word == "--"@ || words.contains("--"@) ==> parted(words.push(word)).flags
            == parted(words).flags && parted(words.push(word)).arguments == parted(
            words,
        ).arguments.push(word),
    decreases words.len(),
{
    assert(words.push(word).drop_last() =~= words);
    if words.len() > 0 {
        let rest = words.drop_last();
        words_are_parted_one_by_one(rest, words.last());
        assert(parted(words) == parted(rest).and(words.last(), is_flag(words.last())));
        if rest.contains("--"@) {
            let k = choose|k: int| 0 <= k < rest.len() && rest[k] == "--"@;
            assert(words[k] == "--"@);
        }
        if words.last() == "--"@ {
            assert(words[words.len() - 1] == "--"@);
        }
        if words.contains("--"@) {
            let k = choose|k: int| 0 <= k < words.len() && words[k] == "--"@;
            if k < rest.len() {
                assert(rest[k] == "--"@);
            }
        }
    }
}

/// One word more, whether or not it is a flag, joins the flags or the
/// arguments, and `--` is the word that ends the flags.
pub proof fn a_word_joins_flags_or_arguments(parted: PartedView, word: Seq<char>, flag: bool)
    ensures
        PartedView::none().flags.len() == 0,
        PartedView::none().arguments.len() == 0,
        !PartedView::none().ended,
        parted.and(word, flag).ended <==> parted.ended || word == "--"@,
        flag && !parted.ended && word != "--"@ ==> parted.and(word, flag).flags
            == parted.flags.push(word) && parted.and(word, flag).arguments == parted.arguments,
        !flag || parted.ended || word == "--"@ ==> parted.and(word, flag).flags == parted.flags
            && parted.and(word, flag).arguments == parted.arguments.push(word),
{
}

/// Parting loses no word and adds none.
pub proof fn parting_keeps_every_word(words: Seq<Seq<char>>)
    ensures
        (parted(words).flags + parted(words).arguments).to_multiset() == words.to_multiset(),
    decreases words.len(),
{
    broadcast use vstd::seq_lib::group_to_multiset_ensures;

    let both = parted(words).flags + parted(words).arguments;
    if words.len() == 0 {
        assert(both =~= words);
    } else {
        let rest = words.drop_last();
        let word = words.last();
        parting_keeps_every_word(rest);
        let flags = parted(rest).flags;
        let arguments = parted(rest).arguments;
        assert(words =~= rest.push(word));
        vstd::seq_lib::lemma_multiset_commutative(flags, arguments);
        vstd::seq_lib::lemma_multiset_commutative(parted(words).flags, parted(words).arguments);
        assert(both.to_multiset() =~= words.to_multiset());
    }
}

/// The flags among a subcommand's own words move in front of them, and behind
/// all that stood before them. A line stays as it is where none of the words
/// is a flag, or where the words stand behind `--`.
pub proof fn flags_move_in_front_of_a_subcommands_words(
    head: Seq<Seq<char>>,
    own: Seq<Seq<char>>,
    parted: PartedView,
)
    requires
        head.len() > 0,
    ensures
        parted.flags.len() > 0 && head[head.len() - 1] != "--"@ ==> flags_first(
            head + own,
            own.len(),
            parted,
        ) == head + parted.flags + parted.arguments,
        parted.flags.len() == 0 || head[head.len() - 1] == "--"@ ==> flags_first(
            head + own,
            own.len(),
            parted,
        ) == head + own,
{
    let line = head + own;
    assert(line.take(line.len() - own.len()) =~= head);
    assert(line[line.len() - own.len() - 1] == head[head.len() - 1]);
}

/// A line that holds nothing but a subcommand's own words stays as it is.
pub proof fn a_line_without_a_program_stays(
    line: Seq<Seq<char>>,
    own: nat,
    parted: PartedView,
)
    requires
        own >= line.len(),
    ensures
        flags_first(line, own, parted) == line,
{
}

/// A line is arranged by the words of its subcommand; where it names none, or
/// one without words, or is not accepted, it stays as it is.
pub proof fn lines_are_arranged_by_their_subcommand(
    line: Seq<Seq<char>>,
    found: MatchesView,
    chosen: ChosenView,
    rest: Seq<Seq<char>>,
)
    ensures
        read(line) is None ==> arranged(line) == line,
        read(line) == Some(found) && found.command is None ==> arranged(line) == line,
        read(line) == Some(found) && found.command == Some(chosen) && chosen.rest is None
            ==> arranged(line) == line,
        read(line) == Some(found) && found.command == Some(chosen) && chosen.rest == Some(rest)
            ==> arranged(line) == flags_first(line, rest.len(), parted(rest)),
{
}

/// What describes a command line is seen field by field.
pub proof fn shapes_are_seen_field_by_field(
    arg: ArgShape,
    command: CommandShape,
    grammar: Grammar,
    wanted: Wanted,
)
    ensures
        arg@.id == arg.id@,
        arg.long is None <==> arg@.long is None,
        arg.long is Some ==> arg@.long == Some(arg.long->0@),
        arg@.short == arg.short,
        arg.help is None <==> arg@.help is None,
        arg.help is Some ==> arg@.help == Some(arg.help->0@),
        arg@.global == arg.global,
        arg@.hyphens == arg.hyphens,
        arg@.action == arg.action,
        command@.name == command.name@,
        command@.about == command.about@,
        command@.no_help_flag == command.no_help_flag,
        command.alias is None <==> command@.alias is None,
        command.alias is Some ==> command@.alias == Some(command.alias->0@),
        command.visible_alias is None <==> command@.visible_alias is None,
        command.visible_alias is Some ==> command@.visible_alias == Some(
            command.visible_alias->0@,
        ),
        command@.args == arg_shapes(command.args@),
        grammar@.name == grammar.name@,
        grammar@.args == arg_shapes(grammar.args@),
        grammar@.commands == command_shapes(grammar.commands@),
        wanted@.switches == names(wanted.switches@),
        wanted@.counter == wanted.counter@,
        wanted@.own == wanted.own@,
        wanted@.rest == wanted.rest@,
{
}

/// Lists of what describes a command line are seen element by element.
pub proof fn lists_of_shapes_are_seen_element_by_element(
    args: Seq<ArgShape>,
    commands: Seq<CommandShape>,
    list: Seq<&'static str>,
)
    ensures
        arg_shapes(args).len() == args.len(),
        forall|i: int| 0 <= i < args.len() ==> #[trigger] arg_shapes(args)[i] == args[i]@,
        command_shapes(commands).len() == commands.len(),
        forall|i: int|
            0 <= i < commands.len() ==> #[trigger] command_shapes(commands)[i] == commands[i]@,
        names(list).len() == list.len(),
        forall|i: int| 0 <= i < list.len() ==> #[trigger] names(list)[i] == list[i]@,
{
}

/// What was found on a command line is seen field by field.
pub proof fn findings_are_seen_field_by_field(
    chosen: Chosen,
    found: Matches,
    refusal: Refusal,
    parted: Parted,
)
    ensures
        chosen@.name == chosen.name@,
        chosen@.own == chosen.own,
        chosen.rest is None <==> chosen@.rest is None,
        chosen.rest is Some ==> chosen@.rest == Some(texts(chosen.rest->0@)),
        found@.switches == found.switches@,
        found@.count == found.count,
        found.command is None <==> found@.command is None,
        found.command is Some ==> found@.command == Some(found.command->0@),
        refusal@ == (refusal.text@, refusal.styled@, refusal.to_stderr),
        parted@.flags == texts(parted.flags@),
        parted@.arguments == texts(parted.arguments@),
        parted@.ended == parted.ended,
{
}

} // verus!
