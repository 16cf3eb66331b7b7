//! The command line: which flags and subcommands there are, and what was
//! given of them.
use clap::{Arg, ArgAction};
use clap::Command as ClapCommand;
use vstd::prelude::*;

use crate::text::{same, texts};

verus! {

/// A description of a command line.
#[verifier::external_type_specification]
#[verifier::external_body]
pub struct ExClapCommand(ClapCommand);

/// What an argument does with what is given for it.
#[derive(Clone, Copy, Debug, PartialEq, Eq, Structural)]
pub enum Action {
    /// Keeps every value.
    Append,
    /// Counts how often it stands there.
    Count,
    /// Is true where it stands there, which it may once.
    SetTrue,
}

/// One argument: a flag where it has a long name, else a list of values.
#[derive(Debug)]
pub struct ArgShape {
    pub id: &'static str,
    pub long: Option<&'static str>,
    pub short: Option<char>,
    /// What the help says of it.
    pub help: Option<&'static str>,
    /// Whether it may stand behind a subcommand too.
    pub global: bool,
    /// Whether a value may begin with a hyphen.
    pub hyphens: bool,
    pub action: Action,
}

/// What an [`ArgShape`] holds.
#[verifier::ext_equal]
pub struct ArgShapeView {
    pub id: Seq<char>,
    pub long: Option<Seq<char>>,
    pub short: Option<char>,
    pub help: Option<Seq<char>>,
    pub global: bool,
    pub hyphens: bool,
    pub action: Action,
}

impl View for ArgShape {
    type V = ArgShapeView;

    open spec fn view(&self) -> ArgShapeView {
        ArgShapeView {
            id: self.id@,
            long: match self.long {
                Some(long) => Some(long@),
                None => None,
            },
            short: self.short,
            help: match self.help {
                Some(help) => Some(help@),
                None => None,
            },
            global: self.global,
            hyphens: self.hyphens,
            action: self.action,
        }
    }
}

/// What a list of arguments holds.
pub open spec fn arg_shapes(list: Seq<ArgShape>) -> Seq<ArgShapeView> {
    list.map_values(|arg: ArgShape| arg@)
}

/// One subcommand.
#[derive(Debug)]
pub struct CommandShape {
    pub name: &'static str,
    /// What the help says of it.
    pub about: &'static str,
    /// Whether it reads a flag that asks for help itself.
    pub no_help_flag: bool,
    /// Another name, which no help shows.
    pub alias: Option<&'static str>,
    /// Another name, which the help shows.
    pub visible_alias: Option<&'static str>,
    pub args: Vec<ArgShape>,
}

/// What a [`CommandShape`] holds.
#[verifier::ext_equal]
pub struct CommandShapeView {
    pub name: Seq<char>,
    pub about: Seq<char>,
    pub no_help_flag: bool,
    pub alias: Option<Seq<char>>,
    pub visible_alias: Option<Seq<char>>,
    pub args: Seq<ArgShapeView>,
}

impl View for CommandShape {
    type V = CommandShapeView;

    open spec fn view(&self) -> CommandShapeView {
        CommandShapeView {
            name: self.name@,
            about: self.about@,
            no_help_flag: self.no_help_flag,
            alias: match self.alias {
                Some(alias) => Some(alias@),
                None => None,
            },
            visible_alias: match self.visible_alias {
                Some(alias) => Some(alias@),
                None => None,
            },
            args: arg_shapes(self.args@),
        }
    }
}

/// What a list of subcommands holds.
pub open spec fn command_shapes(list: Seq<CommandShape>) -> Seq<CommandShapeView> {
    list.map_values(|command: CommandShape| command@)
}

/// All that may be given on a command line.
#[derive(Debug)]
pub struct Grammar {
    pub name: &'static str,
    pub args: Vec<ArgShape>,
    pub commands: Vec<CommandShape>,
}

/// What a [`Grammar`] holds.
#[verifier::ext_equal]
pub struct GrammarView {
    pub name: Seq<char>,
    pub args: Seq<ArgShapeView>,
    pub commands: Seq<CommandShapeView>,
}

impl View for Grammar {
    type V = GrammarView;

    open spec fn view(&self) -> GrammarView {
        GrammarView {
            name: self.name@,
            args: arg_shapes(self.args@),
            commands: command_shapes(self.commands@),
        }
    }
}

/// The arguments to read off a command line: switches and a counter of the
/// program, and a switch and the list of values of its subcommands.
#[derive(Debug)]
pub struct Wanted {
    pub switches: Vec<&'static str>,
    pub counter: &'static str,
    pub own: &'static str,
    pub rest: &'static str,
}

/// What a [`Wanted`] holds.
#[verifier::ext_equal]
pub struct WantedView {
    pub switches: Seq<Seq<char>>,
    pub counter: Seq<char>,
    pub own: Seq<char>,
    pub rest: Seq<char>,
}

/// What a list of names holds.
pub open spec fn names(list: Seq<&'static str>) -> Seq<Seq<char>> {
    list.map_values(|name: &'static str| name@)
}

impl View for Wanted {
    type V = WantedView;

    open spec fn view(&self) -> WantedView {
        WantedView {
            switches: names(self.switches@),
            counter: self.counter@,
            own: self.own@,
            rest: self.rest@,
        }
    }
}

/// The subcommand that a command line names, with what it has of the wanted
/// arguments; `None` for those that the subcommand does not know or that
/// were not given.
#[derive(Debug)]
pub struct Chosen {
    pub name: String,
    pub own: Option<bool>,
    pub rest: Option<Vec<String>>,
}

/// What a [`Chosen`] holds.
#[verifier::ext_equal]
pub struct ChosenView {
    pub name: Seq<char>,
    pub own: Option<bool>,
    pub rest: Option<Seq<Seq<char>>>,
}

impl View for Chosen {
    type V = ChosenView;

    open spec fn view(&self) -> ChosenView {
        ChosenView {
            name: self.name@,
            own: self.own,
            rest: match self.rest {
                Some(rest) => Some(texts(rest@)),
                None => None,
            },
        }
    }
}

/// What a command line gives of the wanted arguments, in their order.
#[derive(Debug)]
pub struct Matches {
    pub switches: Vec<bool>,
    pub count: u8,
    pub command: Option<Chosen>,
}

/// What a [`Matches`] holds.
#[verifier::ext_equal]
pub struct MatchesView {
    pub switches: Seq<bool>,
    pub count: u8,
    pub command: Option<ChosenView>,
}

impl View for Matches {
    type V = MatchesView;

    open spec fn view(&self) -> MatchesView {
        MatchesView {
            switches: self.switches@,
            count: self.count,
            command: match self.command {
                Some(command) => Some(command@),
                None => None,
            },
        }
    }
}

/// Why a command line was not accepted, or the help that it asked for.
#[derive(Debug)]
pub struct Refusal {
    /// The text, plain.
    pub text: String,
    /// The text with the escape sequences that style it on a terminal.
    pub styled: String,
    /// Whether the text is for the standard error stream, as it is unless it
    /// is help.
    pub to_stderr: bool,
}

impl View for Refusal {
    type V = (Seq<char>, Seq<char>, bool);

    open spec fn view(&self) -> (Seq<char>, Seq<char>, bool) {
        (self.text@, self.styled@, self.to_stderr)
    }
}

/// The arguments and subcommands that a `clap::Command` holds.
pub uninterp spec fn grammar_of(command: ClapCommand) -> GrammarView;

/// The short and the long description that a `clap::Command` holds for its
/// help.
pub uninterp spec fn help_of(command: ClapCommand) -> (Seq<char>, Seq<char>);

/// What `clap::Command::try_get_matches_from` says of a command line that it
/// does not accept: the text, plain and styled, and whether it is for the
/// standard error stream.
pub uninterp spec fn refused(
    grammar: GrammarView,
    help: (Seq<char>, Seq<char>),
    line: Seq<Seq<char>>,
) -> (Seq<char>, Seq<char>, bool);

/// What `clap::Command::try_get_matches_from` finds of the wanted arguments
/// on a command line; `None` where it does not accept the line.
pub uninterp spec fn matched(
    grammar: GrammarView,
    wanted: WantedView,
    line: Seq<Seq<char>>,
) -> Option<MatchesView>;

/// Builds a `clap::Command` with `clap::Command::new` and its methods: it
/// holds the arguments and subcommands of the grammar, each with what the
/// help says of it, and the given texts as the short and the long description
/// in its help.
#[verifier::external_body]
fn clap_command(grammar: &Grammar, about: &String, long_about: &String) -> (command: ClapCommand)
    requires
        grammar@ == app_grammar() || grammar@ == flags_grammar(),
    ensures
        grammar_of(command) == grammar@,
        help_of(command) == (about@, long_about@),
{
    let arg = |a: &ArgShape| Arg::new(a.id).long(a.long).short(a.short).help(a.help).global(a.global).allow_hyphen_values(a.hyphens).action(match a.action {
        Action::Append => ArgAction::Append,
        Action::Count => ArgAction::Count,
        Action::SetTrue => ArgAction::SetTrue,
    });
    ClapCommand::new(grammar.name).about(about).long_about(long_about).args(grammar.args.iter().map(arg)).subcommands(
        grammar.commands.iter().map(|c| ClapCommand::new(c.name).about(c.about).disable_help_flag(c.no_help_flag).aliases(c.alias).visible_aliases(c.visible_alias).args(c.args.iter().map(arg))),
    )
}

/// Calls `clap::Command::try_get_matches_from` on a command line, the name
/// of the program first, and reads the wanted arguments off the
/// `clap::ArgMatches` that it returns, or the text off the `clap::Error`. The
/// outcome is a function of what the command holds, the wanted arguments and
/// the line; which it is, is left to clap. There is an answer for each wanted
/// switch, and a subcommand that was found is one that the command holds.
#[verifier::external_body]
fn clap_matches(command: ClapCommand, wanted: &Wanted, line: &Vec<String>) -> (res: Result<
    Matches,
    Refusal,
>)
    requires
        (grammar_of(command) == app_grammar() && wanted@ == app_wanted()) || (grammar_of(command)
            == flags_grammar() && wanted@ == flags_wanted()),
    ensures
        match res {
            Ok(found) => matched(grammar_of(command), wanted@, texts(line@)) == Some(found@)
                && found.switches@.len() == wanted@.switches.len() && (found@.command matches Some(chosen)
                ==> has_command(grammar_of(command), chosen.name)),
            Err(refusal) => matched(grammar_of(command), wanted@, texts(line@)) is None
                && refusal@ == refused(grammar_of(command), help_of(command), texts(line@)),
        },
{
    let found = command.try_get_matches_from(line).map_err(|e| Refusal {
        text: e.render().to_string(),
        styled: e.render().ansi().to_string(),
        to_stderr: e.use_stderr(),
    })?;
    let command = found.subcommand().map(|(name, sub)| Chosen {
        name: name.to_string(),
        own: sub.try_get_one(wanted.own).ok().flatten().copied(),
        rest: sub.try_get_many(wanted.rest).ok().flatten().map(|rest| rest.cloned().collect()),
    });
    let switches = wanted.switches.iter().map(|id| found.get_flag(id)).collect();
    Ok(Matches { switches, count: found.get_count(wanted.counter), command })
}

/// A flag of the program.
pub open spec fn flag_shape(
    long: Seq<char>,
    short: Option<char>,
    help: Option<Seq<char>>,
    global: bool,
    action: Action,
) -> ArgShapeView {
    ArgShapeView { id: long, long: Some(long), short, help, global, hyphens: false, action }
}

/// The list of a subcommand's own arguments.
pub open spec fn rest_shape() -> ArgShapeView {
    ArgShapeView {
        id: "arguments"@,
        long: None,
        short: None,
        help: None,
        global: false,
        hyphens: true,
        action: Action::Append,
    }
}

/// A subcommand that reads its own arguments, with another name that no help
/// shows.
pub open spec fn command_shape(
    name: Seq<char>,
    about: Seq<char>,
    alias: Option<Seq<char>>,
) -> CommandShapeView {
    CommandShapeView {
        name,
        about,
        no_help_flag: true,
        alias,
        visible_alias: None,
        args: seq![rest_shape()],
    }
}

/// The flag that leaves output uncolored.
pub open spec fn no_color_shape() -> ArgShapeView {
    flag_shape("no-color"@, None, Some("Disable ANSI color output"@), true, Action::SetTrue)
}

/// The flag that leaves output unpaged.
pub open spec fn no_pager_shape() -> ArgShapeView {
    flag_shape(
        "no-pager"@,
        None,
        Some("Disable paging of long command output"@),
        true,
        Action::SetTrue,
    )
}

/// The flag that shows the version.
pub open spec fn version_shape() -> ArgShapeView {
    flag_shape(
        "version"@,
        Some('V'),
        Some("Print the current version, platform info, and check for available updates"@),
        false,
        Action::SetTrue,
    )
}

/// The flag that makes the log verbose.
pub open spec fn verbose_shape() -> ArgShapeView {
    flag_shape(
        "verbose"@,
        Some('v'),
        Some("Increase log verbosity (`-v` = info, `-vv` = debug, `-vvv` = trace)"@),
        true,
        Action::Count,
    )
}

/// The command line of the program.
pub open spec fn app_grammar() -> GrammarView {
    GrammarView {
        name: "gest"@,
        args: seq![no_color_shape(), no_pager_shape(), version_shape(), verbose_shape()],
        commands: seq![
            command_shape("artifact"@, "Manage artifacts"@, Some("a"@)),
            command_shape("config"@, "View or modify configuration"@, None),
            command_shape("generate"@, "Generate shell completions and man pages"@, None),
            CommandShapeView {
                name: "init"@,
                about: "Initialize gest for the current directory"@,
                no_help_flag: false,
                alias: None,
                visible_alias: None,
                args: seq![flag_shape("local"@, None, None, false, Action::SetTrue)],
            },
            command_shape("iteration"@, "Manage iterations"@, Some("i"@)),
            command_shape(
                "migrate"@,
                "Import v0.4.x flat-file data into the current project store"@,
                None,
            ),
            CommandShapeView {
                visible_alias: Some("p"@),
                ..command_shape("project"@, "Show or manage the current project"@, None)
            },
            command_shape(
                "purge"@,
                "Purge terminal, archived, and orphaned data from the store"@,
                None,
            ),
            command_shape("search"@, "Search across all entity types"@, Some("grep"@)),
            command_shape(
                "self-update"@,
                "Download and install the latest release from GitHub"@,
                None,
            ),
            command_shape("serve"@, "Start the web dashboard server"@, Some("s"@)),
            command_shape("tag"@, "List all tags"@, None),
            command_shape("task"@, "Manage tasks"@, Some("t"@)),
            command_shape("undo"@, "Undo the last command"@, Some("u"@)),
            CommandShapeView {
                name: "version"@,
                about: "Print the current version, platform info, and check for available updates"@,
                no_help_flag: false,
                alias: None,
                visible_alias: None,
                args: seq![],
            },
        ],
    }
}

/// Whether a subcommand has this name.
pub open spec fn has_command(grammar: GrammarView, name: Seq<char>) -> bool {
    exists|i: int|
        0 <= i < grammar.commands.len() && (#[trigger] grammar.commands[i]).name == name
}

/// Whether a subcommand of the program has this name.
pub open spec fn is_command_name(name: Seq<char>) -> bool {
    has_command(app_grammar(), name)
}

/// What is read off the command line of the program.
pub open spec fn app_wanted() -> WantedView {
    WantedView {
        switches: seq!["no-color"@, "no-pager"@, "version"@],
        counter: "verbose"@,
        own: "local"@,
        rest: "arguments"@,
    }
}

/// The flags that may stand anywhere, by themselves.
pub open spec fn flags_grammar() -> GrammarView {
    GrammarView {
        name: "gest"@,
        args: seq![no_color_shape(), no_pager_shape(), verbose_shape()],
        commands: seq![],
    }
}

/// What is read of the flags that may stand anywhere.
pub open spec fn flags_wanted() -> WantedView {
    WantedView {
        switches: seq!["no-color"@, "no-pager"@],
        counter: "verbose"@,
        own: "local"@,
        rest: "arguments"@,
    }
}

fn no_color() -> (arg: ArgShape)
    ensures
        arg@ == no_color_shape(),
{
    ArgShape {
        id: "no-color",
        long: Some("no-color"),
        short: None,
        help: Some("Disable ANSI color output"),
        global: true,
        hyphens: false,
        action: Action::SetTrue,
    }
}

fn no_pager() -> (arg: ArgShape)
    ensures
        arg@ == no_pager_shape(),
{
    ArgShape {
        id: "no-pager",
        long: Some("no-pager"),
        short: None,
        help: Some("Disable paging of long command output"),
        global: true,
        hyphens: false,
        action: Action::SetTrue,
    }
}

fn version() -> (arg: ArgShape)
    ensures
        arg@ == version_shape(),
{
    ArgShape {
        id: "version",
        long: Some("version"),
        short: Some('V'),
        help: Some("Print the current version, platform info, and check for available updates"),
        global: false,
        hyphens: false,
        action: Action::SetTrue,
    }
}

fn verbose() -> (arg: ArgShape)
    ensures
        arg@ == verbose_shape(),
{
    ArgShape {
        id: "verbose",
        long: Some("verbose"),
        short: Some('v'),
        help: Some("Increase log verbosity (`-v` = info, `-vv` = debug, `-vvv` = trace)"),
        global: true,
        hyphens: false,
        action: Action::Count,
    }
}

fn local() -> (arg: ArgShape)
    ensures
        arg@ == flag_shape("local"@, None, None, false, Action::SetTrue),
{
    ArgShape {
        id: "local",
        long: Some("local"),
        short: None,
        help: None,
        global: false,
        hyphens: false,
        action: Action::SetTrue,
    }
}

fn rest() -> (args: Vec<ArgShape>)
    ensures
        arg_shapes(args@) == seq![rest_shape()],
{
    let arg = ArgShape {
        id: "arguments",
        long: None,
        short: None,
        help: None,
        global: false,
        hyphens: true,
        action: Action::Append,
    };
    let mut args: Vec<ArgShape> = Vec::new();
    args.push(arg);
    assert(arg_shapes(args@) =~= seq![rest_shape()]);
    args
}

fn command(name: &'static str, about: &'static str, alias: Option<&'static str>) -> (command:
    CommandShape)
    ensures
        command@ == command_shape(
            name@,
            about@,
            match alias {
                Some(alias) => Some(alias@),
                None => None,
            },
        ),
{
    CommandShape { name, about, no_help_flag: true, alias, visible_alias: None, args: rest() }
}

/// Describes the command line of the program.
pub fn grammar() -> (grammar: Grammar)
    ensures
        grammar@ == app_grammar(),
{
    let mut args: Vec<ArgShape> = Vec::new();
    args.push(no_color());
    args.push(no_pager());
    args.push(version());
    args.push(verbose());
    let mut init: Vec<ArgShape> = Vec::new();
    init.push(local());
    assert(arg_shapes(init@) =~= app_grammar().commands[3].args);
    let mut commands: Vec<CommandShape> = Vec::new();
    commands.push(command("artifact", "Manage artifacts", Some("a")));
    commands.push(command("config", "View or modify configuration", None));
    commands.push(command("generate", "Generate shell completions and man pages", None));
    commands.push(
        CommandShape {
            name: "init",
            about: "Initialize gest for the current directory",
            no_help_flag: false,
            alias: None,
            visible_alias: None,
            args: init,
        },
    );
    commands.push(command("iteration", "Manage iterations", Some("i")));
    commands.push(
        command("migrate", "Import v0.4.x flat-file data into the current project store", None),
    );
    commands.push(
        CommandShape {
            name: "project",
            about: "Show or manage the current project",
            no_help_flag: true,
            alias: None,
            visible_alias: Some("p"),
            args: rest(),
        },
    );
    commands.push(
        command("purge", "Purge terminal, archived, and orphaned data from the store", None),
    );
    commands.push(command("search", "Search across all entity types", Some("grep")));
    commands.push(
        command("self-update", "Download and install the latest release from GitHub", None),
    );
    commands.push(command("serve", "Start the web dashboard server", Some("s")));
    commands.push(command("tag", "List all tags", None));
    commands.push(command("task", "Manage tasks", Some("t")));
    commands.push(command("undo", "Undo the last command", Some("u")));
    commands.push(
        CommandShape {
            name: "version",
            about: "Print the current version, platform info, and check for available updates",
            no_help_flag: false,
            alias: None,
            visible_alias: None,
            args: Vec::new(),
        },
    );
    proof {
        assert(arg_shapes(args@) =~= app_grammar().args);
        assert(commands@[14]@.args =~= app_grammar().commands[14].args);
        assert(command_shapes(commands@) =~= app_grammar().commands);
    }
    Grammar { name: "gest", args, commands }
}

fn wanted() -> (wanted: Wanted)
    ensures
        wanted@ == app_wanted(),
{
    let mut switches: Vec<&'static str> = Vec::new();
    switches.push("no-color");
    switches.push("no-pager");
    switches.push("version");
    assert(names(switches@) =~= app_wanted().switches);
    Wanted { switches, counter: "verbose", own: "local", rest: "arguments" }
}

/// What the program's command line gives; `None` where it is not accepted.
pub open spec fn read(line: Seq<Seq<char>>) -> Option<MatchesView> {
    matched(app_grammar(), app_wanted(), line)
}

/// Reads a command line, the name of the program first. The two texts are
/// the short and the long description in its help.
pub fn parse(line: &Vec<String>, about: &String, long_about: &String) -> (res: Result<
    Matches,
    Refusal,
>)
    ensures
        match res {
            Ok(found) => read(texts(line@)) == Some(found@) && found.switches@.len() == 3
                && (found@.command matches Some(chosen)
                ==> is_command_name(chosen.name)),
            Err(refusal) => read(texts(line@)) is None && refusal@ == refused(
                app_grammar(),
                (about@, long_about@),
                texts(line@),
            ),
        },
{
    let command = clap_command(&grammar(), about, long_about);
    clap_matches(command, &wanted(), line)
}

/// Whether a word is a flag that may stand anywhere, or several in one.
pub open spec fn is_flag(word: Seq<char>) -> bool {
    matched(flags_grammar(), flags_wanted(), seq!["gest"@, word]) is Some
}

/// Tells whether a word is a flag that may stand anywhere.
fn reads_as_flag(word: &String) -> (res: bool)
    ensures
        res == is_flag(word@),
{
    let mut args: Vec<ArgShape> = Vec::new();
    args.push(no_color());
    args.push(no_pager());
    args.push(verbose());
    let mut switches: Vec<&'static str> = Vec::new();
    switches.push("no-color");
    switches.push("no-pager");
    let mut line: Vec<String> = Vec::new();
    line.push("gest".to_owned());
    line.push(word.clone());
    let commands: Vec<CommandShape> = Vec::new();
    proof {
        assert(arg_shapes(args@) =~= flags_grammar().args);
        assert(command_shapes(commands@) =~= flags_grammar().commands);
        assert(names(switches@) =~= flags_wanted().switches);
        assert(texts(line@) =~= seq!["gest"@, word@]);
    }
    let grammar = Grammar { name: "gest", args, commands };
    let wanted = Wanted { switches, counter: "verbose", own: "local", rest: "arguments" };
    let text = String::new();
    match clap_matches(clap_command(&grammar, &text, &text), &wanted, &line) {
        Ok(_) => true,
        Err(_) => false,
    }
}

/// A subcommand's own words, parted into the flags that may stand anywhere
/// and all else, and whether no more flags are read.
#[derive(Debug)]
pub struct Parted {
    pub flags: Vec<String>,
    pub arguments: Vec<String>,
    pub ended: bool,
}

/// What a [`Parted`] holds.
#[verifier::ext_equal]
pub struct PartedView {
    pub flags: Seq<Seq<char>>,
    pub arguments: Seq<Seq<char>>,
    pub ended: bool,
}

impl View for Parted {
    type V = PartedView;

    open spec fn view(&self) -> PartedView {
        PartedView {
            flags: texts(self.flags@),
            arguments: texts(self.arguments@),
            ended: self.ended,
        }
    }
}

impl PartedView {
    /// No words.
    pub open spec fn none() -> PartedView {
        PartedView { flags: Seq::empty(), arguments: Seq::empty(), ended: false }
    }

    /// One word more, given whether it is a flag: `--` ends the flags.
    pub open spec fn and(self, word: Seq<char>, flag: bool) -> PartedView {
        if flag && !self.ended && word != "--"@ {
            PartedView { flags: self.flags.push(word), ..self }
        } else {
            PartedView {
                arguments: self.arguments.push(word),
                ended: self.ended || word == "--"@,
                ..self
            }
        }
    }
}

impl Parted {
    /// No words.
    pub fn none() -> (parted: Parted)
        ensures
            parted@ == PartedView::none(),
    {
        let parted = Parted { flags: Vec::new(), arguments: Vec::new(), ended: false };
        assert(texts(parted.flags@) =~= Seq::<Seq<char>>::empty());
        assert(texts(parted.arguments@) =~= Seq::<Seq<char>>::empty());
        parted
    }

    /// Takes one word more, given whether it is a flag.
    pub fn push(&mut self, word: &String, flag: bool)
        ensures
            final(self)@ == old(self)@.and(word@, flag),
    {
        let end = same(word.as_str(), "--");
        if flag && !self.ended && !end {
            let ghost before = texts(self.flags@);
            self.flags.push(word.clone());
            assert(texts(self.flags@) =~= before.push(word@));
        } else {
            let ghost before = texts(self.arguments@);
            self.arguments.push(word.clone());
            assert(texts(self.arguments@) =~= before.push(word@));
            self.ended = self.ended || end;
        }
    }
}

/// A subcommand's own words, parted.
pub open spec fn parted(words: Seq<Seq<char>>) -> PartedView
    decreases words.len(),
{
    if words.len() == 0 {
        PartedView::none()
    } else {
        parted(words.drop_last()).and(words.last(), is_flag(words.last()))
    }
}

/// Parts a subcommand's own words.
fn part(words: &Vec<String>) -> (res: Parted)
    ensures
        res@ == parted(texts(words@)),
{
    let ghost all = texts(words@);
    let mut res = Parted::none();
    let mut i: usize = 0;
    assert(all.take(0) =~= Seq::<Seq<char>>::empty());
    while i < words.len()
        invariant
            i <= words.len(),
            all == texts(words@),
            res@ == parted(all.take(i as int)),
        decreases words.len() - i,
    {
        proof {
            assert(all.take(i + 1).drop_last() =~= all.take(i as int));
            assert(all.take(i + 1).last() == words@[i as int]@);
        }
        let flag = reads_as_flag(&words[i]);
        res.push(&words[i], flag);
        i += 1;
    }
    assert(all.take(words.len() as int) =~= all);
    res
}

/// A command line whose last words are a subcommand's own, with the flags
/// among them moved in front of them. It stays as it is where there are none,
/// or where the words stand behind `--`.
pub open spec fn flags_first(
    line: Seq<Seq<char>>,
    own: nat,
    parted: PartedView,
) -> Seq<Seq<char>> {
    if parted.flags.len() == 0 || own >= line.len() || line[line.len() - own - 1] == "--"@ {
        line
    } else {
        line.take(line.len() - own) + parted.flags + parted.arguments
    }
}

/// Moves the flags among a subcommand's own words in front of them.
pub fn move_flags(line: &Vec<String>, own: usize, parted: Parted) -> (moved: Vec<String>)
    ensures
        texts(moved@) == flags_first(texts(line@), own as nat, parted@),
{
    let stays = parted.flags.len() == 0 || own >= line.len() || same(
        line[line.len() - own - 1].as_str(),
        "--",
    );
    let keep: usize = if stays {
        line.len()
    } else {
        line.len() - own
    };
    let ghost all = texts(line@);
    let mut moved: Vec<String> = Vec::new();
    let mut i: usize = 0;
    while i < keep
        invariant
            i <= keep <= line.len(),
            moved.len() == i,
            forall|k: int| 0 <= k < i ==> (#[trigger] moved@[k])@ == line@[k]@,
        decreases keep - i,
    {
        moved.push(line[i].clone());
        i += 1;
    }
    let ghost head = moved@;
    assert(texts(head) =~= all.take(keep as int));
    if stays {
        assert(all.take(keep as int) =~= all);
        return moved;
    }
    let mut flags = parted.flags;
    let mut arguments = parted.arguments;
    let ghost first = flags@;
    let ghost second = arguments@;
    moved.append(&mut flags);
    moved.append(&mut arguments);
    assert(texts(moved@) =~= texts(head) + texts(first) + texts(second));
    moved
}

/// A command line with every flag that may stand anywhere in front of a
/// subcommand's own arguments.
pub open spec fn arranged(line: Seq<Seq<char>>) -> Seq<Seq<char>> {
    match read(line) {
        Some(MatchesView { command: Some(ChosenView { rest: Some(rest), .. }), .. }) => flags_first(
            line,
            rest.len(),
            parted(rest),
        ),
        _ => line,
    }
}

/// Reads a command line, the name of the program first, with every flag that
/// may stand anywhere moved in front of a subcommand's own arguments, so that
/// it is read with the flags there. The two texts are the short and the long
/// description in its help.
pub fn parse_arranged(line: &Vec<String>, about: &String, long_about: &String) -> (res: Result<
    Matches,
    Refusal,
>)
    ensures
        match res {
            Ok(found) => read(arranged(texts(line@))) == Some(found@) && found.switches@.len() == 3
                && (found@.command matches Some(chosen) ==> is_command_name(chosen.name)),
            Err(refusal) => read(arranged(texts(line@))) is None && refusal@ == refused(
                app_grammar(),
                (about@, long_about@),
                arranged(texts(line@)),
            ),
        },
{
    let found = match parse(line, about, long_about) {
        Ok(found) => found,
        Err(refusal) => {
            return Err(refusal);
        },
    };
    let moved = match &found.command {
        Some(Chosen { rest: Some(rest), .. }) => move_flags(line, rest.len(), part(rest)),
        _ => {
            return Ok(found);
        },
    };
    parse(&moved, about, long_about)
}

} // verus!
