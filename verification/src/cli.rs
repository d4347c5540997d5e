//! The command line: its definition, and what a parsed command line asks for.
//!
//! The command line is described to `clap` and parsed by it. The functions
//! that hand work to `clap` are at the end of this file. Nothing is proved of
//! them: their contracts record what `clap`'s builder does to a definition
//! and give what parsing finds a name. Which arguments are accepted is left
//! to `clap`.

use crate::config::Config;
use crate::config::ConfigFile;
use crate::config::ConfigView;
use crate::config::config_of_entries;
use crate::config::get_config;
use crate::config::load_existing;
use crate::config::text_view;
use crate::failure::Failure;
use crate::text::same_text;
use crate::toml::parsed_entries;
use clap::Arg;
use clap::ArgAction;
use clap::ArgMatches;
use clap::Command;
use vstd::prelude::*;

verus! {

/// The subcommands.
#[derive(Clone, Copy, Debug, PartialEq, Eq)]
pub enum Commands {
    /// Interactive configuration.
    Config,
}

/// A parsed command line.
#[derive(Clone, Debug, PartialEq, Eq)]
pub struct Cli {
    /// A configuration file to use in place of the user's own.
    pub config: Option<String>,
    /// Whether verbose output was asked for.
    pub debug: bool,
    /// The subcommand, if one was given.
    pub command: Option<Commands>,
}

/// What to show and how to exit where the command line did not lead to a run.
#[derive(Clone, Debug, PartialEq, Eq)]
pub struct Usage {
    /// The text to show.
    pub message: String,
    /// The exit status of the process.
    pub status: i32,
    /// Whether the text belongs on standard error rather than standard output.
    pub on_stderr: bool,
}

/// What a run does once its command line and configuration file are known.
#[derive(Clone, Debug, PartialEq, Eq)]
pub enum Startup {
    /// Ask for the settings, starting from the stored ones if there are any.
    Configure(Option<Config>),
    /// Ask for the transactions and report, with the stored settings.
    Calculate(Config),
}

/// One option or switch, as a command line was told of it.
#[verifier::ext_equal]
pub struct Argument {
    /// The name by which its value is found after parsing.
    pub id: Seq<char>,
    /// The character that it is given with after one `-`.
    pub short: Option<char>,
    /// The word that it is given with after `--`.
    pub long: Option<Seq<char>>,
    /// The names of the values that it takes, as help shows them.
    pub value_names: Seq<Seq<char>>,
    /// Its line of help.
    pub help: Option<Seq<char>>,
    /// Whether it takes no value and is true where it was given.
    pub switch: bool,
}

/// A command line as it was defined: its texts, its options and switches in
/// the order in which they were added, and its subcommands likewise.
#[verifier::ext_equal]
pub struct Shape {
    pub name: Seq<char>,
    pub version: Option<Seq<char>>,
    pub about: Option<Seq<char>>,
    pub long_about: Option<Seq<char>>,
    pub arguments: Seq<Argument>,
    pub subcommands: Seq<Shape>,
}

/// A command of the given name and nothing else.
pub open spec fn bare(name: Seq<char>) -> Shape {
    Shape {
        name,
        version: None,
        about: None,
        long_about: None,
        arguments: Seq::empty(),
        subcommands: Seq::empty(),
    }
}

/// An option that takes one value and is given as `-short` or as `--id`.
pub open spec fn option_argument(
    id: Seq<char>,
    short: char,
    value_name: Seq<char>,
    help: Seq<char>,
) -> Argument {
    Argument {
        id,
        short: Some(short),
        long: Some(id),
        value_names: seq![value_name],
        help: Some(help),
        switch: false,
    }
}

/// A switch that is given as `-short`.
pub open spec fn switch_argument(id: Seq<char>, short: char, help: Seq<char>) -> Argument {
    Argument {
        id,
        short: Some(short),
        long: None,
        value_names: Seq::empty(),
        help: Some(help),
        switch: true,
    }
}

/// The definition of this program's command line: the option `-c` or
/// `--config` that takes a file, the switch `-v`, and the subcommand
/// `config`, which has no options of its own.
pub open spec fn cli_shape() -> Shape {
    Shape {
        name: "fbarcalc"@,
        version: Some("0.1.0"@),
        about: Some("Find the maximum value of an account"@),
        long_about: None,
        arguments: seq![
            option_argument("config"@, 'c', "FILE"@, "Sets a custom config file"@),
            switch_argument("debug"@, 'v', "Set verbosity level"@),
        ],
        subcommands: seq![
            Shape {
                name: "config"@,
                version: None,
                about: Some("Interactive configuration"@),
                long_about: Some(
                    "Interactive configuration\n\nRuns an interactive configuration prompt to set common values and e.g, API keys for doing currency conversion."@,
                ),
                arguments: Seq::empty(),
                subcommands: Seq::empty(),
            },
        ],
    }
}

/// What parsing found under a name, if anything.
pub open spec fn found<V>(values: Map<Seq<char>, V>, id: Seq<char>) -> Option<V> {
    if values.contains_key(id) {
        Some(values[id])
    } else {
        None
    }
}

/// What parsing found in the arguments of a process.
#[verifier::ext_equal]
pub struct Parsed {
    /// The strings that were matched, by the names of their options.
    pub texts: Map<Seq<char>, Seq<char>>,
    /// The switches that were matched, by their names.
    pub switches: Map<Seq<char>, bool>,
    /// The name of the subcommand, if one was given.
    pub subcommand: Option<Seq<char>>,
}

/// The characters of each of a run of strings.
pub open spec fn texts(args: Seq<String>) -> Seq<Seq<char>> {
    args.map_values(|s: String| s@)
}

/// Whether a command line holds what parsing found: the file that was
/// matched under `config`, whether the switch under `debug` was set, and the
/// subcommand `config` where that is the subcommand's name.
pub open spec fn cli_holds(cli: Cli, parsed: Parsed) -> bool {
    &&& text_view(cli.config) == found(parsed.texts, "config"@)
    &&& cli.debug == (found(parsed.switches, "debug"@) == Some(true))
    &&& cli.command == if parsed.subcommand == Some("config"@) {
        Some(Commands::Config)
    } else {
        None
    }
}

/// Whether a result is what parsing the arguments against this program's
/// command line comes to, `command` being a definition of that command
/// line: the command line that holds what was found where the arguments
/// are accepted, and an error where they are not.
pub open spec fn parses_as(command: Command, args: Seq<Seq<char>>, res: Result<Cli, Usage>) -> bool {
    &&& command_shape(command) == cli_shape()
    &&& match res {
        Ok(cli) => parse_outcome(command, args) is Some && cli_holds(
            cli,
            parse_outcome(command, args)->0,
        ),
        Err(_) => parse_outcome(command, args) is None,
    }
}

/// The parsed command line that three matched values stand for.
pub open spec fn cli_of_parts(
    config: Option<String>,
    debug: Option<bool>,
    subcommand: Option<String>,
) -> Cli {
    Cli {
        config,
        debug: debug == Some(true),
        command: if subcommand is Some && subcommand->0@ == "config"@ {
            Some(Commands::Config)
        } else {
            None
        },
    }
}

/// Whether a run on a file that could be read starts as it should: with the
/// file's configuration, to configure where a subcommand was given and to
/// calculate where none was, or not at all where the file is malformed.
pub open spec fn startup_agrees(
    res: Result<Startup, Failure>,
    configuring: bool,
    expected: Result<ConfigView, Failure>,
) -> bool {
    match res {
        Ok(Startup::Configure(Some(config))) => configuring && expected == Ok::<
            ConfigView,
            Failure,
        >(config@),
        Ok(Startup::Configure(None)) => false,
        Ok(Startup::Calculate(config)) => !configuring && expected == Ok::<ConfigView, Failure>(
            config@,
        ),
        Err(e) => expected == Err::<ConfigView, Failure>(e),
    }
}

impl Cli {
    /// The definition of the command line: an option `-c`/`--config` that
    /// takes a file, a switch `-v`, and the subcommand `config`.
    pub fn command() -> (command: Command)
        ensures
            command_shape(command) == cli_shape(),
    {
        let root = new_command("fbarcalc");
        let root = with_version(root, "0.1.0");
        let root = with_about(root, "Find the maximum value of an account");
        let root = with_option(root, "config", 'c', "FILE", "Sets a custom config file");
        let root = with_switch(root, "debug", 'v', "Set verbosity level");
        let sub = new_command("config");
        let sub = with_about(sub, "Interactive configuration");
        let sub = with_long_about(
            sub,
            "Interactive configuration\n\nRuns an interactive configuration prompt to set common values and e.g, API keys for doing currency conversion.",
        );
        let command = with_subcommand(root, sub);
        assert(command_shape(command) =~~= cli_shape());
        command
    }

    /// Puts a command line together from what was matched: the value of the
    /// option `config`, the switch `debug`, and the subcommand's name.
    pub fn from_parts(config: Option<String>, debug: Option<bool>, subcommand: Option<String>) -> (cli:
        Cli)
        ensures
            cli == cli_of_parts(config, debug, subcommand),
    {
        let verbose = match debug {
            Some(on) => on,
            None => false,
        };
        let command = match &subcommand {
            Some(name) => if same_text(name.as_str(), "config") {
                Some(Commands::Config)
            } else {
                None
            },
            None => None,
        };
        Cli { config, debug: verbose, command }
    }

    /// Parses the arguments of a process, the program's name first. The
    /// arguments are parsed by `clap` against this program's command line.
    /// Where `clap` accepts them, the command line that comes back holds what
    /// it matched: the file under `config`, the switch under `debug`, and the
    /// subcommand. Where it does not, or where help or the version was asked
    /// for, what to show comes back as `clap` renders it.
    pub fn try_parse_from(args: Vec<String>) -> (res: Result<Cli, Usage>)
        ensures
            exists|command: Command| #[trigger] parses_as(command, texts(args@), res),
    {
        let command = Cli::command();
        let ghost given = texts(args@);
        match try_matches(command, args) {
            Err(e) => {
                assert(parses_as(command, given, Err(e)));
                Err(e)
            },
            Ok(matches) => {
                let config = matched_text(&matches, "config");
                let debug = matched_switch(&matches, "debug");
                let subcommand = matched_subcommand(&matches);
                let cli = Cli::from_parts(config, debug, subcommand);
                assert(parses_as(command, given, Ok(cli)));
                Ok(cli)
            },
        }
    }

    /// Decides what the run does. With the subcommand `config` the settings
    /// are asked for, and a missing file only means that there are none yet.
    /// Without a subcommand the file must be there: a run that is not
    /// configured yet ends with `ConfigMissing`. A file that cannot be read
    /// or understood ends either kind of run.
    pub fn startup(&self, file: ConfigFile) -> (res: Result<Startup, Failure>)
        ensures
            file is Unreadable ==> res matches Err(Failure::ConfigIo),
            file is Missing && self.command is Some ==> res matches Ok(Startup::Configure(None)),
            file is Missing && self.command is None ==> res matches Err(Failure::ConfigMissing),
            file is Contents ==> startup_agrees(
                res,
                self.command is Some,
                config_of_entries(parsed_entries(file->0@)),
            ),
    {
        match self.command {
            Some(_) => match load_existing(file) {
                Ok(existing) => Ok(Startup::Configure(existing)),
                Err(e) => Err(e),
            },
            None => match get_config(file) {
                Ok(config) => Ok(Startup::Calculate(config)),
                Err(e) => Err(e),
            },
        }
    }
}

/// `clap::Command`, the definition of a command line. The library sees
/// nothing inside it.
#[verifier::external_type_specification]
#[verifier::external_body]
pub struct ExCommand(Command);

/// `clap::ArgMatches`, what parsing found. The library sees nothing inside
/// it, and reads it through the functions below.
#[verifier::external_type_specification]
#[verifier::external_body]
pub struct ExArgMatches(ArgMatches);

/// What a command was told of itself: what its `get_name`, `get_version`,
/// `get_about` and `get_long_about` hand out, its `get_arguments` in order,
/// each by its `get_id`, `get_short`, `get_long`, `get_value_names`,
/// `get_help` and whether its `get_action` is `ArgAction::SetTrue`, and its
/// `get_subcommands` in order, each in the same way.
pub uninterp spec fn command_shape(command: Command) -> Shape;

/// What `Command::try_get_matches_from` finds in the arguments for a
/// command: the strings, the switches and the subcommand's name that the
/// matches hold, or `None` where it hands back an error. The same command
/// and the same arguments always give the same.
pub uninterp spec fn parse_outcome(command: Command, args: Seq<Seq<char>>) -> Option<Parsed>;

/// The strings that parsing found: for each name under which
/// `try_get_one::<String>` finds a value, that value.
pub uninterp spec fn matched_texts(matches: ArgMatches) -> Map<Seq<char>, Seq<char>>;

/// The switches that parsing found: for each name under which
/// `try_get_one::<bool>` finds a value, that value.
pub uninterp spec fn matched_switches(matches: ArgMatches) -> Map<Seq<char>, bool>;

/// The name of the subcommand that parsing found, as `subcommand_name`
/// hands it out.
pub uninterp spec fn matched_subcommand_name(matches: ArgMatches) -> Option<Seq<char>>;

/// `Command::new`: a command of the given name, with nothing else set and
/// nothing added.
#[verifier::external_body]
fn new_command(name: &'static str) -> (res: Command)
    ensures
        command_shape(res) == bare(name@),
{
    Command::new(name)
}

/// `Command::version`: the command with its version set, and all else as
/// it was.
#[verifier::external_body]
fn with_version(command: Command, version: &'static str) -> (res: Command)
    ensures
        command_shape(res) == (Shape { version: Some(version@), ..command_shape(command) }),
{
    command.version(version)
}

/// `Command::about`: the command with its short description set, and all
/// else as it was.
#[verifier::external_body]
fn with_about(command: Command, about: &'static str) -> (res: Command)
    ensures
        command_shape(res) == (Shape { about: Some(about@), ..command_shape(command) }),
{
    command.about(about)
}

/// `Command::long_about`: the command with its long description set, and
/// all else as it was.
#[verifier::external_body]
fn with_long_about(command: Command, about: &'static str) -> (res: Command)
    ensures
        command_shape(res) == (Shape { long_about: Some(about@), ..command_shape(command) }),
{
    command.long_about(about)
}

/// `Command::arg` with an `Arg` that takes one value: the command has one
/// more argument, after those it had, which is given as `-short` or as
/// `--id`. `Arg::short` refuses `-`.
#[verifier::external_body]
fn with_option(
    command: Command,
    id: &'static str,
    short: char,
    value_name: &'static str,
    help: &'static str,
) -> (res: Command)
    requires
        short != '-',
    ensures
        command_shape(res) == (Shape {
            arguments: command_shape(command).arguments.push(
                option_argument(id@, short, value_name@, help@),
            ),
            ..command_shape(command)
        }),
{
    command.arg(Arg::new(id).short(short).long(id).value_name(value_name).help(help))
}

/// `Command::arg` with an `Arg` whose action is `ArgAction::SetTrue`: the
/// command has one more argument, after those it had, which is given as
/// `-short` and takes no value. `Arg::short` refuses `-`.
#[verifier::external_body]
fn with_switch(command: Command, id: &'static str, short: char, help: &'static str) -> (res:
    Command)
    requires
        short != '-',
    ensures
        command_shape(res) == (Shape {
            arguments: command_shape(command).arguments.push(switch_argument(id@, short, help@)),
            ..command_shape(command)
        }),
{
    command.arg(Arg::new(id).short(short).action(ArgAction::SetTrue).help(help))
}

/// `Command::subcommand`: the command has one more subcommand, after those
/// it had.
#[verifier::external_body]
fn with_subcommand(command: Command, subcommand: Command) -> (res: Command)
    ensures
        command_shape(res) == (Shape {
            subcommands: command_shape(command).subcommands.push(command_shape(subcommand)),
            ..command_shape(command)
        }),
{
    command.subcommand(subcommand)
}

/// `Command::try_get_matches_from`: parses the arguments. What the matches
/// hold is what parsing finds for this command and these arguments, and an
/// error comes back exactly where it finds nothing. The error comes back as
/// the message that `clap` renders for it, with the exit status and the
/// stream that `clap` assigns to it. `clap` checks a definition before it
/// parses with it and refuses a faulty one, so only a definition of this
/// program's command line is let in.
#[verifier::external_body]
fn try_matches(command: Command, args: Vec<String>) -> (res: Result<ArgMatches, Usage>)
    requires
        command_shape(command) == cli_shape(),
    ensures
        match res {
            Ok(matches) => parse_outcome(command, texts(args@)) == Some(
                (Parsed {
                    texts: matched_texts(matches),
                    switches: matched_switches(matches),
                    subcommand: matched_subcommand_name(matches),
                }),
            ),
            Err(_) => parse_outcome(command, texts(args@)) is None,
        },
{
    match command.try_get_matches_from(args) {
        Ok(matches) => Ok(matches),
        Err(e) => Err(
            Usage {
                message: e.render().to_string(),
                status: e.exit_code(),
                on_stderr: e.use_stderr(),
            },
        ),
    }
}

/// `ArgMatches::try_get_one` for a string: the value of an option, if it
/// was given.
#[verifier::external_body]
fn matched_text(matches: &ArgMatches, id: &str) -> (res: Option<String>)
    ensures
        text_view(res) == found(matched_texts(*matches), id@),
{
    matches.try_get_one::<String>(id).ok().flatten().cloned()
}

/// `ArgMatches::try_get_one` for a switch: whether it was given.
#[verifier::external_body]
fn matched_switch(matches: &ArgMatches, id: &str) -> (res: Option<bool>)
    ensures
        res == found(matched_switches(*matches), id@),
{
    matches.try_get_one::<bool>(id).ok().flatten().copied()
}

/// `ArgMatches::subcommand_name`: the name of the subcommand, if one was given.
#[verifier::external_body]
fn matched_subcommand(matches: &ArgMatches) -> (res: Option<String>)
    ensures
        text_view(res) == matched_subcommand_name(*matches),
{
    matches.subcommand_name().map(String::from)
}

} // verus!
