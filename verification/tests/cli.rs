use fbarcalc::cli::Cli;
use fbarcalc::cli::Commands;
use fbarcalc::cli::Startup;
use fbarcalc::config::Config;
use fbarcalc::config::ConfigFile;
use fbarcalc::failure::Failure;

fn args(words: &[&str]) -> Vec<String> {
    words.iter().map(|w| w.to_string()).collect()
}

fn cli(command: Option<Commands>) -> Cli {
    Cli { config: None, debug: false, command }
}

fn euro_config() -> Config {
    Config {
        version: 1,
        default_input_currency: Some("EUR".to_string()),
        fca_api_key: None,
    }
}

#[test]
fn verify_cli() {
    Cli::command().debug_assert();
}

#[test]
fn parses_the_config_subcommand() {
    let cli = Cli::try_parse_from(args(&["fbarcalc", "-c", "/tmp/x.toml", "config"])).unwrap();
    assert_eq!(cli.config, Some("/tmp/x.toml".to_string()));
    assert!(!cli.debug);
    assert_eq!(cli.command, Some(Commands::Config));
}

#[test]
fn parses_a_bare_command_line() {
    let cli = Cli::try_parse_from(args(&["fbarcalc", "-v"])).unwrap();
    assert_eq!(cli.config, None);
    assert!(cli.debug);
    assert_eq!(cli.command, None);
}

#[test]
fn parses_the_long_option() {
    let cli = Cli::try_parse_from(args(&["fbarcalc", "--config", "a.toml"])).unwrap();
    assert_eq!(cli.config, Some("a.toml".to_string()));
}

#[test]
fn refuses_an_unknown_option() {
    let usage = Cli::try_parse_from(args(&["fbarcalc", "--nope"])).unwrap_err();
    assert_ne!(usage.status, 0);
    assert!(usage.on_stderr);
    assert!(usage.message.contains("--nope"));
}

#[test]
fn help_and_version_are_shown_without_failing() {
    let help = Cli::try_parse_from(args(&["fbarcalc", "--help"])).unwrap_err();
    assert_eq!(help.status, 0);
    assert!(!help.on_stderr);
    assert!(help.message.contains("Sets a custom config file"));
    assert!(help.message.contains("Interactive configuration"));
    let version = Cli::try_parse_from(args(&["fbarcalc", "--version"])).unwrap_err();
    assert_eq!(version.status, 0);
    assert!(version.message.contains("0.1.0"));
}

#[test]
fn command_line_from_its_parts() {
    assert_eq!(
        Cli::from_parts(Some("f".to_string()), Some(true), Some("config".to_string())),
        Cli { config: Some("f".to_string()), debug: true, command: Some(Commands::Config) }
    );
    assert_eq!(Cli::from_parts(None, None, None), cli(None));
    assert_eq!(Cli::from_parts(None, Some(false), Some("other".to_string())), cli(None));
}

#[test]
fn default_flow_needs_a_config_file() {
    let outcome = cli(None).startup(ConfigFile::Missing);
    assert_eq!(outcome, Err(Failure::ConfigMissing));
    assert_ne!(outcome.unwrap_err().exit_status(), 0);
}

#[test]
fn configure_flow_starts_without_a_config_file() {
    assert_eq!(cli(Some(Commands::Config)).startup(ConfigFile::Missing), Ok(Startup::Configure(None)));
}

#[test]
fn both_flows_read_the_file_that_is_there() {
    let file = ConfigFile::Contents("default_input_currency = \"EUR\"\n".to_string());
    assert_eq!(cli(None).startup(file.clone()), Ok(Startup::Calculate(euro_config())));
    assert_eq!(
        cli(Some(Commands::Config)).startup(file),
        Ok(Startup::Configure(Some(euro_config())))
    );
}

#[test]
fn both_flows_stop_on_a_bad_file() {
    let bad = ConfigFile::Contents("version = \"one\"\n".to_string());
    assert_eq!(cli(None).startup(bad.clone()), Err(Failure::ConfigParse));
    assert_eq!(cli(Some(Commands::Config)).startup(bad), Err(Failure::ConfigParse));
    assert_eq!(cli(None).startup(ConfigFile::Unreadable), Err(Failure::ConfigIo));
    assert_eq!(cli(Some(Commands::Config)).startup(ConfigFile::Unreadable), Err(Failure::ConfigIo));
}

fn text(styled: Option<&clap::builder::StyledStr>) -> Option<String> {
    styled.map(|s| s.to_string())
}

#[test]
fn command_has_its_texts() {
    let command = Cli::command();
    assert_eq!(command.get_name(), "fbarcalc");
    assert_eq!(command.get_version(), Some("0.1.0"));
    assert_eq!(
        text(command.get_about()),
        Some("Find the maximum value of an account".to_string())
    );
    assert_eq!(text(command.get_long_about()), None);
}

#[test]
fn command_has_its_option_and_its_switch() {
    let command = Cli::command();
    let arguments: Vec<&clap::Arg> = command.get_arguments().collect();
    assert_eq!(arguments.len(), 2);

    let config = arguments[0];
    assert_eq!(config.get_id().as_str(), "config");
    assert_eq!(config.get_short(), Some('c'));
    assert_eq!(config.get_long(), Some("config"));
    let names: Vec<String> = config.get_value_names().unwrap().iter().map(|n| n.to_string()).collect();
    assert_eq!(names, vec!["FILE".to_string()]);
    assert_eq!(text(config.get_help()), Some("Sets a custom config file".to_string()));
    assert!(!matches!(config.get_action(), clap::ArgAction::SetTrue));

    let debug = arguments[1];
    assert_eq!(debug.get_id().as_str(), "debug");
    assert_eq!(debug.get_short(), Some('v'));
    assert_eq!(debug.get_long(), None);
    assert!(debug.get_value_names().is_none());
    assert_eq!(text(debug.get_help()), Some("Set verbosity level".to_string()));
    assert!(matches!(debug.get_action(), clap::ArgAction::SetTrue));
}

#[test]
fn command_has_its_subcommand() {
    let command = Cli::command();
    let subcommands: Vec<&clap::Command> = command.get_subcommands().collect();
    assert_eq!(subcommands.len(), 1);
    let config = subcommands[0];
    assert_eq!(config.get_name(), "config");
    assert_eq!(config.get_version(), None);
    assert_eq!(text(config.get_about()), Some("Interactive configuration".to_string()));
    assert_eq!(
        text(config.get_long_about()),
        Some(
            "Interactive configuration\n\nRuns an interactive configuration prompt to set common values and e.g, API keys for doing currency conversion."
                .to_string()
        )
    );
    assert_eq!(config.get_arguments().count(), 0);
    assert_eq!(config.get_subcommands().count(), 0);
}

#[test]
fn the_switch_and_the_option_are_read_by_their_names() {
    let cli = Cli::try_parse_from(args(&["fbarcalc", "-v", "-c", "a.toml", "config"])).unwrap();
    assert_eq!(
        cli,
        Cli { config: Some("a.toml".to_string()), debug: true, command: Some(Commands::Config) }
    );
    let cli = Cli::try_parse_from(args(&["fbarcalc"])).unwrap();
    assert_eq!(cli, Cli { config: None, debug: false, command: None });
}

#[test]
fn help_of_the_subcommand_shows_both_paragraphs() {
    let help = Cli::try_parse_from(args(&["fbarcalc", "config", "--help"])).unwrap_err();
    assert_eq!(help.status, 0);
    assert!(help.message.contains("Interactive configuration\n\nRuns an interactive configuration prompt"));
    let short = Cli::try_parse_from(args(&["fbarcalc", "config", "-h"])).unwrap_err();
    assert!(short.message.contains("Interactive configuration"));
    assert!(!short.message.contains("Runs an interactive"));
}

#[test]
fn the_same_arguments_parse_to_the_same() {
    let words = ["fbarcalc", "-c", "x.toml", "-v", "config"];
    assert_eq!(Cli::try_parse_from(args(&words)), Cli::try_parse_from(args(&words)));
    let bad = ["fbarcalc", "config", "extra"];
    assert_eq!(Cli::try_parse_from(args(&bad)), Cli::try_parse_from(args(&bad)));
    assert!(Cli::try_parse_from(args(&bad)).is_err());
}

#[test]
fn no_arguments_at_all_are_accepted() {
    assert_eq!(
        Cli::try_parse_from(Vec::new()),
        Ok(Cli { config: None, debug: false, command: None })
    );
}
