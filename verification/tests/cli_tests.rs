use envmn::cli::{ArgCommands, Args, Cli, Commands, InputSource};
use envmn::commands::{CliCmd, FormatCmd, HelpCmd, LintCmd, ListCmd, PickCmd, VersionCmd};
use envmn::error::{CliErrors, Error};

fn params(words: &[&str]) -> Vec<String> {
    words.iter().map(|w| w.to_string()).collect()
}

fn file_name(cli: &Cli) -> Option<String> {
    match &cli.input {
        Some(InputSource::FileName(path)) => Some(path.clone()),
        _ => None,
    }
}

fn piped(cli: &Cli) -> Option<String> {
    match &cli.input {
        Some(InputSource::StdIn(text)) => Some(text.clone()),
        _ => None,
    }
}

#[test]
fn version_flag_asks_for_the_version() {
    let args = Args {
        version: true,
        command: Some(ArgCommands::Lint { file: None }),
    };
    let cli = Cli::init(args, Some(InputSource::StdIn("KEY=value".to_string()))).unwrap();
    assert!(cli.input.is_none());
    match cli.command {
        Commands::Version { name, version } => {
            assert_eq!(name, "envmn");
            assert_eq!(version, "0.2.7");
        }
        _ => panic!("the flag asks for the version"),
    }
}

#[test]
fn no_subcommand_is_no_operation() {
    let args = Args {
        version: false,
        command: None,
    };
    assert!(matches!(
        Cli::init(args, None),
        Err(Error::CliError(CliErrors::NoOperationFound))
    ));
}

#[test]
fn subcommands_map_to_commands() {
    let cli = Cli::init(
        Args {
            version: false,
            command: Some(ArgCommands::Lint {
                file: Some("a.env".to_string()),
            }),
        },
        None,
    )
    .unwrap();
    assert!(matches!(cli.command, Commands::Lint));
    assert_eq!(file_name(&cli), Some("a.env".to_string()));

    let cli = Cli::init(
        Args {
            version: false,
            command: Some(ArgCommands::Format { file: None }),
        },
        None,
    )
    .unwrap();
    assert!(matches!(cli.command, Commands::Format));
    assert_eq!(file_name(&cli), Some(".env".to_string()));

    let cli = Cli::init(
        Args {
            version: false,
            command: Some(ArgCommands::List { file: None }),
        },
        Some(InputSource::StdIn("KEY=value".to_string())),
    )
    .unwrap();
    assert!(matches!(cli.command, Commands::List));
    assert_eq!(piped(&cli), Some("KEY=value".to_string()));

    let cli = Cli::init(
        Args {
            version: false,
            command: Some(ArgCommands::Pick {
                block: "db".to_string(),
                file: Some("a.env".to_string()),
            }),
        },
        None,
    )
    .unwrap();
    match &cli.command {
        Commands::Pick { block_name } => assert_eq!(block_name, "db"),
        _ => panic!("pick asks for a pick"),
    }
    assert_eq!(file_name(&cli), Some("a.env".to_string()));
}

#[test]
fn piped_input_takes_priority_over_a_file() {
    let source = Cli::resolve_input(
        Some("a.env".to_string()),
        Some(InputSource::StdIn("STDIN_VAR=from_stdin".to_string())),
    );
    assert!(matches!(source, InputSource::StdIn(text) if text == "STDIN_VAR=from_stdin"));
    let source = Cli::resolve_input(Some("a.env".to_string()), None);
    assert!(matches!(source, InputSource::FileName(path) if path == "a.env"));
    let source = Cli::resolve_input(None, None);
    assert!(matches!(source, InputSource::FileName(path) if path == ".env"));
}

#[test]
fn commands_are_read_from_their_own_name_only() {
    assert!(HelpCmd::try_from(&params(&["help"])).unwrap().is_some());
    assert!(HelpCmd::try_from(&params(&["list"])).unwrap().is_none());
    assert!(HelpCmd::try_from(&params(&[])).unwrap().is_none());
    assert!(LintCmd::try_from(&params(&["lint"])).unwrap().is_some());
    assert!(LintCmd::try_from(&params(&["list"])).unwrap().is_none());
    assert!(ListCmd::try_from(&params(&["list", "a.env"])).unwrap().is_some());
    assert!(ListCmd::try_from(&params(&["lint"])).unwrap().is_none());
    assert!(FormatCmd::try_from(&params(&["format"])).unwrap().is_some());
    assert!(FormatCmd::try_from(&params(&["Format"])).unwrap().is_none());
    assert!(PickCmd::try_from(&params(&["list"])).unwrap().is_none());
    assert!(VersionCmd::try_from(&params(&["help"])).unwrap().is_none());
    let version = VersionCmd::try_from(&params(&["version"])).unwrap().unwrap();
    assert_eq!(version.name, "envmn");
    assert_eq!(version.version, "0.2.7");
}

#[test]
fn pick_needs_a_block() {
    match PickCmd::try_from(&params(&["pick"])) {
        Err(Error::CliError(CliErrors::FailedToParseArgs(what))) => {
            assert_eq!(what, "Provide a block name")
        }
        _ => panic!("pick without a block is refused"),
    }
    let cmd = PickCmd::try_from(&params(&["pick", "db", "a.env"]))
        .unwrap()
        .unwrap();
    assert_eq!(cmd.block_name, "db");
    let cli = <Cli as CliCmd<PickCmd>>::try_from(cmd, None).unwrap();
    assert_eq!(file_name(&cli), Some("a.env".to_string()));
    assert!(matches!(&cli.command, Commands::Pick { block_name } if block_name == "db"));
}

#[test]
fn commands_resolve_their_input() {
    let cmd = LintCmd::try_from(&params(&["lint", "a.env"])).unwrap().unwrap();
    let cli = <Cli as CliCmd<LintCmd>>::try_from(cmd, None).unwrap();
    assert!(matches!(cli.command, Commands::Lint));
    assert_eq!(file_name(&cli), Some("a.env".to_string()));

    let cmd = ListCmd::try_from(&params(&["list"])).unwrap().unwrap();
    let cli = <Cli as CliCmd<ListCmd>>::try_from(cmd, None).unwrap();
    assert!(matches!(cli.command, Commands::List));
    assert_eq!(file_name(&cli), Some(".env".to_string()));

    let cmd = FormatCmd::try_from(&params(&["format", "a.env"])).unwrap().unwrap();
    let cli =
        <Cli as CliCmd<FormatCmd>>::try_from(cmd, Some(InputSource::StdIn("K=v".to_string())))
            .unwrap();
    assert!(matches!(cli.command, Commands::Format));
    assert_eq!(piped(&cli), Some("K=v".to_string()));

    let cli = <Cli as CliCmd<HelpCmd>>::try_from(HelpCmd, None).unwrap();
    assert!(matches!(cli.command, Commands::Help));
    assert!(cli.input.is_none());

    let cmd = VersionCmd::try_from(&params(&["version"])).unwrap().unwrap();
    let cli = <Cli as CliCmd<VersionCmd>>::try_from(cmd, None).unwrap();
    assert!(cli.input.is_none());
    assert!(matches!(&cli.command, Commands::Version { name, version }
        if name == "envmn" && version == "0.2.7"));
}

#[test]
fn arguments_are_read_as_a_whole() {
    assert!(matches!(
        Cli::from_params(&params(&[]), None),
        Err(Error::CliError(CliErrors::NoOperationFound))
    ));
    assert!(matches!(
        Cli::from_params(&params(&[]), Some(InputSource::StdIn("K=v".to_string()))),
        Err(Error::CliError(CliErrors::NoOperationFound))
    ));
    match Cli::from_params(&params(&["invalid_command"]), None) {
        Err(Error::CliError(CliErrors::UnknownCommand(name))) => {
            assert_eq!(name, "invalid_command")
        }
        _ => panic!("an unknown command is refused"),
    }
    assert!(matches!(
        Cli::from_params(&params(&["pick"]), None),
        Err(Error::CliError(CliErrors::FailedToParseArgs(_)))
    ));
    let cli = Cli::from_params(&params(&["pick", "db"]), None).unwrap();
    assert!(matches!(&cli.command, Commands::Pick { block_name } if block_name == "db"));
    assert_eq!(file_name(&cli), Some(".env".to_string()));
    let cli = Cli::from_params(&params(&["list", "a.env"]), None).unwrap();
    assert!(matches!(cli.command, Commands::List));
    assert_eq!(file_name(&cli), Some("a.env".to_string()));
    let cli = Cli::from_params(&params(&["lint"]), None).unwrap();
    assert!(matches!(cli.command, Commands::Lint));
    let cli = Cli::from_params(&params(&["format"]), None).unwrap();
    assert!(matches!(cli.command, Commands::Format));
    let cli = Cli::from_params(&params(&["version"]), None).unwrap();
    assert!(matches!(cli.command, Commands::Version { .. }));
    let cli = Cli::from_params(&params(&["help"]), None).unwrap();
    assert!(matches!(cli.command, Commands::Help));
}
