//! The command-line grammar agrees with the same command line described to
//! clap's builder interface.

use clap::error::ErrorKind;
use clap::{Arg, ArgAction};
use weather_goblin::cli::CliError;
use weather_goblin::model::{Cli, Command, DisplayMode};

fn clap_command() -> clap::Command {
    clap::Command::new("rust_weather_cli")
        .about("get current weather")
        .subcommand(clap::Command::new("ls"))
        .subcommand(
            clap::Command::new("delete").alias("del").alias("rm").arg(
                Arg::new("number")
                    .required(true)
                    .value_parser(|s: &str| s.parse::<usize>()),
            ),
        )
        .arg(Arg::new("city").help("City name or number of saved city"))
        .arg(Arg::new("save").long("save").action(ArgAction::SetTrue))
        .arg(Arg::new("no_save").long("no-save").action(ArgAction::SetTrue))
        .arg(Arg::new("display").long("display").value_parser(["funny", "compact"]).default_value("funny"))
}

fn check(args: &[&str]) {
    let ours = Cli::try_parse_from(args);
    let theirs = clap_command().try_get_matches_from(args.iter().copied());
    match (ours, theirs) {
        (Ok(cli), Ok(m)) => {
            assert_eq!(cli.city.as_deref(), m.get_one::<String>("city").map(|s| s.as_str()), "{args:?}");
            assert_eq!(cli.save, m.get_flag("save"), "{args:?}");
            assert_eq!(cli.no_save, m.get_flag("no_save"), "{args:?}");
            let display = match cli.display {
                DisplayMode::Funny => "funny",
                DisplayMode::Compact => "compact",
            };
            assert_eq!(Some(display), m.get_one::<String>("display").map(|s| s.as_str()), "{args:?}");
            let theirs = match m.subcommand() {
                None => None,
                Some(("ls", _)) => Some(Command::Ls),
                Some(("delete", sub)) => Some(Command::Delete { number: *sub.get_one::<usize>("number").unwrap() }),
                Some((other, _)) => panic!("unexpected subcommand {other}"),
            };
            assert_eq!(cli.command, theirs, "{args:?}");
        }
        (Err(e), Err(err)) => {
            let expected = match err.kind() {
                ErrorKind::DisplayHelp => matches!(e, CliError::Help),
                ErrorKind::UnknownArgument | ErrorKind::InvalidSubcommand => matches!(e, CliError::UnknownArgument(_)),
                ErrorKind::TooManyValues => matches!(e, CliError::UnexpectedValue(_)),
                ErrorKind::ArgumentConflict => matches!(e, CliError::RepeatedFlag(_)),
                ErrorKind::MissingRequiredArgument => matches!(e, CliError::MissingNumber),
                ErrorKind::ValueValidation => matches!(e, CliError::InvalidNumber(_)),
                ErrorKind::InvalidValue => matches!(e, CliError::MissingValue(_) | CliError::InvalidValue(_)),
                _ => false,
            };
            assert!(expected, "{args:?}: ours {e:?}, clap {:?}", err.kind());
        }
        (ours, theirs) => panic!("{args:?}: ours {ours:?}, clap {:?}", theirs.map(|_| ()).map_err(|e| e.kind())),
    }
}

#[test]
fn grammar_agrees_with_clap() {
    let cases: &[&[&str]] = &[
        &["p"],
        &["p", "Athens"],
        &["p", "1"],
        &["p", "Athens", "--save"],
        &["p", "--save", "Athens"],
        &["p", "Athens", "--no-save"],
        &["p", "--save", "--no-save"],
        &["p", "--save", "--save"],
        &["p", "--save=1"],
        &["p", "--no-save=", "x"],
        &["p", "--help"],
        &["p", "--help=x"],
        &["p", "-h"],
        &["p", "-hx"],
        &["p", "-x"],
        &["p", "-5"],
        &["p", "-"],
        &["p", ""],
        &["p", "--"],
        &["p", "--", "--save"],
        &["p", "--", "ls"],
        &["p", "--", "a", "b"],
        &["p", "--", "--"],
        &["p", "a", "b"],
        &["p", "a", "ls"],
        &["p", "ls"],
        &["p", "ls", "x"],
        &["p", "ls", "--help"],
        &["p", "ls", "-h"],
        &["p", "ls", "--save"],
        &["p", "ls", "--"],
        &["p", "ls", "--", "x"],
        &["p", "delete"],
        &["p", "delete", "2"],
        &["p", "delete", "+2"],
        &["p", "delete", "0"],
        &["p", "delete", "-2"],
        &["p", "delete", "two"],
        &["p", "delete", ""],
        &["p", "delete", "2", "3"],
        &["p", "delete", "2", "--help"],
        &["p", "delete", "x", "--help"],
        &["p", "delete", "x", "-h"],
        &["p", "delete", "x", "--other"],
        &["p", "delete", "--", "-2"],
        &["p", "delete", "--", "3"],
        &["p", "delete", "99999999999999999999999"],
        &["p", "--save", "delete", "4"],
        &["p", "help"],
        &["p", "help", "ls"],
        &["p", "help", "delete"],
        &["p", "help", "nope"],
        &["p", "help", "ls", "delete"],
        &["p", "--wat"],
        &["p", "--=x"],
        &["p", "---save"],
        &["p", "del", "1"],
        &["p", "rm", "1"],
        &["p", "rm"],
        &["p", "del", "x"],
        &["p", "help", "del"],
        &["p", "help", "rm"],
        &["p", "Athens", "del", "2"],
        &["p", "Athens", "--display", "compact"],
        &["p", "--display", "compact", "Athens"],
        &["p", "--display=compact", "Athens"],
        &["p", "--display=funny"],
        &["p", "--display", "funny"],
        &["p", "--display"],
        &["p", "--display="],
        &["p", "--display", "loud"],
        &["p", "--display", "Compact"],
        &["p", "--display", "compact", "--display", "funny"],
        &["p", "--display=compact", "--display=compact"],
        &["p", "--display", "--save"],
        &["p", "--display", "--help"],
        &["p", "--display", "-h"],
        &["p", "--display", "--wat"],
        &["p", "--display", "-x"],
        &["p", "--display", "--"],
        &["p", "--display", "--", "compact"],
        &["p", "Athens", "--display", "--", "x"],
        &["p", "--display", "ls"],
        &["p", "--display", "help"],
        &["p", "--display", "compact", "ls"],
        &["p", "--display", "loud", "ls"],
        &["p", "--display", "loud", "ls", "x"],
        &["p", "--display", "loud", "help"],
        &["p", "--display", "loud", "--help"],
        &["p", "--display", "loud", "--wat"],
        &["p", "--display", "loud", "Athens"],
        &["p", "--display", "loud", "--save"],
        &["p", "--display", "loud", "--save=x"],
        &["p", "--display", "compact", "--display"],
        &["p", "--display", "compact", "--display=loud"],
        &["p", "--display", "loud", "--display=compact"],
        &["p", "--save", "--display", "compact", "delete", "3"],
        &["p", "--display", "compact", "delete", "x"],
        &["p", "Athens", "Oslo", "--display", "loud"],
    ];
    for args in cases {
        check(args);
    }
}
