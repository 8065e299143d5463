use weather_goblin::cli::CliError;
use weather_goblin::model::{Cli, Command, DisplayMode};

#[test]
fn test_cli_parses_city_arg() {
    let cli = Cli::try_parse_from(&["rust_weather_cli", "Athens"]).unwrap();

    assert!(cli.command.is_none());
    assert_eq!(cli.city.as_deref(), Some("Athens"));
    assert!(!cli.save);
    assert!(!cli.no_save);
}

#[test]
fn test_cli_parses_saved_city_number_as_city_arg() {
    let cli = Cli::try_parse_from(&["rust_weather_cli", "1"]).unwrap();

    assert!(cli.command.is_none());
    assert_eq!(cli.city.as_deref(), Some("1"));
}

#[test]
fn test_cli_parses_save_flags() {
    let save_cli = Cli::try_parse_from(&["rust_weather_cli", "Athens", "--save"]).unwrap();
    let no_save_cli = Cli::try_parse_from(&["rust_weather_cli", "Athens", "--no-save"]).unwrap();

    assert!(save_cli.save);
    assert!(!save_cli.no_save);
    assert!(!no_save_cli.save);
    assert!(no_save_cli.no_save);
}

#[test]
fn test_cli_parses_ls_subcommand() {
    let cli = Cli::try_parse_from(&["rust_weather_cli", "ls"]).unwrap();

    assert!(matches!(cli.command, Some(Command::Ls)));
    assert!(cli.city.is_none());
}

#[test]
fn test_cli_parses_delete_subcommand() {
    let cli = Cli::try_parse_from(&["rust_weather_cli", "delete", "2"]).unwrap();

    match cli.command {
        Some(Command::Delete { number }) => assert_eq!(number, 2),
        other => panic!("expected delete command, got {other:?}"),
    }
    assert!(cli.city.is_none());
}

#[test]
fn cli_with_no_arguments_gives_nothing() {
    let cli = Cli::try_parse_from(&["rust_weather_cli"]).unwrap();
    assert!(cli.command.is_none());
    assert!(cli.city.is_none());
    assert!(!cli.save && !cli.no_save);
    let empty: [&str; 0] = [];
    assert!(Cli::try_parse_from(&empty).unwrap().city.is_none());
}

#[test]
fn cli_flags_and_city_in_any_order() {
    let cli = Cli::try_parse_from(&["p", "--save", "--no-save", "Oslo"]).unwrap();
    assert!(cli.save && cli.no_save);
    assert_eq!(cli.city.as_deref(), Some("Oslo"));
}

#[test]
fn cli_city_then_subcommand() {
    let cli = Cli::try_parse_from(&["p", "Oslo", "ls"]).unwrap();
    assert_eq!(cli.city.as_deref(), Some("Oslo"));
    assert_eq!(cli.command, Some(Command::Ls));
}

#[test]
fn cli_help_requests() {
    assert_eq!(Cli::try_parse_from(&["p", "--help"]).unwrap_err(), CliError::Help);
    assert_eq!(Cli::try_parse_from(&["p", "-h"]).unwrap_err(), CliError::Help);
    assert_eq!(Cli::try_parse_from(&["p", "help"]).unwrap_err(), CliError::Help);
    assert_eq!(Cli::try_parse_from(&["p", "help", "delete"]).unwrap_err(), CliError::Help);
    assert_eq!(Cli::try_parse_from(&["p", "ls", "--help"]).unwrap_err(), CliError::Help);
    assert_eq!(Cli::try_parse_from(&["p", "delete", "-h"]).unwrap_err(), CliError::Help);
    assert_eq!(Cli::try_parse_from(&["p", "help", "nope"]).unwrap_err(), CliError::UnknownArgument(2));
    assert_eq!(Cli::try_parse_from(&["p", "help", "ls", "x"]).unwrap_err(), CliError::UnknownArgument(3));
}

#[test]
fn cli_rejections() {
    assert_eq!(Cli::try_parse_from(&["p", "Oslo", "Bergen"]).unwrap_err(), CliError::UnknownArgument(2));
    assert_eq!(Cli::try_parse_from(&["p", "--verbose"]).unwrap_err(), CliError::UnknownArgument(1));
    assert_eq!(Cli::try_parse_from(&["p", "-x"]).unwrap_err(), CliError::UnknownArgument(1));
    assert_eq!(Cli::try_parse_from(&["p", "--save=yes"]).unwrap_err(), CliError::UnexpectedValue(1));
    assert_eq!(Cli::try_parse_from(&["p", "--help=x"]).unwrap_err(), CliError::UnexpectedValue(1));
    assert_eq!(Cli::try_parse_from(&["p", "--save", "--save"]).unwrap_err(), CliError::RepeatedFlag(2));
    assert_eq!(Cli::try_parse_from(&["p", "delete"]).unwrap_err(), CliError::MissingNumber);
    assert_eq!(Cli::try_parse_from(&["p", "delete", "two"]).unwrap_err(), CliError::InvalidNumber(2));
    assert_eq!(Cli::try_parse_from(&["p", "delete", "two", "--help"]).unwrap_err(), CliError::InvalidNumber(2));
    assert_eq!(Cli::try_parse_from(&["p", "delete", "1", "2"]).unwrap_err(), CliError::UnknownArgument(3));
    assert_eq!(Cli::try_parse_from(&["p", "ls", "x"]).unwrap_err(), CliError::UnknownArgument(2));
    assert_eq!(Cli::try_parse_from(&["p", "ls", "--save"]).unwrap_err(), CliError::UnknownArgument(2));
}

#[test]
fn cli_double_dash_ends_flags() {
    let cli = Cli::try_parse_from(&["p", "--", "--save"]).unwrap();
    assert_eq!(cli.city.as_deref(), Some("--save"));
    assert!(!cli.save);
    let cli = Cli::try_parse_from(&["p", "--", "ls"]).unwrap();
    assert_eq!(cli.city.as_deref(), Some("ls"));
    assert!(cli.command.is_none());
    let cli = Cli::try_parse_from(&["p", "delete", "--", "+7"]).unwrap();
    assert_eq!(cli.command, Some(Command::Delete { number: 7 }));
}

#[test]
fn save_flag_before_or_after_city() {
    let a = Cli::try_parse_from(&["p", "Athens", "--save"]).unwrap();
    let b = Cli::try_parse_from(&["p", "--save", "Athens"]).unwrap();
    assert_eq!(a.city, b.city);
    assert_eq!(a.city.as_deref(), Some("Athens"));
    assert!(a.save && b.save && !a.no_save && !b.no_save);
}

#[test]
fn cli_display_modes() {
    let cli = Cli::try_parse_from(&["rust_weather_cli", "Athens", "--display", "compact"]).unwrap();
    assert_eq!(cli.city.as_deref(), Some("Athens"));
    assert_eq!(cli.display, DisplayMode::Compact);
    let cli = Cli::try_parse_from(&["rust_weather_cli", "--display=funny", "Athens"]).unwrap();
    assert_eq!(cli.display, DisplayMode::Funny);
    let cli = Cli::try_parse_from(&["rust_weather_cli", "Athens"]).unwrap();
    assert_eq!(cli.display, DisplayMode::Funny);
    assert_eq!(Cli::try_parse_from(&["p", "--display"]).unwrap_err(), CliError::MissingValue(1));
    assert_eq!(Cli::try_parse_from(&["p", "--display", "loud"]).unwrap_err(), CliError::InvalidValue(2));
    assert_eq!(Cli::try_parse_from(&["p", "--display=loud"]).unwrap_err(), CliError::InvalidValue(1));
    assert_eq!(
        Cli::try_parse_from(&["p", "--display", "compact", "--display", "funny"]).unwrap_err(),
        CliError::RepeatedFlag(3)
    );
    assert_eq!(Cli::try_parse_from(&["p", "--display", "--save"]).unwrap_err(), CliError::MissingValue(1));
}

#[test]
fn cli_delete_has_other_names() {
    for name in ["delete", "del", "rm"] {
        let cli = Cli::try_parse_from(&["rust_weather_cli", name, "1"]).unwrap();
        assert_eq!(cli.command, Some(Command::Delete { number: 1 }));
        assert!(cli.city.is_none());
    }
    assert_eq!(Cli::try_parse_from(&["p", "rm"]).unwrap_err(), CliError::MissingNumber);
    assert_eq!(Cli::try_parse_from(&["p", "help", "del"]).unwrap_err(), CliError::Help);
}
