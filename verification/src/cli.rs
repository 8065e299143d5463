//! The command-line grammar of the tool:
//!
//! ```text
//! rust_weather_cli [--save] [--no-save] [--display funny|compact] [CITY]
//!                  [ls | delete NUMBER | help [SUBCOMMAND]]
//! ```
//!
//! `del` and `rm` are other names of `delete`. The grammar follows the
//! conventions of derive-style argument parsers: a word that names a
//! subcommand starts it, `--` ends the flags, `-h`/`--help` ask for help,
//! `--display` takes its value from the next word or after `=`, the other
//! flags take no values, and each may be given once. A value given to
//! `--display` in the next word is checked when the next flag, the city or
//! the end of the command line is reached.

use vstd::prelude::*;
use crate::model::{Cli, Command, DisplayMode};
use crate::text::{has_prefix, parse_decimal, parse_decimal_text, same_text, starts_with_text};

verus! {

/// Why a command line was not accepted.
#[derive(Debug, Clone, Copy, PartialEq, Eq, Structural)]
pub enum CliError {
    /// Help was asked for: `-h`, `--help`, or the `help` subcommand.
    Help,
    /// The argument at this position is not accepted where it stands.
    UnknownArgument(usize),
    /// The flag at this position was given a value, as in `--save=yes`.
    UnexpectedValue(usize),
    /// The flag at this position was given before.
    RepeatedFlag(usize),
    /// `delete` was given no number.
    MissingNumber,
    /// The number given to `delete`, at this position, is not a `usize`.
    InvalidNumber(usize),
    /// The option at this position was given no value.
    MissingValue(usize),
    /// The display mode at this position is neither `funny` nor `compact`.
    InvalidValue(usize),
}

/// A parsed command line, with the city as characters.
pub struct CliView {
    pub command: Option<Command>,
    pub city: Option<Seq<char>>,
    pub save: bool,
    pub no_save: bool,
    pub display: DisplayMode,
}

impl View for Cli {
    type V = CliView;

    open spec fn view(&self) -> CliView {
        CliView {
            command: self.command,
            city: match self.city {
                Some(c) => Some(c@),
                None => None,
            },
            save: self.save,
            no_save: self.no_save,
            display: self.display,
        }
    }
}

/// The arguments as character sequences.
pub open spec fn words(args: Seq<&str>) -> Seq<Seq<char>> {
    args.map_values(|a: &str| a@)
}

/// A long flag: two dashes and a name.
pub open spec fn is_long(a: Seq<char>) -> bool {
    a.len() > 2 && a[0] == '-' && a[1] == '-'
}

/// A group of short flags: one dash and at least one more character, which
/// is not a dash.
pub open spec fn is_short(a: Seq<char>) -> bool {
    a.len() >= 2 && a[0] == '-' && a[1] != '-'
}

/// `a` names the long flag `bare`, alone or with an attached value
/// (`with_value` is `bare` followed by `=`).
pub open spec fn names_flag(a: Seq<char>, bare: Seq<char>, with_value: Seq<char>) -> bool {
    a == bare || has_prefix(a, with_value)
}

/// The names of `delete`.
pub open spec fn is_delete_name(a: Seq<char>) -> bool {
    a == "delete"@ || a == "del"@ || a == "rm"@
}

/// The names of the subcommands.
pub open spec fn is_subcommand_name(a: Seq<char>) -> bool {
    a == "ls"@ || is_delete_name(a) || a == "help"@ 
}

/// The display mode that the word `a` names.
pub open spec fn display_named(a: Seq<char>) -> Option<DisplayMode> {
    if a == "funny"@ {
        Some(DisplayMode::Funny)
    } else if a == "compact"@ {
        Some(DisplayMode::Compact)
    } else {
        None
    }
}

/// A `--display` whose value has not been taken yet.
#[derive(Debug, Clone, Copy, PartialEq, Eq, Structural)]
pub enum Pending {
    /// None.
    Nothing,
    /// `--display` at this position waits for its value in the next word.
    Awaiting(usize),
    /// `--display` at the first position was given the word at the second
    /// position as its value, not yet checked.
    Value(usize, usize),
}

/// The top-level part of a command line parsed so far.
pub struct ParseState {
    pub city: Option<Seq<char>>,
    pub save: bool,
    pub no_save: bool,
    pub display: Option<DisplayMode>,
    pub pending: Pending,
}

/// The state before any word.
pub open spec fn nothing_given() -> ParseState {
    ParseState { city: None, save: false, no_save: false, display: None, pending: Pending::Nothing }
}

/// Giving the display mode `text` (at position `at`) to the `--display` at
/// position `flag`, where `current` was given before.
pub open spec fn display_given(current: Option<DisplayMode>, flag: usize, at: usize, text: Seq<char>) -> Result<Option<DisplayMode>, CliError> {
    if current is Some {
        Err(CliError::RepeatedFlag(flag))
    } else {
        match display_named(text) {
            Some(m) => Ok(Some(m)),
            None => Err(CliError::InvalidValue(at)),
        }
    }
}

/// Taking the value of a waiting `--display`.
pub open spec fn settle(w: Seq<Seq<char>>, current: Option<DisplayMode>, pending: Pending) -> Result<Option<DisplayMode>, CliError> {
    match pending {
        Pending::Nothing => Ok(current),
        Pending::Awaiting(d) => Err(CliError::MissingValue(d)),
        Pending::Value(d, k) => display_given(current, d, k, w[k as int]),
    }
}

/// `st` with its waiting `--display` settled.
pub open spec fn settled(w: Seq<Seq<char>>, st: ParseState) -> Result<ParseState, CliError> {
    match settle(w, st.display, st.pending) {
        Ok(d) => Ok(ParseState { display: d, pending: Pending::Nothing, ..st }),
        Err(e) => Err(e),
    }
}

/// The command line that a settled state and `command` make; the display
/// defaults to the funny one.
pub open spec fn finished(st: ParseState, command: Option<Command>) -> CliView {
    CliView {
        command,
        city: st.city,
        save: st.save,
        no_save: st.no_save,
        display: match st.display {
            Some(m) => m,
            None => DisplayMode::Funny,
        },
    }
}

/// The end of the command line, after the subcommand `command` if any.
pub open spec fn ending(w: Seq<Seq<char>>, st: ParseState, command: Option<Command>) -> Result<CliView, CliError> {
    match settled(w, st) {
        Ok(s) => Ok(finished(s, command)),
        Err(e) => Err(e),
    }
}

/// The answer to `help` followed by the words from `j` on: help, unless
/// they are more than one subcommand name.
pub open spec fn help_outcome(w: Seq<Seq<char>>, j: int) -> CliError {
    if j >= w.len() {
        CliError::Help
    } else if !is_subcommand_name(w[j]) {
        CliError::UnknownArgument(j as usize)
    } else if j + 1 >= w.len() {
        CliError::Help
    } else {
        CliError::UnknownArgument((j + 1) as usize)
    }
}

/// The words of `ls` from `i` on, which accept only help and `--`.
pub open spec fn ls_parse(w: Seq<Seq<char>>, i: int, trailing: bool) -> Result<(), CliError>
    decreases w.len() - i,
{
    if i >= w.len() {
        Ok(())
    } else {
        let a = w[i];
        if !trailing && a == "--"@ {
            ls_parse(w, i + 1, true)
        } else if !trailing && is_long(a) && names_flag(a, "--help"@, "--help="@) {
            if a == "--help"@ {
                Err(CliError::Help)
            } else {
                Err(CliError::UnexpectedValue(i as usize))
            }
        } else if !trailing && is_short(a) && a[1] == 'h' {
            Err(CliError::Help)
        } else {
            Err(CliError::UnknownArgument(i as usize))
        }
    }
}

/// `otherwise`, unless the number word at `num` does not parse: the number
/// is checked before a later flag takes effect.
pub open spec fn number_checked(w: Seq<Seq<char>>, num: Option<usize>, otherwise: CliError) -> CliError {
    match num {
        Some(k) => if parse_decimal(w[k as int]) is None {
            CliError::InvalidNumber(k)
        } else {
            otherwise
        },
        None => otherwise,
    }
}

/// The words of `delete` from `i` on; `num` is the position of the number
/// word once it has been met.
pub open spec fn delete_parse(w: Seq<Seq<char>>, i: int, num: Option<usize>, trailing: bool) -> Result<usize, CliError>
    decreases w.len() - i,
{
    if i >= w.len() {
        match num {
            None => Err(CliError::MissingNumber),
            Some(k) => match parse_decimal(w[k as int]) {
                Some(v) => Ok(v),
                None => Err(CliError::InvalidNumber(k)),
            },
        }
    } else {
        let a = w[i];
        if !trailing && a == "--"@ {
            delete_parse(w, i + 1, num, true)
        } else if !trailing && is_long(a) && names_flag(a, "--help"@, "--help="@) {
            if a == "--help"@ {
                Err(number_checked(w, num, CliError::Help))
            } else {
                Err(CliError::UnexpectedValue(i as usize))
            }
        } else if !trailing && is_long(a) {
            Err(CliError::UnknownArgument(i as usize))
        } else if !trailing && is_short(a) {
            if a[1] == 'h' {
                Err(number_checked(w, num, CliError::Help))
            } else {
                Err(CliError::UnknownArgument(i as usize))
            }
        } else if num is None {
            delete_parse(w, i + 1, Some(i as usize), trailing)
        } else {
            Err(CliError::UnknownArgument(i as usize))
        }
    }
}

/// The top-level words from `i` on, with `st` parsed so far; `trailing` once
/// `--` has been met.
pub open spec fn root_parse(w: Seq<Seq<char>>, i: int, st: ParseState, trailing: bool) -> Result<CliView, CliError>
    decreases w.len() - i,
{
    if i >= w.len() {
        ending(w, st, None)
    } else {
        let a = w[i];
        let awaiting = st.pending is Awaiting;
        if !trailing && !awaiting && a == "help"@ {
            Err(help_outcome(w, i + 1))
        } else if !trailing && !awaiting && a == "ls"@ {
            match ls_parse(w, i + 1, false) {
                Ok(_) => ending(w, st, Some(Command::Ls)),
                Err(e) => Err(e),
            }
        } else if !trailing && !awaiting && is_delete_name(a) {
            match delete_parse(w, i + 1, None, false) {
                Ok(n) => ending(w, st, Some(Command::Delete { number: n })),
                Err(e) => Err(e),
            }
        } else if !trailing && a == "--"@ {
            root_parse(w, i + 1, st, true)
        } else if !trailing && is_long(a) {
            if names_flag(a, "--display"@, "--display="@) {
                match settled(w, st) {
                    Err(e) => Err(e),
                    Ok(s) => if a == "--display"@ {
                        root_parse(w, i + 1, ParseState { pending: Pending::Awaiting(i as usize), ..s }, false)
                    } else {
                        match display_given(s.display, i as usize, i as usize, a.subrange(10, a.len() as int)) {
                            Err(e) => Err(e),
                            Ok(d) => root_parse(w, i + 1, ParseState { display: d, ..s }, false),
                        }
                    },
                }
            } else if names_flag(a, "--help"@, "--help="@) {
                if a == "--help"@ {
                    match settled(w, st) {
                        Err(e) => Err(e),
                        Ok(_) => Err(CliError::Help),
                    }
                } else {
                    Err(CliError::UnexpectedValue(i as usize))
                }
            } else if names_flag(a, "--save"@, "--save="@) {
                if a != "--save"@ {
                    Err(CliError::UnexpectedValue(i as usize))
                } else {
                    match settled(w, st) {
                        Err(e) => Err(e),
                        Ok(s) => if s.save {
                            Err(CliError::RepeatedFlag(i as usize))
                        } else {
                            root_parse(w, i + 1, ParseState { save: true, ..s }, false)
                        },
                    }
                }
            } else if names_flag(a, "--no-save"@, "--no-save="@) {
                if a != "--no-save"@ {
                    Err(CliError::UnexpectedValue(i as usize))
                } else {
                    match settled(w, st) {
                        Err(e) => Err(e),
                        Ok(s) => if s.no_save {
                            Err(CliError::RepeatedFlag(i as usize))
                        } else {
                            root_parse(w, i + 1, ParseState { no_save: true, ..s }, false)
                        },
                    }
                }
            } else {
                Err(CliError::UnknownArgument(i as usize))
            }
        } else if !trailing && is_short(a) {
            if a[1] == 'h' {
                match settled(w, st) {
                    Err(e) => Err(e),
                    Ok(_) => Err(CliError::Help),
                }
            } else {
                Err(CliError::UnknownArgument(i as usize))
            }
        } else if !trailing && awaiting {
            root_parse(w, i + 1, ParseState { pending: Pending::Value(st.pending->Awaiting_0, i as usize), ..st }, false)
        } else if st.city is None {
            match settled(w, st) {
                Err(e) => Err(e),
                Ok(s) => root_parse(w, i + 1, ParseState { city: Some(a), ..s }, trailing),
            }
        } else {
            Err(CliError::UnknownArgument(i as usize))
        }
    }
}

/// The meaning of the command line `w`, whose first word names the program.
pub open spec fn command_line(w: Seq<Seq<char>>) -> Result<CliView, CliError> {
    root_parse(w, 1, nothing_given(), false)
}

/// The view of a parse result.
pub open spec fn parsed_view(r: Result<Cli, CliError>) -> Result<CliView, CliError> {
    match r {
        Ok(cli) => Ok(cli@),
        Err(e) => Err(e),
    }
}

fn looks_long(a: &str) -> (r: bool)
    ensures
        r == is_long(a@),
{
    a.unicode_len() > 2 && a.get_char(0) == '-' && a.get_char(1) == '-'
}

fn looks_short(a: &str) -> (r: bool)
    ensures
        r == is_short(a@),
{
    a.unicode_len() >= 2 && a.get_char(0) == '-' && a.get_char(1) != '-'
}

fn is_flag(a: &str, bare: &str, with_value: &str) -> (r: bool)
    ensures
        r == names_flag(a@, bare@, with_value@),
{
    same_text(a, bare) || starts_with_text(a, with_value)
}

fn is_delete_word(a: &str) -> (r: bool)
    ensures
        r == is_delete_name(a@),
{
    same_text(a, "delete") || same_text(a, "del") || same_text(a, "rm")
}

fn display_choice(text: &str) -> (r: Option<DisplayMode>)
    ensures
        r == display_named(text@),
{
    if same_text(text, "funny") {
        Some(DisplayMode::Funny)
    } else if same_text(text, "compact") {
        Some(DisplayMode::Compact)
    } else {
        None
    }
}

fn give_display(current: Option<DisplayMode>, flag: usize, at: usize, text: &str) -> (r: Result<Option<DisplayMode>, CliError>)
    ensures
        r == display_given(current, flag, at, text@),
{
    if current.is_some() {
        Err(CliError::RepeatedFlag(flag))
    } else {
        match display_choice(text) {
            Some(m) => Ok(Some(m)),
            None => Err(CliError::InvalidValue(at)),
        }
    }
}

fn settle_display(args: &[&str], current: Option<DisplayMode>, pending: Pending) -> (r: Result<Option<DisplayMode>, CliError>)
    requires
        pending matches Pending::Value(_, k) ==> k < args@.len(),
    ensures
        r == settle(words(args@), current, pending),
{
    match pending {
        Pending::Nothing => Ok(current),
        Pending::Awaiting(d) => Err(CliError::MissingValue(d)),
        Pending::Value(d, k) => {
            assert(words(args@)[k as int] == args[k as int]@);
            give_display(current, d, k, args[k])
        },
    }
}

/// The parse state that the pieces of a partly built command line make.
pub open spec fn progress(city: Option<String>, save: bool, no_save: bool, display: Option<DisplayMode>, pending: Pending) -> ParseState {
    ParseState {
        city: match city {
            Some(c) => Some(c@),
            None => None,
        },
        save,
        no_save,
        display,
        pending,
    }
}

fn help_request(args: &[&str], j: usize) -> (e: CliError)
    requires
        j <= args@.len(),
    ensures
        e == help_outcome(words(args@), j as int),
{
    let ghost w = words(args@);
    if j >= args.len() {
        return CliError::Help;
    }
    let a = args[j];
    assert(w[j as int] == a@);
    if !(same_text(a, "ls") || is_delete_word(a) || same_text(a, "help")) {
        CliError::UnknownArgument(j)
    } else if j + 1 >= args.len() {
        CliError::Help
    } else {
        CliError::UnknownArgument(j + 1)
    }
}

fn parse_ls(args: &[&str], start: usize) -> (r: Result<(), CliError>)
    requires
        start <= args@.len(),
    ensures
        r == ls_parse(words(args@), start as int, false),
{
    let ghost w = words(args@);
    let n = args.len();
    let mut trailing = false;
    let mut i = start;
    while i < n
        invariant
            n == args@.len(),
            w == words(args@),
            start <= i <= n,
            ls_parse(w, start as int, false) == ls_parse(w, i as int, trailing),
        decreases n - i,
    {
        let a = args[i];
        assert(w[i as int] == a@);
        if !trailing && same_text(a, "--") {
            trailing = true;
        } else if !trailing && looks_long(a) && is_flag(a, "--help", "--help=") {
            if same_text(a, "--help") {
                return Err(CliError::Help);
            } else {
                return Err(CliError::UnexpectedValue(i));
            }
        } else if !trailing && looks_short(a) && a.get_char(1) == 'h' {
            return Err(CliError::Help);
        } else {
            return Err(CliError::UnknownArgument(i));
        }
        i += 1;
    }
    Ok(())
}

fn checked_number(args: &[&str], num: Option<usize>, otherwise: CliError) -> (e: CliError)
    requires
        num matches Some(k) ==> k < args@.len(),
    ensures
        e == number_checked(words(args@), num, otherwise),
{
    match num {
        Some(k) => {
            assert(words(args@)[k as int] == args[k as int]@);
            if parse_decimal_text(args[k]).is_none() {
                CliError::InvalidNumber(k)
            } else {
                otherwise
            }
        },
        None => otherwise,
    }
}

fn parse_delete(args: &[&str], start: usize) -> (r: Result<usize, CliError>)
    requires
        start <= args@.len(),
    ensures
        r == delete_parse(words(args@), start as int, None, false),
{
    let ghost w = words(args@);
    let n = args.len();
    let mut trailing = false;
    let mut num: Option<usize> = None;
    let mut i = start;
    while i < n
        invariant
            n == args@.len(),
            w == words(args@),
            start <= i <= n,
            num matches Some(k) ==> k < i,
            delete_parse(w, start as int, None, false) == delete_parse(w, i as int, num, trailing),
        decreases n - i,
    {
        let a = args[i];
        assert(w[i as int] == a@);
        if !trailing && same_text(a, "--") {
            trailing = true;
        } else if !trailing && looks_long(a) && is_flag(a, "--help", "--help=") {
            if same_text(a, "--help") {
                return Err(checked_number(args, num, CliError::Help));
            } else {
                return Err(CliError::UnexpectedValue(i));
            }
        } else if !trailing && looks_long(a) {
            return Err(CliError::UnknownArgument(i));
        } else if !trailing && looks_short(a) {
            if a.get_char(1) == 'h' {
                return Err(checked_number(args, num, CliError::Help));
            } else {
                return Err(CliError::UnknownArgument(i));
            }
        } else if num.is_none() {
            num = Some(i);
        } else {
            return Err(CliError::UnknownArgument(i));
        }
        i += 1;
    }
    match num {
        None => Err(CliError::MissingNumber),
        Some(k) => {
            assert(w[k as int] == args[k as int]@);
            match parse_decimal_text(args[k]) {
                Some(v) => Ok(v),
                None => Err(CliError::InvalidNumber(k)),
            }
        },
    }
}

fn finish_parse(
    args: &[&str],
    command: Option<Command>,
    city: Option<String>,
    save: bool,
    no_save: bool,
    display: Option<DisplayMode>,
    pending: Pending,
) -> (r: Result<Cli, CliError>)
    requires
        pending matches Pending::Value(_, k) ==> k < args@.len(),
    ensures
        parsed_view(r) == ending(words(args@), progress(city, save, no_save, display, pending), command),
{
    match settle_display(args, display, pending) {
        Err(e) => Err(e),
        Ok(d) => Ok(Cli {
            command,
            city,
            save,
            no_save,
            display: match d {
                Some(m) => m,
                None => DisplayMode::Funny,
            },
        }),
    }
}

impl Cli {
    /// Parses a command line whose first word names the program.
    pub fn try_parse_from(args: &[&str]) -> (r: Result<Cli, CliError>)
        ensures
            parsed_view(r) == command_line(words(args@)),
    {
        let ghost w = words(args@);
        let mut city: Option<String> = None;
        let mut save = false;
        let mut no_save = false;
        let mut display: Option<DisplayMode> = None;
        let mut pending = Pending::Nothing;
        let n = args.len();
        if n == 0 {
            return Ok(Cli { command: None, city, save, no_save, display: DisplayMode::Funny });
        }
        let mut trailing = false;
        let mut i: usize = 1;
        while i < n
            invariant
                n == args@.len(),
                w == words(args@),
                1 <= i <= n,
                pending matches Pending::Value(_, k) ==> k < n,
                command_line(w) == root_parse(w, i as int, progress(city, save, no_save, display, pending), trailing),
            decreases n - i,
        {
            let a = args[i];
            assert(w[i as int] == a@);
            let awaiting = matches!(pending, Pending::Awaiting(_));
            if !trailing && !awaiting && same_text(a, "help") {
                return Err(help_request(args, i + 1));
            } else if !trailing && !awaiting && same_text(a, "ls") {
                match parse_ls(args, i + 1) {
                    Ok(_) => {
                        return finish_parse(args, Some(Command::Ls), city, save, no_save, display, pending);
                    },
                    Err(e) => return Err(e),
                }
            } else if !trailing && !awaiting && is_delete_word(a) {
                match parse_delete(args, i + 1) {
                    Ok(number) => {
                        return finish_parse(
                            args,
                            Some(Command::Delete { number }),
                            city,
                            save,
                            no_save,
                            display,
                            pending,
                        );
                    },
                    Err(e) => return Err(e),
                }
            } else if !trailing && same_text(a, "--") {
                trailing = true;
            } else if !trailing && looks_long(a) {
                if is_flag(a, "--display", "--display=") {
                    match settle_display(args, display, pending) {
                        Err(e) => return Err(e),
                        Ok(d) => {
                            display = d;
                            pending = Pending::Nothing;
                        },
                    }
                    if same_text(a, "--display") {
                        pending = Pending::Awaiting(i);
                    } else {
                        proof {
                            reveal_strlit("--display=");
                        }
                        let value = a.substring_char(10, a.unicode_len());
                        match give_display(display, i, i, value) {
                            Err(e) => return Err(e),
                            Ok(d) => display = d,
                        }
                    }
                } else if is_flag(a, "--help", "--help=") {
                    if same_text(a, "--help") {
                        match settle_display(args, display, pending) {
                            Err(e) => return Err(e),
                            Ok(_) => return Err(CliError::Help),
                        }
                    } else {
                        return Err(CliError::UnexpectedValue(i));
                    }
                } else if is_flag(a, "--save", "--save=") {
                    if !same_text(a, "--save") {
                        return Err(CliError::UnexpectedValue(i));
                    }
                    match settle_display(args, display, pending) {
                        Err(e) => return Err(e),
                        Ok(d) => {
                            display = d;
                            pending = Pending::Nothing;
                        },
                    }
                    if save {
                        return Err(CliError::RepeatedFlag(i));
                    }
                    save = true;
                } else if is_flag(a, "--no-save", "--no-save=") {
                    if !same_text(a, "--no-save") {
                        return Err(CliError::UnexpectedValue(i));
                    }
                    match settle_display(args, display, pending) {
                        Err(e) => return Err(e),
                        Ok(d) => {
                            display = d;
                            pending = Pending::Nothing;
                        },
                    }
                    if no_save {
                        return Err(CliError::RepeatedFlag(i));
                    }
                    no_save = true;
                } else {
                    return Err(CliError::UnknownArgument(i));
                }
            } else if !trailing && looks_short(a) {
                if a.get_char(1) == 'h' {
                    match settle_display(args, display, pending) {
                        Err(e) => return Err(e),
                        Ok(_) => return Err(CliError::Help),
                    }
                } else {
                    return Err(CliError::UnknownArgument(i));
                }
            } else if !trailing && awaiting {
                let d = match pending {
                    Pending::Awaiting(d) => d,
                    _ => 0,
                };
                pending = Pending::Value(d, i);
            } else if city.is_none() {
                match settle_display(args, display, pending) {
                    Err(e) => return Err(e),
                    Ok(d) => {
                        display = d;
                        pending = Pending::Nothing;
                    },
                }
                city = Some(String::from_str(a));
            } else {
                return Err(CliError::UnknownArgument(i));
            }
            i += 1;
        }
        finish_parse(args, None, city, save, no_save, display, pending)
    }
}

} // verus!
