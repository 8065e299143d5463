//! What one run of the tool does, decided from its command line, and the
//! text it shows about saved cities.

use vstd::prelude::*;
use crate::cli::CliView;
use crate::model::{Cli, Command, DisplayMode};
use crate::text::{decimal, decimal_text, parse_decimal, parse_decimal_text};

verus! {

/// Whether a looked-up city is saved afterwards.
#[derive(Debug, Clone, Copy, PartialEq, Eq, Structural)]
pub enum SaveMode {
    /// Save without asking.
    Yes,
    /// Do not save and do not ask.
    No,
    /// Ask the user.
    Ask,
}

/// Which city the weather is looked up for.
#[derive(Debug, Clone)]
pub enum CityChoice {
    /// The saved city with this number (counted from 1).
    Saved(usize),
    /// The city with this name.
    Named(String),
}

/// What a run does.
#[derive(Debug, Clone)]
pub enum Action {
    /// List the saved cities.
    ListSaved,
    /// Delete the saved city with this number.
    DeleteSaved(usize),
    /// Show how the tool is used.
    ShowUsage,
    /// Look up the weather for a city, show it as `display` says, then save
    /// the city as `save` says.
    Lookup { city: CityChoice, save: SaveMode, display: DisplayMode },
}

/// The save mode a command line asks for: `--save` wins over `--no-save`.
pub open spec fn save_mode_of(cli: CliView) -> SaveMode {
    if cli.save {
        SaveMode::Yes
    } else if cli.no_save {
        SaveMode::No
    } else {
        SaveMode::Ask
    }
}

/// The save mode that `cli` asks for.
pub fn save_mode(cli: &Cli) -> (m: SaveMode)
    ensures
        m == save_mode_of(cli@),
{
    if cli.save {
        SaveMode::Yes
    } else if cli.no_save {
        SaveMode::No
    } else {
        SaveMode::Ask
    }
}

/// `action` is what a run with command line `cli` does: a subcommand is
/// carried out; without one, a city argument that parses as a number picks
/// a saved city, any other names a city, and no city shows the usage. A
/// lookup carries the display mode and save mode of the command line.
pub open spec fn planned(cli: CliView, action: Action) -> bool {
    match cli.command {
        Some(Command::Ls) => action is ListSaved,
        Some(Command::Delete { number }) => action == Action::DeleteSaved(number),
        None => match cli.city {
            None => action is ShowUsage,
            Some(word) => match action {
                Action::Lookup { city, save, display } => {
                    &&& save == save_mode_of(cli)
                    &&& display == cli.display
                    &&& match city {
                        CityChoice::Saved(n) => parse_decimal(word) == Some(n),
                        CityChoice::Named(name) => parse_decimal(word) is None && name@ == word,
                    }
                },
                _ => false,
            },
        },
    }
}

/// Decides what a run with command line `cli` does.
pub fn plan(cli: &Cli) -> (action: Action)
    ensures
        planned(cli@, action),
{
    let save = save_mode(cli);
    match cli.command {
        Some(Command::Ls) => Action::ListSaved,
        Some(Command::Delete { number }) => Action::DeleteSaved(number),
        None => match &cli.city {
            None => Action::ShowUsage,
            Some(word) => {
                let city = match parse_decimal_text(word.as_str()) {
                    Some(n) => CityChoice::Saved(n),
                    None => CityChoice::Named(word.clone()),
                };
                Action::Lookup { city, save, display: cli.display }
            },
        },
    }
}

/// The characters that `char::is_whitespace` accepts (Unicode White_Space).
pub open spec fn is_space(c: char) -> bool {
    ||| '\u{9}' <= c && c <= '\u{d}'
    ||| c == ' '
    ||| c == '\u{85}'
    ||| c == '\u{a0}'
    ||| c == '\u{1680}'
    ||| '\u{2000}' <= c && c <= '\u{200a}'
    ||| c == '\u{2028}'
    ||| c == '\u{2029}'
    ||| c == '\u{202f}'
    ||| c == '\u{205f}'
    ||| c == '\u{3000}'
}

fn space(c: char) -> (r: bool)
    ensures
        r == is_space(c),
{
    ('\u{9}' <= c && c <= '\u{d}') || c == ' ' || c == '\u{85}' || c == '\u{a0}' || c == '\u{1680}'
        || ('\u{2000}' <= c && c <= '\u{200a}') || c == '\u{2028}' || c == '\u{2029}'
        || c == '\u{202f}' || c == '\u{205f}' || c == '\u{3000}'
}

/// `s` without its leading white space.
pub open spec fn trim_start(s: Seq<char>) -> Seq<char>
    decreases s.len(),
{
    if s.len() > 0 && is_space(s[0]) {
        trim_start(s.drop_first())
    } else {
        s
    }
}

/// `s` without its trailing white space.
pub open spec fn trim_end(s: Seq<char>) -> Seq<char>
    decreases s.len(),
{
    if s.len() > 0 && is_space(s.last()) {
        trim_end(s.drop_last())
    } else {
        s
    }
}

/// `s` without white space at either end, as `str::trim` gives it.
pub open spec fn trimmed(s: Seq<char>) -> Seq<char> {
    trim_end(trim_start(s))
}

/// The answer `s` to the save prompt is yes: trimmed and lower-cased it is
/// `y`, that is, trimmed it is `y` or `Y` (no other character lower-cases to
/// `y`).
pub open spec fn says_yes(s: Seq<char>) -> bool {
    trimmed(s) == seq!['y'] || trimmed(s) == seq!['Y']
}

/// Whether the answer `input` to the save prompt asks to save.
pub fn answer_is_yes(input: &str) -> (yes: bool)
    ensures
        yes == says_yes(input@),
{
    let ghost s = input@;
    let n = input.unicode_len();
    let mut lo: usize = 0;
    assert(s.subrange(0, n as int) =~= s);
    while lo < n && space(input.get_char(lo))
        invariant
            n == s.len(),
            s == input@,
            lo <= n,
            trim_start(s) == trim_start(s.subrange(lo as int, n as int)),
        decreases n - lo,
    {
        assert(s.subrange(lo as int, n as int).drop_first() =~= s.subrange(lo + 1, n as int));
        lo += 1;
    }
    let ghost rest = s.subrange(lo as int, n as int);
    assert(trim_start(rest) == rest);
    let mut hi: usize = n;
    while hi > lo && space(input.get_char(hi - 1))
        invariant
            n == s.len(),
            s == input@,
            lo <= hi <= n,
            rest == s.subrange(lo as int, n as int),
            trim_end(rest) == trim_end(s.subrange(lo as int, hi as int)),
        decreases hi - lo,
    {
        assert(s.subrange(lo as int, hi as int).drop_last() =~= s.subrange(lo as int, hi - 1));
        hi -= 1;
    }
    let ghost t = s.subrange(lo as int, hi as int);
    assert(trim_end(t) == t);
    assert(trimmed(s) == t);
    if hi - lo != 1 {
        assert(t.len() != 1);
        return false;
    }
    let c = input.get_char(lo);
    assert(t =~= seq![c]);
    c == 'y' || c == 'Y'
}

/// The line that lists `city` as saved city `number`.
pub open spec fn listing_line(number: nat, city: Seq<char>) -> Seq<char> {
    decimal(number) + ". "@ + city
}

/// The lines shown for the saved cities `cities`.
pub open spec fn listing(cities: Seq<Seq<char>>) -> Seq<Seq<char>> {
    if cities.len() == 0 {
        seq!["No saved cities found."@]
    } else {
        seq!["Saved cities:"@] + Seq::new(cities.len(), |i: int| listing_line((i + 1) as nat, cities[i]))
    }
}

/// The lines that show the saved cities `cities`, numbered from 1.
pub fn saved_cities_report(cities: &Vec<String>) -> (lines: Vec<String>)
    ensures
        lines.deep_view() == listing(cities.deep_view()),
{
    let ghost names = cities.deep_view();
    let mut lines: Vec<String> = Vec::new();
    let n = cities.len();
    if n == 0 {
        lines.push(String::from_str("No saved cities found."));
        assert(lines.deep_view() =~= listing(names));
        return lines;
    }
    lines.push(String::from_str("Saved cities:"));
    let mut i: usize = 0;
    while i < n
        invariant
            n == cities.len(),
            names == cities.deep_view(),
            i <= n,
            lines.deep_view() =~= seq!["Saved cities:"@] + Seq::new(i as nat, |j: int| listing_line((j + 1) as nat, names[j])),
        decreases n - i,
    {
        let mut line = decimal_text(i + 1);
        line.append(". ");
        line.append(cities[i].as_str());
        assert(line@ == listing_line((i + 1) as nat, names[i as int]));
        let ghost before = lines.deep_view();
        let ghost line_view = line@;
        lines.push(line);
        assert(lines.deep_view() =~= before.push(line_view));
        assert(Seq::new((i + 1) as nat, |j: int| listing_line((j + 1) as nat, names[j])) =~= Seq::new(
            i as nat,
            |j: int| listing_line((j + 1) as nat, names[j]),
        ).push(line_view));
        i += 1;
    }
    assert(lines.deep_view() =~= listing(names));
    lines
}

/// The line shown after `city` was deleted.
pub open spec fn deletion_notice(city: Seq<char>) -> Seq<char> {
    "Deleted saved city: "@ + city
}

/// The line that reports the deletion of `city`.
pub fn deleted_city_message(city: &str) -> (line: String)
    ensures
        line@ == deletion_notice(city@),
{
    let mut line = String::from_str("Deleted saved city: ");
    line.append(city);
    line
}

} // verus!
