//! Properties of the tool that span several operations.

use vstd::prelude::*;
use crate::cli::{
    command_line, delete_parse, display_given, display_named, ending, is_delete_name, is_long, is_short,
    is_subcommand_name, ls_parse, names_flag, nothing_given, root_parse, settled, CliError, CliView, ParseState, Pending,
};
use crate::model::{DisplayMode, LegacySavedCity, SavedCities};
use crate::display::sky_description;
use crate::session::{
    is_space, listing, listing_line, planned, says_yes, trim_end, trim_start, trimmed, Action, SaveMode,
};
use crate::storage::{
    cities_or_none, deletion, error_kind, lookup, names, stored_cities, with_city, ErrorKind,
    StorageError, StoredFile,
};
use crate::text::{
    all_digits, decimal, digit_char, digit_value, digits_value, is_digit, parse_decimal,
    unsigned_body,
};

verus! {

/// No city occurs twice in `list`.
pub open spec fn distinct(list: Seq<Seq<char>>) -> bool {
    forall|i: int, j: int| 0 <= i < j < list.len() ==> list[i] != list[j]
}

/// The file state after the document `doc` was written.
pub open spec fn written(doc: SavedCities) -> StoredFile {
    StoredFile::Parsed { current: Some(doc), legacy: None }
}

/// Saving a city that is not saved yet puts it after the saved cities,
/// which keep their order.
pub proof fn law_save_appends(list: Seq<Seq<char>>, city: Seq<char>)
    requires
        !list.contains(city),
    ensures
        with_city(list, city) == list.push(city),
        with_city(list, city).len() == list.len() + 1,
        with_city(list, city).last() == city,
{
}

/// Saving a city that is saved already changes nothing, so saving twice is
/// saving once; either way the city is saved afterwards.
pub proof fn law_save_is_idempotent(list: Seq<Seq<char>>, city: Seq<char>)
    ensures
        list.contains(city) ==> with_city(list, city) == list,
        with_city(list, city).contains(city),
        with_city(with_city(list, city), city) == with_city(list, city),
{
    if !list.contains(city) {
        assert(list.push(city)[list.len() as int] == city);
    }
}

/// Saving never makes a city occur twice.
pub proof fn law_save_keeps_cities_distinct(list: Seq<Seq<char>>, city: Seq<char>)
    requires
        distinct(list),
    ensures
        distinct(with_city(list, city)),
{
    if !list.contains(city) {
        let l2 = list.push(city);
        assert forall|i: int, j: int| 0 <= i < j < l2.len() implies l2[i] != l2[j] by {
            if j == list.len() {
                assert(l2[i] == list[i]);
            } else {
                assert(l2[i] == list[i] && l2[j] == list[j]);
            }
        }
    }
}

/// A file holding a written document reads back as exactly the cities
/// written, whatever a legacy reading of the same text would give.
pub proof fn law_written_reads_back(doc: SavedCities, legacy: Option<LegacySavedCity>)
    ensures
        stored_cities(StoredFile::Parsed { current: Some(doc), legacy }) == Ok::<_, StorageError>(names(doc.cities)),
        stored_cities(written(doc)) == Ok::<_, StorageError>(names(doc.cities)),
{
}

/// What saving writes reads back as the cities before, with the city
/// added unless it was there.
pub proof fn law_save_then_read(file: StoredFile, city: Seq<char>, doc: SavedCities)
    requires
        names(doc.cities) == with_city(cities_or_none(file), city),
    ensures
        stored_cities(written(doc)) == Ok::<_, StorageError>(with_city(cities_or_none(file), city)),
        stored_cities(written(doc)) matches Ok(list) && list.contains(city),
{
    law_save_is_idempotent(cities_or_none(file), city);
}

/// A file that cannot be read or parsed counts as empty when saving: what
/// is written then holds the saved city alone.
pub proof fn law_unusable_file_saves_fresh(file: StoredFile, city: Seq<char>)
    requires
        stored_cities(file) is Err,
    ensures
        with_city(cities_or_none(file), city) == seq![city],
{
    assert(!Seq::<Seq<char>>::empty().contains(city));
    assert(Seq::<Seq<char>>::empty().push(city) =~= seq![city]);
}

/// A legacy file reads as its one city, and saving another city onto it
/// writes the current document with the legacy city first.
pub proof fn law_legacy_file_migrates(old: LegacySavedCity, city: Seq<char>)
    ensures
        stored_cities(StoredFile::Parsed { current: None, legacy: Some(old) }) == Ok::<_, StorageError>(seq![old.city@]),
        city != old.city@ ==> with_city(cities_or_none(StoredFile::Parsed { current: None, legacy: Some(old) }), city)
            == seq![old.city@, city],
{
    let one: Seq<Seq<char>> = seq![old.city@];
    if city != old.city@ {
        assert(!one.contains(city));
        assert(one.push(city) =~= seq![old.city@, city]);
    }
}

/// City numbers start from 1: number 0 is refused as invalid input, whatever
/// the file holds.
pub proof fn law_number_zero_is_refused(file: StoredFile)
    ensures
        deletion(file, 0) == Err::<(Seq<Seq<char>>, Seq<char>), _>(StorageError::NumberIsZero),
        lookup(file, 0) == Err::<Seq<char>, _>(StorageError::NumberIsZero),
        error_kind(StorageError::NumberIsZero) == ErrorKind::InvalidInput,
{
}

/// A number past the saved cities is refused as not found, by lookup and
/// by deletion alike.
pub proof fn law_number_past_end_is_not_found(file: StoredFile, number: usize)
    requires
        stored_cities(file) matches Ok(list) && number > list.len(),
    ensures
        deletion(file, number) == Err::<(Seq<Seq<char>>, Seq<char>), _>(StorageError::NoSuchNumber(number)),
        lookup(file, number) == Err::<Seq<char>, _>(StorageError::NoSuchNumber(number)),
        error_kind(StorageError::NoSuchNumber(number)) == ErrorKind::NotFound,
{
}

/// A file that cannot be read fails lookup and deletion with the read's
/// own error, for every number but 0.
pub proof fn law_read_failure_is_passed_on(kind: ErrorKind, number: usize)
    requires
        number != 0,
    ensures
        deletion(StoredFile::Unreadable(kind), number) == Err::<(Seq<Seq<char>>, Seq<char>), _>(StorageError::Read(kind)),
        lookup(StoredFile::Unreadable(kind), number) == Err::<Seq<char>, _>(StorageError::Read(kind)),
        error_kind(StorageError::Read(kind)) == kind,
{
}

/// A file that was read but holds neither document fails lookup and
/// deletion as malformed, for every number but 0, and saving onto it writes
/// the saved city alone.
pub proof fn law_unparsable_file_is_malformed(number: usize, city: Seq<char>)
    requires
        number != 0,
    ensures
        stored_cities(StoredFile::Parsed { current: None, legacy: None }) == Err::<Seq<Seq<char>>, _>(StorageError::Malformed),
        deletion(StoredFile::Parsed { current: None, legacy: None }, number)
            == Err::<(Seq<Seq<char>>, Seq<char>), _>(StorageError::Malformed),
        lookup(StoredFile::Parsed { current: None, legacy: None }, number) == Err::<Seq<char>, _>(StorageError::Malformed),
        with_city(cities_or_none(StoredFile::Parsed { current: None, legacy: None }), city) == seq![city],
        error_kind(StorageError::Malformed) == ErrorKind::Other,
{
    law_unusable_file_saves_fresh(StoredFile::Parsed { current: None, legacy: None }, city);
}

/// Deleting saved city `number` removes the city that looking the number up
/// gives, and keeps the other cities in their order; where deletion fails,
/// lookup fails the same way.
pub proof fn law_delete_removes_the_looked_up_city(file: StoredFile, number: usize)
    ensures
        match deletion(file, number) {
            Ok((rest, removed)) => {
                &&& lookup(file, number) == Ok::<_, StorageError>(removed)
                &&& stored_cities(file) matches Ok(list)
                &&& rest.len() + 1 == list.len()
                &&& rest.insert(number - 1, removed) == list
            },
            Err(e) => lookup(file, number) == Err::<Seq<char>, _>(e),
        },
{
    if let Ok((rest, removed)) = deletion(file, number) {
        let list = stored_cities(file)->Ok_0;
        assert(rest.insert(number - 1, removed) =~= list);
    }
}

/// Deleting the last number right after saving a new city undoes the save:
/// the cities before are left and the saved city is the one removed.
pub proof fn law_delete_undoes_save(list: Seq<Seq<char>>, city: Seq<char>, doc: SavedCities)
    requires
        !list.contains(city),
        names(doc.cities) == with_city(list, city),
        list.len() < usize::MAX,
    ensures
        deletion(written(doc), (list.len() + 1) as usize) == Ok::<_, StorageError>((list, city)),
{
    let number = (list.len() + 1) as usize;
    let saved = list.push(city);
    assert(saved.remove(number - 1) =~= list);
}

/// The digit characters write the digits they stand for.
proof fn lemma_digit_char_value(d: nat)
    requires
        d < 10,
    ensures
        is_digit(digit_char(d)),
        digit_value(digit_char(d)) == d,
{
}

/// Decimal writing is undone by decimal parsing.
pub proof fn law_decimal_round_trip(n: usize)
    ensures
        parse_decimal(decimal(n as nat)) == Some(n),
{
    lemma_decimal_digits(n as nat);
    let s = decimal(n as nat);
    assert(unsigned_body(s) == s);
}

proof fn lemma_decimal_digits(n: nat)
    ensures
        decimal(n).len() > 0,
        all_digits(decimal(n)),
        digits_value(decimal(n)) == n,
        decimal(n)[0] != '+',
    decreases n,
{
    if n < 10 {
        lemma_digit_char_value(n);
        let s = decimal(n);
        assert(s.drop_last() =~= Seq::<char>::empty());
        assert(digits_value(s.drop_last()) == 0);
        assert(digits_value(s) == digits_value(s.drop_last()) * 10 + digit_value(s.last()));
    } else {
        lemma_decimal_digits(n / 10);
        lemma_digit_char_value(n % 10);
        let p = decimal(n / 10);
        let s = decimal(n);
        assert(s.drop_last() =~= p);
        assert forall|i: int| 0 <= i < s.len() implies is_digit(#[trigger] s[i]) by {
            if i < p.len() {
                assert(s[i] == p[i]);
            }
        }
        assert(s[0] == p[0]);
        assert(s.last() == digit_char(n % 10));
        assert(digits_value(s) == digits_value(p) * 10 + digit_value(s.last()));
        assert(n == (n / 10) * 10 + n % 10);
    }
}

/// The number written beside a city in the listing of the saved cities,
/// typed back, looks up that city.
pub proof fn law_listed_number_selects_city(file: StoredFile, k: usize)
    requires
        stored_cities(file) matches Ok(list) && 1 <= k <= list.len(),
    ensures
        stored_cities(file) matches Ok(list) && {
            &&& listing(list)[k as int] == listing_line(k as nat, list[k - 1])
            &&& listing_line(k as nat, list[k - 1]) == decimal(k as nat) + ". "@ + list[k - 1]
            &&& parse_decimal(decimal(k as nat)) == Some(k)
            &&& lookup(file, k) == Ok::<_, StorageError>(list[k - 1])
        },
{
    law_decimal_round_trip(k);
}


/// A word that is neither a subcommand name nor `--` nor flag-shaped.
pub open spec fn plain_word(a: Seq<char>) -> bool {
    !is_subcommand_name(a) && a != "--"@ && !is_long(a) && !is_short(a)
}

/// The city and `--save` may be given in either order, with the same
/// meaning: look up that city and save it.
pub proof fn law_save_flag_position_is_free(program: Seq<char>, city: Seq<char>)
    requires
        plain_word(city),
    ensures
        command_line(seq![program, city, "--save"@]) == command_line(seq![program, "--save"@, city]),
        command_line(seq![program, city, "--save"@]) == Ok::<_, crate::cli::CliError>(
            CliView { command: None, city: Some(city), save: true, no_save: false, display: DisplayMode::Funny },
        ),
{
    reveal_strlit("--save");
    reveal_strlit("--save=");
    reveal_strlit("--help");
    reveal_strlit("--help=");
    reveal_strlit("help");
    reveal_strlit("ls");
    reveal_strlit("delete");
    reveal_strlit("--");
    reveal_strlit("del");
    reveal_strlit("rm");
    reveal_strlit("--display");
    reveal_strlit("--display=");
    let w1 = seq![program, city, "--save"@];
    let w2 = seq![program, "--save"@, city];
    assert(w1[2] == "--save"@);
    assert(w2[1] == "--save"@);
    assert("--save"@ != "help"@);
    assert("--save"@ != "ls"@);
    assert("--save"@ != "delete"@);
    assert("--save"@ != "--"@);
    assert(is_long("--save"@));
    assert(!crate::text::has_prefix("--save"@, "--help="@));
    assert("--save"@[2] != "--help"@[2]);
    assert(!crate::text::has_prefix("--save"@, "--save="@));
    let st0 = crate::cli::nothing_given();
    let with_city = ParseState { city: Some(city), ..st0 };
    let with_save = ParseState { save: true, ..st0 };
    let both_state = ParseState { city: Some(city), save: true, ..st0 };
    let both = CliView { command: None, city: Some(city), save: true, no_save: false, display: DisplayMode::Funny };
    assert(crate::cli::settled(w1, st0) == Ok::<_, crate::cli::CliError>(st0));
    assert(crate::cli::settled(w1, with_city) == Ok::<_, crate::cli::CliError>(with_city));
    assert(crate::cli::settled(w1, both_state) == Ok::<_, crate::cli::CliError>(both_state));
    assert(crate::cli::settled(w2, st0) == Ok::<_, crate::cli::CliError>(st0));
    assert(crate::cli::settled(w2, with_save) == Ok::<_, crate::cli::CliError>(with_save));
    assert(crate::cli::settled(w2, both_state) == Ok::<_, crate::cli::CliError>(both_state));
    assert(root_parse(w1, 3, both_state, false) == Ok::<_, crate::cli::CliError>(both));
    assert(root_parse(w1, 2, with_city, false) == root_parse(w1, 3, both_state, false));
    assert(root_parse(w1, 1, st0, false) == root_parse(w1, 2, with_city, false));
    assert(root_parse(w2, 3, both_state, false) == Ok::<_, crate::cli::CliError>(both));
    assert(root_parse(w2, 2, with_save, false) == root_parse(w2, 3, both_state, false));
    assert(root_parse(w2, 1, st0, false) == root_parse(w2, 2, with_save, false));
}


/// `delete_parse` reads only the words from position 2 on.
proof fn lemma_delete_parse_reads_tail(
    w1: Seq<Seq<char>>,
    w2: Seq<Seq<char>>,
    i: int,
    num: Option<usize>,
    trailing: bool,
)
    requires
        w1.len() == w2.len(),
        w1.len() <= usize::MAX,
        2 <= i,
        forall|j: int| 2 <= j < w1.len() ==> w1[j] == w2[j],
        num matches Some(k) ==> 2 <= k < w1.len(),
    ensures
        delete_parse(w1, i, num, trailing) == delete_parse(w2, i, num, trailing),
    decreases w1.len() - i,
{
    if i < w1.len() {
        lemma_delete_parse_reads_tail(w1, w2, i + 1, num, true);
        lemma_delete_parse_reads_tail(w1, w2, i + 1, num, trailing);
        lemma_delete_parse_reads_tail(w1, w2, i + 1, Some(i as usize), trailing);
    }
}

/// `del` and `rm` mean `delete`: a command line starting with either is
/// read as the same command line starting with `delete`.
pub proof fn law_delete_has_other_names(program: Seq<char>, rest: Seq<Seq<char>>)
    requires
        rest.len() + 2 <= usize::MAX,
    ensures
        command_line(seq![program, "del"@] + rest) == command_line(seq![program, "delete"@] + rest),
        command_line(seq![program, "rm"@] + rest) == command_line(seq![program, "delete"@] + rest),
{
    reveal_strlit("del");
    reveal_strlit("rm");
    reveal_strlit("delete");
    reveal_strlit("help");
    reveal_strlit("ls");
    let w = seq![program, "delete"@] + rest;
    let w_del = seq![program, "del"@] + rest;
    let w_rm = seq![program, "rm"@] + rest;
    assert(w[1] == "delete"@ && w_del[1] == "del"@ && w_rm[1] == "rm"@);
    assert("del"@ != "help"@ && "del"@ != "ls"@);
    assert("rm"@.len() != "help"@.len());
    assert("rm"@[0] != "ls"@[0]);
    assert("delete"@ != "help"@ && "delete"@ != "ls"@);
    assert forall|j: int| 2 <= j < w.len() implies w_del[j] == w[j] && w_rm[j] == w[j] by {
        assert(w[j] == rest[j - 2]);
        assert(w_del[j] == rest[j - 2]);
        assert(w_rm[j] == rest[j - 2]);
    }
    lemma_delete_parse_reads_tail(w_del, w, 2, None, false);
    lemma_delete_parse_reads_tail(w_rm, w, 2, None, false);
    let st0 = nothing_given();
    assert(settled(w, st0) == Ok::<_, CliError>(st0));
    assert(settled(w_del, st0) == Ok::<_, CliError>(st0));
    assert(settled(w_rm, st0) == Ok::<_, CliError>(st0));
}

/// The word naming a display mode.
pub open spec fn display_word(mode: DisplayMode) -> Seq<char> {
    match mode {
        DisplayMode::Funny => "funny"@,
        DisplayMode::Compact => "compact"@,
    }
}

/// `--display` followed by a mode after the city chooses that mode; without
/// `--display` the funny one is shown.
pub proof fn law_display_is_chosen(program: Seq<char>, city: Seq<char>, mode: DisplayMode)
    requires
        plain_word(city),
    ensures
        command_line(seq![program, city, "--display"@, display_word(mode)]) == Ok::<_, CliError>(
            CliView { command: None, city: Some(city), save: false, no_save: false, display: mode },
        ),
        command_line(seq![program, city]) == Ok::<_, CliError>(
            CliView { command: None, city: Some(city), save: false, no_save: false, display: DisplayMode::Funny },
        ),
{
    reveal_strlit("--display");
    reveal_strlit("--display=");
    reveal_strlit("--");
    reveal_strlit("help");
    reveal_strlit("ls");
    reveal_strlit("delete");
    reveal_strlit("del");
    reveal_strlit("rm");
    reveal_strlit("funny");
    reveal_strlit("compact");
    let m = display_word(mode);
    assert("compact"@.len() != "funny"@.len());
    assert(display_named(m) == Some(mode));
    assert(m[0] != '-');
    assert("--"@[0] == '-');
    assert(!is_long(m) && !is_short(m) && m != "--"@);
    let w = seq![program, city, "--display"@, m];
    let v = seq![program, city];
    assert(w[1] == city && w[2] == "--display"@ && w[3] == m);
    assert("--display"@ != "help"@ && "--display"@ != "ls"@ && "--display"@ != "delete"@);
    assert("--display"@ != "del"@ && "--display"@ != "rm"@ && "--display"@ != "--"@);
    assert(is_long("--display"@));
    let st0 = nothing_given();
    let s1 = ParseState { city: Some(city), ..st0 };
    let s2 = ParseState { pending: Pending::Awaiting(2), ..s1 };
    let s3 = ParseState { pending: Pending::Value(2, 3), ..s1 };
    let done = CliView { command: None, city: Some(city), save: false, no_save: false, display: mode };
    assert(settled(w, st0) == Ok::<_, CliError>(st0));
    assert(settled(w, s1) == Ok::<_, CliError>(s1));
    assert(settled(w, s3) == Ok::<_, CliError>(ParseState { display: Some(mode), ..s1 }));
    assert(ending(w, s3, None) == Ok::<_, CliError>(done));
    assert(root_parse(w, 4, s3, false) == Ok::<_, CliError>(done));
    assert(root_parse(w, 3, s2, false) == root_parse(w, 4, s3, false));
    assert(root_parse(w, 2, s1, false) == root_parse(w, 3, s2, false));
    assert(root_parse(w, 1, st0, false) == root_parse(w, 2, s1, false));
    assert(settled(v, st0) == Ok::<_, CliError>(st0));
    assert(settled(v, s1) == Ok::<_, CliError>(s1));
    assert(root_parse(v, 1, st0, false) == root_parse(v, 2, s1, false));
}


/// The weather codes are described by the WMO interpretation table: each
/// group of codes has its own words, and any code outside the table gets
/// the fallback phrase.
pub proof fn law_weather_words_follow_the_table(code: u8)
    ensures
        code == 0 ==> sky_description(code) == "clear sky"@,
        code == 1 || code == 2 || code == 3 ==> sky_description(code) == "partly cloudy"@,
        code == 45 || code == 48 ==> sky_description(code) == "fog"@,
        code == 51 || code == 53 || code == 55 ==> sky_description(code) == "drizzle"@,
        code == 56 || code == 57 ==> sky_description(code) == "freezing drizzle"@,
        code == 61 || code == 63 || code == 65 ==> sky_description(code) == "rain"@,
        code == 66 || code == 67 ==> sky_description(code) == "freezing rain"@,
        code == 71 || code == 73 || code == 75 ==> sky_description(code) == "snow"@,
        code == 77 ==> sky_description(code) == "snow grains"@,
        code == 80 || code == 81 || code == 82 ==> sky_description(code) == "rain showers"@,
        code == 85 || code == 86 ==> sky_description(code) == "snow showers"@,
        code == 95 ==> sky_description(code) == "thunderstorm"@,
        code == 96 || code == 99 ==> sky_description(code) == "thunderstorm with hail"@,
        !(code <= 3 || code == 45 || code == 48 || code == 51 || code == 53 || code == 55 || code == 56
            || code == 57 || code == 61 || code == 63 || code == 65 || code == 66 || code == 67 || code == 71
            || code == 73 || code == 75 || code == 77 || code == 80 || code == 81 || code == 82 || code == 85
            || code == 86 || code == 95 || code == 96 || code == 99) ==> sky_description(code)
            == "mysterious sky nonsense"@,
{
}

/// A weather lookup is saved without asking exactly when `--save` was
/// given, skipped without asking exactly when `--no-save` was given without
/// `--save`, and asked about otherwise, whether the city was given by name
/// or by saved number; it is shown in the display mode of the command line.
/// Without a subcommand, a city always leads to a lookup.
pub proof fn law_save_mode_comes_from_the_flags(cli: CliView, action: Action)
    requires
        planned(cli, action),
    ensures
        action matches Action::Lookup { save, display, .. } ==> {
            &&& save == SaveMode::Yes <==> cli.save
            &&& save == SaveMode::No <==> !cli.save && cli.no_save
            &&& save == SaveMode::Ask <==> !cli.save && !cli.no_save
            &&& display == cli.display
        },
        cli.command is None && cli.city is Some <==> action is Lookup,
{
}

/// Saving a city writes back every city the file held, in its order and
/// whatever their number, followed by the new city unless it was among
/// them; nothing else is written. A file that yields no cities is written
/// with the new city alone.
pub proof fn law_save_writes_back_the_saved_cities(file: StoredFile, city: Seq<char>, doc: SavedCities)
    requires
        names(doc.cities) == with_city(cities_or_none(file), city),
    ensures
        stored_cities(file) matches Ok(list) ==> {
            &&& list.len() <= names(doc.cities).len() <= list.len() + 1
            &&& names(doc.cities).subrange(0, list.len() as int) == list
            &&& names(doc.cities).contains(city)
            &&& list.contains(city) ==> names(doc.cities) == list
            &&& !list.contains(city) ==> names(doc.cities) == list.push(city)
            &&& forall|c: Seq<char>| #[trigger] names(doc.cities).contains(c) ==> list.contains(c) || c == city
        },
        stored_cities(file) is Err ==> names(doc.cities) == seq![city],
{
    let r = names(doc.cities);
    match stored_cities(file) {
        Ok(list) => {
            if list.contains(city) {
                assert(r.subrange(0, list.len() as int) =~= list);
            } else {
                let p = list.push(city);
                assert(p.subrange(0, list.len() as int) =~= list);
                assert(p[list.len() as int] == city);
                assert forall|c: Seq<char>| #[trigger] p.contains(c) implies list.contains(c) || c == city by {
                    let k = choose|k: int| 0 <= k < p.len() && p[k] == c;
                    if k < list.len() {
                        assert(list[k] == c);
                    }
                }
            }
        },
        Err(_) => {
            law_unusable_file_saves_fresh(file, city);
        },
    }
}


/// Leading white space is what trimming the start takes off: what is left is
/// the rest of the text from its first character that is not white space.
proof fn lemma_trim_start_shape(s: Seq<char>)
    ensures
        trim_start(s).len() <= s.len(),
        trim_start(s) == s.subrange(s.len() - trim_start(s).len(), s.len() as int),
        forall|j: int| 0 <= j < s.len() - trim_start(s).len() ==> is_space(#[trigger] s[j]),
        trim_start(s).len() > 0 ==> !is_space(trim_start(s)[0]),
    decreases s.len(),
{
    if s.len() > 0 && is_space(s[0]) {
        let t = s.drop_first();
        lemma_trim_start_shape(t);
        assert forall|j: int| 0 <= j < s.len() - trim_start(s).len() implies is_space(#[trigger] s[j]) by {
            if j > 0 {
                assert(s[j] == t[j - 1]);
            }
        }
        assert(t.subrange(t.len() - trim_start(t).len(), t.len() as int)
            =~= s.subrange(s.len() - trim_start(s).len(), s.len() as int));
    } else {
        assert(s.subrange(0, s.len() as int) =~= s);
    }
}

/// Trailing white space is what trimming the end takes off: what is left is
/// the text up to its last character that is not white space.
proof fn lemma_trim_end_shape(s: Seq<char>)
    ensures
        trim_end(s).len() <= s.len(),
        trim_end(s) == s.subrange(0, trim_end(s).len() as int),
        forall|j: int| trim_end(s).len() <= j < s.len() ==> is_space(#[trigger] s[j]),
        trim_end(s).len() > 0 ==> !is_space(trim_end(s).last()),
    decreases s.len(),
{
    if s.len() > 0 && is_space(s.last()) {
        let t = s.drop_last();
        lemma_trim_end_shape(t);
        assert forall|j: int| trim_end(s).len() <= j < s.len() implies is_space(#[trigger] s[j]) by {
            if j < s.len() - 1 {
                assert(s[j] == t[j]);
            }
        }
        assert(t.subrange(0, trim_end(t).len() as int) =~= s.subrange(0, trim_end(s).len() as int));
    } else {
        assert(s.subrange(0, s.len() as int) =~= s);
    }
}

/// An answer to the save prompt says yes exactly when it holds one `y` or
/// `Y` and nothing else but white space: `n`, `N`, `no`, `yes` or an empty
/// answer do not save.
pub proof fn law_yes_is_a_lone_y(s: Seq<char>)
    ensures
        says_yes(s) <==> exists|i: int| {
            &&& 0 <= i < s.len()
            &&& (s[i] == 'y' || s[i] == 'Y')
            &&& forall|j: int| 0 <= j < s.len() && j != i ==> is_space(#[trigger] s[j])
        },
{
    let t1 = trim_start(s);
    let t = trim_end(t1);
    lemma_trim_start_shape(s);
    lemma_trim_end_shape(t1);
    let k = s.len() - t1.len();
    assert(!is_space('y') && !is_space('Y'));
    if says_yes(s) {
        assert(t == trimmed(s));
        assert(t.len() == 1);
        assert(t1[0] == t[0]);
        assert(s[k] == t1[0]);
        assert forall|j: int| 0 <= j < s.len() && j != k implies is_space(#[trigger] s[j]) by {
            if j > k {
                assert(s[j] == t1[j - k]);
            }
        }
    }
    if exists|i: int| {
        &&& 0 <= i < s.len()
        &&& (s[i] == 'y' || s[i] == 'Y')
        &&& forall|j: int| 0 <= j < s.len() && j != i ==> is_space(#[trigger] s[j])
    } {
        let i = choose|i: int| {
            &&& 0 <= i < s.len()
            &&& (s[i] == 'y' || s[i] == 'Y')
            &&& forall|j: int| 0 <= j < s.len() && j != i ==> is_space(#[trigger] s[j])
        };
        if k < i {
            assert(t1[0] == s[k]);
            assert(is_space(s[k]));
        }
        if k > i {
            assert(is_space(s[i]));
        }
        assert(k == i);
        assert(t1[0] == s[i]);
        if t.len() == 0 {
            assert(is_space(t1[0]));
        }
        if t.len() > 1 {
            let m = t.len() - 1;
            assert(t.last() == t1[m]);
            assert(t1[m] == s[i + m]);
            assert(is_space(s[i + m]));
        }
        assert(t.len() == 1);
        assert(t =~= seq![s[i]]);
        assert(trimmed(s) == t);
    }
}


/// The city and `--no-save` may be given in either order, with the same
/// meaning: look up that city and neither save it nor ask.
pub proof fn law_no_save_flag_position_is_free(program: Seq<char>, city: Seq<char>)
    requires
        plain_word(city),
    ensures
        command_line(seq![program, city, "--no-save"@]) == command_line(seq![program, "--no-save"@, city]),
        command_line(seq![program, "--no-save"@, city]) == Ok::<_, CliError>(
            CliView { command: None, city: Some(city), save: false, no_save: true, display: DisplayMode::Funny },
        ),
{
    reveal_strlit("--no-save");
    reveal_strlit("--no-save=");
    reveal_strlit("--save");
    reveal_strlit("--save=");
    reveal_strlit("--help");
    reveal_strlit("--help=");
    reveal_strlit("help");
    reveal_strlit("ls");
    reveal_strlit("delete");
    reveal_strlit("--");
    reveal_strlit("del");
    reveal_strlit("rm");
    reveal_strlit("--display");
    reveal_strlit("--display=");
    let flag = "--no-save"@;
    let w1 = seq![program, city, flag];
    let w2 = seq![program, flag, city];
    assert(w1[2] == flag);
    assert(w2[1] == flag);
    assert(flag != "help"@ && flag != "ls"@ && flag != "delete"@);
    assert(flag != "del"@ && flag != "rm"@ && flag != "--"@);
    assert(is_long(flag));
    assert(flag[2] != "--display"@[2]);
    assert(!crate::text::has_prefix(flag, "--display="@));
    assert(flag[2] != "--help"@[2]);
    assert(flag.subrange(0, 7)[2] != "--help="@[2]);
    assert(!crate::text::has_prefix(flag, "--help="@));
    assert(flag[2] != "--save"@[2]);
    assert(flag.subrange(0, 7)[2] != "--save="@[2]);
    assert(!crate::text::has_prefix(flag, "--save="@));
    assert(!crate::text::has_prefix(flag, "--no-save="@));
    let st0 = nothing_given();
    let with_city = ParseState { city: Some(city), ..st0 };
    let with_flag = ParseState { no_save: true, ..st0 };
    let both_state = ParseState { city: Some(city), no_save: true, ..st0 };
    let both = CliView { command: None, city: Some(city), save: false, no_save: true, display: DisplayMode::Funny };
    assert(settled(w1, st0) == Ok::<_, CliError>(st0));
    assert(settled(w1, with_city) == Ok::<_, CliError>(with_city));
    assert(settled(w1, both_state) == Ok::<_, CliError>(both_state));
    assert(settled(w2, st0) == Ok::<_, CliError>(st0));
    assert(settled(w2, with_flag) == Ok::<_, CliError>(with_flag));
    assert(settled(w2, both_state) == Ok::<_, CliError>(both_state));
    assert(root_parse(w1, 3, both_state, false) == Ok::<_, CliError>(both));
    assert(root_parse(w1, 2, with_city, false) == root_parse(w1, 3, both_state, false));
    assert(root_parse(w1, 1, st0, false) == root_parse(w1, 2, with_city, false));
    assert(root_parse(w2, 3, both_state, false) == Ok::<_, CliError>(both));
    assert(root_parse(w2, 2, with_flag, false) == root_parse(w2, 3, both_state, false));
    assert(root_parse(w2, 1, st0, false) == root_parse(w2, 2, with_flag, false));
}


/// A waiting `--display` whose positions lie among the words after the
/// program name.
spec fn pending_within(p: Pending, len: int) -> bool {
    match p {
        Pending::Nothing => true,
        Pending::Awaiting(d) => 1 <= d < len,
        Pending::Value(d, k) => 1 <= d < len && 1 <= k < len,
    }
}

/// The same waiting `--display`, one word further on.
spec fn pending_moved(p: Pending) -> Pending {
    match p {
        Pending::Nothing => Pending::Nothing,
        Pending::Awaiting(d) => Pending::Awaiting((d + 1) as usize),
        Pending::Value(d, k) => Pending::Value((d + 1) as usize, (k + 1) as usize),
    }
}

/// The parse state after `st` when `--no-save` was read before everything
/// else, one word further on.
spec fn with_no_save_first(st: ParseState) -> ParseState {
    ParseState { no_save: true, pending: pending_moved(st.pending), ..st }
}

/// `w2` is `w` with one more word at position 1.
spec fn one_word_put_in(w: Seq<Seq<char>>, w2: Seq<Seq<char>>) -> bool {
    &&& w2.len() == w.len() + 1
    &&& w2.len() <= usize::MAX
    &&& forall|j: int| 1 <= j < w.len() ==> w2[j + 1] == #[trigger] w[j]
}

/// Once `--no-save` has been read, the result says so.
proof fn lemma_no_save_stays(w: Seq<Seq<char>>, i: int, st: ParseState, t: bool)
    requires
        st.no_save,
        0 <= i,
    ensures
        root_parse(w, i, st, t) is Ok ==> root_parse(w, i, st, t)->Ok_0.no_save,
    decreases w.len() - i,
{
    if i < w.len() {
        let a = w[i];
        let awaiting = st.pending is Awaiting;
        if !t && !awaiting && (a == "help"@ || a == "ls"@ || is_delete_name(a)) {
        } else if !t && a == "--"@ {
            lemma_no_save_stays(w, i + 1, st, true);
        } else {
            match settled(w, st) {
                Ok(s) => {
                    lemma_no_save_stays(w, i + 1, ParseState { pending: Pending::Awaiting(i as usize), ..s }, false);
                    lemma_no_save_stays(w, i + 1, ParseState { save: true, ..s }, false);
                    lemma_no_save_stays(w, i + 1, ParseState { city: Some(a), ..s }, t);
                    match display_given(s.display, i as usize, i as usize, a.subrange(10, a.len() as int)) {
                        Ok(d) => lemma_no_save_stays(w, i + 1, ParseState { display: d, ..s }, false),
                        Err(_) => {},
                    }
                },
                Err(_) => {},
            }
            if awaiting {
                lemma_no_save_stays(
                    w,
                    i + 1,
                    ParseState { pending: Pending::Value(st.pending->Awaiting_0, i as usize), ..st },
                    false,
                );
            }
        }
    }
}

/// A waiting `--display` is settled alike one word further on.
proof fn lemma_settled_moved(w: Seq<Seq<char>>, w2: Seq<Seq<char>>, st: ParseState)
    requires
        one_word_put_in(w, w2),
        pending_within(st.pending, w.len() as int),
        settled(w, st) is Ok,
    ensures
        settled(w2, with_no_save_first(st)) == Ok::<_, CliError>(with_no_save_first(settled(w, st)->Ok_0)),
{
    if let Pending::Value(d, k) = st.pending {
        assert(w2[k + 1] == w[k as int]);
    }
}

/// `ls` reads its words alike one word further on.
proof fn lemma_ls_parse_moved(w: Seq<Seq<char>>, w2: Seq<Seq<char>>, i: int, t: bool)
    requires
        one_word_put_in(w, w2),
        1 <= i,
    ensures
        ls_parse(w, i, t) is Ok ==> ls_parse(w2, i + 1, t) is Ok,
    decreases w.len() - i,
{
    if i < w.len() {
        assert(w2[i + 1] == w[i]);
        lemma_ls_parse_moved(w, w2, i + 1, true);
    }
}

/// `delete` reads its words alike one word further on.
proof fn lemma_delete_parse_moved(w: Seq<Seq<char>>, w2: Seq<Seq<char>>, i: int, num: Option<usize>, t: bool)
    requires
        one_word_put_in(w, w2),
        1 <= i,
        num matches Some(k) ==> 1 <= k < w.len(),
    ensures
        delete_parse(w, i, num, t) is Ok ==> delete_parse(w2, i + 1, match num { Some(k) => Some((k + 1) as usize), None => None }, t)
            == delete_parse(w, i, num, t),
    decreases w.len() - i,
{
    if i < w.len() {
        assert(w2[i + 1] == w[i]);
        if num is None {
            lemma_delete_parse_moved(w, w2, i + 1, Some(i as usize), t);
        }
        lemma_delete_parse_moved(w, w2, i + 1, num, true);
    } else if let Some(k) = num {
        assert(w2[k + 1] == w[k as int]);
    }
}


/// A top-level parse that has not met `--no-save` ends alike, but with
/// `--no-save` set, when `--no-save` was read before everything else.
proof fn lemma_no_save_first_moved(
    w: Seq<Seq<char>>,
    w2: Seq<Seq<char>>,
    i: int,
    st: ParseState,
    t: bool,
    v: CliView,
)
    requires
        one_word_put_in(w, w2),
        1 <= i,
        pending_within(st.pending, w.len() as int),
        !st.no_save,
        root_parse(w, i, st, t) == Ok::<_, CliError>(v),
        !v.no_save,
    ensures
        root_parse(w2, i + 1, with_no_save_first(st), t) == Ok::<_, CliError>(CliView { no_save: true, ..v }),
    decreases w.len() - i,
{
    let st2 = with_no_save_first(st);
    if i >= w.len() {
        lemma_settled_moved(w, w2, st);
    } else {
        let a = w[i];
        assert(w2[i + 1] == a);
        let awaiting = st.pending is Awaiting;
        if !t && !awaiting && a == "help"@ {
        } else if !t && !awaiting && a == "ls"@ {
            lemma_ls_parse_moved(w, w2, i + 1, false);
            lemma_settled_moved(w, w2, st);
        } else if !t && !awaiting && is_delete_name(a) {
            lemma_delete_parse_moved(w, w2, i + 1, None, false);
            lemma_settled_moved(w, w2, st);
        } else if !t && a == "--"@ {
            lemma_no_save_first_moved(w, w2, i + 1, st, true, v);
        } else if !t && is_long(a) {
            lemma_settled_moved(w, w2, st);
            let s = settled(w, st)->Ok_0;
            if names_flag(a, "--display"@, "--display="@) {
                if a == "--display"@ {
                    let next = ParseState { pending: Pending::Awaiting(i as usize), ..s };
                    lemma_no_save_first_moved(w, w2, i + 1, next, false, v);
                    assert(with_no_save_first(next) == ParseState {
                        pending: Pending::Awaiting((i + 1) as usize),
                        ..with_no_save_first(s)
                    });
                } else {
                    let d = display_given(s.display, i as usize, i as usize, a.subrange(10, a.len() as int))->Ok_0;
                    let next = ParseState { display: d, ..s };
                    lemma_no_save_first_moved(w, w2, i + 1, next, false, v);
                    assert(with_no_save_first(next) == ParseState { display: d, ..with_no_save_first(s) });
                }
            } else if names_flag(a, "--help"@, "--help="@) {
            } else if names_flag(a, "--save"@, "--save="@) {
                let next = ParseState { save: true, ..s };
                lemma_no_save_first_moved(w, w2, i + 1, next, false, v);
                assert(with_no_save_first(next) == ParseState { save: true, ..with_no_save_first(s) });
            } else if names_flag(a, "--no-save"@, "--no-save="@) {
                lemma_no_save_stays(w, i + 1, ParseState { no_save: true, ..s }, false);
            }
        } else if !t && is_short(a) {
        } else if !t && awaiting {
            let d = st.pending->Awaiting_0;
            let next = ParseState { pending: Pending::Value(d, i as usize), ..st };
            lemma_no_save_first_moved(w, w2, i + 1, next, false, v);
            assert(with_no_save_first(next) == ParseState {
                pending: Pending::Value(st2.pending->Awaiting_0, (i + 1) as usize),
                ..st2
            });
        } else if st.city is None {
            lemma_settled_moved(w, w2, st);
            let s = settled(w, st)->Ok_0;
            let next = ParseState { city: Some(a), ..s };
            lemma_no_save_first_moved(w, w2, i + 1, next, t, v);
            assert(with_no_save_first(next) == ParseState { city: Some(a), ..with_no_save_first(s) });
        }
    }
}

/// `--no-save` may be given first on any command line that is accepted
/// without it: the command line then means the same, with the save prompt
/// skipped.
pub proof fn law_no_save_first_skips_the_prompt(w: Seq<Seq<char>>, v: CliView)
    requires
        1 <= w.len() < usize::MAX,
        command_line(w) == Ok::<_, CliError>(v),
        !v.no_save,
    ensures
        command_line(w.insert(1, "--no-save"@)) == Ok::<_, CliError>(CliView { no_save: true, ..v }),
{
    reveal_strlit("--no-save");
    reveal_strlit("--no-save=");
    reveal_strlit("--save");
    reveal_strlit("--save=");
    reveal_strlit("--help");
    reveal_strlit("--help=");
    reveal_strlit("help");
    reveal_strlit("ls");
    reveal_strlit("delete");
    reveal_strlit("--");
    reveal_strlit("del");
    reveal_strlit("rm");
    reveal_strlit("--display");
    reveal_strlit("--display=");
    let flag = "--no-save"@;
    let w2 = w.insert(1, flag);
    assert forall|j: int| 1 <= j < w.len() implies w2[j + 1] == #[trigger] w[j] by {}
    assert(w2[1] == flag);
    assert(flag != "help"@ && flag != "ls"@ && flag != "delete"@);
    assert(flag != "del"@ && flag != "rm"@ && flag != "--"@);
    assert(is_long(flag));
    assert(flag[2] != "--display"@[2]);
    assert(!crate::text::has_prefix(flag, "--display="@));
    assert(flag[2] != "--help"@[2]);
    assert(flag.subrange(0, 7)[2] != "--help="@[2]);
    assert(!crate::text::has_prefix(flag, "--help="@));
    assert(flag[2] != "--save"@[2]);
    assert(flag.subrange(0, 7)[2] != "--save="@[2]);
    assert(!crate::text::has_prefix(flag, "--save="@));
    let st0 = nothing_given();
    assert(settled(w2, st0) == Ok::<_, CliError>(st0));
    assert(with_no_save_first(st0) == ParseState { no_save: true, ..st0 });
    lemma_no_save_first_moved(w, w2, 1, st0, false, v);
    assert(root_parse(w2, 1, st0, false) == root_parse(w2, 2, with_no_save_first(st0), false));
}

} // verus!
