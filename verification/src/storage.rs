//! The saved-cities store. Reading and writing the file are left to the
//! caller; these functions take what reading gave and say what to write
//! back and what to answer.

use vstd::prelude::*;
use crate::model::{LegacySavedCity, SavedCities};
use crate::text::{decimal, decimal_text, same_text};

verus! {

/// The category of a failure, in the terms of `std::io::ErrorKind`.
#[derive(Debug, Clone, Copy, PartialEq, Eq, Structural)]
pub enum ErrorKind {
    InvalidInput,
    NotFound,
    PermissionDenied,
    InvalidData,
    Other,
}

/// Why a store operation failed.
#[derive(Debug, Clone, Copy, PartialEq, Eq, Structural)]
pub enum StorageError {
    /// City numbers start from 1.
    NumberIsZero,
    /// No saved city has this number.
    NoSuchNumber(usize),
    /// The file could not be read; the kind is the one the read reported.
    Read(ErrorKind),
    /// The file holds neither saved-cities document.
    Malformed,
}

/// What reading the saved-cities file gave.
#[derive(Debug)]
pub enum StoredFile {
    /// The file could not be read.
    Unreadable(ErrorKind),
    /// The file was read; `current` is its text parsed as the current
    /// document and `legacy` its text parsed as the legacy one, each `None`
    /// where that parse failed.
    Parsed { current: Option<SavedCities>, legacy: Option<LegacySavedCity> },
}

/// The city names of a list, as character sequences.
pub open spec fn names(v: Vec<String>) -> Seq<Seq<char>> {
    v.deep_view()
}

/// The cities a read of `file` yields: the current document wins over the
/// legacy one, which yields its single city.
pub open spec fn stored_cities(file: StoredFile) -> Result<Seq<Seq<char>>, StorageError> {
    match file {
        StoredFile::Unreadable(kind) => Err(StorageError::Read(kind)),
        StoredFile::Parsed { current, legacy } => match current {
            Some(doc) => Ok(names(doc.cities)),
            None => match legacy {
                Some(old) => Ok(seq![old.city@]),
                None => Err(StorageError::Malformed),
            },
        },
    }
}

/// The cities of `file`, or none where it cannot be read.
pub open spec fn cities_or_none(file: StoredFile) -> Seq<Seq<char>> {
    match stored_cities(file) {
        Ok(list) => list,
        Err(_) => Seq::empty(),
    }
}

/// `list` with `city` added at the end unless it is there already.
pub open spec fn with_city(list: Seq<Seq<char>>, city: Seq<char>) -> Seq<Seq<char>> {
    if list.contains(city) {
        list
    } else {
        list.push(city)
    }
}

/// Deleting saved city `number` from `file`: the list left and the city
/// removed.
pub open spec fn deletion(file: StoredFile, number: usize) -> Result<(Seq<Seq<char>>, Seq<char>), StorageError> {
    if number == 0 {
        Err(StorageError::NumberIsZero)
    } else {
        match stored_cities(file) {
            Err(e) => Err(e),
            Ok(list) => if number > list.len() {
                Err(StorageError::NoSuchNumber(number))
            } else {
                Ok((list.remove(number - 1), list[number - 1]))
            },
        }
    }
}

/// Looking up saved city `number` in `file`.
pub open spec fn lookup(file: StoredFile, number: usize) -> Result<Seq<char>, StorageError> {
    if number == 0 {
        Err(StorageError::NumberIsZero)
    } else {
        match stored_cities(file) {
            Err(e) => Err(e),
            Ok(list) => if number > list.len() {
                Err(StorageError::NoSuchNumber(number))
            } else {
                Ok(list[number - 1])
            },
        }
    }
}

/// The view of a list result.
pub open spec fn list_view(r: Result<Vec<String>, StorageError>) -> Result<Seq<Seq<char>>, StorageError> {
    match r {
        Ok(v) => Ok(names(v)),
        Err(e) => Err(e),
    }
}

/// Reads the cities out of what reading the file gave.
pub fn read_saved_cities(file: StoredFile) -> (r: Result<Vec<String>, StorageError>)
    ensures
        list_view(r) == stored_cities(file),
{
    match file {
        StoredFile::Unreadable(kind) => Err(StorageError::Read(kind)),
        StoredFile::Parsed { current, legacy } => match current {
            Some(doc) => Ok(doc.cities),
            None => match legacy {
                Some(old) => {
                    let ghost name = old.city@;
                    let mut v: Vec<String> = Vec::new();
                    v.push(old.city);
                    assert(names(v) =~= seq![name]);
                    Ok(v)
                },
                None => Err(StorageError::Malformed),
            },
        },
    }
}

/// The saved cities, in the order they were saved.
pub fn saved_cities(file: StoredFile) -> (r: Result<Vec<String>, StorageError>)
    ensures
        list_view(r) == stored_cities(file),
{
    read_saved_cities(file)
}

/// Saves `city`: the document to write back. A file that cannot be read or
/// parsed counts as an empty list; a city already saved is not added again.
pub fn save_city(file: StoredFile, city: &str) -> (doc: SavedCities)
    ensures
        names(doc.cities) == with_city(cities_or_none(file), city@),
{
    let mut cities = match read_saved_cities(file) {
        Ok(v) => v,
        Err(_) => Vec::new(),
    };
    let ghost start = names(cities);
    assert(start == cities_or_none(file));
    let n = cities.len();
    let mut i: usize = 0;
    while i < n
        invariant
            n == cities.len(),
            start == names(cities),
            start == cities_or_none(file),
            i <= n,
            forall|j: int| 0 <= j < i ==> start[j] != city@,
        decreases n - i,
    {
        if same_text(cities[i].as_str(), city) {
            assert(start[i as int] == city@);
            assert(start.contains(city@));
            return SavedCities { cities };
        }
        i += 1;
    }
    assert(!start.contains(city@));
    cities.push(String::from_str(city));
    assert(names(cities) =~= start.push(city@));
    SavedCities { cities }
}

/// The view of a deletion result.
pub open spec fn deletion_view(r: Result<(SavedCities, String), StorageError>) -> Result<(Seq<Seq<char>>, Seq<char>), StorageError> {
    match r {
        Ok((doc, removed)) => Ok((names(doc.cities), removed@)),
        Err(e) => Err(e),
    }
}

/// Deletes saved city `number` (counted from 1): the document to write
/// back and the city removed.
pub fn delete_city_by_number(file: StoredFile, number: usize) -> (r: Result<(SavedCities, String), StorageError>)
    ensures
        deletion_view(r) == deletion(file, number),
{
    if number == 0 {
        return Err(StorageError::NumberIsZero);
    }
    match read_saved_cities(file) {
        Err(e) => Err(e),
        Ok(mut cities) => {
            if number > cities.len() {
                return Err(StorageError::NoSuchNumber(number));
            }
            let ghost before = names(cities);
            let removed = cities.remove(number - 1);
            assert(names(cities) =~= before.remove(number - 1));
            Ok((SavedCities { cities }, removed))
        },
    }
}

/// The view of a lookup result.
pub open spec fn lookup_view(r: Result<String, StorageError>) -> Result<Seq<char>, StorageError> {
    match r {
        Ok(city) => Ok(city@),
        Err(e) => Err(e),
    }
}

/// The saved city with number `number` (counted from 1).
pub fn get_city_by_number(file: StoredFile, number: usize) -> (r: Result<String, StorageError>)
    ensures
        lookup_view(r) == lookup(file, number),
{
    if number == 0 {
        return Err(StorageError::NumberIsZero);
    }
    match read_saved_cities(file) {
        Err(e) => Err(e),
        Ok(mut cities) => {
            if number > cities.len() {
                return Err(StorageError::NoSuchNumber(number));
            }
            let ghost before = names(cities);
            let city = cities.remove(number - 1);
            assert(city@ == before[number - 1]);
            Ok(city)
        },
    }
}

/// The category of `e`.
pub open spec fn error_kind(e: StorageError) -> ErrorKind {
    match e {
        StorageError::NumberIsZero => ErrorKind::InvalidInput,
        StorageError::NoSuchNumber(_) => ErrorKind::NotFound,
        StorageError::Read(kind) => kind,
        StorageError::Malformed => ErrorKind::Other,
    }
}

/// The text of `e`, where it is the store's own; a failed read or parse is
/// described by the error that the read or parse itself reported.
pub open spec fn error_text(e: StorageError) -> Option<Seq<char>> {
    match e {
        StorageError::NumberIsZero => Some("City numbers start from 1"@),
        StorageError::NoSuchNumber(n) => Some("No saved city found for number "@ + decimal(n as nat)),
        StorageError::Read(_) => None,
        StorageError::Malformed => None,
    }
}

impl StorageError {
    /// The category of this error.
    pub fn kind(&self) -> (k: ErrorKind)
        ensures
            k == error_kind(*self),
    {
        match self {
            StorageError::NumberIsZero => ErrorKind::InvalidInput,
            StorageError::NoSuchNumber(_) => ErrorKind::NotFound,
            StorageError::Read(kind) => *kind,
            StorageError::Malformed => ErrorKind::Other,
        }
    }

    /// The text of this error, where it is the store's own.
    pub fn message(&self) -> (m: Option<String>)
        ensures
            match m {
                Some(s) => error_text(*self) == Some(s@),
                None => error_text(*self) is None,
            },
    {
        match self {
            StorageError::NumberIsZero => Some(String::from_str("City numbers start from 1")),
            StorageError::NoSuchNumber(n) => {
                let mut s = String::from_str("No saved city found for number ");
                s.append(decimal_text(*n).as_str());
                Some(s)
            },
            StorageError::Read(_) => None,
            StorageError::Malformed => None,
        }
    }
}

} // verus!
