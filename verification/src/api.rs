//! The parts of talking to the geocoding service that decide something:
//! the query for a city and which of the answers is taken.

use vstd::prelude::*;

verus! {

/// The geocoding query for `city`: the name goes into the query as given,
/// asking for one English answer in JSON.
pub open spec fn geocoding_query(city: Seq<char>) -> Seq<char> {
    "https://geocoding-api.open-meteo.com/v1/search?name="@ + city + "&count=1&language=en&format=json"@
}

/// The address that looks up `city` at the geocoding service.
pub fn geocoding_url(city: &str) -> (url: String)
    ensures
        url@ == geocoding_query(city@),
{
    let mut url = String::from_str("https://geocoding-api.open-meteo.com/v1/search?name=");
    url.append(city);
    url.append("&count=1&language=en&format=json");
    url
}

/// The answer taken from the geocoding results: the last one, or none when
/// the service sent no list or an empty one.
pub fn chosen_result<T>(results: Option<Vec<T>>) -> (r: Option<T>)
    ensures
        r == match results {
            Some(list) => if list@.len() > 0 {
                Some(list@.last())
            } else {
                None::<T>
            },
            None => None::<T>,
        },
{
    match results {
        Some(mut list) => list.pop(),
        None => None,
    }
}

} // verus!
