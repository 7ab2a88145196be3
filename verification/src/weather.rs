//! The weather source's verifiable edge: building the forecast query.
//!
//! The fetch itself and the extraction of the minimum temperature from
//! the response are network work and floating-point work, and live
//! outside the library; callers hand the reading back in as an integer
//! in hundredths of a degree.  What the library owns is the exact query
//! string for a given key and location.

use vstd::prelude::*;

use crate::byteseq::append_bytes;

verus! {

/// Everything of the forecast query before the access key.
pub open spec fn weather_url_prefix() -> Seq<u8> {
    seq!['h' as u8, 't' as u8, 't' as u8, 'p' as u8, ':' as u8, '/' as u8, '/' as u8, 'a' as u8, 'p' as u8, 'i' as u8, '.' as u8, 'w' as u8, 'e' as u8, 'a' as u8, 't' as u8, 'h' as u8, 'e' as u8, 'r' as u8, 'a' as u8, 'p' as u8, 'i' as u8, '.' as u8, 'c' as u8, 'o' as u8, 'm' as u8, '/' as u8, 'v' as u8, '1' as u8, '/' as u8, 'f' as u8, 'o' as u8, 'r' as u8, 'e' as u8, 'c' as u8, 'a' as u8, 's' as u8, 't' as u8, '.' as u8, 'j' as u8, 's' as u8, 'o' as u8, 'n' as u8, '?' as u8, 'k' as u8, 'e' as u8, 'y' as u8, '=' as u8]
}

pub fn weather_url_prefix_bytes() -> (r: Vec<u8>)
    ensures
        r@ == weather_url_prefix(),
{
    let mut r: Vec<u8> = Vec::new();
    r.push('h' as u8);
    r.push('t' as u8);
    r.push('t' as u8);
    r.push('p' as u8);
    r.push(':' as u8);
    r.push('/' as u8);
    r.push('/' as u8);
    r.push('a' as u8);
    r.push('p' as u8);
    r.push('i' as u8);
    r.push('.' as u8);
    r.push('w' as u8);
    r.push('e' as u8);
    r.push('a' as u8);
    r.push('t' as u8);
    r.push('h' as u8);
    r.push('e' as u8);
    r.push('r' as u8);
    r.push('a' as u8);
    r.push('p' as u8);
    r.push('i' as u8);
    r.push('.' as u8);
    r.push('c' as u8);
    r.push('o' as u8);
    r.push('m' as u8);
    r.push('/' as u8);
    r.push('v' as u8);
    r.push('1' as u8);
    r.push('/' as u8);
    r.push('f' as u8);
    r.push('o' as u8);
    r.push('r' as u8);
    r.push('e' as u8);
    r.push('c' as u8);
    r.push('a' as u8);
    r.push('s' as u8);
    r.push('t' as u8);
    r.push('.' as u8);
    r.push('j' as u8);
    r.push('s' as u8);
    r.push('o' as u8);
    r.push('n' as u8);
    r.push('?' as u8);
    r.push('k' as u8);
    r.push('e' as u8);
    r.push('y' as u8);
    r.push('=' as u8);
    proof { assert(r@ =~= weather_url_prefix()); }
    r
}

/// Everything of the forecast query between the key and the location.
pub open spec fn weather_url_mid() -> Seq<u8> {
    seq!['&' as u8, 'q' as u8, '=' as u8]
}

pub fn weather_url_mid_bytes() -> (r: Vec<u8>)
    ensures
        r@ == weather_url_mid(),
{
    let mut r: Vec<u8> = Vec::new();
    r.push('&' as u8);
    r.push('q' as u8);
    r.push('=' as u8);
    proof { assert(r@ =~= weather_url_mid()); }
    r
}

/// Everything of the forecast query after the location.
pub open spec fn weather_url_suffix() -> Seq<u8> {
    seq!['&' as u8, 'd' as u8, 'a' as u8, 'y' as u8, 's' as u8, '=' as u8, '1' as u8, '&' as u8, 'a' as u8, 'q' as u8, 'i' as u8, '=' as u8, 'n' as u8, 'o' as u8, '&' as u8, 'a' as u8, 'l' as u8, 'e' as u8, 'r' as u8, 't' as u8, 's' as u8, '=' as u8, 'n' as u8, 'o' as u8]
}

pub fn weather_url_suffix_bytes() -> (r: Vec<u8>)
    ensures
        r@ == weather_url_suffix(),
{
    let mut r: Vec<u8> = Vec::new();
    r.push('&' as u8);
    r.push('d' as u8);
    r.push('a' as u8);
    r.push('y' as u8);
    r.push('s' as u8);
    r.push('=' as u8);
    r.push('1' as u8);
    r.push('&' as u8);
    r.push('a' as u8);
    r.push('q' as u8);
    r.push('i' as u8);
    r.push('=' as u8);
    r.push('n' as u8);
    r.push('o' as u8);
    r.push('&' as u8);
    r.push('a' as u8);
    r.push('l' as u8);
    r.push('e' as u8);
    r.push('r' as u8);
    r.push('t' as u8);
    r.push('s' as u8);
    r.push('=' as u8);
    r.push('n' as u8);
    r.push('o' as u8);
    proof { assert(r@ =~= weather_url_suffix()); }
    r
}

/// The one-day forecast query for the given access key and location.
pub open spec fn spec_weather_url(key: Seq<u8>, location: Seq<u8>) -> Seq<u8> {
    weather_url_prefix() + key + weather_url_mid() + location + weather_url_suffix()
}

/// Executable form of [`spec_weather_url`].
pub fn weather_url(key: &Vec<u8>, location: &Vec<u8>) -> (r: Vec<u8>)
    ensures
        r@ == spec_weather_url(key@, location@),
{
    let mut r = weather_url_prefix_bytes();
    append_bytes(&mut r, key);
    let mid = weather_url_mid_bytes();
    append_bytes(&mut r, &mid);
    append_bytes(&mut r, location);
    let suffix = weather_url_suffix_bytes();
    append_bytes(&mut r, &suffix);
    proof {
        assert(r@ =~= spec_weather_url(key@, location@));
    }
    r
}

} // verus!
