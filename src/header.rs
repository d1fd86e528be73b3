//! Building an HTTP header map from name/value pairs, with the names and
//! values checked against HTTP's grammar by the `http` crate (through
//! `reqwest`'s re-export).
use vstd::prelude::*;

use reqwest::header::{
    HeaderMap, HeaderName, HeaderValue, InvalidHeaderName, InvalidHeaderValue, MaxSizeReached,
};
use std::str::FromStr;

use crate::error::HeaderError;
use crate::parse::pairs_view;

verus! {

/// `HeaderName`, a validated, lowercased header name; opaque here.
#[verifier::external_type_specification]
#[verifier::external_body]
pub struct ExHeaderName(HeaderName);

/// `HeaderValue`, a validated header value; opaque here.
#[verifier::external_type_specification]
#[verifier::external_body]
pub struct ExHeaderValue(HeaderValue);

/// `HeaderMap`, the header multimap a request carries; opaque here.
#[verifier::external_type_specification]
#[verifier::external_body]
#[verifier::reject_recursive_types(T)]
pub struct ExHeaderMap<T>(HeaderMap<T>);

/// The error `HeaderName::from_str` returns.
#[verifier::external_type_specification]
#[verifier::external_body]
pub struct ExInvalidHeaderName(InvalidHeaderName);

/// The error `HeaderValue::from_str` returns.
#[verifier::external_type_specification]
#[verifier::external_body]
pub struct ExInvalidHeaderValue(InvalidHeaderValue);

/// The error `HeaderMap::try_insert` returns when the map is full.
#[verifier::external_type_specification]
#[verifier::external_body]
pub struct ExMaxSizeReached(MaxSizeReached);

/// The text of a header name, as `HeaderName::as_str` gives it.
pub uninterp spec fn header_name_text(n: HeaderName) -> Seq<char>;

/// The text that a header value was made from.
pub uninterp spec fn header_value_text(v: HeaderValue) -> Seq<char>;

/// What a header map holds: each name's text to the text of its value.
pub uninterp spec fn header_entries(m: HeaderMap) -> Map<Seq<char>, Seq<char>>;

/// The contents of an empty header map.
pub open spec fn no_entries() -> Map<Seq<char>, Seq<char>> {
    Map::empty()
}

/// HTTP's token characters, the ones a header name may hold.
pub open spec fn is_token_char(c: char) -> bool {
    ||| ('0' <= c && c <= '9')
    ||| ('a' <= c && c <= 'z')
    ||| ('A' <= c && c <= 'Z')
    ||| c == '!' || c == '#' || c == '$' || c == '%' || c == '&' || c == '\''
    ||| c == '*' || c == '+' || c == '-' || c == '.' || c == '^' || c == '_'
    ||| c == '`' || c == '|' || c == '~'
}

/// A header name: one to 65535 token characters.
pub open spec fn valid_name(s: Seq<char>) -> bool {
    &&& 0 < s.len() <= 65535
    &&& forall|i: int| 0 <= i < s.len() ==> is_token_char(#[trigger] s[i])
}

/// A character a header value may hold: anything but a control character
/// other than horizontal tab.
pub open spec fn is_value_char(c: char) -> bool {
    c == '\t' || (c as u32 >= 32 && c as u32 != 127)
}

/// A header value: no forbidden control characters.
pub open spec fn valid_value(s: Seq<char>) -> bool {
    forall|i: int| 0 <= i < s.len() ==> is_value_char(#[trigger] s[i])
}

pub open spec fn lower_char(c: char) -> char {
    if 'A' <= c && c <= 'Z' {
        ((c as u8) + 32u8) as char
    } else {
        c
    }
}

/// `s` with the ASCII capitals made small.
pub open spec fn ascii_lowercase(s: Seq<char>) -> Seq<char> {
    s.map_values(|c: char| lower_char(c))
}

/// Relies on `HeaderName::from_str`: it accepts exactly the strings of one to
/// 65535 token characters, and the name it makes is the string lowercased.
#[verifier::external_body]
fn header_name_from(s: &str) -> (r: Result<HeaderName, InvalidHeaderName>)
    ensures
        r is Ok <==> valid_name(s@),
        r matches Ok(n) ==> header_name_text(n) == ascii_lowercase(s@),
{
    HeaderName::from_str(s)
}

/// Relies on `HeaderValue::from_str`: it accepts exactly the strings whose
/// bytes are all at least 32 and not 127, or tab, and keeps those bytes.
#[verifier::external_body]
fn header_value_from(s: &str) -> (r: Result<HeaderValue, InvalidHeaderValue>)
    ensures
        r is Ok <==> valid_value(s@),
        r matches Ok(v) ==> header_value_text(v) == s@,
{
    HeaderValue::from_str(s)
}

/// Relies on `HeaderMap::new`: the map starts empty.
pub assume_specification[ HeaderMap::new ]() -> (r: HeaderMap)
    ensures
        header_entries(r) == no_entries(),
;

/// Relies on `HeaderMap::try_insert`: on success the name maps to the value
/// alone, the other names are untouched. It fails only when the map holds
/// 32768 names or would grow past 32768 slots, which takes at least 6554
/// names; below 3000 names it succeeds.
#[verifier::external_body]
fn insert_header(m: &mut HeaderMap, n: HeaderName, v: HeaderValue) -> (r: Result<(), MaxSizeReached>)
    ensures
        header_entries(*old(m)).dom().finite() && header_entries(*old(m)).dom().len() < 3000
            ==> r is Ok,
        r is Ok ==> header_entries(*final(m)) == header_entries(*old(m)).insert(
            header_name_text(n),
            header_value_text(v),
        ),
{
    m.try_insert(n, v).map(|_| ())
}

/// The error a single pair raises, if any: its name is checked first.
pub open spec fn pair_error(p: (Seq<char>, Seq<char>)) -> Option<HeaderError> {
    if !valid_name(p.0) {
        Some(HeaderError::InvalidHeaderName)
    } else if !valid_value(p.1) {
        Some(HeaderError::InvalidHeaderValue)
    } else {
        None
    }
}

/// The error of the first pair, in order, that raises one.
pub open spec fn build_error(ps: Seq<(Seq<char>, Seq<char>)>) -> Option<HeaderError>
    decreases ps.len(),
{
    if ps.len() == 0 {
        None
    } else {
        match build_error(ps.drop_last()) {
            Some(e) => Some(e),
            None => pair_error(ps.last()),
        }
    }
}

/// The map that the pairs make when inserted in order: names lowercased,
/// a later pair replacing an earlier one of the same name.
pub open spec fn build_map(ps: Seq<(Seq<char>, Seq<char>)>) -> Map<Seq<char>, Seq<char>>
    decreases ps.len(),
{
    if ps.len() == 0 {
        no_entries()
    } else {
        build_map(ps.drop_last()).insert(ascii_lowercase(ps.last().0), ps.last().1)
    }
}

/// A built map has at most as many names as there are pairs.
pub proof fn lemma_build_map_size(ps: Seq<(Seq<char>, Seq<char>)>)
    ensures
        build_map(ps).dom().finite(),
        build_map(ps).dom().len() <= ps.len(),
    decreases ps.len(),
{
    if ps.len() == 0 {
        assert(build_map(ps).dom() =~= Set::empty());
    } else {
        lemma_build_map_size(ps.drop_last());
    }
}

/// An error in a prefix is the error of the whole sequence.
pub proof fn lemma_build_error_prefix(ps: Seq<(Seq<char>, Seq<char>)>, j: int)
    requires
        0 <= j <= ps.len(),
        build_error(ps.take(j)) is Some,
    ensures
        build_error(ps) == build_error(ps.take(j)),
    decreases ps.len(),
{
    if j < ps.len() {
        assert(ps.drop_last().take(j) =~= ps.take(j));
        lemma_build_error_prefix(ps.drop_last(), j);
    } else {
        assert(ps.take(j) =~= ps);
    }
}

/// Builds the header map of the pairs, in order, a later pair replacing an
/// earlier one of the same name (names compare without regard to ASCII case).
/// The first pair with an invalid name or value decides the error; with all
/// pairs valid the map holds exactly the last value given for each name; it
/// is always made for fewer than 3000 pairs, and beyond that only the map's
/// capacity can refuse it.
pub fn construct_header_map(pairs: Vec<(String, String)>) -> (r: Result<HeaderMap, HeaderError>)
    ensures
        match build_error(pairs_view(pairs@)) {
            Some(e) => r == Err::<HeaderMap, HeaderError>(e),
            None => match r {
                Ok(m) => header_entries(m) == build_map(pairs_view(pairs@)),
                Err(e) => e == HeaderError::TooManyHeaders,
            },
        },
        build_error(pairs_view(pairs@)) is None && pairs@.len() < 3000 ==> r is Ok,
{
    let ghost ps = pairs_view(pairs@);
    let n = pairs.len();
    let mut checked: Vec<(HeaderName, HeaderValue)> = Vec::new();
    let mut i: usize = 0;
    while i < n
        invariant
            n == pairs@.len() == ps.len(),
            ps == pairs_view(pairs@),
            i <= n,
            checked@.len() == i,
            build_error(ps.take(i as int)) is None,
            forall|k: int|
                0 <= k < i ==> header_name_text(#[trigger] checked@[k].0) == ascii_lowercase(
                    ps[k].0,
                ) && header_value_text(checked@[k].1) == ps[k].1,
        decreases n - i,
    {
        assert(ps.take(i + 1).drop_last() =~= ps.take(i as int));
        let name = match header_name_from(pairs[i].0.as_str()) {
            Ok(name) => name,
            Err(_) => {
                proof {
                    lemma_build_error_prefix(ps, i + 1);
                }
                return Err(HeaderError::InvalidHeaderName);
            },
        };
        let value = match header_value_from(pairs[i].1.as_str()) {
            Ok(value) => value,
            Err(_) => {
                proof {
                    lemma_build_error_prefix(ps, i + 1);
                }
                return Err(HeaderError::InvalidHeaderValue);
            },
        };
        checked.push((name, value));
        i = i + 1;
    }
    assert(ps.take(n as int) =~= ps);
    let ghost all = checked@;
    assert forall|j: int| 0 <= j < n implies header_name_text(#[trigger] all[j].0)
        == ascii_lowercase(ps[j].0) && header_value_text(all[j].1) == ps[j].1 by {
        assert(all[j] == checked@[j]);
    }
    let mut m = HeaderMap::new();
    let mut k: usize = 0;
    assert(ps.take(0) =~= Seq::<(Seq<char>, Seq<char>)>::empty());
    while k < n
        invariant
            n == ps.len() == all.len(),
            k <= n,
            build_error(ps) is None,
            ps == pairs_view(pairs@),
            checked@ == all.skip(k as int),
            header_entries(m) == build_map(ps.take(k as int)),
            header_entries(m).dom().finite(),
            header_entries(m).dom().len() <= k,
            forall|j: int|
                0 <= j < n ==> header_name_text(#[trigger] all[j].0) == ascii_lowercase(ps[j].0)
                    && header_value_text(all[j].1) == ps[j].1,
        decreases n - k,
    {
        assert(checked@[0] == all[k as int]);
        let (name, value) = checked.remove(0);
        assert(checked@ =~= all.skip(k + 1));
        assert(ps.take(k + 1).drop_last() =~= ps.take(k as int));
        proof {
            lemma_build_map_size(ps.take(k + 1));
        }
        match insert_header(&mut m, name, value) {
            Ok(()) => {},
            Err(_) => {
                return Err(HeaderError::TooManyHeaders);
            },
        }
        k = k + 1;
    }
    Ok(m)
}

} // verus!
