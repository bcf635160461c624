//! The parse dispatcher: the three entry points, and the search through the
//! layouts in priority order.
//!
//! The first layout whose pattern matches the trimmed text decides. If
//! extraction or building then fails, the parse fails: no later layout is
//! tried for the same text.

use crate::angle::{
    angle_view, point_view, Angle, Point, Position, Sexagesimal, MAX_LATITUDE, MAX_LONGITUDE,
};
use crate::errors::{GeoParseError, ParseErrorInternal};
use crate::extract::{
    latitude_from, latitude_from_groups, longitude_from, longitude_from_groups, point_from_groups,
    position_from,
};
use crate::grammar::{captures, groups_view, layouts, priority, regex_captures, Layout};
use crate::text::{trim, trimmed, Text};
use vstd::prelude::*;

verus! {

/// The first layout, from place `from` of the priority order on, whose
/// one-sided pattern matches all of `s`, with the capture groups of the match.
pub open spec fn first_single_match(s: Seq<char>, from: int) -> Option<
    (Layout, Seq<Option<Seq<char>>>),
>
    decreases priority().len() - from,
{
    if from < 0 || from >= priority().len() {
        None
    } else {
        match regex_captures(priority()[from].single_pattern_text(), s) {
            Some(groups) => Some((priority()[from], groups)),
            None => first_single_match(s, from + 1),
        }
    }
}

/// The first layout, from place `from` of the priority order on, whose
/// two-sided pattern matches all of `s`, with the capture groups of the match.
pub open spec fn first_pair_match(s: Seq<char>, from: int) -> Option<
    (Layout, Seq<Option<Seq<char>>>),
>
    decreases priority().len() - from,
{
    if from < 0 || from >= priority().len() {
        None
    } else {
        match regex_captures(priority()[from].pair_pattern_text(), s) {
            Some(groups) => Some((priority()[from], groups)),
            None => first_pair_match(s, from + 1),
        }
    }
}

/// The latitude that the trimmed text `s` writes: what the first matching
/// layout gives, and nothing if that fails or no layout matches.
pub open spec fn parsed_latitude(s: Seq<char>) -> Option<Sexagesimal> {
    match first_single_match(s, 0) {
        Some((layout, groups)) => latitude_from(layout, groups),
        None => None,
    }
}

/// The longitude that the trimmed text `s` writes: what the first matching
/// layout gives, and nothing if that fails or no layout matches.
pub open spec fn parsed_longitude(s: Seq<char>) -> Option<Sexagesimal> {
    match first_single_match(s, 0) {
        Some((layout, groups)) => longitude_from(layout, groups),
        None => None,
    }
}

/// The point that the trimmed text `s` writes: what the first matching layout
/// gives, and nothing if that fails or no layout matches.
pub open spec fn parsed_position(s: Seq<char>) -> Option<Position> {
    match first_pair_match(s, 0) {
        Some((layout, groups)) => position_from(layout, groups),
        None => None,
    }
}

/// What a found match is, as a model.
pub open spec fn match_view(r: Option<(Layout, Vec<Option<String>>)>) -> Option<
    (Layout, Seq<Option<Seq<char>>>),
> {
    match r {
        Some((layout, groups)) => Some((layout, groups_view(groups))),
        None => None,
    }
}

/// Tries the one-sided patterns in priority order and stops at the first that
/// matches.
pub fn match_single(s: &str) -> (r: Option<(Layout, Vec<Option<String>>)>)
    ensures
        match_view(r) == first_single_match(s@, 0),
{
    let order = layouts();
    let mut i: usize = 0;
    while i < order.len()
        invariant
            order@ == priority(),
            i <= order.len(),
            first_single_match(s@, 0) == first_single_match(s@, i as int),
        decreases order.len() - i,
    {
        let layout = order[i];
        match captures(layout.single_pattern(), s) {
            Some(groups) => {
                return Some((layout, groups));
            },
            None => {},
        }
        i = i + 1;
    }
    None
}

/// Tries the two-sided patterns in priority order and stops at the first that
/// matches.
pub fn match_pair(s: &str) -> (r: Option<(Layout, Vec<Option<String>>)>)
    ensures
        match_view(r) == first_pair_match(s@, 0),
{
    let order = layouts();
    let mut i: usize = 0;
    while i < order.len()
        invariant
            order@ == priority(),
            i <= order.len(),
            first_pair_match(s@, 0) == first_pair_match(s@, i as int),
        decreases order.len() - i,
    {
        let layout = order[i];
        match captures(layout.pair_pattern(), s) {
            Some(groups) => {
                return Some((layout, groups));
            },
            None => {},
        }
        i = i + 1;
    }
    None
}

/// Parses trimmed text as a pair of coordinates, latitude first.
pub fn do_parse(s: &str) -> (r: Result<Point, ParseErrorInternal>)
    ensures
        point_view(r) == parsed_position(s@),
{
    match match_pair(s) {
        Some((layout, groups)) => point_from_groups(layout, &groups),
        None => Err(ParseErrorInternal),
    }
}

/// Parses trimmed text as a latitude.
pub fn do_parse_lat(s: &str) -> (r: Result<Angle, ParseErrorInternal>)
    ensures
        angle_view(r) == parsed_latitude(s@),
{
    match match_single(s) {
        Some((layout, groups)) => latitude_from_groups(layout, &groups),
        None => Err(ParseErrorInternal),
    }
}

/// Parses trimmed text as a longitude.
pub fn do_parse_lng(s: &str) -> (r: Result<Angle, ParseErrorInternal>)
    ensures
        angle_view(r) == parsed_longitude(s@),
{
    match match_single(s) {
        Some((layout, groups)) => longitude_from_groups(layout, &groups),
        None => Err(ParseErrorInternal),
    }
}

/// Parse a string containing a pair of coordinates (latitude, longitude).
///
/// Positive latitude is North, positive longitude is East.
///
/// ## Supported formats (examples)
///
/// - `40° 26′ 46″ N 79° 58′ 56″ W`
/// - `N 40° 26′ 46″ W 79° 58′ 56″`
/// - `40° 26.767' N 79° 58.933' W`
/// - `40° 26′ 46″ 79° 58′ 56″`, `40° 26′ 46″, 79° 58′ 56″`, ...
/// - `N 40° 26.767' W 79° 58.933'`
/// - `40° 26.767' 79° 58.933'`, `40° 26.767', 79° 58.933'`, ...
/// - `N 40.446° W 79.982°`
/// - `40.446° N 79.982° W`
/// - `40.446° 79.982°`, `40.446,79.982`, etc.
///
/// ## Parser rules
/// - All formats support negative degrees (preceded by a minus sign).
/// - Whitespace is optional and ignored, except for formats that would become
///   unparsable.
/// - Degree, minute and second symbols can be omitted.
/// - Typographic quotes and primes may be used in place of apostrophe and
///   double quote for minutes and seconds.
/// - The two coordinates can be separated by comma (`,`), semicolon (`;`),
///   whitespace (` `), or nothing at all, if not ambiguous.
///
/// # Returns
/// A `Point` with longitude as X and latitude as Y (natural map orientation),
/// or a parse error wrapping the text that was given.
pub fn parse<T: Text>(text: T) -> (r: Result<Point, GeoParseError<T>>)
    ensures
        match r {
            Ok(p) => parsed_position(trimmed(text.text())) == Some(p@),
            Err(e) => parsed_position(trimmed(text.text())) is None && e.0 == text,
        },
        r matches Ok(p) ==> p@.x.at_most(MAX_LONGITUDE as nat) && p@.y.at_most(
            MAX_LATITUDE as nat,
        ),
{
    let found = do_parse(trim(text.as_text()));
    match found {
        Ok(p) => Ok(p),
        Err(_) => Err(GeoParseError(text)),
    }
}

/// Parse string as latitude (N/S). Positive latitude is North.
///
/// See `parse()` for supported formats.
pub fn parse_lat<T: Text>(text: T) -> (r: Result<Angle, GeoParseError<T>>)
    ensures
        match r {
            Ok(a) => parsed_latitude(trimmed(text.text())) == Some(a@),
            Err(e) => parsed_latitude(trimmed(text.text())) is None && e.0 == text,
        },
        r matches Ok(a) ==> a@.at_most(MAX_LATITUDE as nat),
{
    let found = do_parse_lat(trim(text.as_text()));
    match found {
        Ok(a) => Ok(a),
        Err(_) => Err(GeoParseError(text)),
    }
}

/// Parse string as longitude (E/W). Positive longitude is East.
///
/// See `parse()` for supported formats.
pub fn parse_lng<T: Text>(text: T) -> (r: Result<Angle, GeoParseError<T>>)
    ensures
        match r {
            Ok(a) => parsed_longitude(trimmed(text.text())) == Some(a@),
            Err(e) => parsed_longitude(trimmed(text.text())) is None && e.0 == text,
        },
        r matches Ok(a) ==> a@.at_most(MAX_LONGITUDE as nat),
{
    let found = do_parse_lng(trim(text.as_text()));
    match found {
        Ok(a) => Ok(a),
        Err(_) => Err(GeoParseError(text)),
    }
}

} // verus!
