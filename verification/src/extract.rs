//! The component extractor: from the capture groups of a matched layout to
//! readings and hemispheres, and on to angles.

use crate::angle::{
    angle_view, build_lat, build_lng, build_point, latitude_of, longitude_of, point_view,
    position_of, Angle, Point, Position, Sexagesimal, DMS,
};
use crate::decimal::{
    decimal_view, numeral_of, parse_allow_comma, parse_magnitude, signed_numeral_of, Decimal,
    Numeral,
};
use crate::errors::ParseErrorInternal;
use crate::grammar::{groups_view, Layout, Roles};
use crate::hemisphere::{ew_of, ew_view, ns_of, ns_view, EW, NS};
use vstd::prelude::*;

verus! {

/// The text of capture group `i`: `None` where there is no such group or it
/// took no part in the match.
pub open spec fn group_text(groups: Seq<Option<Seq<char>>>, i: usize) -> Option<Seq<char>> {
    if i < groups.len() {
        groups[i as int]
    } else {
        None
    }
}

/// The numeral of the minutes or of the seconds: zero where the layout writes
/// none, else what the group writes, without a sign.
pub open spec fn part_from(groups: Seq<Option<Seq<char>>>, role: Option<usize>) -> Option<
    Numeral,
> {
    match role {
        None => Some(Numeral::zero()),
        Some(i) => match group_text(groups, i) {
            Some(t) => numeral_of(t),
            None => None,
        },
    }
}

/// The reading that the groups hold: degrees with an optional minus sign,
/// then minutes and seconds. `None` where a group is missing or is no numeral.
pub open spec fn reading_from(groups: Seq<Option<Seq<char>>>, roles: Roles) -> Option<
    Sexagesimal,
> {
    match group_text(groups, roles.degrees) {
        None => None,
        Some(t) => match (
            signed_numeral_of(t),
            part_from(groups, roles.minutes),
            part_from(groups, roles.seconds),
        ) {
            (Some((negative, degrees)), Some(minutes), Some(seconds)) => Some(
                Sexagesimal { negative, degrees, minutes, seconds },
            ),
            _ => None,
        },
    }
}

/// The latitude hemisphere that the groups hold: North where the layout has no
/// letter. `None` where the letter is missing or is neither `N` nor `S`.
pub open spec fn ns_from(groups: Seq<Option<Seq<char>>>, roles: Roles) -> Option<NS> {
    match roles.hemisphere {
        None => Some(NS::North),
        Some(i) => match group_text(groups, i) {
            Some(t) => ns_of(t),
            None => None,
        },
    }
}

/// The longitude hemisphere that the groups hold: East where the layout has no
/// letter. `None` where the letter is missing or is neither `E` nor `W`.
pub open spec fn ew_from(groups: Seq<Option<Seq<char>>>, roles: Roles) -> Option<EW> {
    match roles.hemisphere {
        None => Some(EW::East),
        Some(i) => match group_text(groups, i) {
            Some(t) => ew_of(t),
            None => None,
        },
    }
}

/// The latitude that the groups of a one-sided match give.
pub open spec fn latitude_from(layout: Layout, groups: Seq<Option<Seq<char>>>) -> Option<
    Sexagesimal,
> {
    let roles = layout.roles(false);
    match (reading_from(groups, roles), ns_from(groups, roles)) {
        (Some(reading), Some(ns)) => latitude_of(reading, ns),
        _ => None,
    }
}

/// The longitude that the groups of a one-sided match give.
pub open spec fn longitude_from(layout: Layout, groups: Seq<Option<Seq<char>>>) -> Option<
    Sexagesimal,
> {
    let roles = layout.roles(false);
    match (reading_from(groups, roles), ew_from(groups, roles)) {
        (Some(reading), Some(ew)) => longitude_of(reading, ew),
        _ => None,
    }
}

/// The point that the groups of a two-sided match give: the first angle is
/// the latitude, the second the longitude.
pub open spec fn position_from(layout: Layout, groups: Seq<Option<Seq<char>>>) -> Option<
    Position,
> {
    let first = layout.roles(false);
    let second = layout.roles(true);
    match (
        reading_from(groups, first),
        ns_from(groups, first),
        reading_from(groups, second),
        ew_from(groups, second),
    ) {
        (Some(lat), Some(ns), Some(lng), Some(ew)) => position_of(lat, ns, lng, ew),
        _ => None,
    }
}

/// What an optional string slice is, as a model.
pub open spec fn text_view(r: Option<&str>) -> Option<Seq<char>> {
    match r {
        Some(t) => Some(t@),
        None => None,
    }
}

/// What an extracted reading is, as a model: `None` for a failure.
pub open spec fn reading_view(r: Result<DMS, ParseErrorInternal>) -> Option<Sexagesimal> {
    match r {
        Ok(dms) => Some(dms@),
        Err(_) => None,
    }
}

/// The text of capture group `i`, if it is there.
fn group<'a>(groups: &'a Vec<Option<String>>, i: usize) -> (r: Option<&'a str>)
    ensures
        text_view(r) == group_text(groups_view(*groups), i),
{
    if i < groups.len() {
        match &groups[i] {
            Some(s) => Some(s.as_str()),
            None => None,
        }
    } else {
        None
    }
}

/// Reads the minutes or the seconds.
fn extract_part(groups: &Vec<Option<String>>, role: Option<usize>) -> (r: Result<
    Decimal,
    ParseErrorInternal,
>)
    ensures
        decimal_view(r) == part_from(groups_view(*groups), role),
{
    match role {
        None => Ok(Decimal::zero()),
        Some(i) => match group(groups, i) {
            Some(t) => parse_magnitude(t),
            None => Err(ParseErrorInternal),
        },
    }
}

/// Reads degrees, minutes and seconds from the groups that `roles` names.
pub fn extract_dms(groups: &Vec<Option<String>>, roles: Roles) -> (r: Result<
    DMS,
    ParseErrorInternal,
>)
    ensures
        reading_view(r) == reading_from(groups_view(*groups), roles),
{
    let t = match group(groups, roles.degrees) {
        Some(t) => t,
        None => {
            return Err(ParseErrorInternal);
        },
    };
    let (negative, d) = match parse_allow_comma(t) {
        Ok(signed) => signed,
        Err(e) => {
            return Err(e);
        },
    };
    let m = match extract_part(groups, roles.minutes) {
        Ok(m) => m,
        Err(e) => {
            return Err(e);
        },
    };
    let s = match extract_part(groups, roles.seconds) {
        Ok(s) => s,
        Err(e) => {
            return Err(e);
        },
    };
    Ok(DMS { negative, d, m, s })
}

/// Reads the latitude hemisphere from the group that `roles` names.
pub fn extract_ns(groups: &Vec<Option<String>>, roles: Roles) -> (r: Result<
    NS,
    ParseErrorInternal,
>)
    ensures
        ns_view(r) == ns_from(groups_view(*groups), roles),
{
    match roles.hemisphere {
        None => Ok(NS::North),
        Some(i) => match group(groups, i) {
            Some(t) => NS::try_from(t),
            None => Err(ParseErrorInternal),
        },
    }
}

/// Reads the longitude hemisphere from the group that `roles` names.
pub fn extract_ew(groups: &Vec<Option<String>>, roles: Roles) -> (r: Result<
    EW,
    ParseErrorInternal,
>)
    ensures
        ew_view(r) == ew_from(groups_view(*groups), roles),
{
    match roles.hemisphere {
        None => Ok(EW::East),
        Some(i) => match group(groups, i) {
            Some(t) => EW::try_from(t),
            None => Err(ParseErrorInternal),
        },
    }
}

/// Builds the latitude from the capture groups of a one-sided match of
/// `layout`. Fails where a group is missing or malformed, where the letter is
/// no latitude hemisphere, and where the angle is out of range.
pub fn latitude_from_groups(layout: Layout, groups: &Vec<Option<String>>) -> (r: Result<
    Angle,
    ParseErrorInternal,
>)
    ensures
        angle_view(r) == latitude_from(layout, groups_view(*groups)),
{
    let roles = layout.capture_roles(false);
    let lat = match extract_dms(groups, roles) {
        Ok(lat) => lat,
        Err(e) => {
            return Err(e);
        },
    };
    let ns = match extract_ns(groups, roles) {
        Ok(ns) => ns,
        Err(e) => {
            return Err(e);
        },
    };
    build_lat(lat, ns)
}

/// Builds the longitude from the capture groups of a one-sided match of
/// `layout`. Fails where a group is missing or malformed, where the letter is
/// no longitude hemisphere, and where the angle is out of range.
pub fn longitude_from_groups(layout: Layout, groups: &Vec<Option<String>>) -> (r: Result<
    Angle,
    ParseErrorInternal,
>)
    ensures
        angle_view(r) == longitude_from(layout, groups_view(*groups)),
{
    let roles = layout.capture_roles(false);
    let lng = match extract_dms(groups, roles) {
        Ok(lng) => lng,
        Err(e) => {
            return Err(e);
        },
    };
    let ew = match extract_ew(groups, roles) {
        Ok(ew) => ew,
        Err(e) => {
            return Err(e);
        },
    };
    build_lng(lng, ew)
}

/// Builds the point from the capture groups of a two-sided match of `layout`:
/// the first angle written is the latitude, the second the longitude.
pub fn point_from_groups(layout: Layout, groups: &Vec<Option<String>>) -> (r: Result<
    Point,
    ParseErrorInternal,
>)
    ensures
        point_view(r) == position_from(layout, groups_view(*groups)),
{
    let first = layout.capture_roles(false);
    let second = layout.capture_roles(true);
    let lat = match extract_dms(groups, first) {
        Ok(lat) => lat,
        Err(e) => {
            return Err(e);
        },
    };
    let ns = match extract_ns(groups, first) {
        Ok(ns) => ns,
        Err(e) => {
            return Err(e);
        },
    };
    let lng = match extract_dms(groups, second) {
        Ok(lng) => lng,
        Err(e) => {
            return Err(e);
        },
    };
    let ew = match extract_ew(groups, second) {
        Ok(ew) => ew,
        Err(e) => {
            return Err(e);
        },
    };
    build_point(lat, ns, lng, ew)
}

} // verus!
