//! Laws of the angle builder and of the dispatcher, each proved from the
//! definitions that the contracts of the library use.

use crate::angle::{latitude_of, longitude_of, position_of, Sexagesimal};
use crate::decimal::{
    all_zero, digits_value, lemma_comma_is_period, lemma_nonzero_scaled, lemma_pow10_positive,
    lemma_read_only_what_is_written, lemma_scaled_above, lemma_scaled_bounds, lemma_scaled_whole,
    lemma_zero_scaled, pow10, with_periods,
};
use crate::extract::{
    ew_from, group_text, latitude_from, longitude_from, ns_from, part_from, position_from,
    reading_from,
};
use crate::grammar::{Layout, Roles};
use crate::hemisphere::{EW, NS};
use crate::parse::{
    first_pair_match, first_single_match, parsed_latitude, parsed_longitude, parsed_position,
};
use crate::text::trimmed;
use vstd::prelude::*;

verus! {

/// A reading in plain sexagesimal form: no minus sign, whole degrees and whole
/// minutes, minutes and seconds below 60.
pub open spec fn is_sexagesimal(reading: Sexagesimal) -> bool {
    &&& reading.is_reading()
    &&& !reading.negative
    &&& reading.degrees.frac.len() == 0
    &&& reading.minutes.frac.len() == 0
    &&& digits_value(reading.minutes.whole) < 60
    &&& digits_value(reading.seconds.whole) < 60
}

/// Whether a reading with whole degrees stays within `bound` degrees by the
/// look of it: fewer degrees than `bound`, or just `bound` degrees and nothing
/// in the minutes and seconds.
pub open spec fn reaches_at_most(reading: Sexagesimal, bound: nat) -> bool {
    let degrees = digits_value(reading.degrees.whole);
    degrees < bound || (degrees == bound && reading.minutes.is_zero()
        && reading.seconds.is_zero())
}

/// The sign of a hemisphere as a factor: -1 for the negative side.
pub open spec fn sign(negative: bool) -> int {
    if negative {
        -1
    } else {
        1
    }
}

/// With whole degrees `D` and whole minutes `M` the magnitude is
/// `D + M / 60 + S / 3600`: in arc-seconds at precision `j`, that is
/// `(3600 * D + 60 * M) * 10^j` and the seconds at that precision.
pub proof fn lemma_sexagesimal_magnitude(reading: Sexagesimal, j: nat)
    requires
        reading.degrees.frac.len() == 0,
        reading.minutes.frac.len() == 0,
    ensures
        reading.arcsec(j) == (3600 * digits_value(reading.degrees.whole) + 60 * digits_value(
            reading.minutes.whole,
        )) * pow10(j) + reading.seconds.scaled(j),
{
    let d = digits_value(reading.degrees.whole);
    let m = digits_value(reading.minutes.whole);
    let p = pow10(j);
    lemma_scaled_whole(reading.degrees, j);
    lemma_scaled_whole(reading.minutes, j);
    assert(3600 * (d * p) + 60 * (m * p) == (3600 * d + 60 * m) * p) by (nonlinear_arith);
}

/// The range check on a plain sexagesimal reading is the one made by eye: it
/// is within `bound` degrees exactly if it has fewer degrees than `bound`, or
/// `bound` degrees and neither minutes nor seconds.
pub proof fn lemma_sexagesimal_range(reading: Sexagesimal, bound: nat)
    requires
        is_sexagesimal(reading),
    ensures
        reading.at_most(bound) <==> reaches_at_most(reading, bound),
{
    let k = reading.precision();
    let p = pow10(k);
    let d = digits_value(reading.degrees.whole);
    let m = digits_value(reading.minutes.whole);
    let s = digits_value(reading.seconds.whole);
    lemma_pow10_positive(k);
    lemma_scaled_whole(reading.degrees, k);
    lemma_scaled_whole(reading.minutes, k);
    lemma_scaled_bounds(reading.seconds, k);
    assert(3600 * bound * p == 3600 * (bound * p)) by (nonlinear_arith);
    if d < bound {
        assert((d + 1) * p <= bound * p) by (nonlinear_arith)
            requires
                d + 1 <= bound,
                p >= 0,
        ;
        assert((d + 1) * p == d * p + p) by (nonlinear_arith);
        assert(m * p <= 59 * p) by (nonlinear_arith)
            requires
                m <= 59,
                p >= 0,
        ;
        assert((s + 1) * p <= 60 * p) by (nonlinear_arith)
            requires
                s + 1 <= 60,
                p >= 0,
        ;
    } else if d == bound {
        if reading.minutes.is_zero() && reading.seconds.is_zero() {
            lemma_zero_scaled(reading.minutes, k);
            lemma_zero_scaled(reading.seconds, k);
        } else if !reading.minutes.is_zero() {
            lemma_nonzero_scaled(reading.minutes, k);
        } else {
            lemma_nonzero_scaled(reading.seconds, k);
        }
    } else {
        assert(d * p >= (bound + 1) * p) by (nonlinear_arith)
            requires
                d >= bound + 1,
                p >= 0,
        ;
        assert((bound + 1) * p == bound * p + p) by (nonlinear_arith);
    }
}

/// Whether a reading exceeds `bound` degrees by the look of it: more whole
/// degrees than `bound`, or `bound` whole degrees and a digit other than zero
/// anywhere after them.
pub open spec fn exceeds(reading: Sexagesimal, bound: nat) -> bool {
    let degrees = digits_value(reading.degrees.whole);
    degrees > bound || (degrees == bound && (!all_zero(reading.degrees.frac)
        || !reading.minutes.is_zero() || !reading.seconds.is_zero()))
}

/// Whatever the form of the reading, a magnitude that exceeds the bound fails
/// the range check: more whole degrees than `bound`, or `bound` whole degrees
/// and anything but zeros after them.
pub proof fn lemma_beyond_bound(reading: Sexagesimal, bound: nat)
    requires
        reading.is_reading(),
        exceeds(reading, bound),
    ensures
        !reading.at_most(bound),
{
    let k = reading.precision();
    let p = pow10(k);
    let d = digits_value(reading.degrees.whole);
    lemma_pow10_positive(k);
    lemma_scaled_bounds(reading.degrees, k);
    assert(3600 * bound * p == 3600 * (bound * p)) by (nonlinear_arith);
    assert(d * p >= bound * p) by (nonlinear_arith)
        requires
            d >= bound,
            p >= 0,
    ;
    if d > bound {
        assert(d * p >= (bound + 1) * p) by (nonlinear_arith)
            requires
                d >= bound + 1,
                p >= 0,
        ;
        assert((bound + 1) * p == bound * p + p) by (nonlinear_arith);
    } else if !all_zero(reading.degrees.frac) {
        let i = choose|i: int|
            0 <= i < reading.degrees.frac.len() && reading.degrees.frac[i] != 0;
        lemma_scaled_above(reading.degrees, i as nat, k);
    } else if !reading.minutes.is_zero() {
        lemma_nonzero_scaled(reading.minutes, k);
    } else {
        lemma_nonzero_scaled(reading.seconds, k);
    }
}

/// A plain sexagesimal reading `D° M′ S″` of at most 90 degrees is accepted as
/// a latitude. The latitude keeps the three parts, lies south exactly if the
/// hemisphere is South, and so measures `D + M / 60 + S / 3600` degrees,
/// negated exactly for South.
pub proof fn lemma_sexagesimal_latitude(reading: Sexagesimal, ns: NS, j: nat)
    requires
        is_sexagesimal(reading),
        reaches_at_most(reading, 90),
    ensures
        latitude_of(reading, ns) == Some(reading.with_sign(ns.is_negative())),
        reading.with_sign(ns.is_negative()).signed_arcsec(j) == sign(ns == NS::South) * ((3600
            * digits_value(reading.degrees.whole) + 60 * digits_value(reading.minutes.whole))
            * pow10(j) + reading.seconds.scaled(j)),
{
    lemma_sexagesimal_range(reading, 90);
    lemma_sexagesimal_magnitude(reading, j);
}

/// A plain sexagesimal reading `D° M′ S″` of at most 180 degrees is accepted
/// as a longitude. The longitude keeps the three parts, lies west exactly if
/// the hemisphere is West, and so measures `D + M / 60 + S / 3600` degrees,
/// negated exactly for West.
pub proof fn lemma_sexagesimal_longitude(reading: Sexagesimal, ew: EW, j: nat)
    requires
        is_sexagesimal(reading),
        reaches_at_most(reading, 180),
    ensures
        longitude_of(reading, ew) == Some(reading.with_sign(ew.is_negative())),
        reading.with_sign(ew.is_negative()).signed_arcsec(j) == sign(ew == EW::West) * ((3600
            * digits_value(reading.degrees.whole) + 60 * digits_value(reading.minutes.whole))
            * pow10(j) + reading.seconds.scaled(j)),
{
    lemma_sexagesimal_range(reading, 180);
    lemma_sexagesimal_magnitude(reading, j);
}

/// An angle is accepted as a latitude exactly if its magnitude is at most 90
/// degrees, and as a longitude exactly if it is at most 180 degrees, whatever
/// its sign and hemisphere.
pub proof fn lemma_accepted_iff_in_range(reading: Sexagesimal, ns: NS, ew: EW)
    ensures
        latitude_of(reading, ns) is Some <==> reading.at_most(90),
        longitude_of(reading, ew) is Some <==> reading.at_most(180),
        latitude_of(reading, ns) matches Some(a) ==> a.at_most(90),
        longitude_of(reading, ew) matches Some(a) ==> a.at_most(180),
{
}

/// A minus sign before the degrees says the same as the opposite hemisphere,
/// whatever the degrees are: `-40° 26′ 46″ N` is `40° 26′ 46″ S`, and
/// `-0° 30′ N` is `0° 30′ S`.
pub proof fn lemma_minus_sign_is_opposite_hemisphere(reading: Sexagesimal, ns: NS, ew: EW)
    ensures
        latitude_of(reading.with_sign(true), ns) == latitude_of(
            reading.with_sign(false),
            ns.inverted(),
        ),
        longitude_of(reading.with_sign(true), ew) == longitude_of(
            reading.with_sign(false),
            ew.inverted(),
        ),
{
}

/// The opposite hemisphere negates the angle and changes nothing else: it is
/// accepted in the one exactly if it is in the other, with the same parts and
/// the opposite sign, so that the two values add up to zero.
pub proof fn lemma_opposite_hemisphere_negates(reading: Sexagesimal, ns: NS, ew: EW, j: nat)
    ensures
        latitude_of(reading, ns.inverted()) == match latitude_of(reading, ns) {
            Some(a) => Some(a.with_sign(!a.negative)),
            None => None,
        },
        longitude_of(reading, ew.inverted()) == match longitude_of(reading, ew) {
            Some(a) => Some(a.with_sign(!a.negative)),
            None => None,
        },
        latitude_of(reading, ns) matches Some(a) ==> a.with_sign(!a.negative).signed_arcsec(j)
            == -a.signed_arcsec(j),
        longitude_of(reading, ew) matches Some(a) ==> a.with_sign(!a.negative).signed_arcsec(j)
            == -a.signed_arcsec(j),
{
}

/// Inverting a hemisphere twice gives it back.
pub proof fn lemma_invert_twice(ns: NS, ew: EW)
    ensures
        ns.inverted().inverted() == ns,
        ew.inverted().inverted() == ew,
{
}

/// Two minus signs cancel: a minus sign before the degrees together with the
/// negative hemisphere gives an angle on the positive side.
pub proof fn lemma_double_negation(reading: Sexagesimal)
    ensures
        latitude_of(reading.with_sign(true), NS::South) matches Some(a) ==> !a.negative,
        longitude_of(reading.with_sign(true), EW::West) matches Some(a) ==> !a.negative,
{
}

/// In a point the longitude comes first and the latitude second, whatever the
/// order of the text: `x` is what the longitude reading gives with its
/// hemisphere, `y` what the latitude reading gives.
pub proof fn lemma_axis_order(lat: Sexagesimal, ns: NS, lng: Sexagesimal, ew: EW)
    ensures
        position_of(lat, ns, lng, ew) matches Some(p) ==> longitude_of(lng, ew) == Some(p.x)
            && latitude_of(lat, ns) == Some(p.y),
        position_of(lat, ns, lng, ew) is Some <==> longitude_of(lng, ew) is Some && latitude_of(
            lat,
            ns,
        ) is Some,
{
}

/// Of the two angles of a two-sided match the first written is the latitude
/// and becomes `y`, the second is the longitude and becomes `x`. With plain
/// readings, `x` lies west exactly if the second letter is `W` and `y` lies
/// south exactly if the first letter is `S`.
pub proof fn lemma_pair_axis_order(layout: Layout, groups: Seq<Option<Seq<char>>>)
    ensures
        position_from(layout, groups) matches Some(p) ==> {
            &&& reading_from(groups, layout.roles(false)) matches Some(lat)
            &&& ns_from(groups, layout.roles(false)) matches Some(ns)
            &&& reading_from(groups, layout.roles(true)) matches Some(lng)
            &&& ew_from(groups, layout.roles(true)) matches Some(ew)
            &&& latitude_of(lat, ns) == Some(p.y)
            &&& longitude_of(lng, ew) == Some(p.x)
            &&& !lat.negative ==> p.y.negative == (ns == NS::South)
            &&& !lng.negative ==> p.x.negative == (ew == EW::West)
        },
{
}

/// The capture groups with every comma replaced by a period.
pub open spec fn groups_with_periods(groups: Seq<Option<Seq<char>>>) -> Seq<Option<Seq<char>>> {
    Seq::new(
        groups.len(),
        |i: int|
            match groups[i] {
                Some(t) => Some(with_periods(t)),
                None => None,
            },
    )
}

proof fn lemma_comma_in_reading(groups: Seq<Option<Seq<char>>>, roles: Roles)
    ensures
        reading_from(groups_with_periods(groups), roles) == reading_from(groups, roles),
        ns_from(groups_with_periods(groups), roles) == ns_from(groups, roles),
        ew_from(groups_with_periods(groups), roles) == ew_from(groups, roles),
{
    let other = groups_with_periods(groups);
    assert forall|i: usize| #[trigger]
        group_text(other, i) == match group_text(groups, i) {
            Some(t) => Some(with_periods(t)),
            None => None,
        } by {}
    assert forall|role: Option<usize>| #[trigger]
        part_from(other, role) == part_from(groups, role) by {
        if let Some(i) = role {
            if let Some(t) = group_text(groups, i) {
                lemma_comma_is_period(t);
            }
        }
    }
    if let Some(t) = group_text(groups, roles.degrees) {
        lemma_comma_is_period(t);
    }
    if let Some(i) = roles.hemisphere {
        if let Some(t) = group_text(groups, i) {
            let u = with_periods(t);
            if t.len() == 1 {
                assert(u[0] == t[0] || t[0] == ',');
                assert(t =~= seq![t[0]]);
                assert(u =~= seq![u[0]]);
                assert(seq!['N'][0] == 'N' && seq!['S'][0] == 'S');
                assert(seq!['E'][0] == 'E' && seq!['W'][0] == 'W');
            }
        }
    }
}

/// A comma for the decimal point changes nothing: the captured numbers give
/// the same latitude, longitude or point whether their decimal separators are
/// commas or periods.
pub proof fn lemma_decimal_comma(layout: Layout, groups: Seq<Option<Seq<char>>>)
    ensures
        latitude_from(layout, groups_with_periods(groups)) == latitude_from(layout, groups),
        longitude_from(layout, groups_with_periods(groups)) == longitude_from(layout, groups),
        position_from(layout, groups_with_periods(groups)) == position_from(layout, groups),
{
    lemma_comma_in_reading(groups, layout.roles(false));
    lemma_comma_in_reading(groups, layout.roles(true));
}

/// Parsing is a function of the text: texts with the same characters parse to
/// the same outcome, and white space around the text plays no part.
pub proof fn lemma_parse_depends_on_text_alone(a: Seq<char>, b: Seq<char>)
    requires
        trimmed(a) == trimmed(b),
    ensures
        parsed_latitude(trimmed(a)) == parsed_latitude(trimmed(b)),
        parsed_longitude(trimmed(a)) == parsed_longitude(trimmed(b)),
        parsed_position(trimmed(a)) == parsed_position(trimmed(b)),
{
}

/// Whether the first one-sided pattern to match `s` is that of `layout`, with
/// these capture groups.
pub open spec fn single_match(s: Seq<char>, layout: Layout, groups: Seq<Option<Seq<char>>>) -> bool {
    first_single_match(s, 0) == Some((layout, groups))
}

/// Whether the first two-sided pattern to match `s` is that of `layout`, with
/// these capture groups.
pub open spec fn pair_match(s: Seq<char>, layout: Layout, groups: Seq<Option<Seq<char>>>) -> bool {
    first_pair_match(s, 0) == Some((layout, groups))
}

/// Whether the groups hold this reading and this latitude hemisphere, as the
/// only or first angle of the layout.
pub open spec fn holds_latitude(
    layout: Layout,
    groups: Seq<Option<Seq<char>>>,
    reading: Sexagesimal,
    ns: NS,
) -> bool {
    &&& reading_from(groups, layout.roles(false)) == Some(reading)
    &&& ns_from(groups, layout.roles(false)) == Some(ns)
}

/// Whether the groups hold this reading and this longitude hemisphere: as the
/// only angle of the layout or, with `second`, as the second of a pair.
pub open spec fn holds_longitude(
    layout: Layout,
    groups: Seq<Option<Seq<char>>>,
    second: bool,
    reading: Sexagesimal,
    ew: EW,
) -> bool {
    &&& reading_from(groups, layout.roles(second)) == Some(reading)
    &&& ew_from(groups, layout.roles(second)) == Some(ew)
}

/// What is read from capture groups is well-formed: every part of a reading
/// is a numeral of decimal digits.
pub proof fn lemma_reading_is_well_formed(groups: Seq<Option<Seq<char>>>, roles: Roles)
    ensures
        reading_from(groups, roles) matches Some(reading) ==> reading.is_reading(),
{
    if let Some(t) = group_text(groups, roles.degrees) {
        lemma_read_only_what_is_written(t);
        lemma_read_only_what_is_written(t.subrange(1, t.len() as int));
    }
    if let Some(i) = roles.minutes {
        if let Some(t) = group_text(groups, i) {
            lemma_read_only_what_is_written(t);
        }
    }
    if let Some(i) = roles.seconds {
        if let Some(t) = group_text(groups, i) {
            lemma_read_only_what_is_written(t);
        }
    }
}

/// At the entry points, a text is parsed as what its first match holds: the
/// reading and the hemisphere in the capture groups decide, and nothing else
/// of the text does. A text that no pattern matches is refused.
pub proof fn lemma_parsed_is_built_from_match(
    s: Seq<char>,
    layout: Layout,
    groups: Seq<Option<Seq<char>>>,
)
    ensures
        single_match(s, layout, groups) ==> parsed_latitude(s) == latitude_from(layout, groups),
        single_match(s, layout, groups) ==> parsed_longitude(s) == longitude_from(layout, groups),
        pair_match(s, layout, groups) ==> parsed_position(s) == position_from(layout, groups),
        first_single_match(s, 0) is None ==> parsed_latitude(s) is None && parsed_longitude(s)
            is None,
        first_pair_match(s, 0) is None ==> parsed_position(s) is None,
{
}

/// A text matched as a plain sexagesimal latitude `D° M′ S″` with its letter,
/// of at most 90 degrees, parses to `D + M / 60 + S / 3600` degrees, negated
/// exactly for South.
pub proof fn lemma_parsed_sexagesimal_latitude(
    s: Seq<char>,
    layout: Layout,
    groups: Seq<Option<Seq<char>>>,
    reading: Sexagesimal,
    ns: NS,
    j: nat,
)
    ensures
        single_match(s, layout, groups) && holds_latitude(layout, groups, reading, ns)
            && is_sexagesimal(reading) && reaches_at_most(reading, 90) ==> {
            &&& parsed_latitude(s) == Some(reading.with_sign(ns == NS::South))
            &&& reading.with_sign(ns == NS::South).signed_arcsec(j) == sign(ns == NS::South) * ((
            3600 * digits_value(reading.degrees.whole) + 60 * digits_value(reading.minutes.whole))
                * pow10(j) + reading.seconds.scaled(j))
        },
{
    if is_sexagesimal(reading) && reaches_at_most(reading, 90) {
        lemma_sexagesimal_latitude(reading, ns, j);
    }
}

/// A text matched as a plain sexagesimal longitude `D° M′ S″` with its
/// letter, of at most 180 degrees, parses to `D + M / 60 + S / 3600` degrees,
/// negated exactly for West.
pub proof fn lemma_parsed_sexagesimal_longitude(
    s: Seq<char>,
    layout: Layout,
    groups: Seq<Option<Seq<char>>>,
    reading: Sexagesimal,
    ew: EW,
    j: nat,
)
    ensures
        single_match(s, layout, groups) && holds_longitude(layout, groups, false, reading, ew)
            && is_sexagesimal(reading) && reaches_at_most(reading, 180) ==> {
            &&& parsed_longitude(s) == Some(reading.with_sign(ew == EW::West))
            &&& reading.with_sign(ew == EW::West).signed_arcsec(j) == sign(ew == EW::West) * ((
            3600 * digits_value(reading.degrees.whole) + 60 * digits_value(reading.minutes.whole))
                * pow10(j) + reading.seconds.scaled(j))
        },
{
    if is_sexagesimal(reading) && reaches_at_most(reading, 180) {
        lemma_sexagesimal_longitude(reading, ew, j);
    }
}

/// A text with a minus sign and a text with the opposite hemisphere parse to
/// the same: if one is matched with a minus sign before its degrees and the
/// other with the same numbers, no minus sign and the opposite letter (or,
/// for lack of a letter, the opposite of the default), the outcomes are
/// equal. The text without either parses to the negated angle.
pub proof fn lemma_parsed_minus_sign(
    a: Seq<char>,
    layout_a: Layout,
    groups_a: Seq<Option<Seq<char>>>,
    b: Seq<char>,
    layout_b: Layout,
    groups_b: Seq<Option<Seq<char>>>,
    reading: Sexagesimal,
    ns: NS,
    ew: EW,
)
    ensures
        single_match(a, layout_a, groups_a) && single_match(b, layout_b, groups_b)
            && holds_latitude(layout_a, groups_a, reading.with_sign(true), ns) && holds_latitude(
            layout_b,
            groups_b,
            reading.with_sign(false),
            ns.inverted(),
        ) ==> parsed_latitude(a) == parsed_latitude(b),
        single_match(a, layout_a, groups_a) && single_match(b, layout_b, groups_b)
            && holds_longitude(layout_a, groups_a, false, reading.with_sign(true), ew)
            && holds_longitude(layout_b, groups_b, false, reading.with_sign(false), ew.inverted())
            ==> parsed_longitude(a) == parsed_longitude(b),
        single_match(a, layout_a, groups_a) && single_match(b, layout_b, groups_b)
            && holds_latitude(layout_a, groups_a, reading.with_sign(true), ns) && holds_latitude(
            layout_b,
            groups_b,
            reading.with_sign(false),
            ns,
        ) ==> parsed_latitude(a) == match parsed_latitude(b) {
            Some(angle) => Some(angle.with_sign(!angle.negative)),
            None => None,
        },
{
}

/// A text matched as a pair parses to a point with the longitude first: `x`
/// is built from the second angle written and its letter, `y` from the first,
/// and both must be in range.
pub proof fn lemma_parsed_axis_order(
    s: Seq<char>,
    layout: Layout,
    groups: Seq<Option<Seq<char>>>,
    lat: Sexagesimal,
    ns: NS,
    lng: Sexagesimal,
    ew: EW,
)
    ensures
        pair_match(s, layout, groups) && holds_latitude(layout, groups, lat, ns)
            && holds_longitude(layout, groups, true, lng, ew) ==> parsed_position(s)
            == position_of(lat, ns, lng, ew),
        pair_match(s, layout, groups) && holds_latitude(layout, groups, lat, ns)
            && holds_longitude(layout, groups, true, lng, ew) ==> (parsed_position(s) matches Some(
            p,
        ) ==> Some(p.x) == longitude_of(lng, ew) && Some(p.y) == latitude_of(lat, ns)),
{
}

/// A comma for the decimal point changes nothing at the entry points: if a
/// text is matched with some capture groups and another text by the same
/// layout with the same groups but periods for commas, both parse to the
/// same.
pub proof fn lemma_parsed_decimal_comma(
    a: Seq<char>,
    b: Seq<char>,
    layout: Layout,
    groups: Seq<Option<Seq<char>>>,
)
    ensures
        single_match(a, layout, groups) && single_match(b, layout, groups_with_periods(groups))
            ==> parsed_latitude(a) == parsed_latitude(b) && parsed_longitude(a)
            == parsed_longitude(b),
        pair_match(a, layout, groups) && pair_match(b, layout, groups_with_periods(groups))
            ==> parsed_position(a) == parsed_position(b),
{
    lemma_decimal_comma(layout, groups);
}

/// Marks, spaces and separators play no part beyond the match: two texts whose
/// first matches hold the same readings and the same hemispheres parse to the
/// same, whatever glyphs stand between the numbers and whichever layouts
/// matched.
pub proof fn lemma_parsed_from_captures_alone(
    a: Seq<char>,
    layout_a: Layout,
    groups_a: Seq<Option<Seq<char>>>,
    b: Seq<char>,
    layout_b: Layout,
    groups_b: Seq<Option<Seq<char>>>,
)
    ensures
        single_match(a, layout_a, groups_a) && single_match(b, layout_b, groups_b) && reading_from(
            groups_a,
            layout_a.roles(false),
        ) == reading_from(groups_b, layout_b.roles(false)) ==> {
            &&& ns_from(groups_a, layout_a.roles(false)) == ns_from(
                groups_b,
                layout_b.roles(false),
            ) ==> parsed_latitude(a) == parsed_latitude(b)
            &&& ew_from(groups_a, layout_a.roles(false)) == ew_from(
                groups_b,
                layout_b.roles(false),
            ) ==> parsed_longitude(a) == parsed_longitude(b)
        },
        pair_match(a, layout_a, groups_a) && pair_match(b, layout_b, groups_b) && reading_from(
            groups_a,
            layout_a.roles(false),
        ) == reading_from(groups_b, layout_b.roles(false)) && ns_from(
            groups_a,
            layout_a.roles(false),
        ) == ns_from(groups_b, layout_b.roles(false)) && reading_from(
            groups_a,
            layout_a.roles(true),
        ) == reading_from(groups_b, layout_b.roles(true)) && ew_from(
            groups_a,
            layout_a.roles(true),
        ) == ew_from(groups_b, layout_b.roles(true)) ==> parsed_position(a) == parsed_position(b),
{
}

/// A text matched with a magnitude beyond the bound is refused, never clamped
/// or wrapped: more whole degrees than the bound, or the bound in whole
/// degrees and anything but zeros after them, whatever the letter.
pub proof fn lemma_parsed_beyond_bound(
    s: Seq<char>,
    layout: Layout,
    groups: Seq<Option<Seq<char>>>,
    reading: Sexagesimal,
)
    ensures
        single_match(s, layout, groups) && reading_from(groups, layout.roles(false)) == Some(
            reading,
        ) && exceeds(reading, 90) ==> parsed_latitude(s) is None,
        single_match(s, layout, groups) && reading_from(groups, layout.roles(false)) == Some(
            reading,
        ) && exceeds(reading, 180) ==> parsed_longitude(s) is None,
        pair_match(s, layout, groups) && reading_from(groups, layout.roles(false)) == Some(
            reading,
        ) && exceeds(reading, 90) ==> parsed_position(s) is None,
        pair_match(s, layout, groups) && reading_from(groups, layout.roles(true)) == Some(reading)
            && exceeds(reading, 180) ==> parsed_position(s) is None,
{
    lemma_reading_is_well_formed(groups, layout.roles(false));
    lemma_reading_is_well_formed(groups, layout.roles(true));
    if reading.is_reading() && exceeds(reading, 90) {
        lemma_beyond_bound(reading, 90);
    }
    if reading.is_reading() && exceeds(reading, 180) {
        lemma_beyond_bound(reading, 180);
    }
}

} // verus!
