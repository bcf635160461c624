//! Angles in degrees, minutes and seconds: how a reading and a hemisphere
//! become a signed angle, and which angles are in range.

use crate::decimal::{all_decimal, digits_value, pow10, Decimal, Numeral};
use crate::errors::ParseErrorInternal;
use crate::hemisphere::{EW, NS};
use vstd::prelude::*;

verus! {

/// Largest magnitude of a latitude, in degrees.
pub const MAX_LATITUDE: u16 = 90;

/// Largest magnitude of a longitude, in degrees.
pub const MAX_LONGITUDE: u16 = 180;

/// An angle in degrees, minutes and seconds with a sign. Its magnitude is
/// `degrees + minutes / 60 + seconds / 3600`, each part a decimal numeral.
///
/// This is the model of both a reading ([`DMS`]), where `negative` says that a
/// minus sign stood before the degrees, whatever the degrees are, and of a
/// finished [`Angle`], where it says that the angle lies south or west.
pub struct Sexagesimal {
    pub negative: bool,
    pub degrees: Numeral,
    pub minutes: Numeral,
    pub seconds: Numeral,
}

/// The larger of two numbers.
pub open spec fn larger(a: nat, b: nat) -> nat {
    if a >= b {
        a
    } else {
        b
    }
}

/// The magnitude of `d` degrees, `m` minutes and `s` seconds in arc-seconds,
/// times `10^j`, each part rounded down at that precision.
pub open spec fn arcsec(d: Numeral, m: Numeral, s: Numeral, j: nat) -> nat {
    3600 * d.scaled(j) + 60 * m.scaled(j) + s.scaled(j)
}

/// The number of decimal places at which all three parts are exact.
pub open spec fn precision(d: Numeral, m: Numeral, s: Numeral) -> nat {
    larger(d.frac.len(), larger(m.frac.len(), s.frac.len()))
}

/// Whether `d + m / 60 + s / 3600 <= bound`, compared exactly.
pub open spec fn within(d: Numeral, m: Numeral, s: Numeral, bound: nat) -> bool {
    arcsec(d, m, s, precision(d, m, s)) <= 3600 * bound * pow10(precision(d, m, s))
}

impl Sexagesimal {
    /// Whether the three parts are well-formed numerals.
    pub open spec fn is_reading(self) -> bool {
        self.degrees.is_numeral() && self.minutes.is_numeral() && self.seconds.is_numeral()
    }

    /// The number of decimal places at which the angle is exact.
    pub open spec fn precision(self) -> nat {
        precision(self.degrees, self.minutes, self.seconds)
    }

    /// The magnitude in arc-seconds times `10^j`; exact once
    /// `j >= self.precision()`.
    pub open spec fn arcsec(self, j: nat) -> nat {
        arcsec(self.degrees, self.minutes, self.seconds, j)
    }

    /// The signed value in arc-seconds times `10^j`.
    pub open spec fn signed_arcsec(self, j: nat) -> int {
        if self.negative {
            -(self.arcsec(j) as int)
        } else {
            self.arcsec(j) as int
        }
    }

    /// Whether the magnitude is at most `bound` degrees.
    pub open spec fn at_most(self, bound: nat) -> bool {
        within(self.degrees, self.minutes, self.seconds, bound)
    }

    /// The same parts with another sign.
    pub open spec fn with_sign(self, negative: bool) -> Sexagesimal {
        Sexagesimal {
            negative,
            degrees: self.degrees,
            minutes: self.minutes,
            seconds: self.seconds,
        }
    }
}

/// The latitude that a reading and a hemisphere give. A minus sign before the
/// degrees stands for the whole reading: it always inverts the hemisphere,
/// once, also where the degrees are zero (`-0° 30′` lies south). The result
/// lies south exactly if the hemisphere after that is South, and there is none
/// if the magnitude exceeds 90 degrees.
pub open spec fn latitude_of(reading: Sexagesimal, ns: NS) -> Option<Sexagesimal> {
    let ns = if reading.negative {
        ns.inverted()
    } else {
        ns
    };
    let angle = reading.with_sign(ns.is_negative());
    if angle.at_most(MAX_LATITUDE as nat) {
        Some(angle)
    } else {
        None
    }
}

/// The longitude that a reading and a hemisphere give: as [`latitude_of`], with
/// West as the negative side and a limit of 180 degrees.
pub open spec fn longitude_of(reading: Sexagesimal, ew: EW) -> Option<Sexagesimal> {
    let ew = if reading.negative {
        ew.inverted()
    } else {
        ew
    };
    let angle = reading.with_sign(ew.is_negative());
    if angle.at_most(MAX_LONGITUDE as nat) {
        Some(angle)
    } else {
        None
    }
}

/// A point on the map plane: `x` is the longitude, `y` the latitude.
pub struct Position {
    pub x: Sexagesimal,
    pub y: Sexagesimal,
}

/// The point that two readings and their hemispheres give: the longitude
/// first, the latitude second. There is none unless both angles are in range.
pub open spec fn position_of(lat: Sexagesimal, ns: NS, lng: Sexagesimal, ew: EW) -> Option<
    Position,
> {
    match (longitude_of(lng, ew), latitude_of(lat, ns)) {
        (Some(x), Some(y)) => Some(Position { x, y }),
        _ => None,
    }
}

/// Parsed degrees, minutes, seconds, before the hemisphere is applied.
/// `negative` records a minus sign before the degrees.
#[derive(Debug)]
pub struct DMS {
    pub negative: bool,
    pub d: Decimal,
    pub m: Decimal,
    pub s: Decimal,
}

impl View for DMS {
    type V = Sexagesimal;

    open spec fn view(&self) -> Sexagesimal {
        Sexagesimal {
            negative: self.negative,
            degrees: self.d@,
            minutes: self.m@,
            seconds: self.s@,
        }
    }
}

/// A signed angle that passed its range check.
#[derive(Debug)]
pub struct Angle {
    negative: bool,
    degrees: Decimal,
    minutes: Decimal,
    seconds: Decimal,
}

impl View for Angle {
    type V = Sexagesimal;

    closed spec fn view(&self) -> Sexagesimal {
        Sexagesimal {
            negative: self.negative,
            degrees: self.degrees@,
            minutes: self.minutes@,
            seconds: self.seconds@,
        }
    }
}

impl Angle {
    /// Whether the angle lies south or west.
    pub fn is_negative(&self) -> (r: bool)
        ensures
            r == self@.negative,
    {
        self.negative
    }

    /// The degrees of the magnitude.
    pub fn degrees(&self) -> (r: &Decimal)
        ensures
            r@ == self@.degrees,
    {
        &self.degrees
    }

    /// The minutes of the magnitude.
    pub fn minutes(&self) -> (r: &Decimal)
        ensures
            r@ == self@.minutes,
    {
        &self.minutes
    }

    /// The seconds of the magnitude.
    pub fn seconds(&self) -> (r: &Decimal)
        ensures
            r@ == self@.seconds,
    {
        &self.seconds
    }
}

/// A pair of angles: `x` is the longitude, `y` the latitude.
#[derive(Debug)]
pub struct Point {
    x: Angle,
    y: Angle,
}

impl View for Point {
    type V = Position;

    closed spec fn view(&self) -> Position {
        Position { x: self.x@, y: self.y@ }
    }
}

impl Point {
    /// The longitude.
    pub fn x(&self) -> (r: &Angle)
        ensures
            r@ == self@.x,
    {
        &self.x
    }

    /// The latitude.
    pub fn y(&self) -> (r: &Angle)
        ensures
            r@ == self@.y,
    {
        &self.y
    }
}

/// What a built angle is, as a model: `None` for a failure.
pub open spec fn angle_view(r: Result<Angle, ParseErrorInternal>) -> Option<Sexagesimal> {
    match r {
        Ok(a) => Some(a@),
        Err(_) => None,
    }
}

/// What a built point is, as a model: `None` for a failure.
pub open spec fn point_view(r: Result<Point, ParseErrorInternal>) -> Option<Position> {
    match r {
        Ok(p) => Some(p@),
        Err(_) => None,
    }
}

/// How far `d`, `m`, `s` stay below `bound` degrees, in arc-seconds times
/// `10^j`. Below zero once the first `j` decimal places already exceed it.
spec fn gap(d: Numeral, m: Numeral, s: Numeral, bound: nat, j: nat) -> int {
    3600 * bound * pow10(j) - arcsec(d, m, s, j)
}

/// What the digits at decimal place `j` add, in arc-seconds.
spec fn place_weight(d: Numeral, m: Numeral, s: Numeral, j: nat) -> nat {
    3600 * d.frac_digit(j) + 60 * m.frac_digit(j) + s.frac_digit(j)
}

/// Largest `place_weight` of well-formed numerals, and so the gap from which
/// on no further digits can reach the bound.
const WIDE: i64 = 32949;

proof fn lemma_gap_step(d: Numeral, m: Numeral, s: Numeral, bound: nat, j: nat)
    ensures
        gap(d, m, s, bound, j + 1) == 10 * gap(d, m, s, bound, j) - place_weight(d, m, s, j),
{
    let p = pow10(j);
    assert(pow10(j + 1) == 10 * p);
    assert(3600 * bound * (10 * p) == 10 * (3600 * bound * p)) by (nonlinear_arith);
    assert(d.scaled(j + 1) == 10 * d.scaled(j) + d.frac_digit(j));
    assert(m.scaled(j + 1) == 10 * m.scaled(j) + m.frac_digit(j));
    assert(s.scaled(j + 1) == 10 * s.scaled(j) + s.frac_digit(j));
}

proof fn lemma_gap_stays_negative(d: Numeral, m: Numeral, s: Numeral, bound: nat, j: nat, k: nat)
    requires
        j <= k,
        gap(d, m, s, bound, j) < 0,
    ensures
        gap(d, m, s, bound, k) < 0,
    decreases k - j,
{
    if j < k {
        lemma_gap_step(d, m, s, bound, j);
        lemma_gap_stays_negative(d, m, s, bound, j + 1, k);
    }
}

proof fn lemma_gap_stays_wide(d: Numeral, m: Numeral, s: Numeral, bound: nat, j: nat, k: nat)
    requires
        d.is_numeral(),
        m.is_numeral(),
        s.is_numeral(),
        j <= k,
        9 * gap(d, m, s, bound, j) >= WIDE,
    ensures
        gap(d, m, s, bound, k) >= 0,
        9 * gap(d, m, s, bound, k) >= WIDE,
    decreases k - j,
{
    if j < k {
        lemma_gap_step(d, m, s, bound, j);
        assert(place_weight(d, m, s, j) <= WIDE);
        lemma_gap_stays_wide(d, m, s, bound, j + 1, k);
    }
}

/// The comparison does not depend on the precision at which it is made, once
/// that precision holds every digit: further places only add zeros.
pub proof fn lemma_within_at_precision(d: Numeral, m: Numeral, s: Numeral, bound: nat, j: nat)
    requires
        j >= precision(d, m, s),
    ensures
        within(d, m, s, bound) <==> arcsec(d, m, s, j) <= 3600 * bound * pow10(j),
    decreases j,
{
    if j > precision(d, m, s) {
        let i = (j - 1) as nat;
        lemma_within_at_precision(d, m, s, bound, i);
        lemma_gap_step(d, m, s, bound, i);
        assert(place_weight(d, m, s, i) == 0);
    }
}

/// Cap on the whole part in [`capped_value`]: more than any bound in
/// arc-seconds that fits the checks below.
const CAP: u64 = 1_000_000_000;

/// The value of a run of digits, or `CAP` if it is that or more.
fn capped_value(digits: &Vec<u8>) -> (v: u64)
    requires
        all_decimal(digits@),
    ensures
        v == if digits_value(digits@) < CAP {
            digits_value(digits@)
        } else {
            CAP as nat
        },
{
    let mut v: u64 = 0;
    let mut i: usize = 0;
    while i < digits.len()
        invariant
            i <= digits.len(),
            all_decimal(digits@),
            v <= CAP,
            v == if digits_value(digits@.take(i as int)) < CAP {
                digits_value(digits@.take(i as int))
            } else {
                CAP as nat
            },
        decreases digits.len() - i,
    {
        proof {
            let next = digits@.take(i + 1);
            assert(next.drop_last() =~= digits@.take(i as int));
            assert(next.last() == digits@[i as int]);
        }
        v = 10 * v + digits[i] as u64;
        if v > CAP {
            v = CAP;
        }
        i = i + 1;
    }
    proof {
        assert(digits@.take(i as int) =~= digits@);
    }
    v
}

/// The digit at place `j`, zero beyond the digits written.
fn digit_at(digits: &Vec<u8>, j: usize) -> (r: u8)
    ensures
        r == if j < digits@.len() {
            digits@[j as int]
        } else {
            0
        },
{
    if j < digits.len() {
        digits[j]
    } else {
        0
    }
}

/// Whether `d + m / 60 + s / 3600 <= bound`, decided exactly, whatever the
/// number of digits: the gap to the bound is followed one decimal place at a
/// time until its sign can no longer change.
pub fn at_most(d: &Decimal, m: &Decimal, s: &Decimal, bound: u16) -> (r: bool)
    ensures
        r == within(d@, m@, s@, bound as nat),
        d@.is_numeral() && m@.is_numeral() && s@.is_numeral(),
{
    let d_whole = d.whole_digits();
    let m_whole = m.whole_digits();
    let s_whole = s.whole_digits();
    let d_frac = d.frac_digits();
    let m_frac = m.frac_digits();
    let s_frac = s.frac_digits();
    let mut k: usize = d_frac.len();
    if m_frac.len() > k {
        k = m_frac.len();
    }
    if s_frac.len() > k {
        k = s_frac.len();
    }
    assert(k == precision(d@, m@, s@));
    let dv = capped_value(d_whole);
    let mv = capped_value(m_whole);
    let sv = capped_value(s_whole);
    assert(pow10(0) == 1);
    if dv >= CAP || mv >= CAP || sv >= CAP {
        proof {
            assert(gap(d@, m@, s@, bound as nat, 0) < 0);
            lemma_gap_stays_negative(d@, m@, s@, bound as nat, 0, k as nat);
        }
        return false;
    }
    let mut g: i64 = 3600 * (bound as i64) - (3600 * dv + 60 * mv + sv) as i64;
    let mut j: usize = 0;
    loop
        invariant
            d_frac@ == d@.frac,
            m_frac@ == m@.frac,
            s_frac@ == s@.frac,
            d@.is_numeral(),
            m@.is_numeral(),
            s@.is_numeral(),
            k == precision(d@, m@, s@),
            j <= k,
            g == gap(d@, m@, s@, bound as nat, j as nat),
            -4_000_000_000_000 <= g <= 4_000_000_000_000,
        decreases k - j,
    {
        if g < 0 {
            proof {
                lemma_gap_stays_negative(d@, m@, s@, bound as nat, j as nat, k as nat);
            }
            return false;
        }
        if 9 * g >= WIDE {
            proof {
                lemma_gap_stays_wide(d@, m@, s@, bound as nat, j as nat, k as nat);
            }
            return true;
        }
        if j == k {
            return true;
        }
        let weight: i64 = 3600 * (digit_at(d_frac, j) as i64) + 60 * (digit_at(m_frac, j) as i64)
            + digit_at(s_frac, j) as i64;
        proof {
            lemma_gap_step(d@, m@, s@, bound as nat, j as nat);
        }
        g = 10 * g - weight;
        j = j + 1;
    }
}

/// Builds a latitude from a reading and its hemisphere. A minus sign before
/// the degrees inverts the hemisphere, also where the degrees are zero. The
/// reading is accepted exactly if its magnitude is at most 90 degrees.
pub fn build_lat(lat: DMS, ns: NS) -> (r: Result<Angle, ParseErrorInternal>)
    ensures
        angle_view(r) == latitude_of(lat@, ns),
        r matches Ok(a) ==> a@.is_reading() && a@.at_most(MAX_LATITUDE as nat),
{
    let mut ns = ns;
    // the minus sign must go in front of the whole coordinate, not just degrees!
    if lat.negative {
        ns = ns.invert();
    }
    if !at_most(&lat.d, &lat.m, &lat.s, MAX_LATITUDE) {
        return Err(ParseErrorInternal);
    }
    Ok(Angle { negative: ns == NS::South, degrees: lat.d, minutes: lat.m, seconds: lat.s })
}

/// Builds a longitude from a reading and its hemisphere. A minus sign before
/// the degrees inverts the hemisphere, also where the degrees are zero. The
/// reading is accepted exactly if its magnitude is at most 180 degrees.
pub fn build_lng(lng: DMS, ew: EW) -> (r: Result<Angle, ParseErrorInternal>)
    ensures
        angle_view(r) == longitude_of(lng@, ew),
        r matches Ok(a) ==> a@.is_reading() && a@.at_most(MAX_LONGITUDE as nat),
{
    let mut ew = ew;
    // the minus sign must go in front of the whole coordinate, not just degrees!
    if lng.negative {
        ew = ew.invert();
    }
    if !at_most(&lng.d, &lng.m, &lng.s, MAX_LONGITUDE) {
        return Err(ParseErrorInternal);
    }
    Ok(Angle { negative: ew == EW::West, degrees: lng.d, minutes: lng.m, seconds: lng.s })
}

/// Builds a point from a latitude reading and a longitude reading. The
/// longitude becomes `x` and the latitude `y`, whatever the order they were
/// written in.
pub fn build_point(lat: DMS, ns: NS, lng: DMS, ew: EW) -> (r: Result<Point, ParseErrorInternal>)
    ensures
        point_view(r) == position_of(lat@, ns, lng@, ew),
        r matches Ok(p) ==> {
            &&& longitude_of(lng@, ew) == Some(p@.x)
            &&& latitude_of(lat@, ns) == Some(p@.y)
            &&& p@.x.is_reading() && p@.x.at_most(MAX_LONGITUDE as nat)
            &&& p@.y.is_reading() && p@.y.at_most(MAX_LATITUDE as nat)
        },
{
    let x = match build_lng(lng, ew) {
        Ok(x) => x,
        Err(e) => {
            return Err(e);
        },
    };
    let y = match build_lat(lat, ns) {
        Ok(y) => y,
        Err(e) => {
            return Err(e);
        },
    };
    Ok(Point { x, y })
}

} // verus!
