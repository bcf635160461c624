use latlon::{Angle, Decimal, GeoParseError};

fn number(d: &Decimal) -> f64 {
    let mut text = String::new();
    for digit in d.whole_digits() {
        text.push((b'0' + *digit) as char);
    }
    if !d.frac_digits().is_empty() {
        text.push('.');
        for digit in d.frac_digits() {
            text.push((b'0' + *digit) as char);
        }
    }
    text.parse().unwrap()
}

fn degrees(a: &Angle) -> f64 {
    let magnitude = number(a.degrees()) + number(a.minutes()) / 60f64 + number(a.seconds()) / 3600f64;
    if a.is_negative() {
        -magnitude
    } else {
        magnitude
    }
}

fn parse_lat(text: &str) -> Result<f64, GeoParseError<&str>> {
    latlon::parse_lat(text).map(|a| degrees(&a))
}

fn parse_lng(text: &str) -> Result<f64, GeoParseError<&str>> {
    latlon::parse_lng(text).map(|a| degrees(&a))
}

#[test]
fn lib_dms_nsew() {
    let reference = 40.44611111111111;

    assert_eq!(reference, parse_lat(r#"40° 26′ 46″ N"#).unwrap(), "normal");
    assert_eq!(reference, parse_lat(r#"40° 26’ 46″ N"#).unwrap(), "fancy apos");
    assert_eq!(reference, parse_lat(r#"40°26′46″N"#).unwrap(), "compact");
    assert_eq!(reference, parse_lat(r#"40°26′46N"#).unwrap(), "compact, no sec mark");
    assert_eq!(reference, parse_lat(r#"40 26 46 N"#).unwrap(), "no symbols");
    assert_eq!(reference, parse_lat(r#"-40 26 46 S"#).unwrap(), "inverted");

    assert_eq!(reference, parse_lng(r#"40° 26′ 46″ E"#).unwrap(), "normal");
    assert_eq!(reference, parse_lng(r#"40° 26’ 46″ E"#).unwrap(), "fancy apos");
    assert_eq!(reference, parse_lng(r#"40°26′46″E"#).unwrap(), "compact");
    assert_eq!(reference, parse_lng(r#"40°26′46E"#).unwrap(), "compact, no sec mark");
    assert_eq!(reference, parse_lng(r#"40 26 46 E"#).unwrap(), "no symbols");
    assert_eq!(reference, parse_lng(r#"-40 26 46 W"#).unwrap(), "inverted");
}

#[test]
fn lib_nsew_dms() {
    let reference = 40.44611111111111;

    assert_eq!(reference, parse_lat(r#"N 40° 26′ 46″"#).unwrap(), "normal");
    assert_eq!(reference, parse_lat(r#"N 40° 26’ 46″"#).unwrap(), "fancy apos");
    assert_eq!(reference, parse_lat(r#"N40°26′46"#).unwrap(), "compact, no sec mark");
    assert_eq!(reference, parse_lat(r#"N 40 26 46"#).unwrap(), "no symbols");
    assert_eq!(reference, parse_lat(r#"S -40 26 46"#).unwrap(), "inverted");

    assert_eq!(reference, parse_lng(r#"E 40° 26′ 46″"#).unwrap(), "normal");
    assert_eq!(reference, parse_lng(r#"E 40° 26’ 46″"#).unwrap(), "fancy apos");
    assert_eq!(reference, parse_lng(r#"E40°26′46"#).unwrap(), "compact, no sec mark");
    assert_eq!(reference, parse_lng(r#"E 40 26 46"#).unwrap(), "no symbols");
    assert_eq!(reference, parse_lng(r#"W -40 26 46"#).unwrap(), "inverted");
}

#[test]
fn lib_dms() {
    let reference = 40.44611111111111;
    let ref_neg = -reference;

    assert_eq!(reference, parse_lat(r#"40° 26′ 46″"#).unwrap(), "normal");
    assert_eq!(reference, parse_lat(r#"40° 26’ 46″"#).unwrap(), "fancy apos");
    assert_eq!(reference, parse_lat(r#"40°26′46″"#).unwrap(), "compact");
    assert_eq!(reference, parse_lat(r#"40 26 46"#).unwrap(), "no symbols");
    assert_eq!(ref_neg, parse_lat(r#"-40° 26′ 46″"#).unwrap(), "neg");

    assert_eq!(reference, parse_lng(r#"40° 26′ 46″"#).unwrap(), "normal");
    assert_eq!(reference, parse_lng(r#"40° 26’ 46″"#).unwrap(), "fancy apos");
    assert_eq!(reference, parse_lng(r#"40°26′46″"#).unwrap(), "compact");
    assert_eq!(reference, parse_lng(r#"40 26 46"#).unwrap(), "no symbols");
    assert_eq!(ref_neg, parse_lng(r#"-40° 26′ 46″"#).unwrap(), "neg");
}

#[test]
fn lib_dm_nsew() {
    let reference = 40.44055;

    assert_eq!(reference, parse_lat(r#"40° 26.433′ N"#).unwrap(), "normal");
    assert_eq!(reference, parse_lat(r#"40° 26,433′ N"#).unwrap(), "comma dec");
    assert_eq!(reference, parse_lat(r#"40° 26.433’ N"#).unwrap(), "fancy apos");
    assert_eq!(reference, parse_lat(r#"40°26.433′N"#).unwrap(), "compact");
    assert_eq!(reference, parse_lat(r#"40°26.433N"#).unwrap(), "compact, no min mark");
    assert_eq!(reference, parse_lat(r#"40 26.433 N"#).unwrap(), "no symbols");
    assert_eq!(reference, parse_lat(r#"-40 26.433 S"#).unwrap(), "inverted");

    assert_eq!(reference, parse_lng(r#"40° 26.433′ E"#).unwrap(), "normal");
    assert_eq!(reference, parse_lng(r#"40° 26,433′ E"#).unwrap(), "comma dec");
    assert_eq!(reference, parse_lng(r#"40° 26.433’ E"#).unwrap(), "fancy apos");
    assert_eq!(reference, parse_lng(r#"40°26.433′E"#).unwrap(), "compact");
    assert_eq!(reference, parse_lng(r#"40°26.433E"#).unwrap(), "compact, no min mark");
    assert_eq!(reference, parse_lng(r#"40 26.433 E"#).unwrap(), "no symbols");
    assert_eq!(reference, parse_lng(r#"-40 26.433 W"#).unwrap(), "inverted");
}

#[test]
fn lib_nsew_dm() {
    let reference = 40.44055;

    assert_eq!(reference, parse_lat(r#"N 40° 26.433′"#).unwrap(), "normal");
    assert_eq!(reference, parse_lat(r#"N 40° 26.433’"#).unwrap(), "fancy apos");
    assert_eq!(reference, parse_lat(r#"N 40° 26,433′"#).unwrap(), "comma dec");
    assert_eq!(reference, parse_lat(r#"N40°26.433′"#).unwrap(), "compact");
    assert_eq!(reference, parse_lat(r#"N40°26.433"#).unwrap(), "compact, no min mark");
    assert_eq!(reference, parse_lat(r#"N40 26.433"#).unwrap(), "no symbols");
    assert_eq!(reference, parse_lat(r#"S -40 26.433"#).unwrap(), "inverted");

    assert_eq!(reference, parse_lng(r#"E 40° 26.433′"#).unwrap(), "normal");
    assert_eq!(reference, parse_lng(r#"E 40° 26.433’"#).unwrap(), "fancy apos");
    assert_eq!(reference, parse_lng(r#"E 40° 26,433′"#).unwrap(), "comma dec");
    assert_eq!(reference, parse_lng(r#"E40°26.433′"#).unwrap(), "compact");
    assert_eq!(reference, parse_lng(r#"E40°26.433"#).unwrap(), "compact, no min mark");
    assert_eq!(reference, parse_lng(r#"E40 26.433"#).unwrap(), "no symbols");
    assert_eq!(reference, parse_lng(r#"W -40 26.433"#).unwrap(), "inverted");
}

#[test]
fn lib_dm() {
    let reference = 40.44055;
    let ref_neg = -reference;

    assert_eq!(reference, parse_lat(r#"40° 26.433′"#).unwrap(), "normal");
    assert_eq!(reference, parse_lat(r#"40° 26.433’"#).unwrap(), "fancy apos");
    assert_eq!(reference, parse_lat(r#"40° 26,433′"#).unwrap(), "comma dec");
    assert_eq!(reference, parse_lat(r#"40°26.433′"#).unwrap(), "compact");
    assert_eq!(reference, parse_lat(r#"40 26.433"#).unwrap(), "no symbols");
    assert_eq!(ref_neg, parse_lat(r#"-40° 26.433′"#).unwrap(), "neg");

    assert_eq!(reference, parse_lng(r#"40° 26.433′"#).unwrap(), "normal");
    assert_eq!(reference, parse_lng(r#"40° 26.433’"#).unwrap(), "fancy apos");
    assert_eq!(reference, parse_lng(r#"40° 26,433′"#).unwrap(), "comma dec");
    assert_eq!(reference, parse_lng(r#"40°26.433′"#).unwrap(), "compact");
    assert_eq!(reference, parse_lng(r#"40 26.433"#).unwrap(), "no symbols");
    assert_eq!(ref_neg, parse_lng(r#"-40° 26.433′"#).unwrap(), "neg");
}

#[test]
fn lib_d_nsew() {
    let reference = 40.44055;
    assert_eq!(reference, parse_lat(r#"40.44055° N"#).unwrap(), "normal");
    assert_eq!(reference, parse_lat(r#"40,44055° N"#).unwrap(), "comma dec");
    assert_eq!(reference, parse_lat(r#"40.44055 N"#).unwrap(), "no deg");
    assert_eq!(reference, parse_lat(r#"40.44055N"#).unwrap(), "compact");
    assert_eq!(reference, parse_lat(r#"-40.44055° S"#).unwrap(), "inverted");

    assert_eq!(reference, parse_lng(r#"40.44055° E"#).unwrap(), "normal");
    assert_eq!(reference, parse_lng(r#"40,44055° E"#).unwrap(), "comma dec");
    assert_eq!(reference, parse_lng(r#"40.44055 E"#).unwrap(), "no deg");
    assert_eq!(reference, parse_lng(r#"40.44055E"#).unwrap(), "compact");
    assert_eq!(reference, parse_lng(r#"-40.44055° W"#).unwrap(), "inverted");
}

#[test]
fn lib_d() {
    let reference = 40.44055;
    let ref_neg = -reference;

    assert_eq!(reference, parse_lat(r#"40.44055°"#).unwrap(), "normal");
    assert_eq!(reference, parse_lat(r#"40,44055°"#).unwrap(), "comma dec");
    assert_eq!(reference, parse_lat(r#"40.44055"#).unwrap(), "no deg");
    assert_eq!(ref_neg, parse_lat(r#"-40.44055"#).unwrap(), "no deg");

    assert_eq!(reference, parse_lng(r#"40.44055°"#).unwrap(), "normal");
    assert_eq!(reference, parse_lng(r#"40,44055°"#).unwrap(), "comma dec");
    assert_eq!(reference, parse_lng(r#"40.44055"#).unwrap(), "no deg");
    assert_eq!(ref_neg, parse_lng(r#"-40.44055"#).unwrap(), "no deg");
}

#[test]
fn tests_dms_nsew() {
    let reference = 40.44611111111111;

    assert_eq!(reference, parse_lat(r#"40° 26′ 46″ N"#).unwrap(), "normal");
    assert_eq!(reference, parse_lat(r#"40° 26’ 46″ N"#).unwrap(), "fancy apos");
    assert_eq!(reference, parse_lat(r#"40°26′46″N"#).unwrap(), "compact");
    assert_eq!(reference, parse_lat(r#"40°26′46N"#).unwrap(), "compact, no sec mark");
    assert_eq!(reference, parse_lat(r#"40 26 46 N"#).unwrap(), "no symbols");
    assert_eq!(reference, parse_lat(r#"-40 26 46 S"#).unwrap(), "inverted");

    assert_eq!(reference, parse_lng(r#"40° 26′ 46″ E"#).unwrap(), "normal");
    assert_eq!(reference, parse_lng(r#"40° 26’ 46″ E"#).unwrap(), "fancy apos");
    assert_eq!(reference, parse_lng(r#"40°26′46″E"#).unwrap(), "compact");
    assert_eq!(reference, parse_lng(r#"40°26′46E"#).unwrap(), "compact, no sec mark");
    assert_eq!(reference, parse_lng(r#"40 26 46 E"#).unwrap(), "no symbols");
    assert_eq!(reference, parse_lng(r#"-40 26 46 W"#).unwrap(), "inverted");

    assert_eq!(reference, parse_lng(r#"40° 26’ 46″ E"#).unwrap(), "q1");
    assert_eq!(reference, parse_lng(r#"40° 26' 46” E"#).unwrap(), "q2");
    assert_eq!(reference, parse_lng(r#"40° 26′ 46" E"#).unwrap(), "q3");
    assert_eq!(reference, parse_lng(r#"40° 26‘ 46“ E"#).unwrap(), "q4");
    assert_eq!(reference, parse_lng(r#"40° 26‛ 46″ E"#).unwrap(), "q5");

    parse_lat(r#"90° 0′ 0″ N"#).unwrap();
    parse_lat(r#"90° 0′ 0″ S"#).unwrap();
    parse_lng(r#"180° 0′ 0″ E"#).unwrap();
    parse_lng(r#"180° 0′ 0″ W"#).unwrap();
}

#[test]
fn tests_nsew_dms() {
    let reference = 40.44611111111111;

    assert_eq!(reference, parse_lat(r#"N 40° 26′ 46″"#).unwrap(), "normal");
    assert_eq!(reference, parse_lat(r#"N 40° 26’ 46″"#).unwrap(), "fancy apos");
    assert_eq!(reference, parse_lat(r#"N40°26′46"#).unwrap(), "compact, no sec mark");
    assert_eq!(reference, parse_lat(r#"N 40 26 46"#).unwrap(), "no symbols");
    assert_eq!(reference, parse_lat(r#"S -40 26 46"#).unwrap(), "inverted");

    assert_eq!(reference, parse_lng(r#"E 40° 26′ 46″"#).unwrap(), "normal");
    assert_eq!(reference, parse_lng(r#"E 40° 26’ 46″"#).unwrap(), "fancy apos");
    assert_eq!(reference, parse_lng(r#"E40°26′46"#).unwrap(), "compact, no sec mark");
    assert_eq!(reference, parse_lng(r#"E 40 26 46"#).unwrap(), "no symbols");
    assert_eq!(reference, parse_lng(r#"W -40 26 46"#).unwrap(), "inverted");

    assert_eq!(reference, parse_lng(r#"E 40° 26’ 46″"#).unwrap(), "q1");
    assert_eq!(reference, parse_lng(r#"E 40° 26' 46”"#).unwrap(), "q2");
    assert_eq!(reference, parse_lng(r#"E 40° 26′ 46""#).unwrap(), "q3");
    assert_eq!(reference, parse_lng(r#"E 40° 26‘ 46“"#).unwrap(), "q4");
    assert_eq!(reference, parse_lng(r#"E 40° 26‛ 46″"#).unwrap(), "q5");

    parse_lat(r#"N 90° 0′ 0″"#).unwrap();
    parse_lat(r#"S 90° 0′ 0″"#).unwrap();
    parse_lng(r#"E 180° 0′ 0″"#).unwrap();
    parse_lng(r#"W 180° 0′ 0″"#).unwrap();
}

#[test]
fn tests_dms() {
    let reference = 40.44611111111111;
    let ref_neg = -reference;

    assert_eq!(reference, parse_lat(r#"40° 26′ 46″"#).unwrap(), "normal");
    assert_eq!(reference, parse_lat(r#"40° 26’ 46″"#).unwrap(), "fancy apos");
    assert_eq!(reference, parse_lat(r#"40°26′46″"#).unwrap(), "compact");
    assert_eq!(reference, parse_lat(r#"40 26 46"#).unwrap(), "no symbols");
    assert_eq!(ref_neg, parse_lat(r#"-40° 26′ 46″"#).unwrap(), "neg");

    assert_eq!(reference, parse_lng(r#"40° 26′ 46″"#).unwrap(), "normal");
    assert_eq!(reference, parse_lng(r#"40° 26’ 46″"#).unwrap(), "fancy apos");
    assert_eq!(reference, parse_lng(r#"40°26′46″"#).unwrap(), "compact");
    assert_eq!(reference, parse_lng(r#"40 26 46"#).unwrap(), "no symbols");
    assert_eq!(ref_neg, parse_lng(r#"-40° 26′ 46″"#).unwrap(), "neg");

    // Test all the weird quotation marks

    // ’'′‘‛
    // ″”"“
    assert_eq!(reference, parse_lng(r#"40° 26’ 46″"#).unwrap(), "q1");
    assert_eq!(reference, parse_lng(r#"40° 26' 46”"#).unwrap(), "q2");
    assert_eq!(reference, parse_lng(r#"40° 26′ 46""#).unwrap(), "q3");
    assert_eq!(reference, parse_lng(r#"40° 26‘ 46“"#).unwrap(), "q4");
    assert_eq!(reference, parse_lng(r#"40° 26‛ 46″"#).unwrap(), "q5");

    parse_lat(r#"90° 0’ 0″"#).unwrap();
    parse_lat(r#"-90° 0’ 0″"#).unwrap();
    parse_lng(r#"180° 0’ 0″"#).unwrap();
    parse_lng(r#"-180° 0’ 0″"#).unwrap();
}

#[test]
fn tests_dm_nsew() {
    let reference = 40.44055;

    assert_eq!(reference, parse_lat(r#"40° 26.433′ N"#).unwrap(), "normal");
    assert_eq!(reference, parse_lat(r#"40° 26,433′ N"#).unwrap(), "comma dec");
    assert_eq!(reference, parse_lat(r#"40° 26.433’ N"#).unwrap(), "fancy apos");
    assert_eq!(reference, parse_lat(r#"40°26.433′N"#).unwrap(), "compact");
    assert_eq!(reference, parse_lat(r#"40°26.433N"#).unwrap(), "compact, no min mark");
    assert_eq!(reference, parse_lat(r#"40 26.433 N"#).unwrap(), "no symbols");
    assert_eq!(reference, parse_lat(r#"-40 26.433 S"#).unwrap(), "inverted");

    assert_eq!(reference, parse_lng(r#"40° 26.433′ E"#).unwrap(), "normal");
    assert_eq!(reference, parse_lng(r#"40° 26,433′ E"#).unwrap(), "comma dec");
    assert_eq!(reference, parse_lng(r#"40° 26.433’ E"#).unwrap(), "fancy apos");
    assert_eq!(reference, parse_lng(r#"40°26.433′E"#).unwrap(), "compact");
    assert_eq!(reference, parse_lng(r#"40°26.433E"#).unwrap(), "compact, no min mark");
    assert_eq!(reference, parse_lng(r#"40 26.433 E"#).unwrap(), "no symbols");
    assert_eq!(reference, parse_lng(r#"-40 26.433 W"#).unwrap(), "inverted");

    assert_eq!(reference, parse_lng(r#"40° 26.433’ E"#).unwrap(), "q1");
    assert_eq!(reference, parse_lng(r#"40° 26.433' E"#).unwrap(), "q2");
    assert_eq!(reference, parse_lng(r#"40° 26.433′ E"#).unwrap(), "q3");
    assert_eq!(reference, parse_lng(r#"40° 26.433‘ E"#).unwrap(), "q4");
    assert_eq!(reference, parse_lng(r#"40° 26.433‛ E"#).unwrap(), "q5");

    parse_lat(r#"90° 0′ N"#).unwrap();
    parse_lat(r#"90° 0′ S"#).unwrap();
    parse_lng(r#"180° 0′ E"#).unwrap();
    parse_lng(r#"180° 0′ W"#).unwrap();
}

#[test]
fn tests_nsew_dm() {
    let reference = 40.44055;

    assert_eq!(reference, parse_lat(r#"N 40° 26.433′"#).unwrap(), "normal");
    assert_eq!(reference, parse_lat(r#"N 40° 26.433’"#).unwrap(), "fancy apos");
    assert_eq!(reference, parse_lat(r#"N 40° 26,433′"#).unwrap(), "comma dec");
    assert_eq!(reference, parse_lat(r#"N40°26.433′"#).unwrap(), "compact");
    assert_eq!(reference, parse_lat(r#"N40°26.433"#).unwrap(), "compact, no min mark");
    assert_eq!(reference, parse_lat(r#"N40 26.433"#).unwrap(), "no symbols");
    assert_eq!(reference, parse_lat(r#"S -40 26.433"#).unwrap(), "inverted");

    assert_eq!(reference, parse_lng(r#"E 40° 26.433′"#).unwrap(), "normal");
    assert_eq!(reference, parse_lng(r#"E 40° 26.433’"#).unwrap(), "fancy apos");
    assert_eq!(reference, parse_lng(r#"E 40° 26,433′"#).unwrap(), "comma dec");
    assert_eq!(reference, parse_lng(r#"E40°26.433′"#).unwrap(), "compact");
    assert_eq!(reference, parse_lng(r#"E40°26.433"#).unwrap(), "compact, no min mark");
    assert_eq!(reference, parse_lng(r#"E40 26.433"#).unwrap(), "no symbols");
    assert_eq!(reference, parse_lng(r#"W -40 26.433"#).unwrap(), "inverted");

    // quotes
    assert_eq!(reference, parse_lng(r#"E 40° 26.433’"#).unwrap(), "q1");
    assert_eq!(reference, parse_lng(r#"E 40° 26.433'"#).unwrap(), "q2");
    assert_eq!(reference, parse_lng(r#"E 40° 26.433′"#).unwrap(), "q3");
    assert_eq!(reference, parse_lng(r#"E 40° 26.433‘"#).unwrap(), "q4");
    assert_eq!(reference, parse_lng(r#"E 40° 26.433‛"#).unwrap(), "q5");


    // verify corner cases don't error
    parse_lat(r#"N 90° 0.0′"#).unwrap();
    parse_lat(r#"N -90° 0′"#).unwrap();
    parse_lat(r#"S 90° 0′"#).unwrap();
    parse_lat(r#"S -90° 0′"#).unwrap();

    parse_lng(r#"E -180° 0′"#).unwrap();
    parse_lng(r#"W 180° 0′"#).unwrap();
    parse_lng(r#"W -180° 0′"#).unwrap();
}

#[test]
fn tests_dm() {
    let reference = 40.44055;
    let ref_neg = -reference;

    assert_eq!(reference, parse_lat(r#"40° 26.433′"#).unwrap(), "normal");
    assert_eq!(reference, parse_lat(r#"40° 26.433’"#).unwrap(), "fancy apos");
    assert_eq!(reference, parse_lat(r#"40° 26,433′"#).unwrap(), "comma dec");
    assert_eq!(reference, parse_lat(r#"40°26.433′"#).unwrap(), "compact");
    assert_eq!(reference, parse_lat(r#"40 26.433"#).unwrap(), "no symbols");
    assert_eq!(ref_neg, parse_lat(r#"-40° 26.433′"#).unwrap(), "neg");

    assert_eq!(reference, parse_lng(r#"40° 26.433′"#).unwrap(), "normal");
    assert_eq!(reference, parse_lng(r#"40° 26.433’"#).unwrap(), "fancy apos");
    assert_eq!(reference, parse_lng(r#"40° 26,433′"#).unwrap(), "comma dec");
    assert_eq!(reference, parse_lng(r#"40°26.433′"#).unwrap(), "compact");
    assert_eq!(reference, parse_lng(r#"40 26.433"#).unwrap(), "no symbols");
    assert_eq!(ref_neg, parse_lng(r#"-40° 26.433′"#).unwrap(), "neg");

    // verify corner cases don't error
    parse_lat(r#"0° 0′"#).unwrap();
    parse_lat(r#"0° 0"#).unwrap();
    parse_lat(r#"90° 0"#).unwrap();
    parse_lat(r#"-90° 0"#).unwrap();

    parse_lng(r#"0° 0′"#).unwrap();
    parse_lng(r#"180° 0′"#).unwrap();
    parse_lng(r#"-180° 0′"#).unwrap();
    parse_lng(r#"-180° 0.000′"#).unwrap();
}

#[test]
fn tests_d_nsew() {
    let reference = 40.44055;
    assert_eq!(reference, parse_lat(r#"40.44055° N"#).unwrap(), "normal");
    assert_eq!(reference, parse_lat(r#"40,44055° N"#).unwrap(), "comma dec");
    assert_eq!(reference, parse_lat(r#"40.44055 N"#).unwrap(), "no deg");
    assert_eq!(reference, parse_lat(r#"40.44055N"#).unwrap(), "compact");
    assert_eq!(reference, parse_lat(r#"-40.44055° S"#).unwrap(), "inverted");

    assert_eq!(reference, parse_lng(r#"40.44055° E"#).unwrap(), "normal");
    assert_eq!(reference, parse_lng(r#"40,44055° E"#).unwrap(), "comma dec");
    assert_eq!(reference, parse_lng(r#"40.44055 E"#).unwrap(), "no deg");
    assert_eq!(reference, parse_lng(r#"40.44055E"#).unwrap(), "compact");
    assert_eq!(reference, parse_lng(r#"-40.44055° W"#).unwrap(), "inverted");

    // verify corner cases don't error
    parse_lat(r#"1.123456789° N"#).unwrap();
    parse_lat(r#"90° S"#).unwrap();
    parse_lat(r#"-90°S"#).unwrap();
    parse_lat(r#"1°S"#).unwrap();

    parse_lng(r#"1.123456789°E"#).unwrap();
    parse_lng(r#"180.0000°W"#).unwrap();
    parse_lng(r#"-180 E"#).unwrap();
    parse_lng(r#"1W"#).unwrap();
}

#[test]
fn tests_d() {
    let reference = 40.44055;
    let ref_neg = -reference;

    assert_eq!(reference, parse_lat(r#"40.44055°"#).unwrap(), "normal");
    assert_eq!(reference, parse_lat(r#"40,44055°"#).unwrap(), "comma dec");
    assert_eq!(reference, parse_lat(r#"40.44055"#).unwrap(), "no deg");
    assert_eq!(ref_neg, parse_lat(r#"-40.44055"#).unwrap(), "no deg");

    assert_eq!(reference, parse_lng(r#"40.44055°"#).unwrap(), "normal");
    assert_eq!(reference, parse_lng(r#"40,44055°"#).unwrap(), "comma dec");
    assert_eq!(reference, parse_lng(r#"40.44055"#).unwrap(), "no deg");
    assert_eq!(ref_neg, parse_lng(r#"-40.44055"#).unwrap(), "no deg");

    // verify corner cases don't error
    parse_lat(r#"1.123456789°"#).unwrap();
    parse_lat(r#"90°"#).unwrap();
    parse_lat(r#"-90°"#).unwrap();
    parse_lat(r#"1°"#).unwrap();

    parse_lng(r#"1.123456789°"#).unwrap();
    parse_lng(r#"180.0000°"#).unwrap();
    parse_lng(r#"-180°"#).unwrap();
    parse_lng(r#"1°"#).unwrap();
}
