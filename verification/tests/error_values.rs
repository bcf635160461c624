use latlon::GeoParseError;

#[test]
fn error() {
    let e = GeoParseError("Hello");
    assert_eq!("GeoParseError(\"Hello\")", format!("{:?}", e));
    assert_eq!("GeoParseError(\n    \"Hello\",\n)", format!("{:#?}", e));

    let e = GeoParseError("Hello2".to_string());
    assert_eq!("GeoParseError(\"Hello2\")", format!("{:?}", e));
    assert_eq!("GeoParseError(\n    \"Hello2\",\n)", format!("{:#?}", e));

    let e = GeoParseError(std::borrow::Cow::Owned("Foo".to_string()));
    assert_eq!("GeoParseError(\"Foo\")", format!("{:?}", e));
    assert_eq!("GeoParseError(\n    \"Foo\",\n)", format!("{:#?}", e));
}
