use vatsim_utils::airports::{parse_coord_micro, split_on, GeoReference};

const DATASET: &str = "KSAN,32.7336,-117.1897\nKLAX,33.9425,-118.4081\nEGLL,51.4706,-0.461941\n";

#[test]
fn lookup_returns_recorded_coordinates() {
    let table = GeoReference::build(DATASET).unwrap();
    let ksan = table.lookup("KSAN").unwrap();
    assert_eq!(ksan.identifier, "KSAN");
    assert_eq!(ksan.latitude, 32733600);
    assert_eq!(ksan.longitude, -117189700);
    let egll = table.lookup("EGLL").unwrap();
    assert_eq!(egll.latitude, 51470600);
    assert_eq!(egll.longitude, -461941);
}

#[test]
fn lookup_of_absent_identifier_is_none() {
    let table = GeoReference::build(DATASET).unwrap();
    assert!(table.lookup("XXXX").is_none());
    assert!(table.lookup("").is_none());
    assert!(table.lookup("KSA").is_none());
}

#[test]
fn all_keeps_dataset_order() {
    let table = GeoReference::build(DATASET).unwrap();
    let idents: Vec<&str> = table.all().iter().map(|a| a.identifier.as_str()).collect();
    assert_eq!(idents, vec!["KSAN", "KLAX", "EGLL"]);
}

#[test]
fn duplicate_identifiers_resolve_to_the_last_row() {
    let data = "AAAA,1.0,2.0\nAAAA,3.5,4.5\n";
    let table = GeoReference::build(data).unwrap();
    let a = table.lookup("AAAA").unwrap();
    assert_eq!(a.latitude, 3500000);
    assert_eq!(a.longitude, 4500000);
    assert_eq!(table.all().len(), 2);
}

#[test]
fn empty_lines_are_skipped() {
    let data = "\nKSAN,32.7336,-117.1897\n\n\nKLAX,33.9425,-118.4081\n";
    let table = GeoReference::build(data).unwrap();
    assert_eq!(table.all().len(), 2);
}

#[test]
fn empty_dataset_builds_an_empty_table() {
    let table = GeoReference::build("").unwrap();
    assert_eq!(table.all().len(), 0);
    assert!(table.lookup("KSAN").is_none());
}

#[test]
fn wrong_field_count_fails_the_whole_build() {
    assert!(GeoReference::build("KSAN,32.7336\nKLAX,33.9425,-118.4081\n").is_none());
    assert!(GeoReference::build("KSAN,32.7336,-117.1897,extra\n").is_none());
}

#[test]
fn non_numeric_coordinate_fails_the_whole_build() {
    assert!(GeoReference::build("KSAN,north,-117.1897\n").is_none());
    assert!(GeoReference::build("KSAN,32.7336,west\n").is_none());
    assert!(GeoReference::build("KSAN,32.7336,\n").is_none());
}

#[test]
fn coordinates_parse_to_millionths() {
    assert_eq!(parse_coord_micro("0"), Some(0));
    assert_eq!(parse_coord_micro("33.9416"), Some(33941600));
    assert_eq!(parse_coord_micro("-117.1933"), Some(-117193300));
    assert_eq!(parse_coord_micro("-0.5"), Some(-500000));
    assert_eq!(parse_coord_micro("180"), Some(180000000));
}

#[test]
fn fraction_digits_beyond_the_sixth_are_dropped() {
    assert_eq!(parse_coord_micro("1.23456789"), Some(1234567));
    assert_eq!(parse_coord_micro("0.0000009"), Some(0));
}

#[test]
fn malformed_coordinates_are_rejected() {
    assert_eq!(parse_coord_micro(""), None);
    assert_eq!(parse_coord_micro("-"), None);
    assert_eq!(parse_coord_micro("12."), None);
    assert_eq!(parse_coord_micro(".5"), None);
    assert_eq!(parse_coord_micro("1e3"), None);
    assert_eq!(parse_coord_micro("--1"), None);
    assert_eq!(parse_coord_micro("1.2.3"), None);
    assert_eq!(parse_coord_micro("12 34"), None);
    assert_eq!(parse_coord_micro("1234567890123"), None);
}

#[test]
fn split_on_separates_and_keeps_empty_pieces() {
    let pieces = split_on("a,bb,,c", ',');
    assert_eq!(pieces, vec!["a", "bb", "", "c"]);
    let lines = split_on("x\ny\n", '\n');
    assert_eq!(lines, vec!["x", "y", ""]);
    let whole = split_on("nothing", ',');
    assert_eq!(whole, vec!["nothing"]);
}
