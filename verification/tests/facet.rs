use facets::compact::CompactFacet as Facet;
use facets::compact::Facet as _;
use facets::date::Date;

#[test]
fn try_split_into_prefix_and_date_like_suffix_should_accept_and_preserve_invalid_whitespace() {
    let date = Date::from_calendar_date(2022, 6, 25).unwrap();
    let facet = Facet::from_str("~20220625");
    assert_eq!(
        ("", Some(date)),
        facet.try_split_into_prefix_and_date_suffix().unwrap()
    );
    let facet = Facet::from_str("a \tb c\n ~20220625");
    assert_eq!(
        ("a \tb c\n ", Some(date)),
        facet.try_split_into_prefix_and_date_suffix().unwrap()
    );
}

#[test]
fn try_split_into_prefix_and_date_like_suffix_should_accept_invalid_dates() {
    let facet = Facet::from_str("~00000000");
    assert_eq!(
        ("", "~00000000"),
        facet.try_split_into_prefix_and_date_like_suffix().unwrap()
    );
    assert_eq!(
        ("", None),
        facet.try_split_into_prefix_and_date_suffix().unwrap()
    );
    let facet = Facet::from_str("abc~99999999");
    assert_eq!(
        ("abc", "~99999999"),
        facet.try_split_into_prefix_and_date_like_suffix().unwrap()
    );
    assert_eq!(
        ("abc", None),
        facet.try_split_into_prefix_and_date_suffix().unwrap()
    );
    let facet = Facet::from_str("abc ~19700230");
    assert_eq!(
        ("abc ", "~19700230"),
        facet.try_split_into_prefix_and_date_like_suffix().unwrap()
    );
    assert_eq!(
        ("abc ", None),
        facet.try_split_into_prefix_and_date_suffix().unwrap()
    );
}

#[test]
fn has_date_like_suffix() {
    assert!(facets::facet::has_date_like_suffix("~20220625"));
    assert!(facets::facet::has_date_like_suffix("a~20220625"));
    assert!(!facets::facet::has_date_like_suffix("a ~20220625"));
    assert!(!facets::facet::has_date_like_suffix("a-20220625"));
    assert!(!facets::facet::has_date_like_suffix("a20220625"));
}

#[test]
fn is_valid_rejects_untrimmed_or_slash_prefixed_strings() {
    assert!(facets::facet::is_valid(""));
    assert!(facets::facet::is_valid("a"));
    assert!(facets::facet::is_valid("a b"));
    assert!(facets::facet::is_valid("a~20220625"));
    assert!(!facets::facet::is_valid(" a"));
    assert!(!facets::facet::is_valid("a "));
    assert!(!facets::facet::is_valid("\ta"));
    assert!(!facets::facet::is_valid("a\n"));
    assert!(!facets::facet::is_valid(" "));
    assert!(!facets::facet::is_valid("/a"));
    assert!(!facets::facet::is_valid("/"));
}

#[test]
fn is_empty_only_for_the_empty_facet() {
    assert!(facets::facet::is_empty(""));
    assert!(!facets::facet::is_empty("a"));
}

#[test]
fn has_invalid_date_like_suffix_flags_whitespace_before_separator() {
    assert!(facets::facet::has_invalid_date_like_suffix("a ~20220625"));
    assert!(facets::facet::has_invalid_date_like_suffix("a \t~20220625"));
    assert!(!facets::facet::has_invalid_date_like_suffix("~20220625"));
    assert!(!facets::facet::has_invalid_date_like_suffix("a~20220625"));
    assert!(!facets::facet::has_invalid_date_like_suffix("a -20220625"));
    assert!(!facets::facet::has_invalid_date_like_suffix("a 20220625"));
}

#[test]
fn split_operations_fail_on_short_strings() {
    assert!(facets::facet::try_split_into_prefix_and_date_like_suffix("").is_none());
    assert!(facets::facet::try_split_into_prefix_and_date_like_suffix("~2022062").is_none());
    assert!(facets::facet::try_split_into_prefix_and_date_suffix("20220625").is_none());
    let facet = Facet::from_str("~2022062");
    assert!(facet.try_split_into_prefix_and_date_like_suffix().is_none());
    assert!(facet.try_split_into_prefix_and_date_suffix().is_none());
}

#[test]
fn split_operations_fail_on_non_ascii_suffix() {
    assert!(facets::facet::try_split_into_prefix_and_date_like_suffix("ab~2022é625").is_none());
    assert!(facets::facet::try_split_into_prefix_and_date_suffix("ab~2022é625").is_none());
    assert_eq!(
        Some(("é", "~20220625")),
        facets::facet::try_split_into_prefix_and_date_like_suffix("é~20220625")
    );
}

#[test]
fn split_parses_exact_dates() {
    let date = Date::from_calendar_date(2022, 6, 25).unwrap();
    assert_eq!(
        Some(("", Some(date))),
        facets::facet::try_split_into_prefix_and_date_suffix("~20220625")
    );
    let leap = Date::from_calendar_date(2024, 2, 29).unwrap();
    assert_eq!(
        Some(("x", Some(leap))),
        facets::facet::try_split_into_prefix_and_date_suffix("x~20240229")
    );
    assert_eq!(
        Some(("x", None)),
        facets::facet::try_split_into_prefix_and_date_suffix("x~20230229")
    );
    assert_eq!(
        Some(("x", None)),
        facets::facet::try_split_into_prefix_and_date_suffix("x~19000229")
    );
    let century_leap = Date::from_calendar_date(2000, 2, 29).unwrap();
    assert_eq!(
        Some(("x", Some(century_leap))),
        facets::facet::try_split_into_prefix_and_date_suffix("x~20000229")
    );
}

#[test]
fn build_from_prefix_and_date_then_split_recovers_both_parts() {
    let date = Date::from_calendar_date(2022, 6, 25).unwrap();
    let facet = facets::facet::build_from_prefix_and_date("tag", &date).unwrap();
    assert_eq!("tag~20220625", facet.as_str());
    assert_eq!(
        Some(("tag", Some(date))),
        facets::facet::try_split_into_prefix_and_date_suffix(facet.as_str())
    );
    let facet = Facet::from_prefix_with_date_suffix("tag", &date).unwrap();
    assert_eq!("tag~20220625", facet.as_str());
    assert_eq!(
        ("tag", Some(date)),
        facet.try_split_into_prefix_and_date_suffix().unwrap()
    );
}

#[test]
fn build_fails_for_years_without_four_digit_form() {
    let date = Date::from_calendar_date(-1, 1, 1).unwrap();
    assert!(facets::facet::build_from_prefix_and_date("tag", &date).is_err());
    assert!(Facet::from_prefix_with_date_suffix("tag", &date).is_err());
    let date = Date::from_calendar_date(0, 1, 1).unwrap();
    assert_eq!(
        "tag~00000101",
        facets::facet::build_from_prefix_and_date("tag", &date)
            .unwrap()
            .as_str()
    );
}

#[test]
fn from_calendar_date_checks_the_calendar() {
    assert!(Date::from_calendar_date(2022, 6, 25).is_some());
    assert!(Date::from_calendar_date(2022, 13, 1).is_none());
    assert!(Date::from_calendar_date(2022, 0, 1).is_none());
    assert!(Date::from_calendar_date(2022, 6, 31).is_none());
    assert!(Date::from_calendar_date(2022, 6, 0).is_none());
    assert!(Date::from_calendar_date(1970, 2, 30).is_none());
    assert!(Date::from_calendar_date(10000, 1, 1).is_none());
    let date = Date::from_calendar_date(2024, 2, 29).unwrap();
    assert_eq!(2024, date.year());
    assert_eq!(2, date.month());
    assert_eq!(29, date.day());
}

#[test]
fn compact_facet_round_trips_its_text() {
    let facet = Facet::from_str("abc~20220625");
    assert_eq!("abc~20220625", facet.as_str());
    assert!(facet.is_valid());
    assert!(!facet.is_empty());
    assert!(facet.has_date_like_suffix());
    assert!(!facet.has_invalid_date_like_suffix());
    let owned = Facet::from_string(String::from("a b"));
    assert_eq!("a b", owned.as_str());
    let empty = Facet::default();
    assert_eq!("", empty.as_str());
    assert!(empty.is_valid());
    assert!(empty.is_empty());
}
