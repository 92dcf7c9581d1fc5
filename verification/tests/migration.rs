use std::cmp::Ordering;

use xline_operator::migration::{compare_versions, is_valid_version};

#[test]
fn test_cmp_version() {
    assert_eq!(Ordering::Greater, compare_versions("v2", "v1").unwrap());
    assert_eq!(Ordering::Less, compare_versions("v1", "v2").unwrap());
    assert_eq!(Ordering::Equal, compare_versions("v1", "v1").unwrap());
}

#[test]
fn compares_by_number_and_not_by_text() {
    assert_eq!(Ordering::Greater, compare_versions("v10", "v2").unwrap());
    assert_eq!(Ordering::Less, compare_versions("v2", "v10").unwrap());
    assert_eq!(Ordering::Equal, compare_versions("v1", "v1").unwrap());
}

#[test]
fn leading_zeros_do_not_count() {
    assert_eq!(Ordering::Equal, compare_versions("v007", "v7").unwrap());
    assert_eq!(Ordering::Less, compare_versions("v007", "v10").unwrap());
    assert_eq!(Ordering::Greater, compare_versions("v010", "v9").unwrap());
    assert_eq!(Ordering::Equal, compare_versions("v0", "v000").unwrap());
}

#[test]
fn numbers_of_any_length_are_ordered() {
    assert_eq!(
        Ordering::Greater,
        compare_versions("v340282366920938463463374607431768211456", "v18446744073709551616").unwrap()
    );
    assert_eq!(
        Ordering::Less,
        compare_versions("v18446744073709551615", "v18446744073709551616").unwrap()
    );
}

#[test]
fn a_letter_in_place_of_the_number_is_refused() {
    let err = compare_versions("vx", "v1").unwrap_err();
    assert_eq!(err.version, "vx");
}

#[test]
fn the_first_invalid_version_is_named() {
    assert_eq!(compare_versions("v1", "1").unwrap_err().version, "1");
    assert_eq!(compare_versions("", "v").unwrap_err().version, "");
    assert_eq!(compare_versions("v1", "v").unwrap_err().version, "v");
    assert_eq!(compare_versions("vv1", "v1").unwrap_err().version, "vv1");
    assert_eq!(compare_versions("v1", "v+1").unwrap_err().version, "v+1");
    assert_eq!(compare_versions("v1 ", "v1").unwrap_err().version, "v1 ");
    assert_eq!(compare_versions("V1", "v1").unwrap_err().version, "V1");
}

#[test]
fn exactly_one_relation_holds_and_it_turns_round() {
    let versions = ["v0", "v1", "v2", "v9", "v10", "v11", "v099", "v100"];
    for a in versions {
        for b in versions {
            let ab = compare_versions(a, b).unwrap();
            let ba = compare_versions(b, a).unwrap();
            assert_eq!(ab, ba.reverse());
            let na: u32 = a[1..].parse().unwrap();
            let nb: u32 = b[1..].parse().unwrap();
            assert_eq!(ab, na.cmp(&nb));
        }
    }
}

#[test]
fn valid_versions_are_told_apart() {
    assert!(is_valid_version("v1"));
    assert!(is_valid_version("v1234567890"));
    assert!(!is_valid_version("v"));
    assert!(!is_valid_version("1"));
    assert!(!is_valid_version("v1a"));
    assert!(!is_valid_version("v-1"));
}
