use ewe::order::Order;
use ewe::version::{
    cmp_lexical, cmp_numerical, cmp_version, EpochError, PackageVersion, ParseVersionError,
    PkgVersion,
};
use std::cmp::Ordering::{Equal, Greater, Less};

fn parse_ver(s: &str) -> Result<PackageVersion, ParseVersionError> {
    s.parse()
}

fn ver(s: &str) -> PackageVersion {
    s.parse().unwrap()
}

fn parse_pkg_ver(s: &str) -> Result<PkgVersion, ParseVersionError> {
    s.parse()
}

fn pkg_ver(s: &str) -> PkgVersion {
    s.parse().unwrap()
}

#[test]
fn test_parse_version() {
    assert_eq!(
        parse_pkg_ver("1:2.33+beta1-4"),
        Ok(PkgVersion::from_parts(1, "2.33+beta1", Some("4")).unwrap())
    );
    let v = pkg_ver("1:2.33+beta1-4");
    assert_eq!(v.epoch(), 1);
    assert_eq!(v.upstream(), "2.33+beta1");
    assert_eq!(v.revision(), Some("4"));

    // `-` is not allowed inside versions, only acts as seperator between upstream
    // version and revision.
    assert_eq!(
        parse_pkg_ver("2.33-beta1-4"),
        Err(ParseVersionError::Upstream('-'))
    );
}

#[test]
fn test_compare_version() {
    assert_eq!(cmp_lexical("~beta", ""), Less);
    assert_eq!(cmp_lexical("+dfsg", ""), Greater);
    assert_eq!(cmp_numerical("1", "01"), Equal);
    assert_eq!(cmp_numerical("19260817", "19530615"), Less);
    assert!(pkg_ver("0.12.10+dfsg1-3") == pkg_ver("0.12.10+dfsg01-3"));
}

#[test]
fn version_test_parse_version() {
    assert_eq!(
        parse_ver("1:2.33+beta1-4"),
        Ok(PackageVersion::from_parts(1, "2.33+beta1", Some("4")).unwrap())
    );
    let v = ver("1:2.33+beta1-4");
    assert_eq!(v.epoch(), 1);
    assert_eq!(v.upstream(), "2.33+beta1");
    assert_eq!(v.revision(), Some("4"));

    assert_eq!(
        parse_ver("2.33-beta1-4"),
        Err(ParseVersionError::Upstream('-'))
    );
}

#[test]
fn version_test_compare_version() {
    assert_eq!(cmp_lexical("~beta", ""), Less);
    assert_eq!(cmp_lexical("+dfsg", ""), Greater);
    assert_eq!(cmp_numerical("1", "01"), Equal);
    assert_eq!(cmp_numerical("19260817", "19530615"), Less);
    assert_eq!(ver("1.14.51~beta4-999").cmp(&ver("1.14.51-1")), Less);
    assert_eq!(ver("0.12.10+dfsg1-3"), ver("0.12.10+dfsg01-3"));
}

#[test]
fn epoch_dominates() {
    assert!(ver("1:0") > ver("99"));
    assert!(ver("99") < ver("1:0"));
    assert_eq!(ver("1:0").order(&ver("99")), Order::Greater);
}

#[test]
fn tilde_sorts_before_the_end() {
    assert!(ver("1.0~beta1") < ver("1.0"));
    assert!(ver("1.0") < ver("1.0.1"));
    assert_eq!(cmp_version("1.0~beta1", "1.0"), Less);
    assert_eq!(cmp_version("1.0", "1.0.1"), Less);
    assert_eq!(cmp_version("", "~"), Greater);
}

#[test]
fn letters_sort_before_other_characters() {
    assert_eq!(cmp_lexical("a", "+"), Less);
    assert_eq!(cmp_lexical(".", "z"), Greater);
    assert_eq!(cmp_lexical("a", "b"), Less);
    assert_eq!(cmp_lexical("+", "."), Less);
    assert_eq!(cmp_lexical("ab", "a"), Greater);
    assert_eq!(cmp_lexical("a~", "a"), Less);
    assert_eq!(cmp_lexical("", ""), Equal);
}

#[test]
fn numeric_runs_compare_by_value() {
    assert_eq!(cmp_numerical("", "0"), Equal);
    assert_eq!(cmp_numerical("10", "9"), Greater);
    assert_eq!(cmp_numerical("0010", "9"), Greater);
    assert_eq!(cmp_numerical("123456789012345678901234567890", "123456789012345678901234567891"), Less);
    assert_eq!(cmp_version("a", "a0"), Equal);
    assert_eq!(cmp_version("1.10", "1.9"), Greater);
}

#[test]
fn round_trip() {
    for text in ["2.33+beta1-4", "1:2.33+beta1-4", "2.33+beta1", "", "7:", "1.0-"] {
        let v = ver(text);
        assert_eq!(v.to_string(), text);
        let again = ver(&v.to_string());
        assert_eq!(again, v);
        assert_eq!(again.epoch(), v.epoch());
        assert_eq!(again.upstream(), v.upstream());
        assert_eq!(again.revision(), v.revision());
    }
    assert_eq!(ver("0:1.0").to_string(), "1.0");
    assert_eq!(ver("4294967295:1").to_string(), "4294967295:1");
}

#[test]
fn last_hyphen_separates_the_revision() {
    let v = ver("1.0-2");
    assert_eq!(v.upstream(), "1.0");
    assert_eq!(v.revision(), Some("2"));
    assert_eq!(parse_ver("3:a:b"), Err(ParseVersionError::Upstream(':')));
    assert_eq!(parse_ver("1-2-3"), Err(ParseVersionError::Upstream('-')));
}

#[test]
fn every_error_variant() {
    assert_eq!(parse_ver(":1.0"), Err(ParseVersionError::Epoch(EpochError::Empty)));
    assert_eq!(parse_ver("x:1.0"), Err(ParseVersionError::Epoch(EpochError::InvalidDigit)));
    assert_eq!(parse_ver("+:1.0"), Err(ParseVersionError::Epoch(EpochError::InvalidDigit)));
    assert_eq!(parse_ver("-1:1.0"), Err(ParseVersionError::Epoch(EpochError::InvalidDigit)));
    assert_eq!(parse_ver("4294967296:1.0"), Err(ParseVersionError::Epoch(EpochError::Overflow)));
    assert_eq!(parse_ver("99999999999x:1.0"), Err(ParseVersionError::Epoch(EpochError::Overflow)));
    assert_eq!(parse_ver("1_0"), Err(ParseVersionError::Upstream('_')));
    assert_eq!(parse_ver("1.0-r 1"), Err(ParseVersionError::Revision(' ')));
    assert_eq!(ver("+5:1").epoch(), 5);
    assert_eq!(ver("007:1").epoch(), 7);
    assert_eq!(
        PackageVersion::from_parts(0, "a-b", None).err(),
        Some(ParseVersionError::Upstream('-'))
    );
    assert_eq!(
        PackageVersion::from_parts(0, "a", Some("é")).err(),
        Some(ParseVersionError::Revision('é'))
    );
}

#[test]
fn the_order_is_transitive_on_samples() {
    let texts = [
        "1.0~beta1",
        "1.0",
        "1.0.1",
        "1.0-1",
        "1.0-01",
        "1.0+b",
        "1.0a",
        "1.00",
        "1:0",
        "99",
        "0~~",
        "0~",
        "0",
        "2.33+beta1-4",
        "a.b",
        "a+b",
    ];
    let versions: Vec<PkgVersion> = texts.iter().map(|t| pkg_ver(t)).collect();
    let mut less = 0;
    for a in &versions {
        for b in &versions {
            for c in &versions {
                let ab = a.order(b);
                let bc = b.order(c);
                if ab != Order::Greater && bc != Order::Greater {
                    let expected = if ab == Order::Equal && bc == Order::Equal {
                        Order::Equal
                    } else {
                        less += 1;
                        Order::Less
                    };
                    assert_eq!(a.order(c), expected);
                }
            }
        }
    }
    assert!(less > 0);
    assert_eq!(pkg_ver("1.0").order(&pkg_ver("1.00")), Order::Equal);
    assert_eq!(pkg_ver("1.0-1").order(&pkg_ver("1.0-01")), Order::Equal);
}
