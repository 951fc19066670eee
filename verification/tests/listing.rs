use ndk_build::error::{NdkError, UidParseError};
use ndk_build::text::{chars_of, decimal_string};
use ndk_build::uid::{parse_u32, uid_from_listing};
use std::num::IntErrorKind;

fn parse(s: &str) -> Result<u32, UidParseError> {
    let v = chars_of(s);
    parse_u32(&v, 0, v.len())
}

#[test]
fn parse_u32_matches_std() {
    let cases = [
        "0", "7", "10123", "+5", "-5", "+", "-", "", "4294967295", "4294967296",
        "99999999999", "12a", "a12", "99999999999x", "00042", " 1", "1 ", "+-1", "١",
    ];
    for s in cases {
        let expected = s.parse::<u32>().map_err(|e| match e.kind() {
            IntErrorKind::Empty => UidParseError::Empty,
            IntErrorKind::InvalidDigit => UidParseError::InvalidDigit,
            IntErrorKind::PosOverflow => UidParseError::PosOverflow,
            k => panic!("unexpected kind {:?}", k),
        });
        assert_eq!(parse(s), expected, "parse {:?}", s);
    }
}

#[test]
fn decimal_string_matches_to_string() {
    for n in [0u32, 1, 9, 10, 29, 100, 10123, 4294967295] {
        assert_eq!(decimal_string(n), n.to_string());
    }
}

#[test]
fn uid_of_single_line() {
    assert!(matches!(uid_from_listing("package:com.example.app uid:10123\n", "com.example.app"), Ok(10123)));
    assert!(matches!(uid_from_listing("package:com.example.app uid:10123", "com.example.app"), Ok(10123)));
    assert!(matches!(uid_from_listing("package:com.example.app uid:10123\r\n", "com.example.app"), Ok(10123)));
}

#[test]
fn uid_skips_other_packages() {
    let out = "package:com.example.app.debug uid:10200\npackage:com.example.app uid:10123\n";
    assert!(matches!(uid_from_listing(out, "com.example.app"), Ok(10123)));
    let out = "package:com.example.app uid:10123\npackage:com.example.app uid:999\n";
    assert!(matches!(uid_from_listing(out, "com.example.app"), Ok(10123)));
}

#[test]
fn uid_package_missing() {
    let out = "package:com.other uid:1\n";
    match uid_from_listing(out, "com.example.app") {
        Err(NdkError::PackageNotInOutput { package, output }) => {
            assert_eq!(package, "com.example.app");
            assert_eq!(output, out);
        }
        r => panic!("unexpected {:?}", r),
    }
    assert!(matches!(uid_from_listing("", "a"), Err(NdkError::PackageNotInOutput { .. })));
    // A line without a space names no package.
    assert!(matches!(uid_from_listing("package:a\n", "a"), Err(NdkError::PackageNotInOutput { .. })));
}

#[test]
fn uid_field_missing() {
    let out = "package:com.example.app 10123\n";
    match uid_from_listing(out, "com.example.app") {
        Err(NdkError::UidNotInOutput(o)) => assert_eq!(o, out),
        r => panic!("unexpected {:?}", r),
    }
}

#[test]
fn uid_not_a_number() {
    match uid_from_listing("package:a uid:12x\n", "a") {
        Err(NdkError::NotAUid(UidParseError::InvalidDigit, t)) => assert_eq!(t, "12x"),
        r => panic!("unexpected {:?}", r),
    }
    match uid_from_listing("package:a uid:\n", "a") {
        Err(NdkError::NotAUid(UidParseError::Empty, t)) => assert_eq!(t, ""),
        r => panic!("unexpected {:?}", r),
    }
    match uid_from_listing("package:a uid:4294967296\n", "a") {
        Err(NdkError::NotAUid(UidParseError::PosOverflow, t)) => assert_eq!(t, "4294967296"),
        r => panic!("unexpected {:?}", r),
    }
    // Only a `\r` that ends a line before `\n` is dropped.
    match uid_from_listing("package:a uid:5\r", "a") {
        Err(NdkError::NotAUid(UidParseError::InvalidDigit, t)) => assert_eq!(t, "5\r"),
        r => panic!("unexpected {:?}", r),
    }
}

/// The listing rules as std's string functions state them.
fn std_uid(output: &str, package: &str) -> Result<u32, String> {
    let (_p, uid) = output
        .lines()
        .filter_map(|line| line.split_once(' '))
        .find(|(p, _u)| p.strip_prefix("package:") == Some(package))
        .ok_or_else(|| "missing".to_string())?;
    let uid = uid.strip_prefix("uid:").ok_or_else(|| "nouid".to_string())?;
    uid.parse().map_err(|_| format!("bad:{}", uid))
}

#[test]
fn uid_matches_std_rules() {
    let outputs = [
        "package:a uid:1\n",
        "package:a uid:1\r\npackage:b uid:2\r\n",
        "package:b uid:2\npackage:a uid:1",
        "package:a  uid:1\n",
        "package:a uid:1 extra\n",
        "\n\npackage:a uid:7\n\n",
        "package:ab uid:3\npackage:a uid:4\n",
        "package:a uid:+8\n",
        "package:a\nuid:9\n",
        "junk\npackage:a uid:10\r",
        "package:a uid:11\r\r\n",
    ];
    for o in outputs {
        let expected = std_uid(o, "a");
        let got = match uid_from_listing(o, "a") {
            Ok(u) => Ok(u),
            Err(NdkError::PackageNotInOutput { .. }) => Err("missing".to_string()),
            Err(NdkError::UidNotInOutput(_)) => Err("nouid".to_string()),
            Err(NdkError::NotAUid(_, t)) => Err(format!("bad:{}", t)),
            Err(e) => panic!("unexpected {:?}", e),
        };
        assert_eq!(got, expected, "output {:?}", o);
    }
}

#[test]
fn decimal_text_reads_back() {
    for n in [0u32, 5, 42, 10123, 99999, 4294967295] {
        assert_eq!(parse(&decimal_string(n)), Ok(n));
        let line = format!("package:pkg uid:{}", decimal_string(n));
        assert!(matches!(uid_from_listing(&line, "pkg"), Ok(u) if u == n));
    }
}
