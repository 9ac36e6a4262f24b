//! Reading, writing and ordering versions.

use stellar_doctor::version::Version;

fn version(text: &str) -> Version {
    Version::parse(text).unwrap()
}

#[test]
fn a_version_reads_back_as_it_is_written() {
    for s in [
        "0.0.0",
        "27.1.0",
        "18446744073709551615.0.0",
        "1.84.0-nightly",
        "1.0.0--",
        "1.0.0-0",
        "1.0.0-0a.00b",
        "1.2.3+build.7",
        "1.2.3+007",
        "1.2.3+a-b",
        "1.0.0-rc.1+x-y",
    ] {
        assert_eq!(version(s).text(), s);
    }
    assert_eq!(Version::new(27, 1, 0).text(), "27.1.0");
}

#[test]
fn rejects_what_is_no_version() {
    for s in [
        "",
        "1",
        "1.2",
        "1.2.",
        "1.2.3.4",
        "01.2.3",
        "1.00.3",
        "18446744073709551616.0.0",
        " 1.2.3",
        "1.2.3 ",
        "v1.2.3",
        "1.2.x",
        "1.2.3-",
        "1.2.3-+b",
        "1.2.3-.",
        "1.2.3-a.",
        "1.2.3-a..b",
        "1.2.3-01",
        "1.2.3-a_b",
        "1.2.3+",
        "1.2.3+a..b",
        "1.2.3+a+b",
        "1.2.3-\u{e4}",
        "\u{661}.2.3",
    ] {
        assert!(Version::parse(s).is_none(), "{s:?}");
    }
}

#[test]
fn versions_are_ordered() {
    let sorted = [
        "0.0.0-a",
        "0.0.0",
        "1.0.0-alpha",
        "1.0.0-alpha.1",
        "1.0.0-alpha.beta",
        "1.0.0-beta",
        "1.0.0-beta.2",
        "1.0.0-beta.11",
        "1.0.0-rc.1",
        "1.0.0",
        "1.81.9",
        "1.82.0-8",
        "1.82.0-12",
        "1.82.0-A",
        "1.82.0-pre12",
        "1.82.0-pre8",
        "1.82.0",
        "1.82.0+0",
        "1.82.0+00",
        "1.82.0+1",
        "1.82.0+01",
        "1.82.0+10",
        "1.82.0+1a",
        "1.82.0+a",
        "1.82.0+a.0",
        "1.82.0+b",
        "1.82.1",
        "1.83.0",
        "2.0.0",
        "10.0.0",
    ];
    for (i, a) in sorted.iter().enumerate() {
        for (j, b) in sorted.iter().enumerate() {
            assert_eq!(version(a).is_before(&version(b)), i < j, "{a} {b}");
        }
    }
}
