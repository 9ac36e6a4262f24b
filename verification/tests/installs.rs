use stellar_doctor::installs::{
    check_installs, install_label, list_installs, summarize_versions, Install, InstallVersion,
    InstalledVersions,
};
use stellar_doctor::print::{Mark, Print};
use stellar_doctor::probe::{parse_only_version, parse_version_banner};
use stellar_doctor::version::Version;

#[test]
fn parses_bare_only_version_output() {
    assert_eq!(parse_only_version("27.1.0\n").as_deref(), Some("27.1.0"));
}

#[test]
fn rejects_usage_text_printed_for_an_unknown_flag() {
    // A CLI old enough to reject `--only-version` must not be reported as if the
    // usage text were its version.
    let usage = "error: unexpected argument '--only-version' found\n\n\
                 Usage: soroban version [OPTIONS]\n";

    assert_eq!(parse_only_version(usage), None);
}

#[test]
fn parses_version_from_an_older_cli_banner() {
    // What a 22.8.0 `soroban` prints, which has no `--only-version`.
    let banner = "stellar 22.8.0 (18f54cdc0342726eb13ac14f84e899703d9f180a)\n\
                  stellar-xdr 22.1.0 (e139229708)\n\
                  xdr curr (529d5176f2)\n";

    assert_eq!(parse_version_banner(banner).as_deref(), Some("22.8.0"));
}

#[test]
fn returns_none_for_a_banner_without_a_version() {
    assert_eq!(parse_version_banner("not a stellar cli\n"), None);
}

/// `None` stands for a probe that failed rather than one that timed out.
fn installs(entries: &[(&str, Option<&str>)]) -> Vec<Install> {
    entries
        .iter()
        .map(|(path, version)| {
            let version = version.map_or(InstallVersion::Silent, |version| {
                InstallVersion::Known(version.to_string())
            });

            (path.to_string(), version)
        })
        .collect()
}

#[test]
fn timed_out_counts_as_unanswered_not_as_a_disagreement() {
    assert_eq!(
        summarize_versions(&vec![
            (
                "/a/stellar".to_string(),
                InstallVersion::Known("27.1.0".to_string())
            ),
            ("/b/soroban".to_string(), InstallVersion::TimedOut),
        ]),
        InstalledVersions::Unanswered {
            agreed: Some("27.1.0".to_string()),
            unanswered: 1
        }
    );
}

fn known(version: &str) -> InstallVersion {
    InstallVersion::Known(version.to_string())
}

#[test]
fn marks_an_install_behind_the_latest_release_as_outdated() {
    let latest = Version::parse("27.1.0").unwrap();

    assert_eq!(
        install_label(&known("22.8.0"), Some(&latest)),
        "22.8.0, outdated -- 27.1.0 is available"
    );
}

#[test]
fn does_not_mark_an_install_at_or_past_the_latest_release() {
    let latest = Version::parse("27.1.0").unwrap();

    // At the latest: nothing to say beyond the version.
    assert_eq!(install_label(&known("27.1.0"), Some(&latest)), "27.1.0");
    // Ahead of it: not outdated, and nothing to invent a verdict about.
    assert_eq!(install_label(&known("28.0.0"), Some(&latest)), "28.0.0");
}

#[test]
fn says_nothing_about_currency_when_the_latest_release_is_unknown() {
    assert_eq!(install_label(&known("22.8.0"), None), "22.8.0");
    assert_eq!(known("22.8.0").is_behind(None), None);
}

#[test]
fn says_nothing_about_currency_for_an_executable_that_did_not_answer() {
    let latest = Version::parse("27.1.0").unwrap();

    assert_eq!(InstallVersion::Silent.is_behind(Some(&latest)), None);
    assert_eq!(InstallVersion::TimedOut.is_behind(Some(&latest)), None);
    assert_eq!(
        install_label(&InstallVersion::TimedOut, Some(&latest)),
        "hung; killed after timing out"
    );
}

#[test]
fn compares_prereleases_by_semver_precedence() {
    let latest = Version::parse("27.1.0").unwrap();

    // A release candidate for the latest version is still behind it.
    assert_eq!(known("27.1.0-rc.1").is_behind(Some(&latest)), Some(true));
}

#[test]
fn a_probe_outcome_labels_itself_distinctly() {
    assert_eq!(
        InstallVersion::Known("27.1.0".to_string()).label(),
        "27.1.0"
    );
    assert_ne!(
        InstallVersion::TimedOut.label(),
        InstallVersion::Silent.label()
    );
}

#[test]
fn agreement_needs_every_executable_to_have_answered() {
    assert_eq!(
        summarize_versions(&installs(&[
            ("/a/stellar", Some("27.1.0")),
            ("/a/soroban", Some("27.1.0")),
        ])),
        InstalledVersions::Agreed("27.1.0".to_string())
    );
}

#[test]
fn distinct_known_versions_disagree() {
    assert_eq!(
        summarize_versions(&installs(&[
            ("/a/stellar", Some("27.1.0")),
            ("/b/soroban", Some("22.8.0")),
        ])),
        InstalledVersions::Disagree { unanswered: 0 }
    );
}

#[test]
fn executables_that_cannot_be_asked_are_not_a_disagreement() {
    // Two executables that cannot be run tell nothing about whether they match.
    assert_eq!(
        summarize_versions(&installs(&[("/a/stellar", None), ("/b/soroban", None)])),
        InstalledVersions::Unanswered {
            agreed: None,
            unanswered: 2
        }
    );

    // One answered, the other did not: still nothing to contradict.
    assert_eq!(
        summarize_versions(&installs(&[
            ("/a/stellar", Some("27.1.0")),
            ("/b/soroban", None),
        ])),
        InstalledVersions::Unanswered {
            agreed: Some("27.1.0".to_string()),
            unanswered: 1
        }
    );
}

#[test]
fn a_failed_probe_does_not_erase_the_agreement_around_it() {
    assert_eq!(
        summarize_versions(&installs(&[
            ("/a/stellar", Some("27.1.0")),
            ("/a/soroban", Some("27.1.0")),
            ("/b/stellar", None),
        ])),
        InstalledVersions::Unanswered {
            agreed: Some("27.1.0".to_string()),
            unanswered: 1
        }
    );
}

#[test]
fn an_observed_disagreement_outranks_a_failed_probe() {
    assert_eq!(
        summarize_versions(&installs(&[
            ("/a/stellar", Some("27.1.0")),
            ("/b/soroban", Some("22.8.0")),
            ("/c/stellar", None),
        ])),
        InstalledVersions::Disagree { unanswered: 1 }
    );
}

// ---------------------------------------------------------------------------

fn written(print: &Print) -> Vec<(Mark, &str)> {
    print
        .lines
        .iter()
        .map(|line| (line.mark, line.text.as_str()))
        .collect()
}

#[test]
fn nothing_found_establishes_nothing() {
    assert_eq!(summarize_versions(&vec![]), InstalledVersions::NoneFound);
}

#[test]
fn a_lone_executable_cannot_disagree() {
    assert_eq!(
        summarize_versions(&installs(&[("/a/stellar", Some("1.0.0"))])),
        InstalledVersions::Agreed("1.0.0".to_string())
    );
    assert_eq!(
        summarize_versions(&installs(&[("/a/stellar", None)])),
        InstalledVersions::Unanswered {
            agreed: None,
            unanswered: 1
        }
    );
}

#[test]
fn a_silent_executable_counts_wherever_it_stands() {
    let expected = InstalledVersions::Unanswered {
        agreed: Some("1.0.0".to_string()),
        unanswered: 1,
    };
    for at in 0..3 {
        let mut found = installs(&[("/a/stellar", Some("1.0.0")), ("/b/stellar", Some("1.0.0"))]);
        found.insert(at, ("/c/stellar".to_string(), InstallVersion::TimedOut));
        assert_eq!(summarize_versions(&found), expected);
    }
}

#[test]
fn what_is_no_version_is_not_judged() {
    let latest = Version::parse("27.1.0").unwrap();
    assert_eq!(known("27.1").is_behind(Some(&latest)), None);
    assert_eq!(install_label(&known("nightly"), Some(&latest)), "nightly");
}

#[test]
fn prereleases_of_one_release_are_ordered_by_their_identifiers() {
    let latest = Version::parse("27.1.0-rc.10").unwrap();
    assert_eq!(known("27.1.0-rc.9").is_behind(Some(&latest)), Some(true));
    assert_eq!(known("27.1.0-rc.10").is_behind(Some(&latest)), Some(false));
    assert_eq!(known("27.1.0-rc.11").is_behind(Some(&latest)), Some(false));
    assert_eq!(known("27.1.0").is_behind(Some(&latest)), Some(false));
}

#[test]
fn lists_one_line_for_each_executable() {
    let latest = Version::parse("27.1.0").unwrap();
    let mut print = Print::new();
    list_installs(
        &mut print,
        &vec![
            ("/a/stellar".to_string(), known("27.1.0")),
            ("/b/stellar".to_string(), known("22.8.0")),
            ("/c/stellar".to_string(), InstallVersion::Silent),
        ],
        Some(&latest),
    );
    assert_eq!(
        written(&print),
        vec![
            (Mark::Blank, "- /a/stellar (27.1.0)"),
            (
                Mark::Blank,
                "- /b/stellar (22.8.0, outdated -- 27.1.0 is available)"
            ),
            (Mark::Blank, "- /c/stellar (unknown version)"),
        ]
    );
}

#[test]
fn one_version_for_all_earns_the_success_mark() {
    let mut print = Print::new();
    check_installs(
        &mut print,
        &installs(&[("/a/stellar", Some("27.1.0")), ("/a/soroban", Some("27.1.0"))]),
        None,
        "27.1.0",
    );
    assert_eq!(
        written(&print),
        vec![
            (
                Mark::Check,
                "2 Stellar CLI executables on PATH, all reporting 27.1.0:"
            ),
            (Mark::Blank, "- /a/stellar (27.1.0)"),
            (Mark::Blank, "- /a/soroban (27.1.0)"),
        ]
    );
}

#[test]
fn agreement_on_another_version_is_a_warning() {
    let mut print = Print::new();
    check_installs(
        &mut print,
        &installs(&[("/a/stellar", Some("26.0.0")), ("/a/soroban", Some("26.0.0"))]),
        None,
        "27.1.0",
    );
    assert_eq!(
        written(&print),
        vec![
            (
                Mark::Warn,
                "2 Stellar CLI executables on PATH, all reporting 26.0.0, which is not the 27.1.0 \
                 now running:"
            ),
            (Mark::Blank, "- /a/stellar (26.0.0)"),
            (Mark::Blank, "- /a/soroban (26.0.0)"),
            (
                Mark::Warn,
                "2 executables on PATH report a version other than the 27.1.0 now running, without \
                 being behind the latest release."
            ),
        ]
    );
}

#[test]
fn behind_stale_and_hung_are_counted_apart() {
    let latest = Version::parse("27.1.0").unwrap();
    let mut print = Print::new();
    check_installs(
        &mut print,
        &vec![
            ("/a/stellar".to_string(), known("22.8.0")),
            ("/b/stellar".to_string(), known("23.0.0")),
            ("/c/stellar".to_string(), known("28.0.0")),
            ("/d/stellar".to_string(), InstallVersion::TimedOut),
            ("/e/stellar".to_string(), InstallVersion::Silent),
        ],
        Some(&latest),
        "27.1.0",
    );
    let lines = written(&print);
    assert_eq!(
        lines[0],
        (
            Mark::Warn,
            "Found 5 Stellar CLI executables on PATH; the 3 that reported a version do not agree \
             (2 could not be asked):"
        )
    );
    assert_eq!(
        lines[6..].to_vec(),
        vec![
            (
                Mark::Warn,
                "2 executables on PATH are behind the latest release (27.1.0). Upgrade or remove \
                 them: an outdated one prints upgrade warnings naming its own version, which is \
                 what makes them look wrong."
            ),
            (
                Mark::Warn,
                "1 executable on PATH reports a version other than the 27.1.0 now running, without \
                 being behind the latest release."
            ),
            (
                Mark::Warn,
                "1 executable on PATH did not answer within 2s and had to be killed. Unlike one \
                 that simply failed to report a version, a hung executable is itself the problem."
            ),
        ]
    );
}

#[test]
fn an_outdated_executable_is_outdated_under_every_later_release() {
    for latest in ["22.8.1", "23.0.0-rc.1", "27.1.0"] {
        let latest = Version::parse(latest).unwrap();
        assert_eq!(known("22.8.0").is_behind(Some(&latest)), Some(true));
    }
    for latest in ["22.8.0", "22.8.0-rc.1", "21.9.9"] {
        let latest = Version::parse(latest).unwrap();
        assert_eq!(known("22.8.0").is_behind(Some(&latest)), Some(false));
    }
}
