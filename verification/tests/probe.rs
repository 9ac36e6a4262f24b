use stellar_doctor::installs::InstallVersion;
use stellar_doctor::probe::{
    find_installs, installed_version, join_versions, kill_process_group, parse_only_version,
    parse_version_banner, run_version, Candidate, FilePath, ProbeOutput, ProbeStep, RunAction,
    RunEvent, VersionQuery, BinaryName, INSTALL_PROBE_TIMEOUT, MAX_PROBE_OUTPUT,
};

fn path(shown: &str) -> FilePath {
    FilePath {
        shown: shown.to_string(),
        identity: shown.as_bytes().to_vec(),
    }
}

fn candidate(shown: &str, absolute: bool, canonical: Option<&str>) -> Candidate {
    Candidate {
        path: path(shown),
        absolute,
        canonical: canonical.map(path),
    }
}

fn answered(text: &str) -> ProbeOutput {
    ProbeOutput::Answered(text.to_string())
}

#[test]
fn a_bare_version_may_have_whitespace_around_it() {
    assert_eq!(parse_only_version(" \t27.1.0\r\n\n").as_deref(), Some("27.1.0"));
    assert_eq!(parse_only_version("27.1.0-rc.1\n").as_deref(), Some("27.1.0-rc.1"));
    assert_eq!(parse_only_version("27.1.0 27.1.0"), None);
    assert_eq!(parse_only_version(""), None);
}

#[test]
fn only_the_first_line_of_a_banner_counts() {
    assert_eq!(parse_version_banner("stellar\nstellar 22.8.0\n"), None);
    assert_eq!(parse_version_banner("\n22.8.0"), None);
    assert_eq!(parse_version_banner(""), None);
    assert_eq!(
        parse_version_banner("stellar v1 22.8.0 23.0.0\r\n").as_deref(),
        Some("22.8.0")
    );
}

#[test]
fn a_banner_version_alone_is_the_same_version() {
    let version = parse_version_banner("soroban 21.0.0-rc.1 (x)").unwrap();
    assert_eq!(parse_only_version(&version).as_deref(), Some("21.0.0-rc.1"));
}

fn finish(event: RunEvent) -> (ProbeOutput, bool) {
    match run_version(event) {
        RunAction::Finish { output, kill_group } => (output, kill_group),
        RunAction::Wait(_) => panic!("still waiting"),
    }
}

#[test]
fn a_query_that_is_not_answered_is_killed_with_what_it_started() {
    assert_eq!(finish(RunEvent::NotSpawned), (ProbeOutput::Failed, false));
    assert_eq!(finish(RunEvent::Unreadable), (ProbeOutput::Failed, true));
    assert_eq!(finish(RunEvent::Lost), (ProbeOutput::Failed, true));
    assert_eq!(finish(RunEvent::Expired), (ProbeOutput::TimedOut, true));
    assert_eq!(
        finish(RunEvent::Exited {
            success: false,
            output: b"22.8.0".to_vec()
        }),
        (ProbeOutput::Failed, true)
    );
    assert_eq!(
        finish(RunEvent::Exited {
            success: true,
            output: b"22.8.0\n".to_vec()
        }),
        (answered("22.8.0\n"), false)
    );
}

#[test]
fn bytes_that_are_no_text_are_replaced() {
    assert_eq!(
        finish(RunEvent::Exited {
            success: true,
            output: vec![b'a', 0xff, b'b']
        }),
        (answered("a\u{fffd}b"), false)
    );
}

#[test]
fn filling_the_cap_is_no_answer() {
    assert_eq!(MAX_PROBE_OUTPUT, 65536);
    assert_eq!(INSTALL_PROBE_TIMEOUT, 2);
    assert_eq!(
        finish(RunEvent::Read(vec![b'x'; 65536])),
        (ProbeOutput::Failed, true)
    );
    assert_eq!(
        finish(RunEvent::Exited {
            success: true,
            output: vec![b'x'; 65536],
        }),
        (ProbeOutput::Failed, true)
    );
    assert!(
        matches!(run_version(RunEvent::Read(vec![b'x'; 65535])), RunAction::Wait(output) if output.len() == 65535)
    );
}

#[test]
fn a_hung_executable_is_not_asked_again() {
    assert_eq!(VersionQuery::first(), VersionQuery::OnlyVersion);
    assert_eq!(
        installed_version(VersionQuery::OnlyVersion, &ProbeOutput::TimedOut),
        ProbeStep::Done(InstallVersion::TimedOut)
    );
    assert_eq!(
        installed_version(VersionQuery::Banner, &ProbeOutput::TimedOut),
        ProbeStep::Done(InstallVersion::TimedOut)
    );
}

#[test]
fn an_older_cli_is_asked_for_its_banner() {
    let known = |v: &str| ProbeStep::Done(InstallVersion::Known(v.to_string()));
    let banner = ProbeStep::Ask(VersionQuery::Banner);
    assert_eq!(
        installed_version(VersionQuery::OnlyVersion, &answered("27.1.0\n")),
        known("27.1.0")
    );
    assert_eq!(
        installed_version(VersionQuery::OnlyVersion, &answered("Usage: soroban")),
        banner
    );
    assert_eq!(
        installed_version(VersionQuery::OnlyVersion, &ProbeOutput::Failed),
        banner
    );
    assert_eq!(
        installed_version(VersionQuery::Banner, &answered("stellar 22.8.0 (0)\n")),
        known("22.8.0")
    );
    assert_eq!(
        installed_version(VersionQuery::Banner, &answered("hello")),
        ProbeStep::Done(InstallVersion::Silent)
    );
    assert_eq!(
        installed_version(VersionQuery::Banner, &ProbeOutput::Failed),
        ProbeStep::Done(InstallVersion::Silent)
    );
}

#[test]
fn queries_and_names_are_spelled_out() {
    assert_eq!(VersionQuery::OnlyVersion.args(), vec!["version", "--only-version"]);
    assert_eq!(VersionQuery::Banner.args(), vec!["--version"]);
    assert_eq!(BinaryName::Stellar.text(), "stellar");
    assert_eq!(BinaryName::Soroban.text(), "soroban");
}

#[test]
fn each_file_is_probed_once_and_never_through_a_relative_path() {
    let found = vec![
        candidate("bin/stellar", false, Some("/work/bin/stellar")),
        candidate("/brew/stellar", true, Some("/cellar/27/stellar")),
        candidate("/cellar/27/stellar", true, Some("/cellar/27/stellar")),
        candidate("/work/bin/stellar", true, Some("/work/bin/stellar")),
        candidate("/gone/stellar", true, None),
        candidate("/gone/stellar", true, None),
    ];
    assert_eq!(find_installs(&found), vec![1, 3, 4]);
    let installs = join_versions(
        &found,
        &vec![
            InstallVersion::Known("27.1.0".to_string()),
            InstallVersion::Silent,
            InstallVersion::TimedOut,
        ],
    );
    assert_eq!(
        installs,
        vec![
            (
                "/brew/stellar".to_string(),
                InstallVersion::Known("27.1.0".to_string())
            ),
            ("/work/bin/stellar".to_string(), InstallVersion::Silent),
            ("/gone/stellar".to_string(), InstallVersion::TimedOut),
        ]
    );
}

#[test]
fn a_group_is_addressed_by_the_negated_id_of_its_leader() {
    assert_eq!(kill_process_group(Some(4711)), Some(-4711));
    assert_eq!(kill_process_group(Some(0x7fff_ffff)), Some(-0x7fff_ffff));
    assert_eq!(kill_process_group(Some(0x8000_0000)), None);
    assert_eq!(kill_process_group(None), None);
}

#[test]
fn a_banner_may_go_on_behind_its_version() {
    for more in ["", "\n", "\r\n", " (18f54cd)\nstellar-xdr 22.1.0\n", "\u{2003}1.0.0"] {
        let banner = format!("soroban 22.8.0-rc.1{more}");
        assert_eq!(parse_version_banner(&banner).as_deref(), Some("22.8.0-rc.1"), "{banner:?}");
    }
}

#[test]
fn a_version_answered_is_known_at_once() {
    for output in ["27.1.0", "27.1.0\n"] {
        assert_eq!(
            installed_version(
                VersionQuery::first(),
                &ProbeOutput::Answered(output.to_string()),
            ),
            ProbeStep::Done(InstallVersion::Known("27.1.0".to_string()))
        );
    }
}
