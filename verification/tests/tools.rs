use stellar_doctor::cache::{
    check_version, show_version_cache_writer, CheckPerformedBy, LastWriter, UpgradeStatus,
};
use stellar_doctor::error::Error;
use stellar_doctor::networks::{print_network, Network, VersionInfo};
use stellar_doctor::print::{Mark, Print};
use stellar_doctor::settings::{show_config_path, show_data_path, show_xdr_version};
use stellar_doctor::toolchain::{
    check_container_engine, check_optional_features, check_rust_version, check_wasm_target,
    get_expected_wasm_target, EngineSetting, RustTargets,
};
use stellar_doctor::version::Version;

fn only_line(print: &Print) -> (Mark, &str) {
    assert_eq!(print.lines.len(), 1);
    (print.lines[0].mark, print.lines[0].text.as_str())
}

fn version(text: &str) -> Option<Version> {
    Some(Version::parse(text).unwrap())
}

#[test]
fn rust_1_82_and_1_83_cannot_build_contracts() {
    let refused = |text: &str| {
        let mut print = Print::new();
        check_rust_version(&mut print, &version(text));
        let (mark, line) = only_line(&print);
        if mark == Mark::Error {
            assert_eq!(line, format!("Rust {text} cannot be used to build contracts"));
            true
        } else {
            assert_eq!((mark, line), (Mark::Info, format!("Rust version: {text}").as_str()));
            false
        }
    };
    for text in ["1.82.0", "1.82.1", "1.83.0", "1.83.0-nightly", "1.84.0-beta.1", "1.82.0+x"] {
        assert!(refused(text), "{text}");
    }
    for text in ["1.81.0", "1.82.0-nightly", "1.84.0", "1.90.0-nightly", "2.83.0", "0.83.0"] {
        assert!(!refused(text), "{text}");
    }
}

#[test]
fn an_unknown_version_of_rust_is_a_warning() {
    let mut print = Print::new();
    check_rust_version(&mut print, &None);
    assert_eq!(only_line(&print), (Mark::Warn, "Could not determine Rust version"));
}

#[test]
fn the_newer_target_goes_with_rust_1_84() {
    assert_eq!(get_expected_wasm_target(&version("1.83.0")), "wasm32-unknown-unknown");
    assert_eq!(get_expected_wasm_target(&version("1.84.0-nightly")), "wasm32-unknown-unknown");
    assert_eq!(get_expected_wasm_target(&version("1.84.0")), "wasm32v1-none");
    assert_eq!(get_expected_wasm_target(&None), "wasm32v1-none");
}

#[test]
fn a_target_has_a_line_of_its_own() {
    let outcome = |targets: RustTargets| {
        let mut print = Print::new();
        check_wasm_target(&mut print, &version("1.84.0"), &targets);
        let (mark, line) = only_line(&print);
        (mark, line.to_string())
    };
    let listed = |text: &str| outcome(RustTargets::Listed(text.as_bytes().to_vec()));
    let installed = (Mark::Check, "Rust target `wasm32v1-none` is installed".to_string());
    let missing = (Mark::Error, "Rust target `wasm32v1-none` is not installed".to_string());
    let unknown = (Mark::Warn, "Could not retrieve Rust targets".to_string());
    assert_eq!(listed("x86_64-unknown-linux-gnu\r\n  wasm32v1-none \n"), installed);
    assert_eq!(listed("wasm32v1-none"), installed);
    assert_eq!(listed("wasm32v1-none-x\nx wasm32v1-none\n"), missing);
    assert_eq!(listed(""), missing);
    assert_eq!(
        outcome(RustTargets::Listed(b"\xff\nwasm32v1-none\n".to_vec())),
        installed
    );
    assert_eq!(outcome(RustTargets::NotRun), unknown);
    assert_eq!(outcome(RustTargets::Failed), unknown);
}

#[test]
fn an_engine_is_available_or_not_installed() {
    let setting = EngineSetting::Resolved {
        engine: "Podman".to_string(),
        program: "podman".to_string(),
    };
    let mut print = Print::new();
    check_container_engine(&mut print, &setting, false);
    assert_eq!(only_line(&print), (Mark::Warn, "Container engine `Podman` is not installed"));
    let mut print = Print::new();
    check_container_engine(&mut print, &setting, true);
    assert_eq!(only_line(&print), (Mark::Check, "Container engine `Podman` is available"));
}

#[test]
fn features_are_all_there_or_all_missing() {
    let mut print = Print::new();
    check_optional_features(&mut print, true);
    let lines: Vec<(Mark, &str)> =
        print.lines.iter().map(|line| (line.mark, line.text.as_str())).collect();
    assert_eq!(
        lines,
        vec![
            (Mark::Check, "Wasm optimization"),
            (Mark::Check, "Secure store (OS keyring)"),
            (Mark::Check, "Ledger hardware wallet"),
        ]
    );
    let mut print = Print::new();
    check_optional_features(&mut print, false);
    assert_eq!(print.lines.len(), 4);
    assert_eq!(print.lines[0].mark, Mark::Warn);
}

#[test]
fn directories_are_shown_or_their_error_is_handed_on() {
    let mut print = Print::new();
    assert_eq!(show_config_path(&mut print, Ok("/c".to_string())), Ok(()));
    assert_eq!(only_line(&print), (Mark::Gear, "Config directory: /c"));
    let mut print = Print::new();
    assert_eq!(show_data_path(&mut print, Ok("/d".to_string())), Ok(()));
    assert_eq!(only_line(&print), (Mark::Dir, "Data directory: /d"));
    let mut print = Print::new();
    assert_eq!(
        show_config_path(&mut print, Err("c".to_string())),
        Err(Error::Locator("c".to_string()))
    );
    assert_eq!(
        show_data_path(&mut print, Err("d".to_string())),
        Err(Error::Data("d".to_string()))
    );
    assert!(print.lines.is_empty());
}

#[test]
fn shows_the_xdr_revision_of_the_crate() {
    let mut print = Print::new();
    show_xdr_version(&mut print);
    assert_eq!(
        only_line(&print),
        (Mark::Info, format!("XDR version: {}", stellar_xdr::VERSION.xdr).as_str())
    );
}

#[test]
fn every_error_tells_its_cause() {
    for error in [
        Error::Locator("x".to_string()),
        Error::Network("x".to_string()),
        Error::RpcClient("x".to_string()),
        Error::Io("x".to_string()),
        Error::Data("x".to_string()),
    ] {
        assert_eq!(error.message(), "x");
    }
}

#[test]
fn an_error_about_a_network_is_handed_on() {
    let network = Network {
        shown_url: "https://x".to_string(),
    };
    let mut print = Print::new();
    assert_eq!(
        print_network(
            true,
            &mut print,
            "testnet",
            &network,
            Err(Error::Network("bad url".to_string()))
        ),
        Err(Error::Network("bad url".to_string()))
    );
    assert!(print.lines.is_empty());
    let info = VersionInfo {
        protocol_version: 22,
        version: "22.1.1".to_string(),
    };
    assert_eq!(print_network(false, &mut print, "testnet", &network, Ok(info)), Ok(()));
    assert_eq!(print.lines[0].text, "Network \"testnet\" (https://x)");
}

fn status(upgrade_available: bool, latest: &str) -> Option<UpgradeStatus> {
    Some(UpgradeStatus {
        upgrade_available,
        current_version: Version::parse("27.0.0").unwrap(),
        latest_version: Version::parse(latest).unwrap(),
        upgrade_message: "upgrade now".to_string(),
    })
}

#[test]
fn the_upgrade_check_gives_the_release_to_judge_by() {
    let mut print = Print::new();
    let latest = check_version(&mut print, status(true, "27.1.0")).unwrap();
    assert_eq!(only_line(&print), (Mark::Warn, "upgrade now"));
    assert_eq!(latest.unwrap().text(), "27.1.0");

    let mut print = Print::new();
    let latest = check_version(&mut print, status(false, "0.0.0")).unwrap();
    assert_eq!(
        only_line(&print),
        (Mark::Check, "You are using the latest version of Stellar CLI: 27.0.0")
    );
    assert!(latest.is_none());

    let mut print = Print::new();
    assert!(check_version(&mut print, None).unwrap().is_none());
    assert!(print.lines.is_empty());
}

fn cli(version: Option<&str>, executable: Option<&str>) -> CheckPerformedBy {
    CheckPerformedBy {
        version: version.map(str::to_string),
        executable: executable.map(str::to_string),
        shown_in_part: "shown".to_string(),
    }
}

fn writer_line(writer: CheckPerformedBy, this_cli: CheckPerformedBy) -> (Mark, String, usize) {
    let mut print = Print::new();
    show_version_cache_writer(&mut print, &LastWriter::Recorded(writer), &this_cli);
    (print.lines[0].mark, print.lines[0].text.clone(), print.lines.len())
}

#[test]
fn without_both_executables_nothing_is_claimed() {
    let plain = (Mark::Info, "Version cache was last checked by: shown".to_string(), 1);
    assert_eq!(writer_line(cli(Some("1.0.0"), None), cli(Some("2.0.0"), Some("/a"))), plain);
    assert_eq!(
        writer_line(cli(Some("1.0.0"), Some("/a")), cli(Some("2.0.0"), None)),
        (Mark::Info, "Version cache was last checked by: 1.0.0 (/a)".to_string(), 1)
    );
    assert_eq!(writer_line(cli(None, None), cli(None, None)), plain);
}

#[test]
fn a_missing_version_is_never_the_same_version() {
    assert_eq!(
        writer_line(cli(None, Some("/a")), cli(None, Some("/b"))),
        (
            Mark::Warn,
            "Version cache was last checked by a different Stellar CLI: shown".to_string(),
            2
        )
    );
    assert_eq!(
        writer_line(cli(None, Some("/a")), cli(Some("2.0.0"), Some("/a"))),
        (
            Mark::Info,
            "Version cache was last checked by this install running an unknown version; it is now \
             2.0.0"
                .to_string(),
            1
        )
    );
    assert_eq!(
        writer_line(cli(None, Some("/a")), cli(None, Some("/a"))),
        (Mark::Check, "Version cache last checked by: shown".to_string(), 1)
    );
}

#[test]
fn a_record_is_shown_as_its_version_and_executable() {
    assert_eq!(cli(Some("22.8.0"), Some("/opt/bin/soroban")).text(), "22.8.0 (/opt/bin/soroban)");
    assert_eq!(cli(Some("22.8.0"), None).text(), "shown");
    assert_eq!(cli(None, Some("/opt/bin/soroban")).text(), "shown");
}
