use stellar_doctor::cache::{CheckPerformedBy, LastWriter, UpgradeStatus};
use stellar_doctor::command::{
    Answer, Cmd, ConfigLocator, Facts, KnownNetworks, Request, Stage,
};
use stellar_doctor::error::Error;
use stellar_doctor::installs::InstallVersion;
use stellar_doctor::networks::{Network, NetworkAnswer, VersionInfo};
use stellar_doctor::print::{Mark, Print};
use stellar_doctor::probe::{
    installed_version, run_version, BinaryName, Candidate, FilePath, ProbeOutput, ProbeStep,
    RunAction, RunEvent, VersionQuery, MAX_PROBE_OUTPUT,
};
use stellar_doctor::toolchain::{EngineSetting, RustTargets};
use stellar_doctor::version::Version;

/// The version of the running CLI.
const PKG: &str = "27.1.0";
/// The running executable.
const RUNNING: &str = "/work/target/debug/stellar";

fn pkg() -> &'static str {
    PKG
}

fn running_binary() -> String {
    RUNNING.to_string()
}

/// A stand-in CLI on `PATH`.
#[derive(Clone, Copy)]
enum Cli {
    /// Answers version queries; the flag tells whether it knows `--only-version`.
    Answers(&'static str, bool),
    /// Exits with an error.
    Unrunnable,
    /// Never answers.
    Hangs,
    /// Writes without stopping.
    Floods,
}

/// One executable in a directory of `PATH`.
#[derive(Clone, Copy)]
struct Fake {
    dir: &'static str,
    name: BinaryName,
    cli: Cli,
}

fn fake(dir: &'static str, name: BinaryName, cli: Cli) -> Fake {
    Fake { dir, name, cli }
}

impl Fake {
    fn path(&self) -> String {
        format!("{}/{}", self.dir, self.name.text())
    }

    fn candidate(&self) -> Candidate {
        let path = |shown: String| FilePath {
            identity: shown.clone().into_bytes(),
            shown,
        };
        Candidate {
            absolute: self.dir.starts_with('/'),
            path: path(self.path()),
            canonical: Some(path(self.path())),
        }
    }

    fn run(&self, query: VersionQuery) -> ProbeOutput {
        let (success, output) = match self.cli {
            Cli::Hangs => return finish(RunEvent::Expired),
            Cli::Floods => {
                return finish(RunEvent::Read(vec![b'x'; MAX_PROBE_OUTPUT as usize]));
            }
            Cli::Unrunnable => (false, String::new()),
            Cli::Answers(version, supports_only_version) => {
                let args = query.args().join(" ");
                if args == "version --only-version" {
                    (supports_only_version, format!("{version}\n"))
                } else {
                    assert_eq!(args, "--version");
                    (true, format!("stellar {version} (0000000000000000000000000000000000000000)\n"))
                }
            }
        };
        match run_version(RunEvent::Read(output.into_bytes())) {
            RunAction::Wait(output) => finish(RunEvent::Exited { success, output }),
            RunAction::Finish { output, .. } => output,
        }
    }

    fn probe(&self) -> InstallVersion {
        let mut query = VersionQuery::first();
        loop {
            match installed_version(query, &self.run(query)) {
                ProbeStep::Ask(next) => query = next,
                ProbeStep::Done(version) => return version,
            }
        }
    }
}

fn finish(event: RunEvent) -> ProbeOutput {
    match run_version(event) {
        RunAction::Finish { output, .. } => output,
        RunAction::Wait(_) => panic!("still waiting"),
    }
}

/// What the machine under test has to answer.
struct Machine {
    path: Vec<Fake>,
    writer: fn() -> LastWriter,
    latest: Option<&'static str>,
    rust: Option<&'static str>,
    targets: fn() -> RustTargets,
    engine: fn() -> EngineSetting,
    engine_installed: bool,
    config_path: Result<&'static str, &'static str>,
    data_path: Result<&'static str, &'static str>,
    networks: Result<(&'static [&'static str], &'static [&'static str]), &'static str>,
    /// The networks whose RPC server replies.
    reachable: &'static [&'static str],
    /// The saved networks that can be read.
    readable: &'static [&'static str],
}

fn machine(path: &[Fake]) -> Machine {
    Machine {
        path: path.to_vec(),
        writer: || LastWriter::NoCache,
        latest: None,
        rust: Some("1.90.0"),
        targets: || RustTargets::Listed(b"wasm32v1-none\n".to_vec()),
        engine: || EngineSetting::Resolved {
            engine: "docker".to_string(),
            program: "docker".to_string(),
        },
        engine_installed: true,
        config_path: Ok("/home/user/.config/stellar"),
        data_path: Ok("/home/user/.local/share/stellar"),
        networks: Ok((&[], &[])),
        reachable: &[],
        readable: &[],
    }
}

/// What a run wrote, how it ended, and what was asked on the way.
struct Ran {
    lines: Vec<(Mark, String)>,
    result: Result<(), Error>,
    asked: Vec<String>,
}

impl Ran {
    fn stderr(&self) -> String {
        let texts: Vec<&str> = self.lines.iter().map(|(_, text)| text.as_str()).collect();
        texts.join("\n")
    }

    fn contains(&self, part: &str) -> bool {
        self.stderr().contains(part)
    }

    fn mark_of(&self, part: &str) -> Mark {
        self.lines.iter().find(|(_, text)| text.contains(part)).unwrap().0
    }
}

fn url(name: &str) -> String {
    format!("https://{name}.example")
}

fn network(name: &str) -> Network {
    Network {
        shown_url: url(name),
    }
}

fn doctor(machine: &Machine) -> Ran {
    let cmd = Cmd {
        config_locator: ConfigLocator { config_dir: None },
    };
    let facts = Facts {
        this_version: pkg().to_string(),
        this_cli: recorded(Some(pkg()), Some(RUNNING)),
        additional_libs: false,
    };
    let mut print = Print::new();
    let mut stage = cmd.start();
    let mut asked = Vec::new();
    let mut found: Vec<Fake> = Vec::new();
    let owned = |r: Result<&str, &str>| r.map(str::to_string).map_err(str::to_string);
    let reply = |name: &str| {
        if machine.reachable.contains(&name) {
            Ok(VersionInfo {
                protocol_version: 23,
                version: "23.0.1".to_string(),
            })
        } else {
            Err(Error::RpcClient("connection refused".to_string()))
        }
    };
    loop {
        let request = stage.request();
        asked.push(format!("{request:?}"));
        let answer = match request {
            Request::CacheWriter => Answer::CacheWriter((machine.writer)()),
            Request::Upgrade(_) => Answer::Upgrade(machine.latest.map(|latest| UpgradeStatus {
                upgrade_available: false,
                current_version: Version::parse(pkg()).unwrap(),
                latest_version: Version::parse(latest).unwrap(),
                upgrade_message: String::new(),
            })),
            Request::RunningBinary => Answer::RunningBinary(Some(running_binary())),
            Request::LookUp(name) => {
                let here: Vec<Fake> =
                    machine.path.iter().copied().filter(|fake| fake.name == name).collect();
                found.extend(&here);
                if here.is_empty() {
                    Answer::LookUp(None)
                } else {
                    Answer::LookUp(Some(here.iter().map(Fake::candidate).collect()))
                }
            }
            Request::Probe(positions) => {
                Answer::Probe(positions.iter().map(|i| found[*i].probe()).collect())
            }
            Request::RustVersion => {
                Answer::RustVersion(machine.rust.map(|v| Version::parse(v).unwrap()))
            }
            Request::Targets => Answer::Targets((machine.targets)()),
            Request::Engine => Answer::Engine((machine.engine)()),
            Request::EngineProgram(_) => Answer::EngineProgram(machine.engine_installed),
            Request::ConfigPath => Answer::ConfigPath(owned(machine.config_path)),
            Request::DataPath => Answer::DataPath(owned(machine.data_path)),
            Request::ListNetworks => Answer::ListNetworks(
                machine
                    .networks
                    .map(|(defaults, saved)| KnownNetworks {
                        defaults: defaults
                            .iter()
                            .map(|name| (name.to_string(), network(name)))
                            .collect(),
                        saved: saved.iter().map(|name| name.to_string()).collect(),
                    })
                    .map_err(str::to_string),
            ),
            Request::ReadNetwork(name) => Answer::Network(NetworkAnswer::Read(
                machine
                    .readable
                    .contains(&name.as_str())
                    .then_some(network(&name)),
            )),
            Request::DefaultNetwork(name) | Request::SavedNetwork(name) => {
                Answer::Network(NetworkAnswer::Reply(reply(&name)))
            }
            Request::Nothing => break,
        };
        stage = cmd.run(&facts, stage, answer, &mut print);
    }
    let result = match stage {
        Stage::Done(result) => result,
        stage => panic!("not over: {stage:?}"),
    };
    Ran {
        lines: print.lines.into_iter().map(|line| (line.mark, line.text)).collect(),
        result,
        asked,
    }
}

fn recorded(version: Option<&str>, executable: Option<&str>) -> CheckPerformedBy {
    CheckPerformedBy {
        version: version.map(str::to_string),
        executable: executable.map(str::to_string),
        shown_in_part: "an incomplete record".to_string(),
    }
}

use BinaryName::{Soroban, Stellar};

#[test]
fn reports_the_running_executable_and_a_lone_install() {
    let ran = doctor(&machine(&[fake("/one-install", Stellar, Cli::Answers(PKG, true))]));
    assert_eq!(ran.result, Ok(()));
    assert!(ran.contains(&format!("Running executable: {}", running_binary())));
    assert!(ran.contains("Only one Stellar CLI found on PATH"));
    // The lone install is listed with its version too.
    assert!(ran.contains(&format!("- /one-install/stellar ({}", pkg())));
}

#[test]
fn warns_when_the_only_install_cannot_report_a_version() {
    let ran = doctor(&machine(&[fake("/one-install-unreadable", Stellar, Cli::Unrunnable)]));
    assert_eq!(ran.result, Ok(()));
    assert!(ran.contains("Found one Stellar CLI on PATH, but it did not report a version"));
    assert!(!ran.contains("Only one Stellar CLI found on PATH"));
    assert!(ran.contains("- /one-install-unreadable/stellar (unknown version)"));
}

#[test]
fn reports_when_no_cli_is_on_path() {
    let ran = doctor(&machine(&[]));
    assert_eq!(ran.result, Ok(()));
    assert!(ran.contains("No Stellar CLI found on PATH"));
    assert!(!ran.contains("Only one Stellar CLI"));
}

#[test]
fn does_not_warn_when_both_binary_names_report_the_same_version() {
    let ran = doctor(&machine(&[
        fake("/two-installs-agreeing", Stellar, Cli::Answers("27.1.0", true)),
        fake("/two-installs-agreeing", Soroban, Cli::Answers("27.1.0", true)),
    ]));
    assert_eq!(ran.result, Ok(()));
    assert!(ran.contains("2 Stellar CLI executables on PATH, all reporting 27.1.0"));
    assert!(!ran.contains("different versions"));
}

#[test]
fn warns_when_installs_report_different_versions() {
    let ran = doctor(&machine(&[
        fake("/two-installs-disagreeing", Stellar, Cli::Answers(PKG, true)),
        // Old enough to only answer `--version`.
        fake("/two-installs-disagreeing", Soroban, Cli::Answers("22.8.0", false)),
    ]));
    assert_eq!(ran.result, Ok(()));
    assert!(ran.contains("Found 2 Stellar CLI executables on PATH reporting different versions"));
    assert!(ran.contains(&format!("- /two-installs-disagreeing/stellar ({}", pkg())));
    assert!(ran.contains("- /two-installs-disagreeing/soroban (22.8.0"));
}

#[test]
fn does_not_blame_differing_versions_when_a_version_could_not_be_read() {
    let ran = doctor(&machine(&[
        fake("/two-installs-unreadable", Stellar, Cli::Unrunnable),
        fake("/two-installs-unreadable", Soroban, Cli::Unrunnable),
    ]));
    assert_eq!(ran.result, Ok(()));
    assert!(
        ran.contains("Found 2 Stellar CLI executables on PATH; none of them reported a version")
    );
    assert!(!ran.contains("different versions"));
    assert!(ran.contains("- /two-installs-unreadable/stellar (unknown version)"));
}

#[test]
fn reports_a_disagreement_even_when_another_executable_is_unreadable() {
    let ran = doctor(&machine(&[
        fake("/disagreeing-and-unreadable", Stellar, Cli::Answers("27.1.0", true)),
        fake("/disagreeing-and-unreadable", Soroban, Cli::Answers("22.8.0", false)),
        fake("/disagreeing-and-unreadable-2", Stellar, Cli::Unrunnable),
    ]));
    assert_eq!(ran.result, Ok(()));
    assert!(ran.contains(
        "Found 3 Stellar CLI executables on PATH; the 2 that reported a version do not \
         agree (1 could not be asked)"
    ));
}

#[test]
fn reports_the_agreement_among_the_executables_that_answered() {
    let ran = doctor(&machine(&[
        fake("/agreeing-and-unreadable", Stellar, Cli::Answers("27.1.0", true)),
        fake("/agreeing-and-unreadable", Soroban, Cli::Answers("27.1.0", true)),
        fake("/agreeing-and-unreadable-2", Stellar, Cli::Unrunnable),
    ]));
    assert_eq!(ran.result, Ok(()));
    assert!(ran.contains("every one that answered reports 27.1.0, but 1 could not be asked"));
    assert!(!ran.contains("different versions"));
}

#[test]
fn confirms_the_cache_writer_when_it_is_this_cli() {
    let mut m = machine(&[]);
    m.writer = || LastWriter::Recorded(recorded(Some(PKG), Some(RUNNING)));
    let ran = doctor(&m);
    assert_eq!(ran.result, Ok(()));
    assert!(ran.contains(&format!(
        "Version cache last checked by: {} ({})",
        pkg(),
        running_binary()
    )));
}

#[test]
fn does_not_warn_when_the_same_install_wrote_the_cache_at_an_older_version() {
    let mut m = machine(&[]);
    m.writer = || LastWriter::Recorded(recorded(Some("26.1.0"), Some(RUNNING)));
    let ran = doctor(&m);
    assert_eq!(ran.result, Ok(()));
    assert!(ran.contains(&format!(
        "Version cache was last checked by this install running 26.1.0; it is now {}",
        pkg()
    )));
    assert!(!ran.contains("a different Stellar CLI"));
}

#[test]
fn warns_when_a_different_install_wrote_the_cache() {
    let mut m = machine(&[]);
    m.writer =
        || LastWriter::Recorded(recorded(Some("22.8.0"), Some("/opt/elsewhere/bin/soroban")));
    let ran = doctor(&m);
    assert_eq!(ran.result, Ok(()));
    let line = "Version cache was last checked by a different Stellar CLI: \
                22.8.0 (/opt/elsewhere/bin/soroban)";
    assert!(ran.contains(line));
    assert_eq!(ran.mark_of(line), Mark::Warn);
    assert!(ran.contains(&format!("this one is {} (", pkg())));
}

#[test]
fn does_not_warn_when_the_other_binary_name_wrote_the_cache_at_this_version() {
    let sibling = "/work/target/debug/soroban";
    let mut m = machine(&[]);
    m.writer =
        || LastWriter::Recorded(recorded(Some(PKG), Some("/work/target/debug/soroban")));
    let ran = doctor(&m);
    assert_eq!(ran.result, Ok(()));
    assert!(ran.contains(&format!(
        "Version cache was last checked by a different Stellar CLI at the same version: \
         {} ({sibling})",
        pkg()
    )));
    assert!(ran.contains(&format!("this one is {} (", pkg())));
    assert!(!ran.contains("a different Stellar CLI:"));
}

#[test]
fn warns_when_the_other_binary_name_wrote_the_cache_at_another_version() {
    let sibling = "/work/target/debug/soroban";
    let mut m = machine(&[]);
    m.writer =
        || LastWriter::Recorded(recorded(Some("22.8.0"), Some("/work/target/debug/soroban")));
    let ran = doctor(&m);
    assert_eq!(ran.result, Ok(()));
    assert!(ran.contains(&format!(
        "Version cache was last checked by a different Stellar CLI: 22.8.0 ({sibling})"
    )));
    assert!(!ran.contains("at the same version"));
}

#[test]
fn reports_a_cache_that_predates_the_writer_field_without_claiming_a_mismatch() {
    let mut m = machine(&[]);
    m.writer = || LastWriter::Unrecorded;
    let ran = doctor(&m);
    assert_eq!(ran.result, Ok(()));
    assert!(ran.contains("Version cache predates the record of which Stellar CLI writes it"));
    assert!(!ran.contains("a different Stellar CLI"));
}

#[test]
fn does_not_invent_a_cache_writer_when_there_is_no_cache() {
    let ran = doctor(&machine(&[]));
    assert_eq!(ran.result, Ok(()));
    assert!(ran.contains("No version cache yet"));
    assert!(!ran.contains("last checked by"));
}

#[test]
fn warns_when_the_cache_cannot_be_read() {
    let mut m = machine(&[]);
    m.writer = || LastWriter::Unreadable;
    let ran = doctor(&m);
    assert_eq!(ran.result, Ok(()));
    assert!(ran.contains("Version cache exists but could not be read"));
    assert!(!ran.contains("No version cache yet"));
    assert!(!ran.contains("predates the record"));
}

#[test]
fn reports_the_same_cache_writer_on_a_second_run() {
    let expected = "Version cache was last checked by a different Stellar CLI: \
                    22.8.0 (/opt/elsewhere/bin/soroban)";
    let mut m = machine(&[]);
    m.writer =
        || LastWriter::Recorded(recorded(Some("22.8.0"), Some("/opt/elsewhere/bin/soroban")));
    // The writer is read before anything else is asked, so a run reports the one
    // that was there before it.
    for _ in 0..2 {
        let ran = doctor(&m);
        assert_eq!(ran.asked[0], "CacheWriter");
        assert_eq!(ran.asked[1], "Upgrade(ReadOnly)");
        assert_eq!(ran.result, Ok(()));
        assert!(ran.contains(expected));
    }
}

#[test]
fn does_not_probe_an_executable_reached_through_a_relative_path_entry() {
    let ran = doctor(&machine(&[
        fake(".", Stellar, Cli::Answers("22.8.0", true)),
        fake("relative-bin", Stellar, Cli::Answers("22.8.0", true)),
    ]));
    assert_eq!(ran.result, Ok(()));
    assert!(ran.asked.contains(&"Probe([])".to_string()));
    assert!(!ran.contains("22.8.0"));
    assert!(ran.contains("No Stellar CLI found on PATH"));
}

#[test]
fn does_not_buffer_unbounded_output_from_a_probe() {
    let ran = doctor(&machine(&[fake("/flooding-install", Stellar, Cli::Floods)]));
    assert_eq!(ran.result, Ok(()));
    // Reported as unreadable, not as hung.
    assert!(ran.contains("- /flooding-install/stellar (unknown version)"));
    assert!(!ran.contains("had to be killed"));
}

#[test]
fn does_not_bless_a_lone_install_that_is_not_the_version_running() {
    let ran = doctor(&machine(&[fake(
        "/stale-lone-install",
        Stellar,
        Cli::Answers("999.0.0", false),
    )]));
    assert_eq!(ran.result, Ok(()));
    assert!(ran.contains("Only one Stellar CLI on PATH, and it is not the version running"));
    assert!(ran.contains(&format!(
        "reports a version other than the {} now running, without being behind the latest \
         release",
        pkg()
    )));
    assert!(!ran.contains("Only one Stellar CLI found on PATH"));
}

#[test]
fn marks_which_installs_on_path_are_behind_the_latest_release() {
    let mut m = machine(&[
        fake("/outdated-and-ahead", Stellar, Cli::Answers("1.0.0", true)),
        fake("/outdated-and-ahead", Soroban, Cli::Answers("999.0.0", true)),
    ]);
    m.latest = Some("27.1.0");
    let ran = doctor(&m);
    assert_eq!(ran.result, Ok(()));
    assert!(ran.contains("- /outdated-and-ahead/stellar (1.0.0, outdated -- "));
    assert!(ran.contains("- /outdated-and-ahead/soroban (999.0.0)"));
    assert!(ran.contains("1 executable on PATH is behind the latest release"));
    // The two lines divide the installs between them.
    assert!(ran.contains(&format!(
        "1 executable on PATH reports a version other than the {} now running, without \
         being behind the latest release",
        pkg()
    )));
}

#[test]
fn does_not_judge_the_currency_of_an_executable_that_did_not_answer() {
    let mut m = machine(&[fake("/unreadable-currency", Stellar, Cli::Unrunnable)]);
    m.latest = Some("27.1.0");
    let ran = doctor(&m);
    assert_eq!(ran.result, Ok(()));
    assert!(ran.contains("- /unreadable-currency/stellar (unknown version)"));
    assert!(!ran.contains("outdated"));
    assert!(!ran.contains("behind the latest release"));
}

#[test]
fn distinguishes_a_hung_executable_from_one_that_cannot_answer() {
    let ran = doctor(&machine(&[
        fake("/hung-and-unreadable", Stellar, Cli::Hangs),
        fake("/hung-and-unreadable", Soroban, Cli::Unrunnable),
    ]));
    assert_eq!(ran.result, Ok(()));
    assert!(ran.contains("did not answer within 2s and had to be killed"));
    assert!(ran.contains("- /hung-and-unreadable/stellar (hung; killed after timing out)"));
    assert!(ran.contains("- /hung-and-unreadable/soroban (unknown version)"));
}

// ---------------------------------------------------------------------------

#[test]
fn every_hung_executable_is_probed_and_counted() {
    let mut path = Vec::new();
    for dir in ["/many-hanging-0", "/many-hanging-1", "/many-hanging-2", "/many-hanging-3"] {
        path.push(fake(dir, Stellar, Cli::Hangs));
        path.push(fake(dir, Soroban, Cli::Hangs));
    }
    let ran = doctor(&machine(&path));
    assert!(ran.contains("8 executables on PATH did not answer within 2s"));
}

#[test]
fn writes_every_section_once_and_in_order() {
    let mut m = machine(&[fake("/bin", Stellar, Cli::Answers(PKG, true))]);
    m.latest = Some(PKG);
    m.networks = Ok((&["local", "mainnet", "testnet"], &["mine", "lost"]));
    m.reachable = &["testnet", "mine"];
    m.readable = &["mine"];
    let ran = doctor(&m);
    let line = |mark, text: &str| (mark, text.to_string());
    assert_eq!(
        ran.lines,
        vec![
            line(Mark::Check, "You are using the latest version of Stellar CLI: 27.1.0"),
            line(Mark::Info, "Running executable: /work/target/debug/stellar"),
            line(Mark::Check, "Only one Stellar CLI found on PATH:"),
            line(Mark::Blank, "- /bin/stellar (27.1.0)"),
            line(
                Mark::Check,
                "No version cache yet; nothing has checked for a new release on this machine"
            ),
            line(Mark::Info, "Rust version: 1.90.0"),
            line(Mark::Check, "Rust target `wasm32v1-none` is installed"),
            line(
                Mark::Warn,
                "The following features are disabled until `--features additional-libs` is used:"
            ),
            line(Mark::Blank, "- Wasm optimization"),
            line(Mark::Blank, "- Secure store (OS keyring)"),
            line(Mark::Blank, "- Ledger hardware wallet"),
            line(Mark::Check, "Container engine `docker` is available"),
            line(Mark::Gear, "Config directory: /home/user/.config/stellar"),
            line(Mark::Dir, "Data directory: /home/user/.local/share/stellar"),
            line(Mark::Info, "XDR version: 68fa1ac55692f68ad2a2ca549d0a283273554439"),
            line(
                Mark::Warn,
                "Default network \"local\" (https://local.example) is unreachable"
            ),
            line(Mark::Globe, "Default network \"testnet\" (https://testnet.example)"),
            line(Mark::Blank, "protocol 23"),
            line(Mark::Blank, "rpc 23.0.1"),
            line(Mark::Globe, "Network \"mine\" (https://mine.example)"),
            line(Mark::Blank, "protocol 23"),
            line(Mark::Blank, "rpc 23.0.1"),
        ]
    );
    assert_eq!(ran.result, Ok(()));
    assert!(!ran.asked.contains(&"DefaultNetwork(\"mainnet\")".to_string()));
    assert!(!ran.asked.contains(&"SavedNetwork(\"lost\")".to_string()));
}

#[test]
fn quotes_the_names_of_networks() {
    let mut m = machine(&[]);
    m.networks = Ok((&[], &["my \"net\"\n"]));
    m.readable = &["my \"net\"\n"];
    let ran = doctor(&m);
    assert!(ran.contains("Network \"my \\\"net\\\"\\n\" (https://my \"net\"\n.example) is unreachable"));
}

#[test]
fn a_configuration_that_cannot_be_located_ends_the_run() {
    let mut m = machine(&[]);
    m.config_path = Err("no home");
    let ran = doctor(&m);
    assert_eq!(ran.result, Err(Error::Locator("no home".to_string())));
    assert_eq!(ran.result.unwrap_err().message(), "no home");
    assert_eq!(ran.lines.last().unwrap().1, "Container engine `docker` is available");
    assert!(!ran.asked.contains(&"DataPath".to_string()));
}

#[test]
fn data_that_cannot_be_located_ends_the_run() {
    let mut m = machine(&[]);
    m.data_path = Err("no data");
    let ran = doctor(&m);
    assert_eq!(ran.result, Err(Error::Data("no data".to_string())));
    assert!(ran.lines.last().unwrap().1.starts_with("Config directory: "));
}

#[test]
fn networks_that_cannot_be_listed_end_the_run() {
    let mut m = machine(&[]);
    m.networks = Err("bad directory");
    let ran = doctor(&m);
    assert_eq!(ran.result, Err(Error::Locator("bad directory".to_string())));
    assert!(ran.lines.last().unwrap().1.starts_with("XDR version: "));
}

#[test]
fn an_answer_to_another_question_changes_nothing() {
    let cmd = Cmd {
        config_locator: ConfigLocator { config_dir: None },
    };
    let facts = Facts {
        this_version: pkg().to_string(),
        this_cli: recorded(Some(pkg()), None),
        additional_libs: true,
    };
    let mut print = Print::new();
    let stage = cmd.run(&facts, cmd.start(), Answer::EngineProgram(true), &mut print);
    assert!(matches!(stage, Stage::CacheWriter));
    assert!(print.lines.is_empty());
    let over = cmd.run(
        &facts,
        Stage::Done(Ok(())),
        Answer::CacheWriter(LastWriter::NoCache),
        &mut print,
    );
    assert!(matches!(over, Stage::Done(Ok(()))));
    assert!(print.lines.is_empty());
}

#[test]
fn an_empty_cache_judges_nothing() {
    let mut m = machine(&[fake("/bin", Stellar, Cli::Answers("1.0.0", true))]);
    m.latest = Some("0.0.0");
    let ran = doctor(&m);
    assert!(ran.contains("- /bin/stellar (1.0.0)"));
    assert!(!ran.contains("outdated"));
}

#[test]
fn an_unknown_engine_is_not_run() {
    let mut m = machine(&[]);
    m.engine = || EngineSetting::Unknown {
        value: "dokcer".to_string(),
        supported: "docker, podman".to_string(),
    };
    let ran = doctor(&m);
    assert!(ran.contains("Unknown container engine `dokcer`; expected one of: docker, podman"));
    assert!(!ran.asked.iter().any(|asked| asked.starts_with("EngineProgram")));
}

#[test]
fn the_cache_writer_is_the_same_however_a_run_ends() {
    let expected = "Version cache was last checked by a different Stellar CLI: \
                    22.8.0 (/opt/elsewhere/bin/soroban)";
    let mut m = machine(&[]);
    m.writer =
        || LastWriter::Recorded(recorded(Some("22.8.0"), Some("/opt/elsewhere/bin/soroban")));
    m.config_path = Err("no home");
    let ended_early = doctor(&m);
    assert!(ended_early.result.is_err());
    assert!(ended_early.contains(expected));
    m.config_path = Ok("/home/user/.config/stellar");
    m.path.push(fake("/bin", Stellar, Cli::Answers(PKG, true)));
    let second = doctor(&m);
    assert_eq!(second.result, Ok(()));
    assert!(second.contains(expected));
}
