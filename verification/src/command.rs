//! The `doctor` command: what is asked of the machine, in which order, and what
//! the answers make of the report.

use crate::cache;
use crate::cache::{
    check_version, show_version_cache_writer, CachePolicy, CheckPerformedBy, LastWriter,
    UpgradeStatus,
};
use crate::error::Error;
use crate::installs;
use crate::installs::{check_installs, show_running_binary, InstallVersion};
use crate::networks;
use crate::networks::{inspect_networks, start_networks, Network, NetworkAnswer, NetworkStage};
use crate::print;
use crate::print::{Mark, Print};
use crate::probe;
use crate::probe::{find_installs, join_versions, BinaryName, Candidate};
use crate::settings;
use crate::settings::{show_config_path, show_data_path, show_xdr_version};
use crate::toolchain;
use crate::toolchain::{
    check_container_engine, check_optional_features, check_rust_version, check_wasm_target,
    EngineSetting, RustTargets,
};
use crate::version;
use crate::version::Version;
use vstd::prelude::*;

verus! {

/// Where to look for the configuration.
#[derive(Debug)]
pub struct ConfigLocator {
    /// A directory given in place of the usual one.
    pub config_dir: Option<String>,
}

/// The `doctor` command.
#[derive(Debug)]
pub struct Cmd {
    pub config_locator: ConfigLocator,
}

/// What is known of the running CLI before anything is asked.
#[derive(Debug)]
pub struct Facts {
    /// The version of the running CLI.
    pub this_version: String,
    /// What the running CLI would record as its own upgrade check.
    pub this_cli: CheckPerformedBy,
    /// Whether the running CLI was built with additional libraries.
    pub additional_libs: bool,
}

/// The networks there are.
#[derive(Debug)]
pub struct KnownNetworks {
    /// Those that come with the CLI, by name.
    pub defaults: Vec<(String, Network)>,
    /// The names of those that were saved.
    pub saved: Vec<String>,
}

/// How far a run has come: what is to be asked next, and what earlier answers are
/// still needed.
#[derive(Debug)]
pub enum Stage {
    CacheWriter,
    Upgrade { writer: LastWriter },
    RunningBinary { writer: LastWriter, latest: Option<Version> },
    LookUp {
        name: BinaryName,
        writer: LastWriter,
        latest: Option<Version>,
        found: Vec<Candidate>,
    },
    Probe { writer: LastWriter, latest: Option<Version>, found: Vec<Candidate> },
    RustVersion,
    TargetVersion,
    Targets { rust_version: Option<Version> },
    Engine,
    EngineProgram { engine: String, program: String },
    ConfigPath,
    DataPath,
    ListNetworks,
    Networks(NetworkStage),
    Done(Result<(), Error>),
}

/// [`Stage`] with its lists as sequences.
pub enum StageView {
    CacheWriter,
    Upgrade { writer: LastWriter },
    RunningBinary { writer: LastWriter, latest: Option<Version> },
    LookUp {
        name: BinaryName,
        writer: LastWriter,
        latest: Option<Version>,
        found: Seq<Candidate>,
    },
    Probe { writer: LastWriter, latest: Option<Version>, found: Seq<Candidate> },
    RustVersion,
    TargetVersion,
    Targets { rust_version: Option<Version> },
    Engine,
    EngineProgram { engine: String, program: String },
    ConfigPath,
    DataPath,
    ListNetworks,
    Networks(networks::NetworkStageView),
    Done(Result<(), Error>),
}

impl View for Stage {
    type V = StageView;

    open spec fn view(&self) -> StageView {
        match *self {
            Stage::CacheWriter => StageView::CacheWriter,
            Stage::Upgrade { writer } => StageView::Upgrade { writer },
            Stage::RunningBinary { writer, latest } => StageView::RunningBinary { writer, latest },
            Stage::LookUp { name, writer, latest, found } => StageView::LookUp {
                name,
                writer,
                latest,
                found: found@,
            },
            Stage::Probe { writer, latest, found } => StageView::Probe {
                writer,
                latest,
                found: found@,
            },
            Stage::RustVersion => StageView::RustVersion,
            Stage::TargetVersion => StageView::TargetVersion,
            Stage::Targets { rust_version } => StageView::Targets { rust_version },
            Stage::Engine => StageView::Engine,
            Stage::EngineProgram { engine, program } => StageView::EngineProgram { engine, program },
            Stage::ConfigPath => StageView::ConfigPath,
            Stage::DataPath => StageView::DataPath,
            Stage::ListNetworks => StageView::ListNetworks,
            Stage::Networks(stage) => StageView::Networks(stage@),
            Stage::Done(result) => StageView::Done(result),
        }
    }
}

/// What the machine is asked next.
#[derive(Debug)]
pub enum Request {
    /// Who last wrote the version cache?
    CacheWriter,
    /// Is there an upgrade? The version cache is treated as the policy says.
    Upgrade(CachePolicy),
    /// Which executable is running?
    RunningBinary,
    /// Which executables of this name does `PATH` offer?
    LookUp(BinaryName),
    /// Which versions are the executables at these positions, among all that were
    /// found?
    Probe(Vec<usize>),
    /// Which version is Rust?
    RustVersion,
    /// Which targets are installed?
    Targets,
    /// Which container engine is to be used?
    Engine,
    /// Can this program be run?
    EngineProgram(String),
    /// Where does the configuration lie?
    ConfigPath,
    /// Where does the data lie?
    DataPath,
    /// Which networks are there?
    ListNetworks,
    /// What does the RPC server of this default network say?
    DefaultNetwork(String),
    /// What was saved as the network of this name?
    ReadNetwork(String),
    /// What does the RPC server of this saved network say?
    SavedNetwork(String),
    /// The run is over.
    Nothing,
}

/// What the machine answered.
#[derive(Debug)]
pub enum Answer {
    CacheWriter(LastWriter),
    /// Nothing where the check failed.
    Upgrade(Option<UpgradeStatus>),
    RunningBinary(Option<String>),
    /// Nothing where the name could not be looked up.
    LookUp(Option<Vec<Candidate>>),
    Probe(Vec<InstallVersion>),
    RustVersion(Option<Version>),
    Targets(RustTargets),
    Engine(EngineSetting),
    EngineProgram(bool),
    ConfigPath(Result<String, String>),
    DataPath(Result<String, String>),
    ListNetworks(Result<KnownNetworks, String>),
    Network(NetworkAnswer),
}

/// What is asked at a stage.
pub open spec fn asks(stage: StageView, request: Request) -> bool {
    match stage {
        StageView::CacheWriter => request is CacheWriter,
        StageView::Upgrade { .. } => request == Request::Upgrade(CachePolicy::ReadOnly),
        StageView::RunningBinary { .. } => request is RunningBinary,
        StageView::LookUp { name, .. } => request == Request::LookUp(name),
        StageView::Probe { found, .. } => request is Probe && probe::positions(
            request->Probe_0@,
        ) == probe::kept(found),
        StageView::RustVersion => request is RustVersion,
        StageView::TargetVersion => request is RustVersion,
        StageView::Targets { .. } => request is Targets,
        StageView::Engine => request is Engine,
        StageView::EngineProgram { program, .. } => request == Request::EngineProgram(program),
        StageView::ConfigPath => request is ConfigPath,
        StageView::DataPath => request is DataPath,
        StageView::ListNetworks => request is ListNetworks,
        StageView::Networks(stage) => match stage {
            networks::NetworkStageView::Default { name, .. } => request == Request::DefaultNetwork(
                name,
            ),
            networks::NetworkStageView::Read { name, .. } => request == Request::ReadNetwork(name),
            networks::NetworkStageView::Saved { name, .. } => request == Request::SavedNetwork(
                name,
            ),
            networks::NetworkStageView::Done => request is Nothing,
        },
        StageView::Done(_) => request is Nothing,
    }
}

/// A run whose networks are all inspected is over.
pub open spec fn settled(stage: networks::NetworkStageView) -> StageView {
    if stage is Done {
        StageView::Done(Ok(()))
    } else {
        StageView::Networks(stage)
    }
}

/// What was found under one name, if it could be looked up.
pub open spec fn found_if_any(found: Option<Vec<Candidate>>) -> Seq<Candidate> {
    match found {
        Some(found) => found@,
        None => Seq::empty(),
    }
}

/// Where a run stands after an answer. An answer to another question than the one
/// that was asked changes nothing.
pub open spec fn next(stage: StageView, answer: Answer) -> StageView {
    match (stage, answer) {
        (StageView::CacheWriter, Answer::CacheWriter(writer)) => StageView::Upgrade { writer },
        (
            StageView::Upgrade { writer },
            Answer::Upgrade(outcome),
        ) => StageView::RunningBinary { writer, latest: cache::latest_release(outcome) },
        (
            StageView::RunningBinary { writer, latest },
            Answer::RunningBinary(_),
        ) => StageView::LookUp {
            name: BinaryName::Stellar,
            writer,
            latest,
            found: Seq::empty(),
        },
        (StageView::LookUp { name, writer, latest, found }, Answer::LookUp(more)) => {
            let found = found + found_if_any(more);
            match name {
                BinaryName::Stellar => StageView::LookUp {
                    name: BinaryName::Soroban,
                    writer,
                    latest,
                    found,
                },
                BinaryName::Soroban => StageView::Probe { writer, latest, found },
            }
        },
        (StageView::Probe { .. }, Answer::Probe(_)) => StageView::RustVersion,
        (StageView::RustVersion, Answer::RustVersion(_)) => StageView::TargetVersion,
        (
            StageView::TargetVersion,
            Answer::RustVersion(rust_version),
        ) => StageView::Targets { rust_version },
        (StageView::Targets { .. }, Answer::Targets(_)) => StageView::Engine,
        (StageView::Engine, Answer::Engine(setting)) => match setting {
            EngineSetting::Unknown { .. } => StageView::ConfigPath,
            EngineSetting::Resolved { engine, program } => StageView::EngineProgram {
                engine,
                program,
            },
        },
        (StageView::EngineProgram { .. }, Answer::EngineProgram(_)) => StageView::ConfigPath,
        (StageView::ConfigPath, Answer::ConfigPath(path)) => match path {
            Ok(_) => StageView::DataPath,
            Err(message) => StageView::Done(Err(Error::Locator(message))),
        },
        (StageView::DataPath, Answer::DataPath(path)) => match path {
            Ok(_) => StageView::ListNetworks,
            Err(message) => StageView::Done(Err(Error::Data(message))),
        },
        (StageView::ListNetworks, Answer::ListNetworks(known)) => match known {
            Ok(known) => settled(networks::from_defaults(known.defaults@, known.saved@)),
            Err(message) => StageView::Done(Err(Error::Locator(message))),
        },
        (StageView::Networks(stage), Answer::Network(answer)) => settled(
            networks::next_network(stage, answer),
        ),
        _ => stage,
    }
}

/// What is said upon an answer.
pub open spec fn said(facts: Facts, stage: StageView, answer: Answer) -> Seq<(Mark, Seq<char>)> {
    match (stage, answer) {
        (StageView::Upgrade { .. }, Answer::Upgrade(outcome)) => cache::upgrade_lines(outcome),
        (
            StageView::RunningBinary { .. },
            Answer::RunningBinary(running),
        ) => installs::running_lines(probe::text_if_any(running)),
        (StageView::Probe { writer, latest, found }, Answer::Probe(versions)) => {
            installs::install_lines(
                probe::with_versions(found, versions@),
                version::version_if_any(latest),
                facts.this_version@,
            ) + cache::writer_lines(writer@, facts.this_cli@)
        },
        (StageView::RustVersion, Answer::RustVersion(rust)) => toolchain::rust_lines(
            version::version_if_any(rust),
        ),
        (StageView::Targets { rust_version }, Answer::Targets(targets)) => {
            toolchain::target_lines(version::version_if_any(rust_version), targets)
                + toolchain::feature_lines(facts.additional_libs)
        },
        (StageView::Engine, Answer::Engine(setting)) => match setting {
            EngineSetting::Unknown { .. } => toolchain::engine_lines(setting, false),
            EngineSetting::Resolved { .. } => Seq::empty(),
        },
        (
            StageView::EngineProgram { engine, program },
            Answer::EngineProgram(installed),
        ) => toolchain::engine_lines(EngineSetting::Resolved { engine, program }, installed),
        (StageView::ConfigPath, Answer::ConfigPath(path)) => match path {
            Ok(path) => print::line(Mark::Gear, "Config directory: "@ + path@),
            Err(_) => Seq::empty(),
        },
        (StageView::DataPath, Answer::DataPath(path)) => match path {
            Ok(path) => print::line(Mark::Dir, "Data directory: "@ + path@) + print::line(
                Mark::Info,
                "XDR version: "@ + settings::xdr_revision(),
            ),
            Err(_) => Seq::empty(),
        },
        (StageView::Networks(stage), Answer::Network(answer)) => networks::said_of_network(
            stage,
            answer,
        ),
        _ => Seq::empty(),
    }
}

fn settle(stage: NetworkStage) -> (r: Stage)
    ensures
        r@ == settled(stage@),
{
    match stage {
        NetworkStage::Done => Stage::Done(Ok(())),
        stage => Stage::Networks(stage),
    }
}

impl Stage {
    /// What is to be asked next.
    pub fn request(&self) -> (r: Request)
        ensures
            asks(self@, r),
    {
        match self {
            Stage::CacheWriter => Request::CacheWriter,
            Stage::Upgrade { .. } => Request::Upgrade(CachePolicy::ReadOnly),
            Stage::RunningBinary { .. } => Request::RunningBinary,
            Stage::LookUp { name, .. } => Request::LookUp(*name),
            Stage::Probe { found, .. } => Request::Probe(find_installs(found)),
            Stage::RustVersion => Request::RustVersion,
            Stage::TargetVersion => Request::RustVersion,
            Stage::Targets { .. } => Request::Targets,
            Stage::Engine => Request::Engine,
            Stage::EngineProgram { program, .. } => Request::EngineProgram(program.clone()),
            Stage::ConfigPath => Request::ConfigPath,
            Stage::DataPath => Request::DataPath,
            Stage::ListNetworks => Request::ListNetworks,
            Stage::Networks(stage) => match stage {
                NetworkStage::Default { name, .. } => Request::DefaultNetwork(name.clone()),
                NetworkStage::Read { name, .. } => Request::ReadNetwork(name.clone()),
                NetworkStage::Saved { name, .. } => Request::SavedNetwork(name.clone()),
                NetworkStage::Done => Request::Nothing,
            },
            Stage::Done(_) => Request::Nothing,
        }
    }
}

impl Cmd {
    /// The stage that a run starts at. The version cache is read before the
    /// upgrade check is made, so that the report tells who wrote it last.
    pub fn start(&self) -> (r: Stage)
        ensures
            r@ == StageView::CacheWriter,
    {
        Stage::CacheWriter
    }

    /// Takes a run one step further: writes what the answer says, and tells where
    /// the run stands now.
    pub fn run(&self, facts: &Facts, stage: Stage, answer: Answer, print: &mut Print) -> (r: Stage)
        ensures
            r@ == next(stage@, answer),
            final(print)@ == old(print)@ + said(*facts, stage@, answer),
    {
        let ghost before = print@;
        let r = match (stage, answer) {
            (Stage::CacheWriter, Answer::CacheWriter(writer)) => Stage::Upgrade { writer },
            (Stage::Upgrade { writer }, Answer::Upgrade(outcome)) => {
                match check_version(print, outcome) {
                    Ok(latest) => Stage::RunningBinary { writer, latest },
                    Err(e) => Stage::Done(Err(e)),
                }
            },
            (Stage::RunningBinary { writer, latest }, Answer::RunningBinary(running)) => {
                show_running_binary(print, &running);
                Stage::LookUp { name: BinaryName::Stellar, writer, latest, found: Vec::new() }
            },
            (Stage::LookUp { name, writer, latest, found }, Answer::LookUp(more)) => {
                let mut found = found;
                let ghost earlier = found@;
                match more {
                    Some(more) => {
                        let mut more = more;
                        found.append(&mut more);
                    },
                    None => {},
                }
                assert(found@ =~= earlier + found_if_any(more));
                match name {
                    BinaryName::Stellar => Stage::LookUp {
                        name: BinaryName::Soroban,
                        writer,
                        latest,
                        found,
                    },
                    BinaryName::Soroban => Stage::Probe { writer, latest, found },
                }
            },
            (Stage::Probe { writer, latest, found }, Answer::Probe(versions)) => {
                let installs = join_versions(&found, &versions);
                check_installs(print, &installs, latest.as_ref(), facts.this_version.as_str());
                show_version_cache_writer(print, &writer, &facts.this_cli);
                Stage::RustVersion
            },
            (Stage::RustVersion, Answer::RustVersion(rust_version)) => {
                check_rust_version(print, &rust_version);
                Stage::TargetVersion
            },
            (Stage::TargetVersion, Answer::RustVersion(rust_version)) => {
                Stage::Targets { rust_version }
            },
            (Stage::Targets { rust_version }, Answer::Targets(targets)) => {
                check_wasm_target(print, &rust_version, &targets);
                check_optional_features(print, facts.additional_libs);
                Stage::Engine
            },
            (Stage::Engine, Answer::Engine(setting)) => match setting {
                EngineSetting::Unknown { .. } => {
                    check_container_engine(print, &setting, false);
                    Stage::ConfigPath
                },
                EngineSetting::Resolved { engine, program } => Stage::EngineProgram {
                    engine,
                    program,
                },
            },
            (Stage::EngineProgram { engine, program }, Answer::EngineProgram(installed)) => {
                check_container_engine(
                    print,
                    &EngineSetting::Resolved { engine, program },
                    installed,
                );
                Stage::ConfigPath
            },
            (Stage::ConfigPath, Answer::ConfigPath(path)) => match show_config_path(print, path) {
                Ok(()) => Stage::DataPath,
                Err(e) => Stage::Done(Err(e)),
            },
            (Stage::DataPath, Answer::DataPath(path)) => match show_data_path(print, path) {
                Ok(()) => {
                    show_xdr_version(print);
                    Stage::ListNetworks
                },
                Err(e) => Stage::Done(Err(e)),
            },
            (Stage::ListNetworks, Answer::ListNetworks(known)) => match known {
                Ok(known) => settle(start_networks(known.defaults, known.saved)),
                Err(message) => Stage::Done(Err(Error::Locator(message))),
            },
            (Stage::Networks(stage), Answer::Network(answer)) => settle(
                inspect_networks(print, stage, answer),
            ),
            (stage, _) => stage,
        };
        assert(print@ =~= before + said(*facts, stage@, answer));
        r
    }
}

// ---------------------------------------------------------------------------
// Laws
// ---------------------------------------------------------------------------

/// Where a run stands after several answers.
pub open spec fn after(stage: StageView, answers: Seq<Answer>) -> StageView
    decreases answers.len(),
{
    if answers.len() == 0 {
        stage
    } else {
        after(next(stage, answers[0]), answers.drop_first())
    }
}

/// What is said upon several answers.
pub open spec fn report(facts: Facts, stage: StageView, answers: Seq<Answer>) -> Seq<
    (Mark, Seq<char>),
>
    decreases answers.len(),
{
    if answers.len() == 0 {
        Seq::empty()
    } else {
        said(facts, stage, answers[0]) + report(
            facts,
            next(stage, answers[0]),
            answers.drop_first(),
        )
    }
}

/// Reports follow one another: what is said upon two rounds of answers is what is
/// said upon the first, and behind it what is said upon the second from where the
/// first left the run.
pub proof fn law_reports_add_up(facts: Facts, stage: StageView, a: Seq<Answer>, b: Seq<Answer>)
    ensures
        after(stage, a + b) == after(after(stage, a), b),
        report(facts, stage, a + b) == report(facts, stage, a) + report(facts, after(stage, a), b),
    decreases a.len(),
{
    if a.len() == 0 {
        assert(a + b =~= b);
        assert(report(facts, stage, a) + report(facts, stage, b) =~= report(facts, stage, b));
    } else {
        let n = next(stage, a[0]);
        law_reports_add_up(facts, n, a.drop_first(), b);
        assert((a + b).drop_first() =~= a.drop_first() + b);
        assert(report(facts, stage, a + b) =~= report(facts, stage, a) + report(
            facts,
            after(stage, a),
            b,
        ));
    }
}

/// The last of the answers that are left brings the run to `last`, and what is said
/// upon it is all that is left to say.
proof fn lemma_last_step(facts: Facts, stage: StageView, answers: Seq<Answer>, last: StageView)
    requires
        answers.len() == 1,
        next(stage, answers[0]) == last,
    ensures
        after(stage, answers) == last,
        report(facts, stage, answers) == said(facts, stage, answers[0]),
{
    let none = answers.drop_first();
    assert(after(last, none) == last);
    assert(report(facts, last, none) =~= Seq::<(Mark, Seq<char>)>::empty());
    assert(report(facts, stage, answers) =~= said(facts, stage, answers[0]));
}

/// The first of the answers that are left brings the run to `on`, and it goes on
/// from there with the others.
proof fn lemma_step(facts: Facts, stage: StageView, answers: Seq<Answer>, on: StageView)
    requires
        answers.len() > 0,
        next(stage, answers[0]) == on,
    ensures
        after(stage, answers) == after(on, answers.drop_first()),
        report(facts, stage, answers) == said(facts, stage, answers[0]) + report(
            facts,
            on,
            answers.drop_first(),
        ),
{
}

/// Answers about networks, as answers of a run.
pub open spec fn about_networks(answers: Seq<NetworkAnswer>) -> Seq<Answer> {
    answers.map_values(|answer: NetworkAnswer| Answer::Network(answer))
}

proof fn lemma_networks(
    facts: Facts,
    stage: networks::NetworkStageView,
    answers: Seq<NetworkAnswer>,
)
    ensures
        after(settled(stage), about_networks(answers)) == settled(
            networks::networks_after(stage, answers),
        ),
        report(facts, settled(stage), about_networks(answers)) == networks::said_of_networks(
            stage,
            answers,
        ),
    decreases answers.len(),
{
    if answers.len() > 0 {
        let n = networks::next_network(stage, answers[0]);
        lemma_networks(facts, n, answers.drop_first());
        assert(about_networks(answers).drop_first() =~= about_networks(answers.drop_first()));
        assert(about_networks(answers)[0] == Answer::Network(answers[0]));
        assert(next(settled(stage), Answer::Network(answers[0])) == settled(n));
        assert(said(facts, settled(stage), Answer::Network(answers[0]))
            == networks::said_of_network(stage, answers[0]));
    }
}

/// The answers of the first part of a run, up to the installs on `PATH`.
pub open spec fn install_answers(
    writer: LastWriter,
    outcome: Option<UpgradeStatus>,
    running: Option<String>,
    stellar: Option<Vec<Candidate>>,
    soroban: Option<Vec<Candidate>>,
    versions: Vec<InstallVersion>,
) -> Seq<Answer> {
    seq![
        Answer::CacheWriter(writer),
        Answer::Upgrade(outcome),
        Answer::RunningBinary(running),
        Answer::LookUp(stellar),
        Answer::LookUp(soroban),
        Answer::Probe(versions),
    ]
}

/// What the first part of a run reports: whether this CLI is current, which
/// executable is running, the executables on `PATH` under either name, judged
/// against the latest release the upgrade check gave, and the CLI that had written
/// the version cache before that check was made.
#[verifier::spinoff_prover]
pub proof fn law_install_report(
    facts: Facts,
    writer: LastWriter,
    outcome: Option<UpgradeStatus>,
    running: Option<String>,
    stellar: Option<Vec<Candidate>>,
    soroban: Option<Vec<Candidate>>,
    versions: Vec<InstallVersion>,
)
    ensures
        ({
            let answers = install_answers(writer, outcome, running, stellar, soroban, versions);
            &&& after(StageView::CacheWriter, answers) == StageView::RustVersion
            &&& report(facts, StageView::CacheWriter, answers) == cache::upgrade_lines(outcome)
                + installs::running_lines(probe::text_if_any(running)) + installs::install_lines(
                probe::with_versions(found_if_any(stellar) + found_if_any(soroban), versions@),
                version::version_if_any(cache::latest_release(outcome)),
                facts.this_version@,
            ) + cache::writer_lines(writer@, facts.this_cli@)
        }),
{
    let answers = install_answers(writer, outcome, running, stellar, soroban, versions);
    let latest = cache::latest_release(outcome);
    let found = found_if_any(stellar) + found_if_any(soroban);
    let a1 = answers.drop_first();
    let a2 = a1.drop_first();
    let a3 = a2.drop_first();
    let a4 = a3.drop_first();
    let a5 = a4.drop_first();
    let s0 = StageView::CacheWriter;
    let s1 = StageView::Upgrade { writer };
    let s2 = StageView::RunningBinary { writer, latest };
    let s3 = StageView::LookUp {
        name: BinaryName::Stellar,
        writer,
        latest,
        found: Seq::empty(),
    };
    let s4 = StageView::LookUp {
        name: BinaryName::Soroban,
        writer,
        latest,
        found: found_if_any(stellar),
    };
    let s5 = StageView::Probe { writer, latest, found };
    assert(Seq::<Candidate>::empty() + found_if_any(stellar) =~= found_if_any(stellar));
    lemma_step(facts, s0, answers, s1);
    lemma_step(facts, s1, a1, s2);
    lemma_step(facts, s2, a2, s3);
    lemma_step(facts, s3, a3, s4);
    lemma_step(facts, s4, a4, s5);
    lemma_last_step(facts, s5, a5, StageView::RustVersion);
    let one = cache::upgrade_lines(outcome);
    let two = installs::running_lines(probe::text_if_any(running));
    let three = installs::install_lines(
        probe::with_versions(found, versions@),
        version::version_if_any(latest),
        facts.this_version@,
    );
    let four = cache::writer_lines(writer@, facts.this_cli@);
    assert(said(facts, s0, answers[0]).len() == 0);
    assert(said(facts, s1, a1[0]) == one);
    assert(said(facts, s2, a2[0]) == two);
    assert(said(facts, s3, a3[0]).len() == 0);
    assert(said(facts, s4, a4[0]).len() == 0);
    assert(said(facts, s5, a5[0]) == three + four);
    assert(report(facts, s4, a4) =~= three + four);
    assert(report(facts, s3, a3) =~= three + four);
    assert(report(facts, s2, a2) =~= two + three + four);
    assert(report(facts, s1, a1) =~= one + two + three + four);
    assert(report(facts, s0, answers) =~= one + two + three + four);
}

/// The answers about the container engine: whether its program can be run is asked
/// only where the engine is known.
pub open spec fn engine_answers(setting: EngineSetting, installed: bool) -> Seq<Answer> {
    match setting {
        EngineSetting::Unknown { .. } => seq![Answer::Engine(setting)],
        EngineSetting::Resolved { .. } => seq![
            Answer::Engine(setting),
            Answer::EngineProgram(installed),
        ],
    }
}

/// What the second part of a run reports: the Rust toolchain, the optional
/// features and the container engine.
#[verifier::spinoff_prover]
pub proof fn law_tool_report(
    facts: Facts,
    rust: Option<Version>,
    rust_again: Option<Version>,
    targets: RustTargets,
    setting: EngineSetting,
    installed: bool,
)
    ensures
        ({
            let answers = seq![
                Answer::RustVersion(rust),
                Answer::RustVersion(rust_again),
                Answer::Targets(targets),
            ] + engine_answers(setting, installed);
            &&& after(StageView::RustVersion, answers) == StageView::ConfigPath
            &&& report(facts, StageView::RustVersion, answers) == toolchain::rust_lines(
                version::version_if_any(rust),
            ) + toolchain::target_lines(version::version_if_any(rust_again), targets)
                + toolchain::feature_lines(facts.additional_libs) + toolchain::engine_lines(
                setting,
                installed,
            )
        }),
{
    let head = seq![
        Answer::RustVersion(rust),
        Answer::RustVersion(rust_again),
        Answer::Targets(targets),
    ];
    let tail = engine_answers(setting, installed);
    law_reports_add_up(facts, StageView::RustVersion, head, tail);
    let h1 = head.drop_first();
    let h2 = h1.drop_first();
    let targets_stage = StageView::Targets { rust_version: rust_again };
    lemma_step(facts, StageView::RustVersion, head, StageView::TargetVersion);
    lemma_step(facts, StageView::TargetVersion, h1, targets_stage);
    lemma_last_step(facts, targets_stage, h2, StageView::Engine);
    let one = toolchain::rust_lines(version::version_if_any(rust));
    let two = toolchain::target_lines(version::version_if_any(rust_again), targets);
    let three = toolchain::feature_lines(facts.additional_libs);
    let four = toolchain::engine_lines(setting, installed);
    assert(said(facts, StageView::RustVersion, head[0]) == one);
    assert(said(facts, StageView::TargetVersion, h1[0]).len() == 0);
    assert(said(facts, targets_stage, h2[0]) == two + three);
    assert(report(facts, StageView::TargetVersion, h1) =~= two + three);
    assert(report(facts, StageView::RustVersion, head) =~= one + two + three);
    match setting {
        EngineSetting::Unknown { .. } => {
            lemma_last_step(facts, StageView::Engine, tail, StageView::ConfigPath);
        },
        EngineSetting::Resolved { engine, program } => {
            let program_stage = StageView::EngineProgram { engine, program };
            lemma_step(facts, StageView::Engine, tail, program_stage);
            lemma_last_step(facts, program_stage, tail.drop_first(), StageView::ConfigPath);
        },
    }
    assert(report(facts, StageView::Engine, tail) =~= four);
    assert(report(facts, StageView::RustVersion, head + tail) =~= one + two + three + four);
}

/// What the last part of a run reports where the directories and the networks could
/// be looked up: the two directories, the XDR definitions, and every network. The
/// run then ends well, whichever networks could be reached.
#[verifier::spinoff_prover]
pub proof fn law_settings_and_network_report(
    facts: Facts,
    config_path: String,
    data_path: String,
    known: KnownNetworks,
    default_replies: Seq<Result<networks::VersionInfo, Error>>,
    read: Seq<Option<Network>>,
    saved_replies: Seq<Result<networks::VersionInfo, Error>>,
)
    requires
        default_replies.len() == known.defaults@.len(),
        read.len() == known.saved@.len(),
        saved_replies.len() == known.saved@.len(),
    ensures
        ({
            let answers = seq![
                Answer::ConfigPath(Ok(config_path)),
                Answer::DataPath(Ok(data_path)),
                Answer::ListNetworks(Ok(known)),
            ] + about_networks(
                networks::default_answers(known.defaults@, default_replies)
                    + networks::saved_answers(known.saved@, read, saved_replies),
            );
            &&& after(StageView::ConfigPath, answers) == StageView::Done(Ok(()))
            &&& report(facts, StageView::ConfigPath, answers) == print::line(
                Mark::Gear,
                "Config directory: "@ + config_path@,
            ) + print::line(Mark::Dir, "Data directory: "@ + data_path@) + print::line(
                Mark::Info,
                "XDR version: "@ + settings::xdr_revision(),
            ) + networks::default_lines(known.defaults@, default_replies)
                + networks::saved_lines(known.saved@, read, saved_replies)
        }),
{
    let head = seq![
        Answer::ConfigPath(Ok(config_path)),
        Answer::DataPath(Ok(data_path)),
        Answer::ListNetworks(Ok(known)),
    ];
    let tail = networks::default_answers(known.defaults@, default_replies)
        + networks::saved_answers(known.saved@, read, saved_replies);
    let start = networks::from_defaults(known.defaults@, known.saved@);
    law_reports_add_up(facts, StageView::ConfigPath, head, about_networks(tail));
    lemma_networks(facts, start, tail);
    networks::law_every_network_is_reported(
        known.defaults@,
        default_replies,
        known.saved@,
        read,
        saved_replies,
    );
    let h1 = head.drop_first();
    let h2 = h1.drop_first();
    lemma_step(facts, StageView::ConfigPath, head, StageView::DataPath);
    lemma_step(facts, StageView::DataPath, h1, StageView::ListNetworks);
    lemma_last_step(facts, StageView::ListNetworks, h2, settled(start));
    let one = print::line(Mark::Gear, "Config directory: "@ + config_path@);
    let two = print::line(Mark::Dir, "Data directory: "@ + data_path@);
    let three = print::line(Mark::Info, "XDR version: "@ + settings::xdr_revision());
    let four = networks::default_lines(known.defaults@, default_replies);
    let five = networks::saved_lines(known.saved@, read, saved_replies);
    assert(said(facts, StageView::ConfigPath, head[0]) == one);
    assert(said(facts, StageView::DataPath, h1[0]) == two + three);
    assert(said(facts, StageView::ListNetworks, h2[0]).len() == 0);
    assert(report(facts, StageView::DataPath, h1) =~= two + three);
    assert(report(facts, StageView::ConfigPath, head) =~= one + two + three);
    assert(report(facts, StageView::ConfigPath, head + about_networks(tail)) =~= one + two + three
        + four + five);
}

/// Everything that the machine answers in a run that is not ended early.
pub struct Findings {
    pub writer: LastWriter,
    pub outcome: Option<UpgradeStatus>,
    pub running: Option<String>,
    pub stellar: Option<Vec<Candidate>>,
    pub soroban: Option<Vec<Candidate>>,
    pub versions: Vec<InstallVersion>,
    pub rust: Option<Version>,
    pub rust_again: Option<Version>,
    pub targets: RustTargets,
    pub setting: EngineSetting,
    pub engine_installed: bool,
    pub config_path: String,
    pub data_path: String,
    pub known: KnownNetworks,
    pub default_replies: Seq<Result<networks::VersionInfo, Error>>,
    pub read: Seq<Option<Network>>,
    pub saved_replies: Seq<Result<networks::VersionInfo, Error>>,
}

/// Whether there is an answer for every network.
pub open spec fn is_complete(f: Findings) -> bool {
    &&& f.default_replies.len() == f.known.defaults@.len()
    &&& f.read.len() == f.known.saved@.len()
    &&& f.saved_replies.len() == f.known.saved@.len()
}

/// The answers of a whole run.
pub open spec fn whole_run(f: Findings) -> Seq<Answer> {
    install_answers(f.writer, f.outcome, f.running, f.stellar, f.soroban, f.versions) + (seq![
        Answer::RustVersion(f.rust),
        Answer::RustVersion(f.rust_again),
        Answer::Targets(f.targets),
    ] + engine_answers(f.setting, f.engine_installed)) + (seq![
        Answer::ConfigPath(Ok(f.config_path)),
        Answer::DataPath(Ok(f.data_path)),
        Answer::ListNetworks(Ok(f.known)),
    ] + about_networks(
        networks::default_answers(f.known.defaults@, f.default_replies) + networks::saved_answers(
            f.known.saved@,
            f.read,
            f.saved_replies,
        ),
    ))
}

/// A whole report, section by section.
pub open spec fn whole_report(facts: Facts, f: Findings) -> Seq<(Mark, Seq<char>)> {
    cache::upgrade_lines(f.outcome) + installs::running_lines(probe::text_if_any(f.running))
        + installs::install_lines(
        probe::with_versions(found_if_any(f.stellar) + found_if_any(f.soroban), f.versions@),
        version::version_if_any(cache::latest_release(f.outcome)),
        facts.this_version@,
    ) + cache::writer_lines(f.writer@, facts.this_cli@) + toolchain::rust_lines(
        version::version_if_any(f.rust),
    ) + toolchain::target_lines(version::version_if_any(f.rust_again), f.targets)
        + toolchain::feature_lines(facts.additional_libs) + toolchain::engine_lines(
        f.setting,
        f.engine_installed,
    ) + print::line(Mark::Gear, "Config directory: "@ + f.config_path@) + print::line(
        Mark::Dir,
        "Data directory: "@ + f.data_path@,
    ) + print::line(Mark::Info, "XDR version: "@ + settings::xdr_revision())
        + networks::default_lines(f.known.defaults@, f.default_replies) + networks::saved_lines(
        f.known.saved@,
        f.read,
        f.saved_replies,
    )
}

/// Where the sections of a report are put together in three parts, they follow one
/// another all the same.
proof fn lemma_sections(
    a: Seq<(Mark, Seq<char>)>,
    b: Seq<(Mark, Seq<char>)>,
    c: Seq<(Mark, Seq<char>)>,
    d: Seq<(Mark, Seq<char>)>,
    e: Seq<(Mark, Seq<char>)>,
    f: Seq<(Mark, Seq<char>)>,
    g: Seq<(Mark, Seq<char>)>,
    h: Seq<(Mark, Seq<char>)>,
    i: Seq<(Mark, Seq<char>)>,
    j: Seq<(Mark, Seq<char>)>,
    k: Seq<(Mark, Seq<char>)>,
    l: Seq<(Mark, Seq<char>)>,
    m: Seq<(Mark, Seq<char>)>,
)
    ensures
        (a + b + c + d) + (e + f + g + h) + (i + j + k + l + m) == a + b + c + d + e + f + g + h + i
            + j + k + l + m,
{
    let one = a + b + c + d;
    let two = one + (e + f + g + h);
    assert(two =~= one + e + f + g + h);
    assert(two + (i + j + k + l + m) =~= two + i + j + k + l + m);
}

/// A run that is not ended early writes every section of the report once and in
/// order, whatever the sections find, and ends well.
#[verifier::spinoff_prover]
pub proof fn law_whole_report(facts: Facts, f: Findings)
    requires
        is_complete(f),
    ensures
        after(StageView::CacheWriter, whole_run(f)) == StageView::Done(Ok(())),
        report(facts, StageView::CacheWriter, whole_run(f)) == whole_report(facts, f),
{
    let one = install_answers(f.writer, f.outcome, f.running, f.stellar, f.soroban, f.versions);
    let two = seq![
        Answer::RustVersion(f.rust),
        Answer::RustVersion(f.rust_again),
        Answer::Targets(f.targets),
    ] + engine_answers(f.setting, f.engine_installed);
    let three = seq![
        Answer::ConfigPath(Ok(f.config_path)),
        Answer::DataPath(Ok(f.data_path)),
        Answer::ListNetworks(Ok(f.known)),
    ] + about_networks(
        networks::default_answers(f.known.defaults@, f.default_replies) + networks::saved_answers(
            f.known.saved@,
            f.read,
            f.saved_replies,
        ),
    );
    law_reports_add_up(facts, StageView::CacheWriter, one + two, three);
    law_reports_add_up(facts, StageView::CacheWriter, one, two);
    law_install_report(
        facts,
        f.writer,
        f.outcome,
        f.running,
        f.stellar,
        f.soroban,
        f.versions,
    );
    law_tool_report(facts, f.rust, f.rust_again, f.targets, f.setting, f.engine_installed);
    law_settings_and_network_report(
        facts,
        f.config_path,
        f.data_path,
        f.known,
        f.default_replies,
        f.read,
        f.saved_replies,
    );
    lemma_sections(
        cache::upgrade_lines(f.outcome),
        installs::running_lines(probe::text_if_any(f.running)),
        installs::install_lines(
            probe::with_versions(found_if_any(f.stellar) + found_if_any(f.soroban), f.versions@),
            version::version_if_any(cache::latest_release(f.outcome)),
            facts.this_version@,
        ),
        cache::writer_lines(f.writer@, facts.this_cli@),
        toolchain::rust_lines(version::version_if_any(f.rust)),
        toolchain::target_lines(version::version_if_any(f.rust_again), f.targets),
        toolchain::feature_lines(facts.additional_libs),
        toolchain::engine_lines(f.setting, f.engine_installed),
        print::line(Mark::Gear, "Config directory: "@ + f.config_path@),
        print::line(Mark::Dir, "Data directory: "@ + f.data_path@),
        print::line(Mark::Info, "XDR version: "@ + settings::xdr_revision()),
        networks::default_lines(f.known.defaults@, f.default_replies),
        networks::saved_lines(f.known.saved@, f.read, f.saved_replies),
    );
}

/// Whether what is asked at a stage lets the version cache be written.
pub open spec fn lets_cache_be_written(stage: StageView) -> bool {
    exists|request: Request| #[trigger]
        asks(stage, request) && request == Request::Upgrade(CachePolicy::ReadWrite)
}

/// What the version cache tells of its last writer after a run of `this_cli`, where
/// the machine wrote it if it was let.
pub open spec fn cache_after(
    last_writer: cache::WriterView,
    this_cli: cache::CliView,
    stage: StageView,
    answers: Seq<Answer>,
) -> cache::WriterView
    decreases answers.len(),
{
    if answers.len() == 0 {
        last_writer
    } else {
        cache_after(
            if lets_cache_be_written(stage) {
                cache::WriterView::Recorded(this_cli)
            } else {
                last_writer
            },
            this_cli,
            next(stage, answers[0]),
            answers.drop_first(),
        )
    }
}

/// No run lets the version cache be written, whatever the answers: the writer on
/// record stays the one it was.
pub proof fn law_no_run_writes_the_cache(
    last_writer: cache::WriterView,
    this_cli: cache::CliView,
    stage: StageView,
    answers: Seq<Answer>,
)
    ensures
        !lets_cache_be_written(stage),
        cache_after(last_writer, this_cli, stage, answers) == last_writer,
    decreases answers.len(),
{
    if answers.len() > 0 {
        law_no_run_writes_the_cache(
            last_writer,
            this_cli,
            next(stage, answers[0]),
            answers.drop_first(),
        );
    }
}

/// Everything that the machine answers in the first part of a run.
pub struct InstallFindings {
    pub writer: LastWriter,
    pub outcome: Option<UpgradeStatus>,
    pub running: Option<String>,
    pub stellar: Option<Vec<Candidate>>,
    pub soroban: Option<Vec<Candidate>>,
    pub versions: Vec<InstallVersion>,
}

/// The answers of a run that got through its first part: those of that part, and
/// whatever came after them.
pub open spec fn run_on(f: InstallFindings, rest: Seq<Answer>) -> Seq<Answer> {
    install_answers(f.writer, f.outcome, f.running, f.stellar, f.soroban, f.versions) + rest
}

/// What a run reports before it comes to the writer of the version cache.
pub open spec fn lines_before_writer(facts: Facts, f: InstallFindings) -> Seq<
    (Mark, Seq<char>),
> {
    cache::upgrade_lines(f.outcome) + installs::running_lines(probe::text_if_any(f.running))
        + installs::install_lines(
        probe::with_versions(found_if_any(f.stellar) + found_if_any(f.soroban), f.versions@),
        version::version_if_any(cache::latest_release(f.outcome)),
        facts.this_version@,
    )
}

proof fn lemma_reported_writer(facts: Facts, f: InstallFindings, rest: Seq<Answer>)
    ensures
        report(facts, StageView::CacheWriter, run_on(f, rest)) == lines_before_writer(facts, f)
            + cache::writer_lines(f.writer@, facts.this_cli@) + report(
            facts,
            StageView::RustVersion,
            rest,
        ),
{
    law_install_report(
        facts,
        f.writer,
        f.outcome,
        f.running,
        f.stellar,
        f.soroban,
        f.versions,
    );
    law_reports_add_up(
        facts,
        StageView::CacheWriter,
        install_answers(f.writer, f.outcome, f.running, f.stellar, f.soroban, f.versions),
        rest,
    );
}

/// A second run reports the same writer of the version cache as the first, whatever
/// else the two find and however they end: it reads the cache that the first run
/// left, and that is the cache as it was before.
pub proof fn law_a_second_run_reports_the_same_writer(
    facts: Facts,
    last_writer: cache::WriterView,
    first: InstallFindings,
    first_rest: Seq<Answer>,
    second: InstallFindings,
    second_rest: Seq<Answer>,
)
    requires
        first.writer@ == last_writer,
        second.writer@ == cache_after(
            last_writer,
            facts.this_cli@,
            StageView::CacheWriter,
            run_on(first, first_rest),
        ),
    ensures
        report(facts, StageView::CacheWriter, run_on(first, first_rest)) == lines_before_writer(
            facts,
            first,
        ) + cache::writer_lines(last_writer, facts.this_cli@) + report(
            facts,
            StageView::RustVersion,
            first_rest,
        ),
        report(facts, StageView::CacheWriter, run_on(second, second_rest)) == lines_before_writer(
            facts,
            second,
        ) + cache::writer_lines(last_writer, facts.this_cli@) + report(
            facts,
            StageView::RustVersion,
            second_rest,
        ),
{
    law_no_run_writes_the_cache(
        last_writer,
        facts.this_cli@,
        StageView::CacheWriter,
        run_on(first, first_rest),
    );
    lemma_reported_writer(facts, first, first_rest);
    lemma_reported_writer(facts, second, second_rest);
}

/// Only a directory or the list of networks that cannot be looked up ends a run
/// with an error, and nothing is said upon it.
pub proof fn law_what_ends_a_run_early(facts: Facts, stage: StageView, answer: Answer)
    requires
        !(stage is Done),
        next(stage, answer) matches StageView::Done(result) && result is Err,
    ensures
        match answer {
            Answer::ConfigPath(path) => stage is ConfigPath && next(stage, answer)
                == StageView::Done(Err(Error::Locator(path->Err_0))),
            Answer::DataPath(path) => stage is DataPath && next(stage, answer) == StageView::Done(
                Err(Error::Data(path->Err_0)),
            ),
            Answer::ListNetworks(known) => stage is ListNetworks && next(stage, answer)
                == StageView::Done(Err(Error::Locator(known->Err_0))),
            _ => false,
        },
        said(facts, stage, answer) == Seq::<(Mark, Seq<char>)>::empty(),
{
}

/// A run that is over stays over, and says nothing more.
pub proof fn law_the_end_is_the_end(facts: Facts, result: Result<(), Error>, answers: Seq<Answer>)
    ensures
        after(StageView::Done(result), answers) == StageView::Done(result),
        report(facts, StageView::Done(result), answers) == Seq::<(Mark, Seq<char>)>::empty(),
    decreases answers.len(),
{
    if answers.len() > 0 {
        law_the_end_is_the_end(facts, result, answers.drop_first());
        assert(report(facts, StageView::Done(result), answers) =~= Seq::<
            (Mark, Seq<char>),
        >::empty());
    }
}

/// What the probes establish is reported of the executables that were probed. Where
/// each place of the answer holds what `outcome` says of the candidate at the requested
/// position, the report is on exactly the candidates that were requested, in their
/// order, each under its own path and with its own outcome.
pub proof fn law_each_path_is_reported_with_its_own_version(
    facts: Facts,
    writer: LastWriter,
    latest: Option<Version>,
    found: Seq<Candidate>,
    request: Request,
    versions: Vec<InstallVersion>,
    outcome: spec_fn(Candidate) -> installs::InstallView,
)
    requires
        asks(StageView::Probe { writer, latest, found }, request),
        versions@.len() == request->Probe_0@.len(),
        forall|k: int|
            0 <= k < versions@.len() ==> (#[trigger] versions@[k])@ == outcome(
                found[request->Probe_0@[k] as int],
            ),
    ensures
        ({
            let probed = request->Probe_0@;
            let stage = StageView::Probe { writer, latest, found };
            let lines = said(facts, stage, Answer::Probe(versions));
            &&& forall|k: int| 0 <= k < probed.len() ==> #[trigger] probed[k] < found.len()
            &&& lines == installs::install_lines(
                Seq::new(
                    probed.len(),
                    |k: int|
                        {
                            let candidate = found[probed[k] as int];
                            (candidate.path.shown@, outcome(candidate))
                        },
                ),
                match latest {
                    Some(latest) => Some(latest@),
                    None => None,
                },
                facts.this_version@,
            ) + cache::writer_lines(writer@, facts.this_cli@)
            &&& forall|k: int|
                0 <= k < probed.len() ==> {
                    let candidate = found[#[trigger] probed[k] as int];
                    let line = lines[k + 1];
                    &&& line.0 == Mark::Blank
                    &&& outcome(candidate) is Silent ==> line.1 == "- "@ + candidate.path.shown@
                        + " ("@ + "unknown version"@ + ")"@
                    &&& latest is None ==> (outcome(candidate) matches installs::InstallView::Known(
                        version,
                    ) ==> line.1 == "- "@ + candidate.path.shown@ + " ("@ + version + ")"@)
                }
        }),
{
    let probed = request->Probe_0@;
    assert(probe::positions(probed) == probe::kept(found));
    assert(probe::positions(probed).len() == probed.len());
    probe::law_probed_are_the_distinct_absolute_files(found);
    assert forall|k: int| 0 <= k < probed.len() implies #[trigger] probed[k] < found.len()
        && probed[k] as int == probe::kept(found)[k] by {
        assert(probe::positions(probed)[k] == probed[k] as int);
    }
    let listed = Seq::new(
        probed.len(),
        |k: int|
            {
                let candidate = found[probed[k] as int];
                (candidate.path.shown@, outcome(candidate))
            },
    );
    assert(probe::with_versions(found, versions@) =~= listed);
    let l = version::version_if_any(latest);
    let report = installs::install_lines(listed, l, facts.this_version@);
    let lines = said(
        facts,
        StageView::Probe { writer, latest, found },
        Answer::Probe(versions),
    );
    assert(lines == report + cache::writer_lines(writer@, facts.this_cli@));
    assert forall|k: int| 0 <= k < probed.len() implies ({
        let candidate = found[#[trigger] probed[k] as int];
        let line = lines[k + 1];
        &&& line.0 == Mark::Blank
        &&& outcome(candidate) is Silent ==> line.1 == "- "@ + candidate.path.shown@ + " ("@
            + "unknown version"@ + ")"@
        &&& latest is None ==> (outcome(candidate) matches installs::InstallView::Known(version)
            ==> line.1 == "- "@ + candidate.path.shown@ + " ("@ + version + ")"@)
    }) by {
        installs::law_each_executable_has_its_line(listed, k, l, facts.this_version@);
        assert(lines[k + 1] == report[1 + k]);
        if let installs::InstallView::Known(version) = listed[k].1 {
            if latest is None {
                assert("- "@ + listed[k].0 + " ("@ + version + Seq::<char>::empty() + ")"@ =~= "- "@
                    + listed[k].0 + " ("@ + version + ")"@);
            }
        }
    }
}

/// Which candidates are asked for their version: exactly those whose path is absolute
/// and leads to another file than every absolute path found before it, in their order.
pub proof fn law_every_distinct_file_is_asked_once(
    writer: LastWriter,
    latest: Option<Version>,
    found: Seq<Candidate>,
    request: Request,
)
    requires
        asks(StageView::Probe { writer, latest, found }, request),
    ensures
        ({
            let probed = request->Probe_0@;
            let file = |c: Candidate|
                match c.canonical {
                    Some(path) => path.identity@,
                    None => c.path.identity@,
                };
            &&& request is Probe
            &&& forall|k: int|
                0 <= k < probed.len() ==> {
                    let p = #[trigger] probed[k] as int;
                    &&& p < found.len()
                    &&& found[p].absolute
                    &&& forall|j: int|
                        0 <= j < p && (#[trigger] found[j]).absolute ==> file(found[j]) != file(
                            found[p],
                        )
                }
            &&& forall|p: int|
                0 <= p < found.len() && (#[trigger] found[p]).absolute && (forall|j: int|
                    0 <= j < p && (#[trigger] found[j]).absolute ==> file(found[j]) != file(
                        found[p],
                    )) ==> exists|k: int| 0 <= k < probed.len() && #[trigger] probed[k] == p
            &&& forall|a: int, b: int| 0 <= a < b < probed.len() ==> probed[a] < probed[b]
        }),
{
    let probed = request->Probe_0@;
    let kept = probe::kept(found);
    assert(probe::positions(probed) == kept);
    assert(probe::positions(probed).len() == probed.len());
    probe::law_probed_are_the_distinct_absolute_files(found);
    assert forall|k: int| 0 <= k < probed.len() implies #[trigger] probed[k] as int == kept[k] by {
        assert(probe::positions(probed)[k] == probed[k] as int);
    }
    assert forall|p: int|
        0 <= p < found.len() && (#[trigger] found[p]).absolute && (forall|j: int|
            0 <= j < p && (#[trigger] found[j]).absolute ==> (match found[j].canonical {
                Some(path) => path.identity@,
                None => found[j].path.identity@,
            }) != (match found[p].canonical {
                Some(path) => path.identity@,
                None => found[p].path.identity@,
            })) implies exists|k: int| 0 <= k < probed.len() && #[trigger] probed[k] == p by {
        assert(kept.contains(p));
        let k = choose|k: int| 0 <= k < kept.len() && kept[k] == p;
        assert(probed[k] == p);
    }
}

/// A run asks about the thing it has come to: the binary name, the program or the
/// network of its stage, and the version of Rust wherever that is needed.
pub proof fn law_a_request_is_about_its_stage(stage: StageView, request: Request)
    requires
        asks(stage, request),
    ensures
        stage is CacheWriter <==> request is CacheWriter,
        stage is Upgrade <==> request is Upgrade,
        stage is RunningBinary <==> request is RunningBinary,
        stage is LookUp <==> request is LookUp,
        stage is LookUp ==> request->LookUp_0 == stage->LookUp_name,
        stage is Probe <==> request is Probe,
        stage is RustVersion || stage is TargetVersion <==> request is RustVersion,
        stage is Targets <==> request is Targets,
        stage is Engine <==> request is Engine,
        stage is EngineProgram <==> request is EngineProgram,
        stage is EngineProgram ==> request->EngineProgram_0@ == stage->program@,
        stage is ConfigPath <==> request is ConfigPath,
        stage is DataPath <==> request is DataPath,
        stage is ListNetworks <==> request is ListNetworks,
        stage matches StageView::Networks(inner) ==> match inner {
            networks::NetworkStageView::Default { name, .. } => request is DefaultNetwork
                && request->DefaultNetwork_0@ == name@,
            networks::NetworkStageView::Read { name, .. } => request is ReadNetwork
                && request->ReadNetwork_0@ == name@,
            networks::NetworkStageView::Saved { name, .. } => request is SavedNetwork
                && request->SavedNetwork_0@ == name@,
            networks::NetworkStageView::Done => request is Nothing,
        },
        stage is Done ==> request is Nothing,
        request is Nothing ==> stage is Done || stage is Networks,
{
}

/// An answer to anything else than what was asked is passed over: the run stays where
/// it is, and nothing is said.
pub proof fn law_only_what_was_asked_for_counts(
    facts: Facts,
    stage: StageView,
    request: Request,
    answer: Answer,
)
    requires
        asks(stage, request),
        !(match request {
            Request::CacheWriter => answer is CacheWriter,
            Request::Upgrade(_) => answer is Upgrade,
            Request::RunningBinary => answer is RunningBinary,
            Request::LookUp(_) => answer is LookUp,
            Request::Probe(_) => answer is Probe,
            Request::RustVersion => answer is RustVersion,
            Request::Targets => answer is Targets,
            Request::Engine => answer is Engine,
            Request::EngineProgram(_) => answer is EngineProgram,
            Request::ConfigPath => answer is ConfigPath,
            Request::DataPath => answer is DataPath,
            Request::ListNetworks => answer is ListNetworks,
            Request::DefaultNetwork(_) | Request::SavedNetwork(_) => answer is Network
                && answer->Network_0 is Reply,
            Request::ReadNetwork(_) => answer is Network && answer->Network_0 is Read,
            Request::Nothing => false,
        }),
        stage is Networks ==> !(stage->Networks_0 is Done),
    ensures
        next(stage, answer) == stage,
        said(facts, stage, answer).len() == 0,
{
}

/// The executables of both names are probed together, those under the first name first,
/// and a name that could not be looked up adds none.
pub proof fn law_both_names_are_looked_up(
    writer: LastWriter,
    latest: Option<Version>,
    running: Option<String>,
    stellar: Vec<Candidate>,
    soroban: Vec<Candidate>,
)
    ensures
        ({
            let start = next(
                StageView::RunningBinary { writer, latest },
                Answer::RunningBinary(running),
            );
            let both = next(
                next(start, Answer::LookUp(Some(stellar))),
                Answer::LookUp(Some(soroban)),
            );
            let only_second = next(
                next(start, Answer::LookUp(None)),
                Answer::LookUp(Some(soroban)),
            );
            let neither = next(next(start, Answer::LookUp(None)), Answer::LookUp(None));
            &&& start is LookUp && start->LookUp_name == BinaryName::Stellar
            &&& next(start, Answer::LookUp(None)) is LookUp
            &&& next(start, Answer::LookUp(None))->LookUp_name == BinaryName::Soroban
            &&& both == (StageView::Probe { writer, latest, found: stellar@ + soroban@ })
            &&& only_second == (StageView::Probe { writer, latest, found: soroban@ })
            &&& neither == (StageView::Probe { writer, latest, found: Seq::empty() })
        }),
{
    let none = Seq::<Candidate>::empty();
    assert(none + stellar@ =~= stellar@);
    assert(none + none =~= none);
    assert(none + soroban@ =~= soroban@);
}

/// A directory or a list of networks that cannot be looked up ends the run with its own
/// error.
pub proof fn law_what_cannot_be_looked_up_ends_the_run(message: String)
    ensures
        next(StageView::ConfigPath, Answer::ConfigPath(Err(message))) == StageView::Done(
            Err(Error::Locator(message)),
        ),
        next(StageView::DataPath, Answer::DataPath(Err(message))) == StageView::Done(
            Err(Error::Data(message)),
        ),
        next(StageView::ListNetworks, Answer::ListNetworks(Err(message))) == StageView::Done(
            Err(Error::Locator(message)),
        ),
{
}

} // verus!
