//! Asking an executable on `PATH` which version it is.

use crate::installs;
use crate::installs::{Install, InstallVersion, InstallView};
use crate::text;
use crate::text::{from_utf8_lossy, lines, trim, words};
use crate::version;
use crate::version::Version;
use vstd::prelude::*;

verus! {

/// How many seconds one query may take.
pub const INSTALL_PROBE_TIMEOUT: u64 = 2;

/// How many bytes of an answer are held at most. A version banner is a few
/// hundred bytes, so an answer that fills this is no version banner.
pub const MAX_PROBE_OUTPUT: u64 = 64 * 1024;

// ---------------------------------------------------------------------------
// Reading a version in an answer
// ---------------------------------------------------------------------------

/// Whether `t` spells a semantic version.
pub open spec fn is_version(t: Seq<char>) -> bool {
    version::version_of(t) is Some
}

/// The text of an optional string.
pub open spec fn text_if_any(s: Option<String>) -> Option<Seq<char>> {
    match s {
        Some(s) => Some(s@),
        None => None,
    }
}

/// The version in an answer that has to be a bare version.
pub open spec fn only_version(output: Seq<char>) -> Option<Seq<char>> {
    if is_version(text::trimmed(output)) {
        Some(text::trimmed(output))
    } else {
        None
    }
}

/// The version in the answer to `version --only-version`. Usage text that an
/// older CLI prints for the unknown flag is none.
pub fn parse_only_version(output: &str) -> (r: Option<String>)
    ensures
        text_if_any(r) == only_version(output@),
{
    let version = trim(output);
    match Version::parse(version.as_str()) {
        Some(_) => Some(version),
        None => None,
    }
}

/// The first of `words` that spells a version.
pub open spec fn first_version(words: Seq<Seq<char>>) -> Option<Seq<char>>
    decreases words.len(),
{
    if words.len() == 0 {
        None
    } else if is_version(words[0]) {
        Some(words[0])
    } else {
        first_version(words.drop_first())
    }
}

/// The words of the first line of `output`.
pub open spec fn banner_words(output: Seq<char>) -> Seq<Seq<char>> {
    if output.len() == 0 {
        Seq::empty()
    } else {
        text::words_of(text::first_line(output))
    }
}

/// The version out of a banner like `stellar 22.8.0 (18f54cd...)`.
pub fn parse_version_banner(output: &str) -> (r: Option<String>)
    ensures
        text_if_any(r) == first_version(banner_words(output@)),
{
    let all = lines(output);
    if all.len() == 0 {
        assert(text::texts(all@).len() == 0);
        return None;
    }
    assert(text::texts(all@)[0] == text::lines_of(output@)[0]);
    let tokens = words(all[0].as_str());
    let ghost w = banner_words(output@);
    assert(text::texts(tokens@) == w);
    assert(w.skip(0) =~= w);
    let mut i: usize = 0;
    while i < tokens.len()
        invariant
            i <= tokens.len(),
            text::texts(tokens@) == w,
            w == banner_words(output@),
            first_version(w.skip(i as int)) == first_version(w),
        decreases tokens.len() - i,
    {
        assert(w[i as int] == tokens[i as int]@);
        assert(w.skip(i as int)[0] == w[i as int]);
        if Version::parse(tokens[i].as_str()).is_some() {
            return Some(tokens[i].clone());
        }
        assert(w.skip(i as int).drop_first() =~= w.skip(i + 1));
        i += 1;
    }
    None
}

// ---------------------------------------------------------------------------
// One query
// ---------------------------------------------------------------------------

/// The result of running one version query against one executable.
#[derive(Debug, PartialEq, Eq)]
pub enum ProbeOutput {
    Answered(String),
    /// It could not be spawned, exited with an error, or would not stop talking.
    Failed,
    /// It outlived [`INSTALL_PROBE_TIMEOUT`].
    TimedOut,
}

/// [`ProbeOutput`] with the answer as a sequence of characters.
pub enum OutputView {
    Answered(Seq<char>),
    Failed,
    TimedOut,
}

impl View for ProbeOutput {
    type V = OutputView;

    open spec fn view(&self) -> OutputView {
        match self {
            ProbeOutput::Answered(output) => OutputView::Answered(output@),
            ProbeOutput::Failed => OutputView::Failed,
            ProbeOutput::TimedOut => OutputView::TimedOut,
        }
    }
}

/// What happened to the process of a query.
#[derive(Debug)]
pub enum RunEvent {
    /// It could not be started.
    NotSpawned,
    /// Its output could not be read.
    Unreadable,
    /// Its output was read, to its end or up to [`MAX_PROBE_OUTPUT`] bytes.
    Read(Vec<u8>),
    /// It could not be waited for.
    Lost,
    /// It exited, having written `output`.
    Exited { success: bool, output: Vec<u8> },
    /// It took longer than [`INSTALL_PROBE_TIMEOUT`] seconds.
    Expired,
}

/// What to do about the process of a query.
#[derive(Debug)]
pub enum RunAction {
    /// Wait for it to exit; this is what it wrote.
    Wait(Vec<u8>),
    /// Stop here with this result. Where `kill_group` is set, the process and
    /// whatever it started are to be killed.
    Finish { output: ProbeOutput, kill_group: bool },
}

/// [`RunAction`] with its contents as sequences.
pub enum ActionView {
    Wait(Seq<u8>),
    Finish { output: OutputView, kill_group: bool },
}

impl View for RunAction {
    type V = ActionView;

    open spec fn view(&self) -> ActionView {
        match self {
            RunAction::Wait(output) => ActionView::Wait(output@),
            RunAction::Finish { output, kill_group } => ActionView::Finish {
                output: output@,
                kill_group: *kill_group,
            },
        }
    }
}

/// How a query goes on after an event.
pub open spec fn reaction(event: RunEvent) -> ActionView {
    match event {
        RunEvent::NotSpawned => ActionView::Finish {
            output: OutputView::Failed,
            kill_group: false,
        },
        RunEvent::Read(output) if output@.len() < MAX_PROBE_OUTPUT => ActionView::Wait(output@),
        RunEvent::Exited { success, output } if success && output@.len() < MAX_PROBE_OUTPUT => ActionView::Finish {
            output: OutputView::Answered(text::text_of(output@)),
            kill_group: false,
        },
        RunEvent::Expired => ActionView::Finish { output: OutputView::TimedOut, kill_group: true },
        _ => ActionView::Finish { output: OutputView::Failed, kill_group: true },
    }
}

/// Decides how a query goes on. Filling the cap is itself the answer: the
/// executable is still talking, so it is neither waited for nor read any further.
pub fn run_version(event: RunEvent) -> (r: RunAction)
    ensures
        r@ == reaction(event),
{
    match event {
        RunEvent::NotSpawned => RunAction::Finish {
            output: ProbeOutput::Failed,
            kill_group: false,
        },
        RunEvent::Read(output) => if output.len() as u64 >= MAX_PROBE_OUTPUT {
            RunAction::Finish { output: ProbeOutput::Failed, kill_group: true }
        } else {
            RunAction::Wait(output)
        },
        RunEvent::Exited { success, output } => if success && (output.len() as u64)
            < MAX_PROBE_OUTPUT {
            RunAction::Finish {
                output: ProbeOutput::Answered(from_utf8_lossy(&output)),
                kill_group: false,
            }
        } else {
            RunAction::Finish { output: ProbeOutput::Failed, kill_group: true }
        },
        RunEvent::Unreadable | RunEvent::Lost => RunAction::Finish {
            output: ProbeOutput::Failed,
            kill_group: true,
        },
        RunEvent::Expired => RunAction::Finish {
            output: ProbeOutput::TimedOut,
            kill_group: true,
        },
    }
}

/// What addresses the process group that the process with this id leads, where there is
/// such a process and ids go that far.
pub open spec fn addressed_group(pid: Option<u32>) -> Option<int> {
    match pid {
        Some(pid) if pid <= i32::MAX => Some(-(pid as int)),
        _ => None,
    }
}

/// Which process id to signal so that the whole group led by `pid` is reached:
/// its negation. None where there is no process, or none with such an id.
pub fn kill_process_group(pid: Option<u32>) -> (r: Option<i32>)
    ensures
        match r {
            Some(target) => pid is Some && pid.unwrap() <= i32::MAX && target == -(
            pid.unwrap() as int),
            None => pid is None || pid.unwrap() > i32::MAX,
        },
        match r {
            Some(target) => addressed_group(pid) == Some(target as int),
            None => addressed_group(pid) is None,
        },
{
    match pid {
        Some(pid) if pid <= 0x7fff_ffff => Some(-(pid as i32)),
        _ => None,
    }
}

// ---------------------------------------------------------------------------
// One executable
// ---------------------------------------------------------------------------

/// A question for the version.
#[derive(Clone, Copy, Debug, PartialEq, Eq, Structural)]
pub enum VersionQuery {
    /// Asks for the bare version. Releases old enough to cause version confusion
    /// reject it.
    OnlyVersion,
    /// Asks for the whole banner.
    Banner,
}

impl VersionQuery {
    /// The first question to an executable.
    pub fn first() -> (r: VersionQuery)
        ensures
            r == VersionQuery::OnlyVersion,
    {
        VersionQuery::OnlyVersion
    }

    /// The arguments that ask it.
    pub fn args(&self) -> (r: Vec<&'static str>)
        ensures
            match self {
                VersionQuery::OnlyVersion => r@.len() == 2 && r@[0]@ == "version"@ && r@[1]@
                    == "--only-version"@,
                VersionQuery::Banner => r@.len() == 1 && r@[0]@ == "--version"@,
            },
    {
        let mut r: Vec<&'static str> = Vec::new();
        match self {
            VersionQuery::OnlyVersion => {
                r.push("version");
                r.push("--only-version");
            },
            VersionQuery::Banner => {
                r.push("--version");
            },
        }
        r
    }
}

/// How the probe of an executable goes on.
#[derive(Debug, PartialEq, Eq)]
pub enum ProbeStep {
    /// Ask this next.
    Ask(VersionQuery),
    /// The probe is over.
    Done(InstallVersion),
}

/// [`ProbeStep`] with the outcome as [`InstallView`].
pub enum StepView {
    Ask(VersionQuery),
    Done(InstallView),
}

impl View for ProbeStep {
    type V = StepView;

    open spec fn view(&self) -> StepView {
        match self {
            ProbeStep::Ask(query) => StepView::Ask(*query),
            ProbeStep::Done(version) => StepView::Done(version@),
        }
    }
}

/// What an answer that held `version` establishes.
pub open spec fn known_or_silent(version: Option<Seq<char>>) -> InstallView {
    match version {
        Some(version) => InstallView::Known(version),
        None => InstallView::Silent,
    }
}

/// How a probe goes on after `output` came back for the question `asked`.
pub open spec fn after_query(asked: VersionQuery, output: OutputView) -> StepView {
    match (asked, output) {
        (_, OutputView::TimedOut) => StepView::Done(InstallView::TimedOut),
        (VersionQuery::OnlyVersion, OutputView::Answered(output)) => match only_version(output) {
            Some(version) => StepView::Done(InstallView::Known(version)),
            None => StepView::Ask(VersionQuery::Banner),
        },
        (VersionQuery::OnlyVersion, OutputView::Failed) => StepView::Ask(VersionQuery::Banner),
        (VersionQuery::Banner, OutputView::Answered(output)) => StepView::Done(
            known_or_silent(first_version(banner_words(output))),
        ),
        (VersionQuery::Banner, OutputView::Failed) => StepView::Done(InstallView::Silent),
    }
}

/// Decides how the probe of an executable goes on, from the question that was
/// asked and what came back. An executable that hung on one question is hung, so
/// it is not asked another.
pub fn installed_version(asked: VersionQuery, output: &ProbeOutput) -> (r: ProbeStep)
    ensures
        r@ == after_query(asked, output@),
{
    match output {
        ProbeOutput::TimedOut => ProbeStep::Done(InstallVersion::TimedOut),
        ProbeOutput::Answered(output) => match asked {
            VersionQuery::OnlyVersion => match parse_only_version(output.as_str()) {
                Some(version) => ProbeStep::Done(InstallVersion::Known(version)),
                None => ProbeStep::Ask(VersionQuery::Banner),
            },
            VersionQuery::Banner => match parse_version_banner(output.as_str()) {
                Some(version) => ProbeStep::Done(InstallVersion::Known(version)),
                None => ProbeStep::Done(InstallVersion::Silent),
            },
        },
        ProbeOutput::Failed => match asked {
            VersionQuery::OnlyVersion => ProbeStep::Ask(VersionQuery::Banner),
            VersionQuery::Banner => ProbeStep::Done(InstallVersion::Silent),
        },
    }
}

// ---------------------------------------------------------------------------
// Discovery
// ---------------------------------------------------------------------------

/// The binary names the CLI ships under. Both are built from the same crate, so a
/// stale `soroban` runs the same upgrade check as a current `stellar`.
#[derive(Clone, Copy, Debug, PartialEq, Eq, Structural)]
pub enum BinaryName {
    Stellar,
    Soroban,
}

/// How a binary name is spelled.
pub open spec fn spelled(name: BinaryName) -> Seq<char> {
    match name {
        BinaryName::Stellar => "stellar"@,
        BinaryName::Soroban => "soroban"@,
    }
}

impl BinaryName {
    pub fn text(&self) -> (r: &'static str)
        ensures
            r@ == spelled(*self),
    {
        match self {
            BinaryName::Stellar => "stellar",
            BinaryName::Soroban => "soroban",
        }
    }
}

/// A path: the text it is shown as, and bytes that two paths share exactly where
/// they are the same path.
#[derive(Debug)]
pub struct FilePath {
    pub shown: String,
    pub identity: Vec<u8>,
}

/// An executable that `PATH` offers under one of the binary names.
#[derive(Debug)]
pub struct Candidate {
    /// As `PATH` offers it.
    pub path: FilePath,
    /// Whether that path is absolute.
    pub absolute: bool,
    /// The file it leads to, where that can be told.
    pub canonical: Option<FilePath>,
}

/// What tells one file from another, however it was reached.
pub open spec fn file_key(c: Candidate) -> Seq<u8> {
    match c.canonical {
        Some(path) => path.identity@,
        None => c.path.identity@,
    }
}

/// Whether the candidate at `i` is to be probed: its path is absolute, and no
/// earlier absolute path leads to the same file.
pub open spec fn is_kept(found: Seq<Candidate>, i: int) -> bool {
    found[i].absolute && forall|j: int|
        0 <= j < i && (#[trigger] found[j]).absolute ==> file_key(found[j]) != file_key(found[i])
}

/// The positions of the candidates that are to be probed, in their order.
pub open spec fn kept(found: Seq<Candidate>) -> Seq<int>
    decreases found.len(),
{
    if found.len() == 0 {
        Seq::empty()
    } else if is_kept(found, found.len() - 1) {
        kept(found.drop_last()).push(found.len() - 1)
    } else {
        kept(found.drop_last())
    }
}

/// Positions as integers.
pub open spec fn positions(v: Seq<usize>) -> Seq<int> {
    v.map_values(|i: usize| i as int)
}

fn key_of(c: &Candidate) -> (r: &Vec<u8>)
    ensures
        r@ == file_key(*c),
{
    match &c.canonical {
        Some(path) => &path.identity,
        None => &c.path.identity,
    }
}

fn same_bytes(a: &Vec<u8>, b: &Vec<u8>) -> (r: bool)
    ensures
        r == (a@ == b@),
{
    if a.len() != b.len() {
        return false;
    }
    let mut i: usize = 0;
    while i < a.len()
        invariant
            i <= a.len() == b.len(),
            forall|k: int| 0 <= k < i ==> a@[k] == b@[k],
        decreases a.len() - i,
    {
        if a[i] != b[i] {
            return false;
        }
        i += 1;
    }
    assert(a@ =~= b@);
    true
}

/// Whether one of the candidates at `kept_so_far` is the file that `key` tells.
fn is_among(found: &Vec<Candidate>, kept_so_far: &Vec<usize>, key: &Vec<u8>) -> (r: bool)
    requires
        forall|k: int| 0 <= k < kept_so_far@.len() ==> #[trigger] kept_so_far@[k] < found@.len(),
    ensures
        r == exists|k: int|
            0 <= k < kept_so_far@.len() && file_key(found@[#[trigger] kept_so_far@[k] as int])
                == key@,
{
    let mut i: usize = 0;
    while i < kept_so_far.len()
        invariant
            i <= kept_so_far.len(),
            forall|k: int| 0 <= k < kept_so_far@.len() ==> #[trigger] kept_so_far@[k] < found@.len(),
            forall|k: int|
                0 <= k < i ==> file_key(found@[#[trigger] kept_so_far@[k] as int]) != key@,
        decreases kept_so_far.len() - i,
    {
        if same_bytes(key_of(&found[kept_so_far[i]]), key) {
            assert(file_key(found@[kept_so_far@[i as int] as int]) == key@);
            return true;
        }
        i += 1;
    }
    false
}

/// What holds of the positions kept among the first `n` candidates.
spec fn kept_first(found: Seq<Candidate>, n: int, r: Seq<usize>) -> bool {
    &&& positions(r) == kept(found.take(n))
    &&& forall|k: int| 0 <= k < r.len() ==> #[trigger] r[k] < n && found[r[k] as int].absolute
    &&& forall|j: int|
        0 <= j < n && (#[trigger] found[j]).absolute ==> exists|k: int|
            0 <= k < r.len() && file_key(found[#[trigger] r[k] as int]) == file_key(found[j])
}

proof fn lemma_keep(found: Seq<Candidate>, i: usize, r: Seq<usize>)
    requires
        0 <= i < found.len(),
        kept_first(found, i as int, r),
    ensures
        ({
            let seen = exists|k: int|
                0 <= k < r.len() && file_key(found[#[trigger] r[k] as int]) == file_key(
                    found[i as int],
                );
            kept_first(
                found,
                i + 1,
                if found[i as int].absolute && !seen {
                    r.push(i)
                } else {
                    r
                },
            )
        }),
{
    let now = found.take(i + 1);
    let more = r.push(i);
    assert(now.drop_last() =~= found.take(i as int));
    let seen = exists|k: int|
        0 <= k < r.len() && file_key(found[#[trigger] r[k] as int]) == file_key(found[i as int]);
    if found[i as int].absolute && !seen {
        assert forall|j: int| 0 <= j < i && (#[trigger] now[j]).absolute implies file_key(now[j])
            != file_key(now[i as int]) by {
            assert(found[j].absolute);
            let k = choose|k: int|
                0 <= k < r.len() && file_key(found[#[trigger] r[k] as int]) == file_key(found[j]);
            assert(file_key(found[r[k] as int]) != file_key(found[i as int]));
        }
        assert(is_kept(now, i as int));
        assert(positions(more) =~= positions(r).push(i as int));
        assert(forall|k: int| 0 <= k < r.len() ==> #[trigger] more[k] == r[k]);
        assert forall|j: int| 0 <= j < i + 1 && (#[trigger] found[j]).absolute implies exists|
            k: int,
        |
            0 <= k < more.len() && file_key(found[#[trigger] more[k] as int]) == file_key(
                found[j],
            ) by {
            if j < i {
                let k = choose|k: int|
                    0 <= k < r.len() && file_key(found[#[trigger] r[k] as int]) == file_key(
                        found[j],
                    );
                assert(more[k] == r[k]);
            } else {
                assert(more[r.len() as int] == i);
            }
        }
    } else {
        if seen {
            let k = choose|k: int|
                0 <= k < r.len() && file_key(found[#[trigger] r[k] as int]) == file_key(
                    found[i as int],
                );
            assert(now[r[k] as int] == found[r[k] as int]);
            assert(now[r[k] as int].absolute);
        }
        assert(!is_kept(now, i as int));
    }
}

/// Every distinct executable among the candidates, by position. A relative path
/// resolves against the working directory, so it is never probed; one file that is
/// reached twice is probed once, as it was reached first.
pub fn find_installs(found: &Vec<Candidate>) -> (r: Vec<usize>)
    ensures
        positions(r@) == kept(found@),
        forall|k: int| 0 <= k < r@.len() ==> #[trigger] r@[k] < found@.len(),
{
    let mut r: Vec<usize> = Vec::new();
    let mut i: usize = 0;
    assert(positions(r@) =~= kept(found@.take(0)));
    while i < found.len()
        invariant
            i <= found.len(),
            kept_first(found@, i as int, r@),
        decreases found.len() - i,
    {
        proof {
            lemma_keep(found@, i, r@);
        }
        if found[i].absolute && !is_among(found, &r, key_of(&found[i])) {
            r.push(i);
        }
        i += 1;
    }
    assert(found@.take(i as int) =~= found@);
    r
}

/// The executables that were probed, each with what its probe established.
pub open spec fn with_versions(
    found: Seq<Candidate>,
    versions: Seq<InstallVersion>,
) -> Seq<(Seq<char>, InstallView)> {
    Seq::new(
        if kept(found).len() <= versions.len() {
            kept(found).len()
        } else {
            versions.len()
        },
        |i: int| (found[kept(found)[i]].path.shown@, versions[i]@),
    )
}

/// Puts the paths that were probed together with what the probes established, one
/// by one. A path is shown as `PATH` offers it, not as the file it leads to.
pub fn join_versions(found: &Vec<Candidate>, versions: &Vec<InstallVersion>) -> (r: Vec<Install>)
    ensures
        installs::facts(r@) == with_versions(found@, versions@),
{
    let paths = find_installs(found);
    let ghost all = with_versions(found@, versions@);
    let mut r: Vec<Install> = Vec::new();
    let mut i: usize = 0;
    assert(paths@.len() == kept(found@).len()) by {
        assert(positions(paths@).len() == paths@.len());
    }
    assert(installs::facts(r@) =~= all.take(0));
    while i < paths.len() && i < versions.len()
        invariant
            i <= paths.len(),
            i <= versions.len(),
            positions(paths@) == kept(found@),
            paths@.len() == kept(found@).len(),
            forall|k: int| 0 <= k < paths@.len() ==> #[trigger] paths@[k] < found@.len(),
            all == with_versions(found@, versions@),
            installs::facts(r@) == all.take(i as int),
        decreases paths.len() - i,
    {
        let ghost before = installs::facts(r@);
        assert(paths@[i as int] == positions(paths@)[i as int]);
        let path = found[paths[i]].path.shown.clone();
        r.push((path, versions[i].clone()));
        assert(installs::facts(r@) =~= before.push(all[i as int]));
        assert(all.take(i + 1) =~= all.take(i as int).push(all[i as int]));
        i += 1;
    }
    assert(all.take(i as int) =~= all);
    r
}

// ---------------------------------------------------------------------------
// Laws
// ---------------------------------------------------------------------------

/// A candidate is probed exactly where its path is absolute and no earlier
/// absolute path leads to the same file, and the candidates are probed in the
/// order in which they were found.
pub proof fn law_kept_are_the_first_absolute_ones(found: Seq<Candidate>)
    ensures
        forall|i: int|
            #![trigger kept(found).contains(i)]
            #![trigger is_kept(found, i)]
            kept(found).contains(i) <==> 0 <= i < found.len() && is_kept(found, i),
        forall|a: int, b: int| 0 <= a < b < kept(found).len() ==> kept(found)[a] < kept(found)[b],
    decreases found.len(),
{
    if found.len() > 0 {
        let shorter = found.drop_last();
        law_kept_are_the_first_absolute_ones(shorter);
        let n = found.len() - 1;
        assert forall|i: int| 0 <= i < n implies #[trigger] is_kept(found, i) == is_kept(
            shorter,
            i,
        ) by {
            assert(forall|j: int| 0 <= j < n ==> #[trigger] shorter[j] == found[j]);
            assert(forall|j: int| 0 <= j < n ==> #[trigger] found[j] == shorter[j]);
        }
        assert forall|i: int|
            #![trigger kept(found).contains(i)]
            #![trigger is_kept(found, i)]
            kept(found).contains(i) <==> 0 <= i < found.len() && is_kept(found, i) by {
            let k = kept(shorter);
            if kept(found).contains(i) {
                let m = choose|m: int| 0 <= m < kept(found).len() && kept(found)[m] == i;
                if m < k.len() {
                    assert(k[m] == i);
                    assert(k.contains(i));
                }
            }
            if 0 <= i < found.len() && is_kept(found, i) {
                if i < n {
                    assert(is_kept(shorter, i));
                    let m = choose|m: int| 0 <= m < k.len() && k[m] == i;
                    assert(kept(found)[m] == i);
                } else {
                    assert(kept(found)[kept(found).len() - 1] == i);
                }
            }
        }
        assert forall|a: int, b: int| 0 <= a < b < kept(found).len() implies kept(found)[a] < kept(
            found,
        )[b] by {
            let k = kept(shorter);
            assert(k.contains(k[a]));
            assert(is_kept(shorter, k[a]));
        }
    }
}

/// No two of the executables that are probed are the same file, and every
/// absolute path leads to one that is probed.
pub proof fn law_each_file_is_probed_once(found: Seq<Candidate>)
    ensures
        forall|a: int, b: int|
            0 <= a < b < kept(found).len() ==> file_key(found[#[trigger] kept(found)[a]])
                != file_key(found[#[trigger] kept(found)[b]]),
        forall|i: int|
            0 <= i < found.len() && (#[trigger] found[i]).absolute ==> exists|a: int|
                0 <= a < kept(found).len() && file_key(found[#[trigger] kept(found)[a]])
                    == file_key(found[i]),
{
    law_kept_are_the_first_absolute_ones(found);
    assert forall|a: int, b: int| 0 <= a < b < kept(found).len() implies file_key(
        found[#[trigger] kept(found)[a]],
    ) != file_key(found[#[trigger] kept(found)[b]]) by {
        assert(kept(found).contains(kept(found)[a]));
        assert(kept(found).contains(kept(found)[b]));
        assert(is_kept(found, kept(found)[a]));
        assert(is_kept(found, kept(found)[b]));
        assert(found[kept(found)[a]].absolute);
    }
    assert forall|i: int| 0 <= i < found.len() && (#[trigger] found[i]).absolute implies exists|
        a: int,
    |
        0 <= a < kept(found).len() && file_key(found[#[trigger] kept(found)[a]]) == file_key(
            found[i],
        ) by {
        lemma_some_kept(found, i);
        let j = choose|j: int|
            0 <= j <= i && #[trigger] is_kept(found, j) && file_key(found[j]) == file_key(found[i]);
        assert(kept(found).contains(j));
    }
}

proof fn lemma_some_kept(found: Seq<Candidate>, i: int)
    requires
        0 <= i < found.len(),
        found[i].absolute,
    ensures
        exists|j: int|
            0 <= j <= i && #[trigger] is_kept(found, j) && file_key(found[j]) == file_key(found[i]),
    decreases i,
{
    if !is_kept(found, i) {
        let j = choose|j: int|
            0 <= j < i && (#[trigger] found[j]).absolute && file_key(found[j]) == file_key(found[i]);
        lemma_some_kept(found, j);
    }
}

/// How a query ends whose output was read, and whose process exits with success or
/// not where it is waited for.
pub open spec fn queried(output: Vec<u8>, success: bool) -> ActionView {
    match reaction(RunEvent::Read(output)) {
        ActionView::Wait(_) => reaction(RunEvent::Exited { success, output }),
        action => action,
    }
}

/// An executable has answered exactly where it stopped below the cap and exited with
/// success. An answer that fills the cap is a failure, never a hang, and is not
/// waited for.
pub proof fn law_only_a_short_answer_counts(output: Vec<u8>, success: bool)
    ensures
        queried(output, success) == (if output@.len() < MAX_PROBE_OUTPUT && success {
            ActionView::Finish {
                output: OutputView::Answered(text::text_of(output@)),
                kill_group: false,
            }
        } else {
            ActionView::Finish { output: OutputView::Failed, kill_group: true }
        }),
        output@.len() >= MAX_PROBE_OUTPUT ==> !(reaction(RunEvent::Read(output)) is Wait),
{
}

/// Whether an event makes for an answer: only a successful exit does, and only where
/// the output stayed below the cap.
pub proof fn law_an_answer_is_below_the_cap(event: RunEvent)
    ensures
        (reaction(event) matches ActionView::Finish { output, .. } && output is Answered) <==> (
        event matches RunEvent::Exited { success, output } && success && output@.len()
            < MAX_PROBE_OUTPUT),
{
}

/// Whatever a query started is killed exactly where its process was started and did
/// not answer.
pub proof fn law_what_did_not_answer_is_killed(event: RunEvent)
    ensures
        reaction(event) matches ActionView::Finish { output, kill_group } ==> kill_group == !(
        event is NotSpawned || output is Answered),
{
}

/// What the probe of an executable comes to, from what its two questions would
/// bring.
pub open spec fn probed(first: OutputView, second: OutputView) -> InstallView {
    match after_query(VersionQuery::OnlyVersion, first) {
        StepView::Done(version) => version,
        StepView::Ask(query) => after_query(query, second)->Done_0,
    }
}

/// A probe asks at most two questions, and the second only where the first was
/// neither answered with a version nor left unanswered until the timeout.
pub proof fn law_at_most_two_questions(first: OutputView, second: OutputView)
    ensures
        after_query(VersionQuery::OnlyVersion, first) is Ask <==> !(first is TimedOut) && (
        first is Answered ==> only_version(first->Answered_0) is None),
        after_query(VersionQuery::OnlyVersion, first) is Ask ==> after_query(
            VersionQuery::OnlyVersion,
            first,
        ) == StepView::Ask(VersionQuery::Banner) && after_query(VersionQuery::Banner, second) is Done,
        first is TimedOut ==> probed(first, second) == InstallView::TimedOut,
{
}

/// An executable is reported as hung exactly where it hung on a question it was
/// asked: failing to answer never counts as hanging.
pub proof fn law_hung_means_timed_out(first: OutputView, second: OutputView)
    ensures
        probed(first, second) is TimedOut <==> first is TimedOut || (after_query(
            VersionQuery::OnlyVersion,
            first,
        ) is Ask && second is TimedOut),
{
}

/// A version that is reported is one: no executable is credited with usage text
/// or any other words.
pub proof fn law_known_is_a_version(first: OutputView, second: OutputView)
    ensures
        probed(first, second) matches InstallView::Known(version) ==> is_version(version),
{
    if after_query(VersionQuery::OnlyVersion, first) is Ask && second is Answered {
        lemma_first_version(banner_words(second->Answered_0));
    }
}

proof fn lemma_first_version(words: Seq<Seq<char>>)
    ensures
        first_version(words) matches Some(version) ==> is_version(version) && exists|i: int|
            0 <= i < words.len() && #[trigger] words[i] == version && forall|j: int|
                0 <= j < i ==> !is_version(#[trigger] words[j]),
        first_version(words) is None ==> forall|i: int|
            0 <= i < words.len() ==> !is_version(#[trigger] words[i]),
    decreases words.len(),
{
    if words.len() > 0 {
        let rest = words.drop_first();
        lemma_first_version(rest);
        if is_version(words[0]) {
            assert(words[0] == first_version(words).unwrap());
        } else {
            match first_version(words) {
                Some(version) => {
                    let i = choose|i: int|
                        0 <= i < rest.len() && #[trigger] rest[i] == version && forall|j: int|
                            0 <= j < i ==> !is_version(#[trigger] rest[j]);
                    assert(words[i + 1] == version);
                    assert forall|j: int| 0 <= j < i + 1 implies !is_version(
                        #[trigger] words[j],
                    ) by {
                        if j > 0 {
                            assert(rest[j - 1] == words[j]);
                        }
                    }
                },
                None => {
                    assert forall|j: int| 0 <= j < words.len() implies !is_version(
                        #[trigger] words[j],
                    ) by {
                        if j > 0 {
                            assert(rest[j - 1] == words[j]);
                        }
                    }
                },
            }
        }
    }
}

/// The version of a banner is the first word of its first line that is a version;
/// where there is none, no word of that line is.
pub proof fn law_banner_version_is_the_first(output: Seq<char>)
    ensures
        match first_version(banner_words(output)) {
            Some(version) => is_version(version) && exists|i: int|
                0 <= i < banner_words(output).len() && #[trigger] banner_words(output)[i]
                    == version && forall|j: int|
                    0 <= j < i ==> !is_version(#[trigger] banner_words(output)[j]),
            None => forall|i: int|
                0 <= i < banner_words(output).len() ==> !is_version(
                    #[trigger] banner_words(output)[i],
                ),
        },
{
    lemma_first_version(banner_words(output));
}

proof fn lemma_words_are_bare(s: Seq<char>)
    ensures
        forall|i: int, k: int|
            0 <= i < text::words_of(s).len() && 0 <= k < text::words_of(s)[i].len()
                ==> !text::is_space(#[trigger] text::words_of(s)[i][k]),
        forall|i: int| 0 <= i < text::words_of(s).len() ==> #[trigger] text::words_of(s)[i].len() > 0,
    decreases s.len(),
{
    let w = text::words_of(s);
    if s.len() > 0 {
        text::lemma_word_end(s);
        if text::is_space(s[0]) {
            lemma_words_are_bare(s.drop_first());
            assert(w == text::words_of(s.drop_first()));
        } else {
            let n = text::word_end(s);
            let rest = text::words_of(s.skip(n));
            lemma_words_are_bare(s.skip(n));
            assert(w =~= seq![s.take(n)] + rest);
            assert forall|i: int, k: int|
                0 <= i < w.len() && 0 <= k < w[i].len() implies !text::is_space(
                #[trigger] w[i][k],
            ) by {
                if i > 0 {
                    assert(w[i] == rest[i - 1]);
                    assert(!text::is_space(rest[i - 1][k]));
                } else {
                    assert(w[i][k] == s[k]);
                }
            }
            assert forall|i: int| 0 <= i < w.len() implies #[trigger] w[i].len() > 0 by {
                if i > 0 {
                    assert(w[i] == rest[i - 1]);
                }
            }
        }
    } else {
        assert(w.len() == 0);
    }
}

/// Both questions read a version alike: the version that a banner holds, answered
/// alone, is read as the same version.
pub proof fn law_banner_and_bare_version_read_alike(output: Seq<char>)
    ensures
        first_version(banner_words(output)) matches Some(version) ==> only_version(version) == Some(
            version,
        ),
{
    let w = banner_words(output);
    lemma_first_version(w);
    match first_version(w) {
        Some(version) => {
            lemma_words_are_bare(text::first_line(output));
            let i = choose|i: int|
                0 <= i < w.len() && #[trigger] w[i] == version && forall|j: int|
                    0 <= j < i ==> !is_version(#[trigger] w[j]);
            assert(!text::is_space(w[i][0]));
            assert(!text::is_space(w[i][w[i].len() - 1]));
            assert(text::trimmed(version) == version);
        },
        None => {},
    }
}

/// A CLI that answers the first question with its version is known at that version,
/// with or without an end of line behind it.
pub proof fn law_a_version_answered_is_known(
    version: Seq<char>,
    output: Seq<char>,
    second: OutputView,
)
    requires
        is_version(version),
        output == version || output == version + "\n"@,
    ensures
        probed(OutputView::Answered(output), second) == InstallView::Known(version),
{
    version::law_a_version_is_one_word(version);
    assert(text::trimmed(version) == version);
    if output != version {
        reveal_strlit("\n");
        assert(output.last() == '\n');
        assert(output[0] == version[0]);
        assert(output.drop_last() =~= version);
        assert(text::trimmed(output) == text::trimmed(version));
    }
}

proof fn lemma_first_word(word: Seq<char>, rest: Seq<char>)
    requires
        word.len() > 0,
        forall|i: int| 0 <= i < word.len() ==> !text::is_space(#[trigger] word[i]),
        rest.len() > 0 ==> text::is_space(rest[0]),
    ensures
        text::words_of(word + rest) == seq![word] + text::words_of(rest),
{
    let s = word + rest;
    assert forall|i: int| 0 <= i < word.len() implies !text::is_space(s[i]) by {
        assert(s[i] == word[i]);
    }
    assert(rest.len() > 0 ==> s[word.len() as int] == rest[0]);
    text::lemma_word_end_is(s, word.len() as int);
    assert(s.take(word.len() as int) =~= word);
    assert(s.skip(word.len() as int) =~= rest);
}

/// A banner that starts with a name and then a version is read as that version,
/// whatever follows: a name is a word that does not start with a digit.
pub proof fn law_a_banner_holds_its_version(name: Seq<char>, version: Seq<char>, more: Seq<char>)
    requires
        name.len() > 0,
        !version::is_digit(name[0]),
        forall|i: int| 0 <= i < name.len() ==> !text::is_space(#[trigger] name[i]),
        is_version(version),
        more.len() > 0 ==> text::is_space(more[0]),
    ensures
        first_version(banner_words(name + " "@ + version + more)) == Some(version),
{
    reveal_strlit(" ");
    version::law_a_version_is_one_word(version);
    if is_version(name) {
        version::law_a_version_is_one_word(name);
    }
    let start = name + " "@ + version;
    let s = start + more;
    let line = text::first_line(s);
    text::lemma_line_end(s);
    assert forall|i: int| 0 <= i < start.len() implies s[i] != '\n' && s[i] != '\r' by {
        if i < name.len() {
            assert(s[i] == name[i]);
        } else if i > name.len() {
            assert(s[i] == version[i - name.len() - 1]);
        }
    }
    let kept = more.take(line.len() - start.len());
    assert(line =~= start + kept);
    let tail = " "@ + version + kept;
    assert(line =~= name + tail);
    lemma_first_word(name, tail);
    assert(tail.drop_first() =~= version + kept);
    lemma_first_word(version, kept);
    let w = banner_words(s);
    assert(w =~= seq![name] + (seq![version] + text::words_of(kept)));
    assert(w.drop_first() =~= seq![version] + text::words_of(kept));
    assert(w[0] == name && w.drop_first()[0] == version);
    assert(first_version(w.drop_first()) == Some(version));
}

/// How each event ends a query, or does not: it hangs exactly where it expired, it is
/// waited for exactly where it was read and stayed below 65536 bytes, it has answered
/// exactly where it then exited with success, and it has failed otherwise.
pub proof fn law_how_a_query_ends(event: RunEvent)
    ensures
        ({
            let read_short = event is Read && event->Read_0@.len() < 65536;
            let answered = event is Exited && event->success && event->Exited_output@.len() < 65536;
            let action = reaction(event);
            &&& read_short ==> action == ActionView::Wait(event->Read_0@)
            &&& !read_short ==> action is Finish
            &&& answered ==> action->output == OutputView::Answered(
                text::text_of(event->Exited_output@),
            ) && !action->kill_group
            &&& event is Expired ==> action->output is TimedOut && action->kill_group
            &&& !read_short && !answered && !(event is Expired) ==> action->output is Failed
                && action->kill_group == !(event is NotSpawned)
        }),
{
}

/// A version that is the whole of the first answer, but for whitespace around it, is
/// taken from it.
pub proof fn law_a_bare_version_is_taken(left: Seq<char>, version: Seq<char>, right: Seq<char>)
    requires
        is_version(version),
        forall|i: int| 0 <= i < left.len() ==> text::is_space(#[trigger] left[i]),
        forall|i: int| 0 <= i < right.len() ==> text::is_space(#[trigger] right[i]),
    ensures
        after_query(VersionQuery::OnlyVersion, OutputView::Answered(left + version + right))
            == StepView::Done(InstallView::Known(version)),
        only_version(left + version + right) == Some(version),
{
    version::law_a_version_is_one_word(version);
    text::law_trimming_leaves_the_text(left, version, right);
}

/// A first answer that is anything else than a version is not taken: the banner is
/// asked for, as it is where the first question failed.
pub proof fn law_anything_else_is_asked_again(left: Seq<char>, answer: Seq<char>, right: Seq<char>)
    requires
        !is_version(answer),
        answer.len() > 0 ==> !text::is_space(answer[0]) && !text::is_space(answer.last()),
        forall|i: int| 0 <= i < left.len() ==> text::is_space(#[trigger] left[i]),
        forall|i: int| 0 <= i < right.len() ==> text::is_space(#[trigger] right[i]),
    ensures
        after_query(VersionQuery::OnlyVersion, OutputView::Answered(left + answer + right))
            == StepView::Ask(VersionQuery::Banner),
        only_version(left + answer + right) is None,
        after_query(VersionQuery::OnlyVersion, OutputView::Failed) == StepView::Ask(
            VersionQuery::Banner,
        ),
        after_query(VersionQuery::Banner, OutputView::Failed) == StepView::Done(
            InstallView::Silent,
        ),
{
    text::law_trimming_leaves_the_text(left, answer, right);
}

/// A CLI that does not know the first question is known by its banner: where the second
/// is answered with a name, a version and whatever else, on the same line or on further
/// ones, the probe establishes that version. A name is a word that does not start with a
/// digit.
pub proof fn law_an_older_cli_is_known_by_its_banner(
    first: OutputView,
    name: Seq<char>,
    version: Seq<char>,
    more: Seq<char>,
)
    requires
        first is Failed || (first matches OutputView::Answered(output) && !is_version(
            text::trimmed(output),
        )),
        name.len() > 0,
        !('0' <= name[0] <= '9'),
        forall|i: int| 0 <= i < name.len() ==> !text::is_space(#[trigger] name[i]),
        is_version(version),
        more.len() > 0 ==> text::is_space(more[0]),
    ensures
        after_query(VersionQuery::OnlyVersion, first) == StepView::Ask(VersionQuery::Banner),
        after_query(
            VersionQuery::Banner,
            OutputView::Answered(name + " "@ + version + more),
        ) == StepView::Done(InstallView::Known(version)),
        probed(first, OutputView::Answered(name + " "@ + version + more)) == InstallView::Known(
            version,
        ),
{
    law_a_banner_holds_its_version(name, version, more);
}

/// What a banner says behind its first line does not matter, and neither does how that
/// line ends.
pub proof fn law_further_lines_of_a_banner_do_not_matter(line: Seq<char>, rest: Seq<char>)
    requires
        forall|i: int| 0 <= i < line.len() ==> #[trigger] line[i] != '\n',
    ensures
        line.len() > 0 && line.last() == '\r' ==> after_query(
            VersionQuery::Banner,
            OutputView::Answered(line + seq!['\n'] + rest),
        ) == after_query(VersionQuery::Banner, OutputView::Answered(line.drop_last())),
        line.len() == 0 || line.last() != '\r' ==> after_query(
            VersionQuery::Banner,
            OutputView::Answered(line + seq!['\n'] + rest),
        ) == after_query(VersionQuery::Banner, OutputView::Answered(line)),
{
    let s = line + seq!['\n'] + rest;
    let bare = if line.len() > 0 && line.last() == '\r' {
        line.drop_last()
    } else {
        line
    };
    text::law_lines_end_at_line_feeds(line, rest);
    assert(text::lines_of(s)[0] == text::first_line(s));
    assert(text::lines_of(s)[0] == bare);
    assert forall|i: int| 0 <= i < bare.len() implies #[trigger] bare[i] != '\n' by {
        assert(bare[i] == line[i]);
    }
    text::law_lines_end_at_line_feeds(bare, rest);
    if bare.len() > 0 {
        assert(text::lines_of(bare)[0] == text::first_line(bare));
    } else {
        assert(text::words_of(bare).len() == 0);
    }
}

proof fn lemma_words_add_up(a: Seq<char>, b: Seq<char>)
    requires
        a.len() > 0 && b.len() > 0 ==> text::is_space(a.last()) || text::is_space(b[0]),
    ensures
        text::words_of(a + b) == text::words_of(a) + text::words_of(b),
    decreases a.len(),
{
    let s = a + b;
    if a.len() == 0 {
        assert(s =~= b);
        assert(text::words_of(a) + text::words_of(b) =~= text::words_of(b));
    } else if b.len() == 0 {
        assert(s =~= a);
        assert(text::words_of(a) + text::words_of(b) =~= text::words_of(a));
    } else if text::is_space(a[0]) {
        assert(s.drop_first() =~= a.drop_first() + b);
        if a.len() > 1 {
            assert(a.drop_first().last() == a.last());
        }
        lemma_words_add_up(a.drop_first(), b);
    } else {
        text::lemma_word_end(a);
        let n = text::word_end(a);
        let (word, rest) = (a.take(n), a.skip(n));
        if n < a.len() {
            assert(rest.last() == a.last());
        }
        lemma_words_add_up(rest, b);
        assert(s =~= word + (rest + b));
        assert(a =~= word + rest);
        if rest.len() > 0 {
            assert((rest + b)[0] == rest[0]);
            assert(rest[0] == a[n]);
        } else {
            assert(a.last() == a[n - 1]);
            assert((rest + b)[0] == b[0]);
        }
        lemma_first_word(word, rest + b);
        lemma_first_word(word, rest);
        assert(seq![word] + (text::words_of(rest) + text::words_of(b)) =~= seq![word]
            + text::words_of(rest) + text::words_of(b));
    }
}

proof fn lemma_first_version_of_both(a: Seq<Seq<char>>, b: Seq<Seq<char>>)
    ensures
        first_version(a + b) == (if first_version(a) is Some {
            first_version(a)
        } else {
            first_version(b)
        }),
    decreases a.len(),
{
    if a.len() == 0 {
        assert(a + b =~= b);
    } else {
        assert((a + b).drop_first() =~= a.drop_first() + b);
        lemma_first_version_of_both(a.drop_first(), b);
    }
}

/// What is left of the text behind a version, on the line that the version stands on.
proof fn lemma_rest_of_line(before: Seq<char>, version: Seq<char>, behind: Seq<char>) -> (kept: Seq<
    char,
>)
    requires
        forall|i: int| 0 <= i < before.len() ==> #[trigger] before[i] != '\n',
        version.len() > 0,
        forall|i: int| 0 <= i < version.len() ==> !text::is_space(#[trigger] version[i]),
        behind.len() > 0 ==> text::is_space(behind[0]),
    ensures
        text::first_line(before + version + behind) == before + (version + kept),
        kept.len() > 0 ==> text::is_space(kept[0]),
{
    let start = before + version;
    let s = start + behind;
    let line = text::first_line(s);
    text::lemma_line_end(s);
    assert forall|i: int| 0 <= i < start.len() implies s[i] != '\n' by {
        if i < before.len() {
            assert(s[i] == before[i]);
        } else {
            assert(s[i] == version[i - before.len()]);
        }
    }
    assert(s[start.len() - 1] == version[version.len() - 1]);
    assert(!text::is_space(version[version.len() - 1]));
    let kept = behind.take(line.len() - start.len());
    assert(line =~= before + (version + kept));
    kept
}

/// The words of a line that starts with `before`.
proof fn lemma_words_before(before: Seq<char>, version: Seq<char>, kept: Seq<char>)
    requires
        before.len() > 0 ==> text::is_space(before.last()),
        is_version(version),
        version.len() > 0,
        forall|i: int| 0 <= i < version.len() ==> !text::is_space(#[trigger] version[i]),
        kept.len() > 0 ==> text::is_space(kept[0]),
    ensures
        first_version(text::words_of(before + (version + kept))) == (match first_version(
            text::words_of(before),
        ) {
            Some(earlier) => Some(earlier),
            None => Some(version),
        }),
{
    lemma_words_add_up(before, version + kept);
    lemma_first_word(version, kept);
    lemma_first_version_of_both(text::words_of(before), text::words_of(version + kept));
    assert(text::words_of(version + kept)[0] == version);
}

/// How the words of a banner tell: a version that stands as a word of its own on the
/// first line is read where no version stands before it, and is passed over where one
/// does. An empty banner holds none.
pub proof fn law_the_first_version_of_a_banner_counts(
    before: Seq<char>,
    version: Seq<char>,
    behind: Seq<char>,
)
    requires
        forall|i: int| 0 <= i < before.len() ==> #[trigger] before[i] != '\n',
        before.len() > 0 ==> text::is_space(before.last()),
        is_version(version),
        behind.len() > 0 ==> text::is_space(behind[0]),
    ensures
        ({
            let earlier = after_query(VersionQuery::Banner, OutputView::Answered(before));
            let both = after_query(
                VersionQuery::Banner,
                OutputView::Answered(before + version + behind),
            );
            &&& earlier == StepView::Done(InstallView::Silent) ==> both == StepView::Done(
                InstallView::Known(version),
            )
            &&& earlier != StepView::Done(InstallView::Silent) ==> both == earlier
        }),
        after_query(VersionQuery::Banner, OutputView::Answered(Seq::empty())) == StepView::Done(
            InstallView::Silent,
        ),
{
    version::law_a_version_is_one_word(version);
    let kept = lemma_rest_of_line(before, version, behind);
    lemma_words_before(before, version, kept);
    text::lemma_line_end_is(before, before.len() as int);
    assert(text::first_line(before) =~= before);
    assert(before.len() == 0 ==> text::words_of(before).len() == 0);
}

/// Which candidates are probed, told by their paths alone: those whose path is absolute
/// and leads to another file than every absolute path before it, in the order in which
/// they were found. A file is told by its canonical path, where it has one.
pub proof fn law_probed_are_the_distinct_absolute_files(found: Seq<Candidate>)
    ensures
        ({
            let file = |c: Candidate|
                match c.canonical {
                    Some(path) => path.identity@,
                    None => c.path.identity@,
                };
            &&& forall|k: int|
                0 <= k < kept(found).len() ==> {
                    let p = #[trigger] kept(found)[k];
                    &&& 0 <= p < found.len()
                    &&& found[p].absolute
                    &&& forall|j: int|
                        0 <= j < p && (#[trigger] found[j]).absolute ==> file(found[j]) != file(
                            found[p],
                        )
                }
            &&& forall|p: int|
                0 <= p < found.len() && (#[trigger] found[p]).absolute && (forall|j: int|
                    0 <= j < p && (#[trigger] found[j]).absolute ==> file(found[j]) != file(
                        found[p],
                    )) ==> kept(found).contains(p)
            &&& forall|a: int, b: int|
                0 <= a < b < kept(found).len() ==> kept(found)[a] < kept(found)[b]
        }),
{
    law_kept_are_the_first_absolute_ones(found);
    assert forall|k: int| 0 <= k < kept(found).len() implies 0 <= #[trigger] kept(found)[k]
        < found.len() && is_kept(found, kept(found)[k]) by {
        assert(kept(found).contains(kept(found)[k]));
    }
    assert forall|p: int|
        0 <= p < found.len() && (#[trigger] found[p]).absolute && (forall|j: int|
            0 <= j < p && (#[trigger] found[j]).absolute ==> (match found[j].canonical {
                Some(path) => path.identity@,
                None => found[j].path.identity@,
            }) != (match found[p].canonical {
                Some(path) => path.identity@,
                None => found[p].path.identity@,
            })) implies kept(found).contains(p) by {
        assert(is_kept(found, p));
    }
}

/// A process and its group go by the same number, with and without a sign, for every
/// id up to the largest that can carry one; no other group is ever addressed.
pub proof fn law_a_group_goes_by_the_id_of_its_leader(pid: u32)
    ensures
        pid <= 0x7fff_ffff ==> addressed_group(Some(pid)) == Some(0 - pid),
        pid > 0x7fff_ffff ==> addressed_group(Some(pid)) is None,
        addressed_group(None) is None,
{
}

/// What came back for a question is what the executable answered, and so is how the
/// probe goes on.
pub proof fn law_answers_are_told_apart(output: String, query: VersionQuery, version: InstallVersion)
    ensures
        ProbeOutput::Answered(output)@ == OutputView::Answered(output@),
        ProbeOutput::Failed@ is Failed,
        ProbeOutput::TimedOut@ is TimedOut,
        ProbeStep::Ask(query)@ == StepView::Ask(query),
        ProbeStep::Done(version)@ == StepView::Done(version@),
{
}

/// Where a word stands in a text.
spec fn stands_in(
    s: Seq<char>,
    before: Seq<char>,
    word: Seq<char>,
    behind: Seq<char>,
) -> bool {
    &&& s == before + word + behind
    &&& before.len() > 0 ==> text::is_space(before.last())
    &&& behind.len() > 0 ==> text::is_space(behind[0])
}

proof fn lemma_word_stands_in(s: Seq<char>, i: int) -> (r: (Seq<char>, Seq<char>))
    requires
        0 <= i < text::words_of(s).len(),
    ensures
        stands_in(s, r.0, text::words_of(s)[i], r.1),
        text::words_of(r.0) == text::words_of(s).take(i),
    decreases s.len(),
{
    let w = text::words_of(s);
    text::lemma_word_end(s);
    if text::is_space(s[0]) {
        let (before, behind) = lemma_word_stands_in(s.drop_first(), i);
        let longer = seq![s[0]] + before;
        assert(s =~= seq![s[0]] + s.drop_first());
        assert(s.drop_first() == before + w[i] + behind);
        assert(s =~= longer + w[i] + behind);
        assert(longer.drop_first() =~= before);
        if before.len() > 0 {
            assert(longer.last() == before.last());
        }
        (longer, behind)
    } else {
        let n = text::word_end(s);
        let (word, rest) = (s.take(n), s.skip(n));
        assert(w =~= seq![word] + text::words_of(rest));
        if i == 0 {
            let none = Seq::<char>::empty();
            assert(s =~= none + word + rest);
            if rest.len() > 0 {
                assert(rest[0] == s[n]);
            }
            assert(text::words_of(none) =~= w.take(0));
            (none, rest)
        } else {
            let (before, behind) = lemma_word_stands_in(rest, i - 1);
            let longer = word + before;
            assert(w[i] == text::words_of(rest)[i - 1]);
            assert(s =~= word + rest);
            assert(rest == before + w[i] + behind);
            assert(s =~= longer + w[i] + behind);
            assert(rest.len() > 0);
            assert(rest[0] == s[n]);
            if before.len() == 0 {
                lemma_words_are_bare(rest);
                assert(rest =~= w[i] + behind);
                assert(!text::is_space(text::words_of(rest)[i - 1][0]));
                assert(rest[0] == w[i][0]);
            }
            assert(rest[0] == before[0]);
            assert(longer.last() == before.last());
            lemma_first_word(word, before);
            assert(seq![word] + text::words_of(rest).take(i - 1) =~= w.take(i));
            (longer, behind)
        }
    }
}

/// A version that is read in a banner stands there as a word of its own on the first
/// line, with no version before it.
pub proof fn law_what_is_read_stands_in_the_banner(output: Seq<char>, version: Seq<char>)
    requires
        after_query(VersionQuery::Banner, OutputView::Answered(output)) == StepView::Done(
            InstallView::Known(version),
        ),
    ensures
        is_version(version),
        exists|before: Seq<char>, behind: Seq<char>|
            {
                &&& output == #[trigger] (before + version + behind)
                &&& forall|i: int| 0 <= i < before.len() ==> #[trigger] before[i] != '\n'
                &&& before.len() > 0 ==> text::is_space(before.last())
                &&& behind.len() > 0 ==> text::is_space(behind[0])
                &&& after_query(VersionQuery::Banner, OutputView::Answered(before))
                    == StepView::Done(InstallView::Silent)
            },
{
    let line = text::first_line(output);
    let w = text::words_of(line);
    text::lemma_line_end(output);
    lemma_first_version(w);
    let i = choose|i: int|
        0 <= i < w.len() && #[trigger] w[i] == version && forall|j: int|
            0 <= j < i ==> !is_version(#[trigger] w[j]);
    let (before, rest) = lemma_word_stands_in(line, i);
    let behind = rest + output.skip(line.len() as int);
    assert(output =~= line + output.skip(line.len() as int));
    assert(output =~= before + version + behind);
    assert forall|k: int| 0 <= k < before.len() implies #[trigger] before[k] != '\n' by {
        assert(before[k] == line[k]);
        assert(line[k] == output[k]);
    }
    if behind.len() > 0 {
        if rest.len() > 0 {
            assert(behind[0] == rest[0]);
        } else {
            assert(behind[0] == output[line.len() as int]);
        }
    }
    text::lemma_line_end_is(before, before.len() as int);
    assert(text::first_line(before) =~= before);
    lemma_no_version_in(w, i);
}

proof fn lemma_no_version_in(words: Seq<Seq<char>>, n: int)
    requires
        0 <= n <= words.len(),
        forall|j: int| 0 <= j < n ==> !is_version(#[trigger] words[j]),
    ensures
        first_version(words.take(n)) is None,
{
    lemma_first_version(words.take(n));
    if let Some(version) = first_version(words.take(n)) {
        let i = choose|i: int|
            0 <= i < n && #[trigger] words.take(n)[i] == version && forall|j: int|
                0 <= j < i ==> !is_version(#[trigger] words.take(n)[j]);
        assert(words.take(n)[i] == words[i]);
    }
}

} // verus!
