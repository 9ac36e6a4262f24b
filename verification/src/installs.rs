//! The Stellar CLI executables on `PATH`, and what they amount to.

use crate::print;
use crate::print::{Mark, Print};
use crate::probe;
use crate::probe::INSTALL_PROBE_TIMEOUT;
use crate::text;
use crate::text::{count_of, number, same_text};
use crate::version;
use crate::version::Version;
use vstd::prelude::*;

verus! {

// ---------------------------------------------------------------------------
// One executable
// ---------------------------------------------------------------------------

/// What a probe established about one executable's version.
#[derive(Debug, PartialEq, Eq)]
pub enum InstallVersion {
    /// It answered with a version.
    Known(String),
    /// It ran but did not answer like a Stellar CLI: it could not be spawned, it
    /// exited with an error, or what it printed was not a version.
    Silent,
    /// It did not answer in time and was killed. Kept apart from `Silent`, for
    /// only this one points at an executable that is itself stuck.
    TimedOut,
}

/// [`InstallVersion`] with the version as a sequence of characters.
pub enum InstallView {
    Known(Seq<char>),
    Silent,
    TimedOut,
}

impl View for InstallVersion {
    type V = InstallView;

    open spec fn view(&self) -> InstallView {
        match self {
            InstallVersion::Known(version) => InstallView::Known(version@),
            InstallVersion::Silent => InstallView::Silent,
            InstallVersion::TimedOut => InstallView::TimedOut,
        }
    }
}

impl Clone for InstallVersion {
    fn clone(&self) -> (r: InstallVersion)
        ensures
            r@ == self@,
    {
        match self {
            InstallVersion::Known(version) => InstallVersion::Known(version.clone()),
            InstallVersion::Silent => InstallVersion::Silent,
            InstallVersion::TimedOut => InstallVersion::TimedOut,
        }
    }
}

/// How the outcome of a probe reads beside the path in the listing.
pub open spec fn label_text(v: InstallView) -> Seq<char> {
    match v {
        InstallView::Known(version) => version,
        InstallView::Silent => "unknown version"@,
        InstallView::TimedOut => "hung; killed after timing out"@,
    }
}

/// Whether an executable is behind `latest`. Nothing where the comparison cannot
/// be made: no latest release is known, the executable never answered, or what it
/// answered is no version.
pub open spec fn behind(v: InstallView, latest: Option<version::VersionView>) -> Option<bool> {
    match (v, latest) {
        (InstallView::Known(found), Some(latest)) => match version::version_of(found) {
            Some(found) => Some(version::precedes(found, latest)),
            None => None,
        },
        _ => None,
    }
}

/// How one executable reads in the listing: its label, and beside it what is
/// available where it is known to be outdated.
pub open spec fn listed_as(v: InstallView, latest: Option<version::VersionView>) -> Seq<char> {
    if behind(v, latest) == Some(true) {
        label_text(v) + ", outdated -- "@ + version::version_text(latest.unwrap())
            + " is available"@
    } else {
        label_text(v)
    }
}

impl InstallVersion {
    /// The version, when one was actually read.
    pub fn known(&self) -> (r: Option<&String>)
        ensures
            match r {
                Some(version) => self@ == InstallView::Known(version@),
                None => !(self@ is Known),
            },
    {
        match self {
            InstallVersion::Known(version) => Some(version),
            InstallVersion::Silent | InstallVersion::TimedOut => None,
        }
    }

    /// How the outcome reads beside the path in the listing.
    pub fn label(&self) -> (r: &str)
        ensures
            r@ == label_text(self@),
    {
        match self {
            InstallVersion::Known(version) => version.as_str(),
            InstallVersion::Silent => "unknown version",
            InstallVersion::TimedOut => "hung; killed after timing out",
        }
    }

    /// Whether this executable is behind `latest`, where that can be told.
    pub fn is_behind(&self, latest: Option<&Version>) -> (r: Option<bool>)
        ensures
            r == behind(self@, version::latest_if_any(latest)),
    {
        match (latest, self.known()) {
            (Some(latest), Some(known)) => match Version::parse(known.as_str()) {
                Some(found) => Some(found.is_before(latest)),
                None => None,
            },
            _ => None,
        }
    }
}

/// How one discovered executable reads in the listing. A verdict is given only
/// where one is known.
pub fn install_label(version: &InstallVersion, latest: Option<&Version>) -> (r: String)
    ensures
        r@ == listed_as(version@, version::latest_if_any(latest)),
{
    match (version.is_behind(latest), latest) {
        (Some(true), Some(latest)) => version.label().to_owned().concat(", outdated -- ").concat(
            latest.text().as_str(),
        ).concat(" is available"),
        _ => version.label().to_owned(),
    }
}

// ---------------------------------------------------------------------------
// All executables
// ---------------------------------------------------------------------------

/// One discovered executable: its path and what its probe established.
pub type Install = (String, InstallVersion);

/// The executables with their paths as sequences of characters.
pub open spec fn facts(installs: Seq<Install>) -> Seq<(Seq<char>, InstallView)> {
    installs.map_values(|install: Install| (install.0@, install.1@))
}

/// The versions that were answered, in the order of the executables.
pub open spec fn answers(installs: Seq<(Seq<char>, InstallView)>) -> Seq<Seq<char>>
    decreases installs.len(),
{
    if installs.len() == 0 {
        Seq::empty()
    } else {
        match installs.last().1 {
            InstallView::Known(version) => answers(installs.drop_last()).push(version),
            _ => answers(installs.drop_last()),
        }
    }
}

/// For how many executables `p` holds.
pub open spec fn tally(
    installs: Seq<(Seq<char>, InstallView)>,
    p: spec_fn(InstallView) -> bool,
) -> nat
    decreases installs.len(),
{
    if installs.len() == 0 {
        0
    } else {
        tally(installs.drop_last(), p) + (if p(installs.last().1) {
            1nat
        } else {
            0nat
        })
    }
}

/// How many executables could not be asked.
pub open spec fn silent_count(installs: Seq<(Seq<char>, InstallView)>) -> nat {
    tally(installs, |v: InstallView| !(v is Known))
}

/// What the discovered executables establish about which version is in play.
#[derive(Debug, PartialEq, Eq)]
pub enum InstalledVersions {
    /// There is no executable, so no version is in play.
    NoneFound,
    /// Every executable answered, and answered the same.
    Agreed(String),
    /// Two executables reported different versions. Carries how many could not be
    /// asked: they took no part in the disagreement.
    Disagree { unanswered: usize },
    /// At least one executable could not be asked, and none of those that could
    /// contradict each other. Carries the version they settled on, if any
    /// answered, and how many did not.
    Unanswered { agreed: Option<String>, unanswered: usize },
}

/// [`InstalledVersions`] with mathematical contents.
pub enum VersionsView {
    NoneFound,
    Agreed(Seq<char>),
    Disagree { unanswered: nat },
    Unanswered { agreed: Option<Seq<char>>, unanswered: nat },
}

impl View for InstalledVersions {
    type V = VersionsView;

    open spec fn view(&self) -> VersionsView {
        match self {
            InstalledVersions::NoneFound => VersionsView::NoneFound,
            InstalledVersions::Agreed(version) => VersionsView::Agreed(version@),
            InstalledVersions::Disagree { unanswered } => VersionsView::Disagree {
                unanswered: *unanswered as nat,
            },
            InstalledVersions::Unanswered { agreed, unanswered } => VersionsView::Unanswered {
                agreed: probe::text_if_any(*agreed),
                unanswered: *unanswered as nat,
            },
        }
    }
}

/// Whether two of the executables answered with different versions.
pub open spec fn versions_differ(installs: Seq<(Seq<char>, InstallView)>) -> bool {
    exists|i: int, j: int|
        0 <= i < installs.len() && 0 <= j < installs.len() && (#[trigger] installs[i]).1 is Known
            && (#[trigger] installs[j]).1 is Known && installs[i].1 != installs[j].1
}

/// The first version that was answered, if any was.
pub open spec fn first_answer(installs: Seq<(Seq<char>, InstallView)>) -> Option<Seq<char>> {
    if answers(installs).len() > 0 {
        Some(answers(installs)[0])
    } else {
        None
    }
}

/// What the executables establish: nothing where there are none; two versions that
/// differ are a disagreement whatever else could not be asked; without one, what was
/// answered is agreed on where everything answered, and is left open where something
/// did not.
pub open spec fn established(installs: Seq<(Seq<char>, InstallView)>) -> VersionsView {
    if installs.len() == 0 {
        VersionsView::NoneFound
    } else if versions_differ(installs) {
        VersionsView::Disagree { unanswered: silent_count(installs) }
    } else if silent_count(installs) == 0 {
        VersionsView::Agreed(first_answer(installs).unwrap())
    } else {
        VersionsView::Unanswered {
            agreed: first_answer(installs),
            unanswered: silent_count(installs),
        }
    }
}

proof fn lemma_tally_bound(
    installs: Seq<(Seq<char>, InstallView)>,
    p: spec_fn(InstallView) -> bool,
)
    ensures
        tally(installs, p) <= installs.len(),
    decreases installs.len(),
{
    if installs.len() > 0 {
        lemma_tally_bound(installs.drop_last(), p);
    }
}

proof fn lemma_tally_step(
    installs: Seq<(Seq<char>, InstallView)>,
    i: int,
    p: spec_fn(InstallView) -> bool,
)
    requires
        0 <= i < installs.len(),
    ensures
        tally(installs.take(i + 1), p) == tally(installs.take(i), p) + (if p(installs[i].1) {
            1nat
        } else {
            0nat
        }),
        tally(installs.take(i), p) <= i,
{
    assert(installs.take(i + 1).drop_last() =~= installs.take(i));
    lemma_tally_bound(installs.take(i), p);
}

/// Answered and silent executables are all of them.
proof fn lemma_answers_len(installs: Seq<(Seq<char>, InstallView)>)
    ensures
        answers(installs).len() + silent_count(installs) == installs.len(),
    decreases installs.len(),
{
    if installs.len() > 0 {
        lemma_answers_len(installs.drop_last());
    }
}

/// Each answer is that of an executable, and the other way round.
proof fn lemma_answers(installs: Seq<(Seq<char>, InstallView)>)
    ensures
        forall|k: int|
            0 <= k < answers(installs).len() ==> exists|i: int|
                0 <= i < installs.len() && (#[trigger] installs[i]).1 == InstallView::Known(
                    #[trigger] answers(installs)[k],
                ),
        forall|i: int|
            0 <= i < installs.len() && (#[trigger] installs[i]).1 is Known ==> answers(
                installs,
            ).contains(installs[i].1->Known_0),
    decreases installs.len(),
{
    if installs.len() > 0 {
        let shorter = installs.drop_last();
        lemma_answers(shorter);
        let a = answers(installs);
        let b = answers(shorter);
        assert forall|k: int| 0 <= k < a.len() implies exists|i: int|
            0 <= i < installs.len() && (#[trigger] installs[i]).1 == InstallView::Known(
                #[trigger] a[k],
            ) by {
            if k < b.len() {
                assert(a[k] == b[k]);
                let i = choose|i: int|
                    0 <= i < shorter.len() && (#[trigger] shorter[i]).1 == InstallView::Known(b[k]);
                assert(installs[i] == shorter[i]);
            } else {
                assert(installs[installs.len() - 1].1 == InstallView::Known(a[k]));
            }
        }
        assert forall|i: int|
            0 <= i < installs.len() && (#[trigger] installs[i]).1 is Known implies a.contains(
            installs[i].1->Known_0,
        ) by {
            if i < shorter.len() {
                assert(shorter[i] == installs[i]);
                let k = choose|k: int| 0 <= k < b.len() && b[k] == installs[i].1->Known_0;
                assert(a[k] == b[k]);
            } else {
                assert(a[a.len() - 1] == installs[i].1->Known_0);
            }
        }
    }
}

/// Classifies the reported versions, keeping "they disagree" apart from "one of
/// them could not be asked".
pub fn summarize_versions(installs: &Vec<Install>) -> (r: InstalledVersions)
    ensures
        r@ == established(facts(installs@)),
{
    if installs.len() == 0 {
        return InstalledVersions::NoneFound;
    }
    let ghost all = facts(installs@);
    let ghost silent = |v: InstallView| !(v is Known);
    let mut unanswered: usize = 0;
    let mut first: Option<&String> = None;
    let mut differ = false;
    let mut i: usize = 0;
    assert(all.take(0) =~= Seq::empty());
    while i < installs.len()
        invariant
            i <= installs.len(),
            all == facts(installs@),
            silent == (|v: InstallView| !(v is Known)),
            unanswered == tally(all.take(i as int), silent),
            unanswered <= i,
            match first {
                Some(first) => first_answer(all.take(i as int)) == Some(first@),
                None => first_answer(all.take(i as int)) is None,
            },
            differ == versions_differ(all.take(i as int)),
        decreases installs.len() - i,
    {
        let ghost before = all.take(i as int);
        let ghost after = all.take(i + 1);
        proof {
            assert(after.drop_last() =~= before);
            assert(after.last() == all[i as int]);
            lemma_tally_step(all, i as int, silent);
            lemma_answers(before);
            assert(forall|k: int| 0 <= k < i ==> #[trigger] after[k] == before[k]);
            assert(all[i as int] == (installs@[i as int].0@, installs@[i as int].1@));
        }
        match installs[i].1.known() {
            None => {
                unanswered += 1;
                assert(differ == versions_differ(after)) by {
                    assert(after[i as int].1 == all[i as int].1);
                    if versions_differ(before) {
                        let (a, b) = choose|a: int, b: int|
                            0 <= a < before.len() && 0 <= b < before.len() && (
                            #[trigger] before[a]).1 is Known && (#[trigger] before[b]).1 is Known
                                && before[a].1 != before[b].1;
                        assert(after[a] == before[a] && after[b] == before[b]);
                    }
                }
            },
            Some(version) => {
                match first {
                    None => {
                        first = Some(version);
                        assert(!versions_differ(after)) by {
                            assert forall|a: int| 0 <= a < i implies !((
                            #[trigger] after[a]).1 is Known) by {
                                assert(before[a] == after[a]);
                            }
                        }
                        assert(!versions_differ(before)) by {
                            assert forall|a: int| 0 <= a < i implies !((
                            #[trigger] before[a]).1 is Known) by {}
                        }
                    },
                    Some(first) => {
                        let ghost k = choose|k: int|
                            0 <= k < before.len() && (#[trigger] before[k]).1
                                == InstallView::Known(answers(before)[0]);
                        if !same_text(version.as_str(), first.as_str()) {
                            differ = true;
                            assert(after[k] == before[k]);
                            assert(after[i as int].1 == InstallView::Known(version@));
                            assert(versions_differ(after));
                        } else {
                            assert(after[i as int].1 == before[k].1);
                            assert(differ == versions_differ(after)) by {
                                if versions_differ(before) {
                                    let (a, b) = choose|a: int, b: int|
                                        0 <= a < before.len() && 0 <= b < before.len() && (
                                        #[trigger] before[a]).1 is Known && (
                                        #[trigger] before[b]).1 is Known && before[a].1
                                            != before[b].1;
                                    assert(after[a] == before[a] && after[b] == before[b]);
                                }
                                if versions_differ(after) {
                                    let (a, b) = choose|a: int, b: int|
                                        0 <= a < after.len() && 0 <= b < after.len() && (
                                        #[trigger] after[a]).1 is Known && (
                                        #[trigger] after[b]).1 is Known && after[a].1
                                            != after[b].1;
                                    let c = if a == i { k } else { a };
                                    let d = if b == i { k } else { b };
                                    assert(before[c].1 == after[a].1 && before[d].1 == after[b].1);
                                }
                            }
                        }
                    },
                }
            },
        }
        i += 1;
    }
    proof {
        assert(all.take(i as int) =~= all);
        lemma_answers_len(all);
    }
    if differ {
        return InstalledVersions::Disagree { unanswered };
    }
    match first {
        Some(version) if unanswered == 0 => InstalledVersions::Agreed(version.clone()),
        Some(version) => InstalledVersions::Unanswered {
            agreed: Some(version.clone()),
            unanswered,
        },
        None => InstalledVersions::Unanswered { agreed: None, unanswered },
    }
}

// ---------------------------------------------------------------------------
// What is reported of them
// ---------------------------------------------------------------------------

/// Whether an executable answered with another version than `this_version`.
pub open spec fn differs(v: InstallView, this_version: Seq<char>) -> bool {
    v is Known && v != InstallView::Known(this_version)
}

/// Whether an executable differs from the running CLI without being behind the
/// latest release.
pub open spec fn stale(
    v: InstallView,
    latest: Option<version::VersionView>,
    this_version: Seq<char>,
) -> bool {
    differs(v, this_version) && behind(v, latest) != Some(true)
}

/// Whether no executable answered with another version than `this_version`.
pub open spec fn agree_with(
    installs: Seq<(Seq<char>, InstallView)>,
    this_version: Seq<char>,
) -> bool {
    forall|i: int| 0 <= i < installs.len() ==> !differs((#[trigger] installs[i]).1, this_version)
}

/// The one line that says what the executables amount to.
pub open spec fn summary_line(
    installs: Seq<(Seq<char>, InstallView)>,
    agrees_with_this_cli: bool,
    this_version: Seq<char>,
) -> (Mark, Seq<char>) {
    let count = text::decimal(installs.len());
    match established(installs) {
        VersionsView::NoneFound => (
            Mark::Warn,
            "No Stellar CLI found on PATH; the running executable is not reachable by name"@,
        ),
        VersionsView::Agreed(version) => if installs.len() == 1 {
            if agrees_with_this_cli {
                (Mark::Check, "Only one Stellar CLI found on PATH:"@)
            } else {
                (
                    Mark::Warn,
                    "Only one Stellar CLI on PATH, and it is not the version running:"@,
                )
            }
        } else if agrees_with_this_cli {
            (
                Mark::Check,
                count + " Stellar CLI executables on PATH, all reporting "@ + version + ":"@,
            )
        } else {
            (
                Mark::Warn,
                count + " Stellar CLI executables on PATH, all reporting "@ + version
                    + ", which is not the "@ + this_version + " now running:"@,
            )
        },
        VersionsView::Disagree { unanswered } => if unanswered == 0 {
            (
                Mark::Warn,
                "Found "@ + count
                    + " Stellar CLI executables on PATH reporting different versions:"@,
            )
        } else {
            (
                Mark::Warn,
                "Found "@ + count + " Stellar CLI executables on PATH; the "@ + text::decimal(
                    (installs.len() - unanswered) as nat,
                ) + " that reported a version do not agree ("@ + text::decimal(unanswered)
                    + " could not be asked):"@,
            )
        },
        VersionsView::Unanswered { agreed, unanswered } => if installs.len() == 1 {
            (
                Mark::Warn,
                "Found one Stellar CLI on PATH, but it did not report a version; it may be broken or not a Stellar CLI at all:"@,
            )
        } else {
            match agreed {
                Some(version) => (
                    Mark::Warn,
                    "Found "@ + count
                        + " Stellar CLI executables on PATH; every one that answered reports "@
                        + version + ", but "@ + text::decimal(unanswered)
                        + " could not be asked, so a differing version cannot be ruled out:"@,
                ),
                None => (
                    Mark::Warn,
                    "Found "@ + count
                        + " Stellar CLI executables on PATH; none of them reported a version, so whether they agree could not be determined:"@,
                ),
            }
        },
    }
}

/// Writes the one line that says what the discovered executables amount to.
pub fn summarize_installs(
    print: &mut Print,
    installs: &Vec<Install>,
    agrees_with_this_cli: bool,
    this_version: &str,
)
    ensures
        final(print)@ == old(print)@.push(
            summary_line(facts(installs@), agrees_with_this_cli, this_version@),
        ),
{
    let ghost all = facts(installs@);
    let ghost expected = summary_line(all, agrees_with_this_cli, this_version@);
    let count = number(installs.len() as u64);
    let versions = summarize_versions(installs);
    proof {
        lemma_tally_bound(all, |v: InstallView| !(v is Known));
    }
    let (mark, text) = match versions {
        InstalledVersions::NoneFound => (
            Mark::Warn,
            "No Stellar CLI found on PATH; the running executable is not reachable by name".to_owned(),
        ),
        InstalledVersions::Agreed(version) => if installs.len() == 1 {
            if agrees_with_this_cli {
                (Mark::Check, "Only one Stellar CLI found on PATH:".to_owned())
            } else {
                (
                    Mark::Warn,
                    "Only one Stellar CLI on PATH, and it is not the version running:".to_owned(),
                )
            }
        } else if agrees_with_this_cli {
            (
                Mark::Check,
                count.concat(" Stellar CLI executables on PATH, all reporting ").concat(
                    version.as_str(),
                ).concat(":"),
            )
        } else {
            (
                Mark::Warn,
                count.concat(" Stellar CLI executables on PATH, all reporting ").concat(
                    version.as_str(),
                ).concat(", which is not the ").concat(this_version).concat(" now running:"),
            )
        },
        InstalledVersions::Disagree { unanswered } => if unanswered == 0 {
            (
                Mark::Warn,
                "Found ".to_owned().concat(count.as_str()).concat(
                    " Stellar CLI executables on PATH reporting different versions:",
                ),
            )
        } else {
            let answered: usize = installs.len() - unanswered;
            (
                Mark::Warn,
                "Found ".to_owned().concat(count.as_str()).concat(
                    " Stellar CLI executables on PATH; the ",
                ).concat(number(answered as u64).as_str()).concat(
                    " that reported a version do not agree (",
                ).concat(number(unanswered as u64).as_str()).concat(" could not be asked):"),
            )
        },
        InstalledVersions::Unanswered { agreed, unanswered } => if installs.len() == 1 {
            (
                Mark::Warn,
                "Found one Stellar CLI on PATH, but it did not report a version; it may be broken or not a Stellar CLI at all:".to_owned(),
            )
        } else {
            match agreed {
                Some(version) => (
                    Mark::Warn,
                    "Found ".to_owned().concat(count.as_str()).concat(
                        " Stellar CLI executables on PATH; every one that answered reports ",
                    ).concat(version.as_str()).concat(", but ").concat(
                        number(unanswered as u64).as_str(),
                    ).concat(
                        " could not be asked, so a differing version cannot be ruled out:",
                    ),
                ),
                None => (
                    Mark::Warn,
                    "Found ".to_owned().concat(count.as_str()).concat(
                        " Stellar CLI executables on PATH; none of them reported a version, so whether they agree could not be determined:",
                    ),
                ),
            }
        },
    };
    assert((mark, text@) == expected);
    print.writeln(mark, text);
    assert(print@ =~= old(print)@.push(expected));
}

/// The listing: one line for each executable, with its path and its label.
pub open spec fn listing(
    installs: Seq<(Seq<char>, InstallView)>,
    latest: Option<version::VersionView>,
) -> Seq<(Mark, Seq<char>)> {
    Seq::new(
        installs.len(),
        |i: int|
            (
                Mark::Blank,
                "- "@ + installs[i].0 + " ("@ + listed_as(installs[i].1, latest) + ")"@,
            ),
    )
}

/// Writes the listing of the executables.
pub fn list_installs(print: &mut Print, installs: &Vec<Install>, latest: Option<&Version>)
    ensures
        final(print)@ == old(print)@ + listing(facts(installs@), version::latest_if_any(latest)),
{
    let ghost all = listing(facts(installs@), version::latest_if_any(latest));
    let mut i: usize = 0;
    assert(print@ =~= old(print)@ + all.take(0));
    while i < installs.len()
        invariant
            i <= installs.len(),
            all == listing(facts(installs@), version::latest_if_any(latest)),
            print@ == old(print)@ + all.take(i as int),
        decreases installs.len() - i,
    {
        let label = install_label(&installs[i].1, latest);
        print.blankln(
            "- ".to_owned().concat(installs[i].0.as_str()).concat(" (").concat(
                label.as_str(),
            ).concat(")"),
        );
        assert(all.take(i + 1) =~= all.take(i as int).push(all[i as int]));
        assert(print@ =~= old(print)@ + all.take(i + 1));
        i += 1;
    }
    assert(all.take(i as int) =~= all);
}

/// What is said of `behind` executables that are behind `latest`.
pub open spec fn behind_lines(
    behind: nat,
    latest: Option<version::VersionView>,
) -> Seq<(Mark, Seq<char>)> {
    if behind == 0 {
        Seq::empty()
    } else {
        print::line(
            Mark::Warn,
            text::counted(behind, "executable"@, "executables"@) + " on PATH "@ + (if behind
                == 1 {
                "is"@
            } else {
                "are"@
            }) + " behind the latest release ("@ + version::version_text(latest.unwrap())
                + "). Upgrade or remove "@ + (if behind == 1 {
                "it"@
            } else {
                "them"@
            })
                + ": an outdated one prints upgrade warnings naming its own version, which is what makes them look wrong."@,
        )
    }
}

/// What is said of `stale` executables that differ from the running CLI without
/// being behind the latest release.
pub open spec fn stale_lines(stale: nat, this_version: Seq<char>) -> Seq<(Mark, Seq<char>)> {
    if stale == 0 {
        Seq::empty()
    } else {
        print::line(
            Mark::Warn,
            text::counted(stale, "executable"@, "executables"@) + " on PATH "@ + (if stale == 1 {
                "reports"@
            } else {
                "report"@
            }) + " a version other than the "@ + this_version
                + " now running, without being behind the latest release."@,
        )
    }
}

/// What is said of `hung` executables that had to be killed.
pub open spec fn hung_lines(hung: nat) -> Seq<(Mark, Seq<char>)> {
    if hung == 0 {
        Seq::empty()
    } else {
        print::line(
            Mark::Warn,
            text::counted(hung, "executable"@, "executables"@) + " on PATH did not answer within "@
                + text::decimal(INSTALL_PROBE_TIMEOUT as nat)
                + "s and had to be killed. Unlike one that simply failed to report a version, a hung executable is itself the problem."@,
        )
    }
}

/// How many executables are behind `latest`.
pub open spec fn behind_count(
    installs: Seq<(Seq<char>, InstallView)>,
    latest: Option<version::VersionView>,
) -> nat {
    tally(installs, |v: InstallView| behind(v, latest) == Some(true))
}

/// Writes what the reader should do about the executables: how many are out of
/// date, how many merely differ from the CLI in use, and how many are hung.
pub fn report_install_currency(
    print: &mut Print,
    installs: &Vec<Install>,
    latest: Option<&Version>,
    stale: &Vec<&String>,
    hung: &Vec<&String>,
    this_version: &str,
)
    ensures
        final(print)@ == old(print)@ + behind_lines(
            behind_count(facts(installs@), version::latest_if_any(latest)),
            version::latest_if_any(latest),
        ) + stale_lines(stale@.len(), this_version@) + hung_lines(hung@.len()),
{
    let ghost all = facts(installs@);
    let ghost is_behind = |v: InstallView| behind(v, version::latest_if_any(latest)) == Some(true);
    let mut count: usize = 0;
    let mut i: usize = 0;
    while i < installs.len()
        invariant
            i <= installs.len(),
            all == facts(installs@),
            is_behind == (|v: InstallView| behind(v, version::latest_if_any(latest)) == Some(true)),
            count == tally(all.take(i as int), is_behind),
            count <= i,
            count > 0 ==> latest is Some,
        decreases installs.len() - i,
    {
        proof {
            lemma_tally_step(all, i as int, is_behind);
        }
        assert(all[i as int].1 == installs@[i as int].1@);
        match installs[i].1.is_behind(latest) {
            Some(true) => {
                count += 1;
            },
            _ => {},
        }
        i += 1;
    }
    assert(all.take(i as int) =~= all);
    if count > 0 {
        let latest = latest.unwrap();
        let (verb, pronoun) = if count == 1 {
            ("is", "it")
        } else {
            ("are", "them")
        };
        print.warnln(
            count_of(count, "executable", "executables").concat(" on PATH ").concat(verb).concat(
                " behind the latest release (",
            ).concat(latest.text().as_str()).concat("). Upgrade or remove ").concat(
                pronoun,
            ).concat(
                ": an outdated one prints upgrade warnings naming its own version, which is what makes them look wrong.",
            ),
        );
    }
    let ghost one = print@;
    assert(one =~= old(print)@ + behind_lines(count as nat, version::latest_if_any(latest)));
    if stale.len() > 0 {
        let verb = if stale.len() == 1 {
            "reports"
        } else {
            "report"
        };
        print.warnln(
            count_of(stale.len(), "executable", "executables").concat(" on PATH ").concat(
                verb,
            ).concat(" a version other than the ").concat(this_version).concat(
                " now running, without being behind the latest release.",
            ),
        );
    }
    let ghost two = print@;
    assert(two =~= one + stale_lines(stale@.len(), this_version@));
    if hung.len() > 0 {
        print.warnln(
            count_of(hung.len(), "executable", "executables").concat(
                " on PATH did not answer within ",
            ).concat(number(INSTALL_PROBE_TIMEOUT).as_str()).concat(
                "s and had to be killed. Unlike one that simply failed to report a version, a hung executable is itself the problem.",
            ),
        );
    }
    assert(print@ =~= two + hung_lines(hung@.len()));
}

/// What is said of the running executable.
pub open spec fn running_lines(running: Option<Seq<char>>) -> Seq<(Mark, Seq<char>)> {
    match running {
        Some(binary) => print::line(Mark::Info, "Running executable: "@ + binary),
        None => print::line(Mark::Warn, "Could not determine the running executable"@),
    }
}

/// Writes which executable is running.
pub fn show_running_binary(print: &mut Print, running: &Option<String>)
    ensures
        final(print)@ == old(print)@ + running_lines(probe::text_if_any(*running)),
{
    match running {
        Some(binary) => print.infoln("Running executable: ".to_owned().concat(binary.as_str())),
        None => print.warnln("Could not determine the running executable".to_owned()),
    }
}

/// What is said of the executables on `PATH`: the summary, the listing, and what
/// to do about them.
pub open spec fn install_lines(
    installs: Seq<(Seq<char>, InstallView)>,
    latest: Option<version::VersionView>,
    this_version: Seq<char>,
) -> Seq<(Mark, Seq<char>)> {
    seq![summary_line(installs, agree_with(installs, this_version), this_version)] + listing(
        installs,
        latest,
    ) + behind_lines(behind_count(installs, latest), latest) + stale_lines(
        tally(installs, |v: InstallView| stale(v, latest, this_version)),
        this_version,
    ) + hung_lines(tally(installs, |v: InstallView| v is TimedOut))
}

/// Reports every Stellar CLI on `PATH`. Several executables at different versions
/// are what makes an upgrade warning look wrong, so a success mark is given only
/// where none of them disagrees with the running one.
pub fn check_installs(
    print: &mut Print,
    installs: &Vec<Install>,
    latest: Option<&Version>,
    this_version: &str,
)
    ensures
        final(print)@ == old(print)@ + install_lines(
            facts(installs@),
            version::latest_if_any(latest),
            this_version@,
        ),
{
    let ghost all = facts(installs@);
    let ghost l = version::latest_if_any(latest);
    let ghost is_stale = |v: InstallView| stale(v, l, this_version@);
    let ghost is_hung = |v: InstallView| v is TimedOut;
    let mut stale_paths: Vec<&String> = Vec::new();
    let mut hung_paths: Vec<&String> = Vec::new();
    let mut agrees_with_this_cli = true;
    let mut i: usize = 0;
    while i < installs.len()
        invariant
            i <= installs.len(),
            all == facts(installs@),
            l == version::latest_if_any(latest),
            is_stale == (|v: InstallView| stale(v, l, this_version@)),
            is_hung == (|v: InstallView| v is TimedOut),
            stale_paths@.len() == tally(all.take(i as int), is_stale),
            hung_paths@.len() == tally(all.take(i as int), is_hung),
            agrees_with_this_cli == agree_with(all.take(i as int), this_version@),
        decreases installs.len() - i,
    {
        let ghost before = all.take(i as int);
        let ghost after = all.take(i + 1);
        proof {
            lemma_tally_step(all, i as int, is_stale);
            lemma_tally_step(all, i as int, is_hung);
            assert(all[i as int].1 == installs@[i as int].1@);
            assert(forall|k: int| 0 <= k < i ==> #[trigger] after[k] == before[k]);
            assert(forall|k: int| 0 <= k < i ==> #[trigger] before[k] == after[k]);
            assert(after[i as int] == all[i as int]);
        }
        let (path, version) = (&installs[i].0, &installs[i].1);
        let other = match version.known() {
            Some(found) => !same_text(found.as_str(), this_version),
            None => false,
        };
        assert(other == differs(all[i as int].1, this_version@));
        if other {
            agrees_with_this_cli = false;
            match version.is_behind(latest) {
                Some(true) => {},
                _ => {
                    stale_paths.push(path);
                },
            }
        }
        match version {
            InstallVersion::TimedOut => {
                hung_paths.push(path);
            },
            _ => {},
        }
        i += 1;
    }
    assert(all.take(i as int) =~= all);
    summarize_installs(print, installs, agrees_with_this_cli, this_version);
    list_installs(print, installs, latest);
    report_install_currency(print, installs, latest, &stale_paths, &hung_paths, this_version);
    assert(print@ =~= old(print)@ + install_lines(all, l, this_version@));
}

// ---------------------------------------------------------------------------
// Laws
// ---------------------------------------------------------------------------

/// A version is agreed on exactly where there is an executable and every one of
/// them answered with that version.
pub proof fn law_agreed_means_every_one_answered_it(
    installs: Seq<(Seq<char>, InstallView)>,
    version: Seq<char>,
)
    ensures
        established(installs) == VersionsView::Agreed(version) <==> installs.len() > 0 && (forall|
            i: int,
        |
            0 <= i < installs.len() ==> (#[trigger] installs[i]).1 == InstallView::Known(version)),
{
    lemma_answers(installs);
    lemma_answers_len(installs);
    let silent = |v: InstallView| !(v is Known);
    lemma_tally_some(installs, silent);
    if established(installs) == VersionsView::Agreed(version) {
        let k = choose|k: int|
            0 <= k < installs.len() && (#[trigger] installs[k]).1 == InstallView::Known(
                answers(installs)[0],
            );
        assert forall|i: int| 0 <= i < installs.len() implies (#[trigger] installs[i]).1
            == InstallView::Known(version) by {
            assert(!silent(installs[i].1));
            assert(installs[i].1 == installs[k].1);
        }
    }
    if installs.len() > 0 && (forall|i: int|
        0 <= i < installs.len() ==> (#[trigger] installs[i]).1 == InstallView::Known(version)) {
        assert(!versions_differ(installs));
        assert(silent_count(installs) == 0);
    }
}

/// What each of the other outcomes takes: nothing is established exactly where there
/// is no executable, and the version is left open exactly where at least one could
/// not be asked and none of those that could contradict each other.
pub proof fn law_open_means_some_could_not_be_asked(installs: Seq<(Seq<char>, InstallView)>)
    ensures
        established(installs) is NoneFound <==> installs.len() == 0,
        established(installs) is Unanswered <==> silent_count(installs) > 0 && !versions_differ(
            installs,
        ),
        established(installs) matches VersionsView::Unanswered { unanswered, .. } ==> unanswered
            > 0,
{
}

/// A disagreement takes two executables that answered: the ones that could not be
/// asked are never enough, and neither is one executable alone.
pub proof fn law_disagreement_takes_two(installs: Seq<(Seq<char>, InstallView)>)
    ensures
        established(installs) is Disagree ==> established(installs)->Disagree_unanswered + 2
            <= installs.len(),
{
    lemma_answers(installs);
    lemma_answers_len(installs);
    if versions_differ(installs) {
        let (i, j) = choose|i: int, j: int|
            0 <= i < installs.len() && 0 <= j < installs.len() && (#[trigger] installs[i]).1 is Known
                && (#[trigger] installs[j]).1 is Known && installs[i].1 != installs[j].1;
        let a = answers(installs);
        let k = choose|k: int| 0 <= k < a.len() && a[k] == installs[i].1->Known_0;
        let m = choose|m: int| 0 <= m < a.len() && a[m] == installs[j].1->Known_0;
        assert(k != m);
    }
}

/// What is established does not depend on why an executable could not be asked,
/// nor on where the executables lie: a hung one counts as one that failed.
pub proof fn law_hung_and_failed_count_alike(
    a: Seq<(Seq<char>, InstallView)>,
    b: Seq<(Seq<char>, InstallView)>,
)
    requires
        a.len() == b.len(),
        forall|i: int|
            0 <= i < a.len() && ((#[trigger] a[i]).1 is Known || (#[trigger] b[i]).1 is Known)
                ==> a[i].1 == b[i].1,
    ensures
        established(a) == established(b),
{
    lemma_same_answers(a, b);
    if versions_differ(a) {
        let (i, j) = choose|i: int, j: int|
            0 <= i < a.len() && 0 <= j < a.len() && (#[trigger] a[i]).1 is Known && (
            #[trigger] a[j]).1 is Known && a[i].1 != a[j].1;
        assert(a[i].1 == b[i].1 && a[j].1 == b[j].1);
    }
    if versions_differ(b) {
        let (i, j) = choose|i: int, j: int|
            0 <= i < b.len() && 0 <= j < b.len() && (#[trigger] b[i]).1 is Known && (
            #[trigger] b[j]).1 is Known && b[i].1 != b[j].1;
        assert(a[i].1 == b[i].1 && a[j].1 == b[j].1);
    }
}

proof fn lemma_same_answers(a: Seq<(Seq<char>, InstallView)>, b: Seq<(Seq<char>, InstallView)>)
    requires
        a.len() == b.len(),
        forall|i: int|
            0 <= i < a.len() && ((#[trigger] a[i]).1 is Known || (#[trigger] b[i]).1 is Known)
                ==> a[i].1 == b[i].1,
    ensures
        answers(a) == answers(b),
        silent_count(a) == silent_count(b),
    decreases a.len(),
{
    if a.len() > 0 {
        assert(a[a.len() - 1].1 is Known || b[b.len() - 1].1 is Known ==> a.last().1 == b.last().1);
        lemma_same_answers(a.drop_last(), b.drop_last());
    }
}

/// An executable that could not be asked changes nothing about what the others
/// established, wherever in the list it stands: it is only counted. An agreement
/// stays on record as what the others settled on, and a disagreement stays one.
pub proof fn law_failed_probe_is_only_counted(
    installs: Seq<(Seq<char>, InstallView)>,
    at: int,
    failed: (Seq<char>, InstallView),
)
    requires
        0 <= at <= installs.len(),
        !(failed.1 is Known),
    ensures
        established(installs.insert(at, failed)) == (match established(installs) {
            VersionsView::NoneFound => VersionsView::Unanswered { agreed: None, unanswered: 1 },
            VersionsView::Agreed(version) => VersionsView::Unanswered {
                agreed: Some(version),
                unanswered: 1,
            },
            VersionsView::Disagree { unanswered } => VersionsView::Disagree {
                unanswered: unanswered + 1,
            },
            VersionsView::Unanswered { agreed, unanswered } => VersionsView::Unanswered {
                agreed,
                unanswered: unanswered + 1,
            },
        }),
{
    let more = installs.insert(at, failed);
    lemma_insert_silent(installs, at, failed);
    lemma_answers_len(installs);
    assert forall|i: int| 0 <= i < installs.len() implies #[trigger] installs[i] == more[if i < at {
        i
    } else {
        i + 1
    }] by {}
    if versions_differ(installs) {
        let (i, j) = choose|i: int, j: int|
            0 <= i < installs.len() && 0 <= j < installs.len() && (#[trigger] installs[i]).1 is Known
                && (#[trigger] installs[j]).1 is Known && installs[i].1 != installs[j].1;
        let k = if i < at {
            i
        } else {
            i + 1
        };
        let m = if j < at {
            j
        } else {
            j + 1
        };
        assert(more[k].1 is Known && more[m].1 is Known && more[k].1 != more[m].1);
    }
    if versions_differ(more) {
        let (i, j) = choose|i: int, j: int|
            0 <= i < more.len() && 0 <= j < more.len() && (#[trigger] more[i]).1 is Known && (
            #[trigger] more[j]).1 is Known && more[i].1 != more[j].1;
        let k = if i < at {
            i
        } else {
            i - 1
        };
        let m = if j < at {
            j
        } else {
            j - 1
        };
        assert(more[at] == failed);
        assert(installs[k] == more[i] && installs[m] == more[j]);
        assert(versions_differ(installs));
    }
}

proof fn lemma_insert_silent(
    installs: Seq<(Seq<char>, InstallView)>,
    at: int,
    failed: (Seq<char>, InstallView),
)
    requires
        0 <= at <= installs.len(),
        !(failed.1 is Known),
    ensures
        answers(installs.insert(at, failed)) == answers(installs),
        silent_count(installs.insert(at, failed)) == silent_count(installs) + 1,
    decreases installs.len(),
{
    let more = installs.insert(at, failed);
    if at == installs.len() {
        assert(more.drop_last() =~= installs);
    } else {
        assert(more.drop_last() =~= installs.drop_last().insert(at, failed));
        lemma_insert_silent(installs.drop_last(), at, failed);
    }
}

/// The summary carries the success mark exactly where there is an executable on
/// `PATH` and every one of them answered with the version that is running. In
/// every other case it is a warning.
pub proof fn law_success_mark_means_all_at_this_version(
    installs: Seq<(Seq<char>, InstallView)>,
    this_version: Seq<char>,
)
    ensures
        ({
            let mark = summary_line(
                installs,
                agree_with(installs, this_version),
                this_version,
            ).0;
            &&& mark == Mark::Check <==> installs.len() > 0 && (forall|i: int|
                0 <= i < installs.len() ==> (#[trigger] installs[i]).1 == InstallView::Known(
                    this_version,
                ))
            &&& mark != Mark::Check ==> mark == Mark::Warn
        }),
{
    let mark = summary_line(installs, agree_with(installs, this_version), this_version).0;
    law_agreed_means_every_one_answered_it(installs, this_version);
    if mark == Mark::Check {
        let version = established(installs)->Agreed_0;
        law_agreed_means_every_one_answered_it(installs, version);
        assert(!differs(installs[0].1, this_version));
        assert(version == this_version);
    }
}

/// No verdict is given on an executable that did not answer, nor on any where no
/// latest release is known: its label stands alone, and it counts neither as
/// behind nor, where it did not answer, as stale.
pub proof fn law_no_verdict_without_a_comparison(
    v: InstallView,
    latest: Option<version::VersionView>,
    this_version: Seq<char>,
)
    requires
        !(v is Known) || latest is None,
    ensures
        behind(v, latest) is None,
        listed_as(v, latest) == label_text(v),
        !(v is Known) ==> !stale(v, latest, this_version),
{
}

/// The two counts divide the executables that differ from the running CLI: each
/// of them is either behind the latest release or stale, and never both.
pub proof fn law_behind_and_stale_divide_what_differs(
    installs: Seq<(Seq<char>, InstallView)>,
    latest: Option<version::VersionView>,
    this_version: Seq<char>,
)
    ensures
        tally(installs, |v: InstallView| differs(v, this_version)) == tally(
            installs,
            |v: InstallView| stale(v, latest, this_version),
        ) + tally(
            installs,
            |v: InstallView| differs(v, this_version) && behind(v, latest) == Some(true),
        ),
        forall|v: InstallView| #[trigger]
            stale(v, latest, this_version) ==> behind(v, latest) != Some(true),
    decreases installs.len(),
{
    if installs.len() > 0 {
        law_behind_and_stale_divide_what_differs(installs.drop_last(), latest, this_version);
    }
}

proof fn lemma_tally_some(
    installs: Seq<(Seq<char>, InstallView)>,
    p: spec_fn(InstallView) -> bool,
)
    ensures
        tally(installs, p) > 0 <==> exists|i: int|
            0 <= i < installs.len() && p((#[trigger] installs[i]).1),
    decreases installs.len(),
{
    if installs.len() > 0 {
        let shorter = installs.drop_last();
        lemma_tally_some(shorter, p);
        if tally(shorter, p) > 0 {
            let i = choose|i: int| 0 <= i < shorter.len() && p((#[trigger] shorter[i]).1);
            assert(installs[i] == shorter[i]);
        }
        if p(installs.last().1) {
            assert(p(installs[installs.len() - 1].1));
        }
        if exists|i: int| 0 <= i < installs.len() && p((#[trigger] installs[i]).1) {
            let i = choose|i: int| 0 <= i < installs.len() && p((#[trigger] installs[i]).1);
            if i < shorter.len() {
                assert(shorter[i] == installs[i]);
            }
        }
    }
}

/// A hung executable is called out exactly where there is one: an executable that
/// merely failed to answer never is.
pub proof fn law_hung_is_called_out(installs: Seq<(Seq<char>, InstallView)>)
    ensures
        hung_lines(tally(installs, |v: InstallView| v is TimedOut)).len() > 0 <==> exists|i: int|
            0 <= i < installs.len() && (#[trigger] installs[i]).1 is TimedOut,
{
    let p = |v: InstallView| v is TimedOut;
    lemma_tally_some(installs, p);
    if exists|i: int| 0 <= i < installs.len() && (#[trigger] installs[i]).1 is TimedOut {
        let i = choose|i: int| 0 <= i < installs.len() && (#[trigger] installs[i]).1 is TimedOut;
        assert(p(installs[i].1));
    }
}

/// Being out of date is reported exactly where an executable is known to be
/// behind the latest release, and never where no latest release is known.
pub proof fn law_outdated_is_reported_where_known(
    installs: Seq<(Seq<char>, InstallView)>,
    latest: Option<version::VersionView>,
)
    ensures
        behind_lines(behind_count(installs, latest), latest).len() > 0 <==> exists|i: int|
            0 <= i < installs.len() && behind((#[trigger] installs[i]).1, latest) == Some(true),
        latest is None ==> behind_lines(behind_count(installs, latest), latest).len() == 0,
{
    let p = |v: InstallView| behind(v, latest) == Some(true);
    lemma_tally_some(installs, p);
    if exists|i: int|
        0 <= i < installs.len() && behind((#[trigger] installs[i]).1, latest) == Some(true) {
        let i = choose|i: int|
            0 <= i < installs.len() && behind((#[trigger] installs[i]).1, latest) == Some(true);
        assert(p(installs[i].1));
    }
}

/// An executable at the latest release or past it is listed by its version alone.
pub proof fn law_at_or_past_the_latest_is_not_outdated(
    found: version::VersionView,
    latest: version::VersionView,
)
    requires
        version::is_semver(found),
        found == latest || version::precedes(latest, found),
    ensures
        behind(InstallView::Known(version::version_text(found)), Some(latest)) == Some(false),
        listed_as(InstallView::Known(version::version_text(found)), Some(latest))
            == version::version_text(found),
{
    version::law_a_version_reads_back(found);
    version::law_versions_are_ordered(found, latest);
}

/// An executable that is behind a release is behind every later one.
pub proof fn law_outdated_stays_outdated(
    v: InstallView,
    latest: version::VersionView,
    later: version::VersionView,
)
    requires
        behind(v, Some(latest)) == Some(true),
        version::precedes(latest, later),
    ensures
        behind(v, Some(later)) == Some(true),
{
    let found = version::version_of(v->Known_0).unwrap();
    version::law_order_is_transitive(found, latest, later);
}

proof fn lemma_tally_is_a_filter(
    installs: Seq<(Seq<char>, InstallView)>,
    p: spec_fn(InstallView) -> bool,
    q: spec_fn((Seq<char>, InstallView)) -> bool,
)
    requires
        forall|install: (Seq<char>, InstallView)| #[trigger] q(install) == p(install.1),
    ensures
        tally(installs, p) == installs.filter(q).len(),
    decreases installs.len(),
{
    reveal(Seq::filter);
    if installs.len() > 0 {
        lemma_tally_is_a_filter(installs.drop_last(), p, q);
    }
}

/// The executables are taken as they are listed, each with its own path and its own
/// outcome.
pub proof fn law_facts_are_those_of_each_executable(installs: Seq<Install>)
    ensures
        facts(installs).len() == installs.len(),
        forall|i: int|
            0 <= i < installs.len() ==> (#[trigger] facts(installs)[i]).0 == installs[i].0@ && facts(
                installs,
            )[i].1 == installs[i].1@,
{
}

/// What is established of executables that answered or did not: a disagreement exactly
/// where two answers differ; without one, the version of whichever answered, and how
/// many did not.
pub proof fn law_what_the_answers_establish(installs: Seq<(Seq<char>, InstallView)>)
    ensures
        ({
            let unasked = installs.filter(
                |install: (Seq<char>, InstallView)| !(install.1 is Known),
            ).len();
            &&& established(installs) is Disagree <==> exists|i: int, j: int|
                0 <= i < installs.len() && 0 <= j < installs.len() && (
                #[trigger] installs[i]).1 is Known && (#[trigger] installs[j]).1 is Known
                    && installs[i].1 != installs[j].1
            &&& established(installs) matches VersionsView::Disagree { unanswered }
                ==> unanswered == unasked
            &&& established(installs) matches VersionsView::Unanswered { agreed, unanswered } ==> {
                &&& unanswered == unasked
                &&& unanswered > 0
                &&& forall|i: int|
                    0 <= i < installs.len() && (#[trigger] installs[i]).1 is Known ==> agreed
                        == Some(installs[i].1->Known_0)
                &&& agreed is Some ==> exists|i: int|
                    0 <= i < installs.len() && (#[trigger] installs[i]).1 == InstallView::Known(
                        agreed.unwrap(),
                    )
            }
        }),
{
    lemma_tally_is_a_filter(
        installs,
        |v: InstallView| !(v is Known),
        |install: (Seq<char>, InstallView)| !(install.1 is Known),
    );
    lemma_answers(installs);
    lemma_answers_len(installs);
    if established(installs) is Unanswered {
        assert forall|i: int|
            0 <= i < installs.len() && (#[trigger] installs[i]).1 is Known implies first_answer(
            installs,
        ) == Some(installs[i].1->Known_0) by {
            let k = choose|k: int|
                0 <= k < installs.len() && (#[trigger] installs[k]).1 == InstallView::Known(
                    answers(installs)[0],
                );
            assert(answers(installs).contains(installs[i].1->Known_0));
            assert(installs[i].1 == installs[k].1);
        }
    }
}

/// The report on the executables starts with the success mark exactly where there is
/// an executable on `PATH` and every one of them answered with the version that is
/// running, whatever the latest release is. It starts with a warning otherwise.
pub proof fn law_the_report_starts_with_success_where_all_agree(
    installs: Seq<(Seq<char>, InstallView)>,
    latest: Option<version::VersionView>,
    this_version: Seq<char>,
)
    ensures
        ({
            let lines = install_lines(installs, latest, this_version);
            &&& lines.len() > 0
            &&& lines[0].0 == Mark::Check <==> installs.len() > 0 && (forall|i: int|
                0 <= i < installs.len() ==> (#[trigger] installs[i]).1 == InstallView::Known(
                    this_version,
                ))
            &&& lines[0].0 != Mark::Check ==> lines[0].0 == Mark::Warn
        }),
{
    law_success_mark_means_all_at_this_version(installs, this_version);
}

/// Where there is no executable, that is all there is to report.
pub proof fn law_none_found_is_all_there_is(
    latest: Option<version::VersionView>,
    this_version: Seq<char>,
)
    ensures
        install_lines(Seq::empty(), latest, this_version) == seq![
            (
                Mark::Warn,
                "No Stellar CLI found on PATH; the running executable is not reachable by name"@,
            ),
        ],
{
}

/// Where every executable answered with one version, the report starts with how many
/// there are and, unless there is one alone that is at the running version, with that
/// version.
pub proof fn law_an_agreement_is_reported(
    installs: Seq<(Seq<char>, InstallView)>,
    version: Seq<char>,
    latest: Option<version::VersionView>,
    this_version: Seq<char>,
)
    requires
        installs.len() > 0,
        forall|i: int|
            0 <= i < installs.len() ==> (#[trigger] installs[i]).1 == InstallView::Known(version),
    ensures
        ({
            let first = install_lines(installs, latest, this_version)[0];
            let all = text::decimal(installs.len())
                + " Stellar CLI executables on PATH, all reporting "@ + version;
            &&& installs.len() == 1 && version == this_version ==> first == (
                Mark::Check,
                "Only one Stellar CLI found on PATH:"@,
            )
            &&& installs.len() == 1 && version != this_version ==> first == (
                Mark::Warn,
                "Only one Stellar CLI on PATH, and it is not the version running:"@,
            )
            &&& installs.len() > 1 && version == this_version ==> first == (Mark::Check, all + ":"@)
            &&& installs.len() > 1 && version != this_version ==> first == (
                Mark::Warn,
                all + ", which is not the "@ + this_version + " now running:"@,
            )
        }),
{
    law_agreed_means_every_one_answered_it(installs, version);
    assert(installs[0].1 == InstallView::Known(version));
    if version == this_version {
        assert(agree_with(installs, this_version));
    } else {
        assert(differs(installs[0].1, this_version));
    }
}

/// Where two executables answered with different versions, the report starts with how
/// many there are and, where some could not be asked, with how many answered and how
/// many did not.
pub proof fn law_a_disagreement_is_reported(
    installs: Seq<(Seq<char>, InstallView)>,
    i: int,
    j: int,
    latest: Option<version::VersionView>,
    this_version: Seq<char>,
)
    requires
        0 <= i < installs.len(),
        0 <= j < installs.len(),
        installs[i].1 is Known,
        installs[j].1 is Known,
        installs[i].1 != installs[j].1,
    ensures
        ({
            let first = install_lines(installs, latest, this_version)[0];
            let found = "Found "@ + text::decimal(installs.len());
            let answered = installs.filter(
                |install: (Seq<char>, InstallView)| install.1 is Known,
            ).len();
            let unasked = installs.filter(
                |install: (Seq<char>, InstallView)| !(install.1 is Known),
            ).len();
            &&& answered + unasked == installs.len()
            &&& unasked == 0 ==> first == (
                Mark::Warn,
                found + " Stellar CLI executables on PATH reporting different versions:"@,
            )
            &&& unasked > 0 ==> first == (
                Mark::Warn,
                found + " Stellar CLI executables on PATH; the "@ + text::decimal(answered)
                    + " that reported a version do not agree ("@ + text::decimal(unasked)
                    + " could not be asked):"@,
            )
        }),
{
    lemma_tally_is_a_filter(
        installs,
        |v: InstallView| !(v is Known),
        |install: (Seq<char>, InstallView)| !(install.1 is Known),
    );
    lemma_tally_is_a_filter(
        installs,
        |v: InstallView| v is Known,
        |install: (Seq<char>, InstallView)| install.1 is Known,
    );
    lemma_known_and_silent(installs);
    assert(versions_differ(installs));
}

proof fn lemma_known_and_silent(installs: Seq<(Seq<char>, InstallView)>)
    ensures
        tally(installs, |v: InstallView| v is Known) + tally(
            installs,
            |v: InstallView| !(v is Known),
        ) == installs.len(),
    decreases installs.len(),
{
    if installs.len() > 0 {
        lemma_known_and_silent(installs.drop_last());
    }
}

/// Where some executables could not be asked and all others answered with one version,
/// the report starts with that version and with how many could not be asked.
pub proof fn law_an_open_agreement_is_reported(
    installs: Seq<(Seq<char>, InstallView)>,
    i: int,
    j: int,
    version: Seq<char>,
    latest: Option<version::VersionView>,
    this_version: Seq<char>,
)
    requires
        0 <= i < installs.len(),
        0 <= j < installs.len(),
        installs[i].1 == InstallView::Known(version),
        !(installs[j].1 is Known),
        forall|k: int|
            0 <= k < installs.len() && (#[trigger] installs[k]).1 is Known ==> installs[k].1
                == InstallView::Known(version),
    ensures
        install_lines(installs, latest, this_version)[0] == (
            Mark::Warn,
            "Found "@ + text::decimal(installs.len())
                + " Stellar CLI executables on PATH; every one that answered reports "@ + version
                + ", but "@ + text::decimal(
                installs.filter(
                    |install: (Seq<char>, InstallView)| !(install.1 is Known),
                ).len(),
            ) + " could not be asked, so a differing version cannot be ruled out:"@,
        ),
{
    let silent = |v: InstallView| !(v is Known);
    lemma_tally_some(installs, silent);
    assert(silent(installs[j].1));
    law_what_the_answers_establish(installs);
    law_open_means_some_could_not_be_asked(installs);
    assert(!versions_differ(installs));
    assert(established(installs) is Unanswered);
}

/// Where no executable answered, the report starts with that, and with how many there
/// are where it is not one alone.
pub proof fn law_no_answer_is_reported(
    installs: Seq<(Seq<char>, InstallView)>,
    latest: Option<version::VersionView>,
    this_version: Seq<char>,
)
    requires
        installs.len() > 0,
        forall|k: int| 0 <= k < installs.len() ==> !((#[trigger] installs[k]).1 is Known),
    ensures
        install_lines(installs, latest, this_version)[0] == (if installs.len() == 1 {
            (
                Mark::Warn,
                "Found one Stellar CLI on PATH, but it did not report a version; it may be broken or not a Stellar CLI at all:"@,
            )
        } else {
            (
                Mark::Warn,
                "Found "@ + text::decimal(installs.len())
                    + " Stellar CLI executables on PATH; none of them reported a version, so whether they agree could not be determined:"@,
            )
        }),
{
    let silent = |v: InstallView| !(v is Known);
    lemma_tally_some(installs, silent);
    assert(silent(installs[0].1));
    law_what_the_answers_establish(installs);
    law_open_means_some_could_not_be_asked(installs);
    assert(!versions_differ(installs));
    assert(established(installs) is Unanswered);
}

/// Whether an executable is behind is how the version it answered and the latest
/// release are ordered.
pub proof fn law_behind_is_how_versions_are_ordered(
    found: version::VersionView,
    latest: version::VersionView,
    answered: Seq<char>,
)
    requires
        version::is_semver(found),
    ensures
        behind(InstallView::Known(version::version_text(found)), Some(latest)) == Some(
            version::precedes(found, latest),
        ),
        version::version_of(answered) is None ==> behind(InstallView::Known(answered), Some(latest))
            is None,
{
    version::law_a_version_reads_back(found);
}

/// Each executable has a line of its own behind the first line of the report, in the
/// order of the executables: its path, and what is known of it.
pub proof fn law_each_executable_has_its_line(
    installs: Seq<(Seq<char>, InstallView)>,
    i: int,
    latest: Option<version::VersionView>,
    this_version: Seq<char>,
)
    requires
        0 <= i < installs.len(),
    ensures
        ({
            let line = install_lines(installs, latest, this_version)[1 + i];
            let path = "- "@ + installs[i].0 + " ("@;
            &&& line.0 == Mark::Blank
            &&& installs[i].1 is Silent ==> line.1 == path + "unknown version"@ + ")"@
            &&& installs[i].1 is TimedOut ==> line.1 == path + "hung; killed after timing out"@
                + ")"@
            &&& installs[i].1 matches InstallView::Known(version) ==> line.1 == path + version + (
            if behind(installs[i].1, latest) == Some(true) {
                ", outdated -- "@ + version::version_text(latest.unwrap()) + " is available"@
            } else {
                Seq::empty()
            }) + ")"@
        }),
{
    let line = install_lines(installs, latest, this_version)[1 + i];
    assert(line == listing(installs, latest)[i]);
    let path = "- "@ + installs[i].0 + " ("@;
    if let InstallView::Known(version) = installs[i].1 {
        assert(line.1 =~= path + version + (if behind(installs[i].1, latest) == Some(true) {
            ", outdated -- "@ + version::version_text(latest.unwrap()) + " is available"@
        } else {
            Seq::empty()
        }) + ")"@);
    }
}

/// Behind the listing the report says how many executables are behind the latest
/// release, then how many differ from the running CLI without being behind, then how
/// many are hung, each only where there are any, and nothing else.
pub proof fn law_the_report_ends_with_what_to_do(
    installs: Seq<(Seq<char>, InstallView)>,
    latest: Option<version::VersionView>,
    this_version: Seq<char>,
)
    ensures
        ({
            let outdated = installs.filter(
                |install: (Seq<char>, InstallView)| behind(install.1, latest) == Some(true),
            ).len();
            let stale = installs.filter(
                |install: (Seq<char>, InstallView)|
                    install.1 is Known && install.1->Known_0 != this_version && behind(
                        install.1,
                        latest,
                    ) != Some(true),
            ).len();
            let hung = installs.filter(
                |install: (Seq<char>, InstallView)| install.1 is TimedOut,
            ).len();
            let executables = |n: nat|
                text::decimal(n) + (if n == 1 {
                    " executable on PATH "@
                } else {
                    " executables on PATH "@
                });
            install_lines(installs, latest, this_version).skip(installs.len() as int + 1) == (if outdated
                == 0 {
                Seq::empty()
            } else {
                seq![
                    (
                        Mark::Warn,
                        executables(outdated) + (if outdated == 1 {
                            "is"@
                        } else {
                            "are"@
                        }) + " behind the latest release ("@ + version::version_text(
                            latest.unwrap(),
                        ) + "). Upgrade or remove "@ + (if outdated == 1 {
                            "it"@
                        } else {
                            "them"@
                        })
                            + ": an outdated one prints upgrade warnings naming its own version, which is what makes them look wrong."@,
                    ),
                ]
            }) + (if stale == 0 {
                Seq::empty()
            } else {
                seq![
                    (
                        Mark::Warn,
                        executables(stale) + (if stale == 1 {
                            "reports"@
                        } else {
                            "report"@
                        }) + " a version other than the "@ + this_version
                            + " now running, without being behind the latest release."@,
                    ),
                ]
            }) + (if hung == 0 {
                Seq::empty()
            } else {
                seq![
                    (
                        Mark::Warn,
                        executables(hung)
                            + "did not answer within 2s and had to be killed. Unlike one that simply failed to report a version, a hung executable is itself the problem."@,
                    ),
                ]
            })
        }),
{
    let is_behind = |v: InstallView| behind(v, latest) == Some(true);
    let is_stale = |v: InstallView| stale(v, latest, this_version);
    let is_hung = |v: InstallView| v is TimedOut;
    lemma_tally_is_a_filter(
        installs,
        is_behind,
        |install: (Seq<char>, InstallView)| behind(install.1, latest) == Some(true),
    );
    lemma_tally_is_a_filter(
        installs,
        is_stale,
        |install: (Seq<char>, InstallView)|
            install.1 is Known && install.1->Known_0 != this_version && behind(install.1, latest)
                != Some(true),
    );
    lemma_tally_is_a_filter(
        installs,
        is_hung,
        |install: (Seq<char>, InstallView)| install.1 is TimedOut,
    );
    let b = tally(installs, is_behind);
    let s = tally(installs, is_stale);
    let h = tally(installs, is_hung);
    let lines = install_lines(installs, latest, this_version);
    assert(lines.skip(installs.len() as int + 1) =~= behind_lines(b, latest) + stale_lines(s, this_version)
        + hung_lines(h));
    lemma_executables(b);
    lemma_executables(s);
    lemma_executables(h);
    let noun = |n: nat|
        text::decimal(n) + (if n == 1 {
            " executable on PATH "@
        } else {
            " executables on PATH "@
        });
    if b > 0 {
        assert(behind_lines(b, latest)[0].1 =~= noun(b) + (if b == 1 {
            "is"@
        } else {
            "are"@
        }) + " behind the latest release ("@ + version::version_text(latest.unwrap())
            + "). Upgrade or remove "@ + (if b == 1 {
            "it"@
        } else {
            "them"@
        })
            + ": an outdated one prints upgrade warnings naming its own version, which is what makes them look wrong."@);
    }
    if h > 0 {
        let tail =
            "s and had to be killed. Unlike one that simply failed to report a version, a hung executable is itself the problem."@;
        let whole =
            "did not answer within 2s and had to be killed. Unlike one that simply failed to report a version, a hung executable is itself the problem."@;
        reveal_strlit(" on PATH did not answer within ");
        reveal_strlit(" on PATH ");
        reveal_strlit(
            "s and had to be killed. Unlike one that simply failed to report a version, a hung executable is itself the problem.",
        );
        reveal_strlit(
            "did not answer within 2s and had to be killed. Unlike one that simply failed to report a version, a hung executable is itself the problem.",
        );
        assert(" on PATH did not answer within "@ + text::decimal(2) + tail =~= " on PATH "@
            + whole);
        let count = text::counted(h, "executable"@, "executables"@);
        assert(hung_lines(h)[0].1 =~= count + (" on PATH did not answer within "@ + text::decimal(2)
            + tail));
        assert(count + (" on PATH "@ + whole) =~= count + " on PATH "@ + whole);
    }
}

proof fn lemma_executables(n: nat)
    ensures
        text::counted(n, "executable"@, "executables"@) + " on PATH "@ == text::decimal(n) + (if n
            == 1 {
            " executable on PATH "@
        } else {
            " executables on PATH "@
        }),
{
    text::law_only_one_takes_the_singular(n, "executable"@, "executables"@);
    reveal_strlit(" ");
    reveal_strlit(" on PATH ");
    reveal_strlit("executable");
    reveal_strlit("executables");
    reveal_strlit(" executable on PATH ");
    reveal_strlit(" executables on PATH ");
    assert(" "@ + "executable"@ + " on PATH "@ =~= " executable on PATH "@);
    assert(" "@ + "executables"@ + " on PATH "@ =~= " executables on PATH "@);
    let noun = if n == 1 {
        "executable"@
    } else {
        "executables"@
    };
    assert(text::decimal(n) + " "@ + noun + " on PATH "@ =~= text::decimal(n) + (" "@ + noun
        + " on PATH "@));
}

/// What is said of the running executable is its own path, or that it is not known.
pub proof fn law_the_running_executable_is_named(binary: Seq<char>)
    ensures
        running_lines(Some(binary)) == seq![(Mark::Info, "Running executable: "@ + binary)],
        running_lines(None) == seq![
            (Mark::Warn, "Could not determine the running executable"@),
        ],
{
}

/// What is known of an executable is what its probe established, and so is what is
/// known of all of them.
pub proof fn law_outcomes_are_told_apart(version: String, agreed: Option<String>, unanswered: usize)
    ensures
        InstallVersion::Known(version)@ == InstallView::Known(version@),
        InstallVersion::Silent@ is Silent,
        InstallVersion::TimedOut@ is TimedOut,
        InstalledVersions::NoneFound@ is NoneFound,
        InstalledVersions::Agreed(version)@ == VersionsView::Agreed(version@),
        (InstalledVersions::Disagree { unanswered })@ == (VersionsView::Disagree {
            unanswered: unanswered as nat,
        }),
        (InstalledVersions::Unanswered { agreed, unanswered })@ == (VersionsView::Unanswered {
            agreed: match agreed {
                Some(agreed) => Some(agreed@),
                None => None,
            },
            unanswered: unanswered as nat,
        }),
{
}

/// How one executable is listed: by its version where it answered, by why there is none
/// where it did not, and with what is available exactly where it is known to be behind.
pub proof fn law_how_an_executable_is_listed(
    v: InstallView,
    latest: Option<version::VersionView>,
)
    ensures
        v is Silent ==> listed_as(v, latest) == "unknown version"@,
        v is TimedOut ==> listed_as(v, latest) == "hung; killed after timing out"@,
        v is Known && behind(v, latest) != Some(true) ==> listed_as(v, latest) == v->Known_0,
        v is Known && behind(v, latest) == Some(true) ==> listed_as(v, latest) == v->Known_0
            + ", outdated -- "@ + version::version_text(latest.unwrap()) + " is available"@,
        label_text(v) == listed_as(v, None),
{
}

/// The summary takes its mark from the verdict on the running CLI exactly where the
/// executables agree with each other. Elsewhere the verdict changes nothing.
pub proof fn law_the_verdict_counts_where_all_agree(
    installs: Seq<(Seq<char>, InstallView)>,
    agrees_with_this_cli: bool,
    this_version: Seq<char>,
)
    ensures
        established(installs) is Agreed ==> summary_line(
            installs,
            agrees_with_this_cli,
            this_version,
        ).0 == (if agrees_with_this_cli {
            Mark::Check
        } else {
            Mark::Warn
        }),
        !(established(installs) is Agreed) ==> summary_line(
            installs,
            agrees_with_this_cli,
            this_version,
        ) == summary_line(installs, !agrees_with_this_cli, this_version),
{
}

} // verus!
