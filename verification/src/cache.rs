//! The upgrade check and the version cache that all installs share.

use crate::error::Error;
use crate::installs;
use crate::print;
use crate::print::{Mark, Print};
use crate::probe;
use crate::text::same_text;
use crate::version;
use crate::version::Version;
use vstd::prelude::*;

verus! {

// ---------------------------------------------------------------------------
// Who wrote the version cache
// ---------------------------------------------------------------------------

/// A CLI that performed an upgrade check.
#[derive(Debug)]
pub struct CheckPerformedBy {
    pub version: Option<String>,
    pub executable: Option<String>,
    /// How the record is shown where its version or its executable is missing.
    pub shown_in_part: String,
}

/// [`CheckPerformedBy`] with its strings as sequences of characters, and with the
/// text that it is shown as.
pub struct CliView {
    pub version: Option<Seq<char>>,
    pub executable: Option<Seq<char>>,
    pub shown: Seq<char>,
}

/// How a record is shown: the version, and the executable behind it in parentheses,
/// where it has both.
pub open spec fn shown_as(
    version: Option<Seq<char>>,
    executable: Option<Seq<char>>,
    shown_in_part: Seq<char>,
) -> Seq<char> {
    match (version, executable) {
        (Some(version), Some(executable)) => version + " ("@ + executable + ")"@,
        _ => shown_in_part,
    }
}

impl View for CheckPerformedBy {
    type V = CliView;

    open spec fn view(&self) -> CliView {
        CliView {
            version: probe::text_if_any(self.version),
            executable: probe::text_if_any(self.executable),
            shown: shown_as(
                probe::text_if_any(self.version),
                probe::text_if_any(self.executable),
                self.shown_in_part@,
            ),
        }
    }
}

impl CheckPerformedBy {
    /// The record as it is shown.
    pub fn text(&self) -> (r: String)
        ensures
            r@ == self@.shown,
    {
        match (&self.version, &self.executable) {
            (Some(version), Some(executable)) => version.clone().concat(" (").concat(
                executable.as_str(),
            ).concat(")"),
            _ => self.shown_in_part.clone(),
        }
    }
}

/// What the version cache tells of the CLI that last wrote it.
#[derive(Debug)]
pub enum LastWriter {
    /// There is no cache: nothing has checked for a release on this machine.
    NoCache,
    /// The cache is there and cannot be read.
    Unreadable,
    /// The cache was written before its writer was recorded.
    Unrecorded,
    Recorded(CheckPerformedBy),
}

/// [`LastWriter`] with the record as [`CliView`].
pub enum WriterView {
    NoCache,
    Unreadable,
    Unrecorded,
    Recorded(CliView),
}

impl View for LastWriter {
    type V = WriterView;

    open spec fn view(&self) -> WriterView {
        match self {
            LastWriter::NoCache => WriterView::NoCache,
            LastWriter::Unreadable => WriterView::Unreadable,
            LastWriter::Unrecorded => WriterView::Unrecorded,
            LastWriter::Recorded(writer) => WriterView::Recorded(writer@),
        }
    }
}

/// `s`, or `other` where there is none.
pub open spec fn text_or(s: Option<Seq<char>>, other: Seq<char>) -> Seq<char> {
    match s {
        Some(s) => s,
        None => other,
    }
}

/// Whether two records name executables, and not the same one.
pub open spec fn other_install(writer: CliView, this_cli: CliView) -> bool {
    writer.executable is Some && this_cli.executable is Some && writer.executable
        != this_cli.executable
}

/// Whether two records name the same executable.
pub open spec fn same_install(writer: CliView, this_cli: CliView) -> bool {
    writer.executable is Some && writer.executable == this_cli.executable
}

/// What is said of the CLI that last wrote the version cache.
///
/// Identity is the executable, not the version: an upgrade in place leaves an
/// older version recorded against the very executable that is running. The
/// version decides how loudly another executable is reported.
pub open spec fn writer_lines(
    last_writer: WriterView,
    this_cli: CliView,
) -> Seq<(Mark, Seq<char>)> {
    match last_writer {
        WriterView::NoCache => print::line(
            Mark::Check,
            "No version cache yet; nothing has checked for a new release on this machine"@,
        ),
        WriterView::Unreadable => print::line(
            Mark::Warn,
            "Version cache exists but could not be read; delete it to let the next check rewrite it"@,
        ),
        WriterView::Unrecorded => print::line(
            Mark::Info,
            "Version cache predates the record of which Stellar CLI writes it, so its writer is unknown"@,
        ),
        WriterView::Recorded(writer) => if same_install(writer, this_cli) {
            if writer.version == this_cli.version {
                print::line(Mark::Check, "Version cache last checked by: "@ + writer.shown)
            } else {
                print::line(
                    Mark::Info,
                    "Version cache was last checked by this install running "@ + text_or(
                        writer.version,
                        "an unknown version"@,
                    ) + "; it is now "@ + text_or(this_cli.version, "unknown"@),
                )
            }
        } else if other_install(writer, this_cli) {
            (if writer.version is Some && writer.version == this_cli.version {
                print::line(
                    Mark::Info,
                    "Version cache was last checked by a different Stellar CLI at the same version: "@
                        + writer.shown,
                )
            } else {
                print::line(
                    Mark::Warn,
                    "Version cache was last checked by a different Stellar CLI: "@ + writer.shown,
                )
            }) + print::line(Mark::Blank, "this one is "@ + this_cli.shown)
        } else {
            print::line(Mark::Info, "Version cache was last checked by: "@ + writer.shown)
        },
    }
}

fn same_option(a: &Option<String>, b: &Option<String>) -> (r: bool)
    ensures
        r == (probe::text_if_any(*a) == probe::text_if_any(*b)),
{
    match (a, b) {
        (Some(a), Some(b)) => same_text(a.as_str(), b.as_str()),
        (None, None) => true,
        _ => false,
    }
}

fn option_or<'a>(s: &'a Option<String>, other: &'a str) -> (r: &'a str)
    ensures
        r@ == text_or(probe::text_if_any(*s), other@),
{
    match s {
        Some(s) => s.as_str(),
        None => other,
    }
}

/// Writes which CLI last checked for a new release and wrote the version cache.
pub fn show_version_cache_writer(
    print: &mut Print,
    last_writer: &LastWriter,
    this_cli: &CheckPerformedBy,
)
    ensures
        final(print)@ == old(print)@ + writer_lines(last_writer@, this_cli@),
{
    match last_writer {
        LastWriter::NoCache => print.checkln(
            "No version cache yet; nothing has checked for a new release on this machine".to_owned(),
        ),
        LastWriter::Unreadable => print.warnln(
            "Version cache exists but could not be read; delete it to let the next check rewrite it".to_owned(),
        ),
        LastWriter::Unrecorded => print.infoln(
            "Version cache predates the record of which Stellar CLI writes it, so its writer is unknown".to_owned(),
        ),
        LastWriter::Recorded(writer) => {
            let text = writer.text();
            let shown = text.as_str();
            match (&writer.executable, &this_cli.executable) {
                (Some(written_by), Some(running)) => {
                    if same_text(written_by.as_str(), running.as_str()) {
                        if same_option(&writer.version, &this_cli.version) {
                            print.checkln(
                                "Version cache last checked by: ".to_owned().concat(shown),
                            );
                        } else {
                            let recorded = option_or(&writer.version, "an unknown version");
                            let running = option_or(&this_cli.version, "unknown");
                            print.infoln(
                                "Version cache was last checked by this install running ".to_owned().concat(
                                    recorded,
                                ).concat("; it is now ").concat(running),
                            );
                        }
                    } else {
                        if writer.version.is_some() && same_option(
                            &writer.version,
                            &this_cli.version,
                        ) {
                            print.infoln(
                                "Version cache was last checked by a different Stellar CLI at the same version: ".to_owned().concat(
                                    shown,
                                ),
                            );
                        } else {
                            print.warnln(
                                "Version cache was last checked by a different Stellar CLI: ".to_owned().concat(
                                    shown,
                                ),
                            );
                        }
                        print.blankln(
                            "this one is ".to_owned().concat(this_cli.text().as_str()),
                        );
                    }
                },
                _ => print.infoln(
                    "Version cache was last checked by: ".to_owned().concat(shown),
                ),
            }
        },
    }
    assert(print@ =~= old(print)@ + writer_lines(last_writer@, this_cli@));
}

// ---------------------------------------------------------------------------
// Whether this CLI is current
// ---------------------------------------------------------------------------

/// Whether an upgrade check may write the version cache.
#[derive(Clone, Copy, Debug, PartialEq, Eq, Structural)]
pub enum CachePolicy {
    /// It leaves the cache alone.
    ReadOnly,
    /// It records what it found, and itself as the last writer.
    ReadWrite,
}

/// What an upgrade check found.
#[derive(Debug)]
pub struct UpgradeStatus {
    pub upgrade_available: bool,
    pub current_version: Version,
    /// The latest release that is known; `0.0.0` where none is.
    pub latest_version: Version,
    /// What there is to say of an upgrade from the one to the other.
    pub upgrade_message: String,
}

/// What is said of the running CLI's own version.
pub open spec fn upgrade_lines(outcome: Option<UpgradeStatus>) -> Seq<(Mark, Seq<char>)> {
    match outcome {
        None => Seq::empty(),
        Some(status) => if status.upgrade_available {
            print::line(Mark::Warn, status.upgrade_message@)
        } else {
            print::line(
                Mark::Check,
                "You are using the latest version of Stellar CLI: "@ + version::version_text(
                    status.current_version@,
                ),
            )
        },
    }
}

/// The latest release that installs can be judged against. The empty cache holds
/// `0.0.0`, which is no release to judge anything by.
pub open spec fn latest_release(outcome: Option<UpgradeStatus>) -> Option<Version> {
    match outcome {
        Some(status) if version::precedes(version::release(0, 0, 0), status.latest_version@) => Some(
            status.latest_version,
        ),
        _ => None,
    }
}

/// Writes whether this CLI is current, from what the upgrade check found, if it
/// could be made. Gives back the latest release that it was judged against, so
/// that the installs on `PATH` can be judged against the same one.
pub fn check_version(
    print: &mut Print,
    outcome: Option<UpgradeStatus>,
) -> (r: Result<Option<Version>, Error>)
    ensures
        final(print)@ == old(print)@ + upgrade_lines(outcome),
        r == Ok::<Option<Version>, Error>(latest_release(outcome)),
{
    match outcome {
        None => {
            assert(print@ =~= old(print)@ + upgrade_lines(outcome));
            Ok(None)
        },
        Some(status) => {
            if status.upgrade_available {
                print.warnln(status.upgrade_message);
            } else {
                print.checkln(
                    "You are using the latest version of Stellar CLI: ".to_owned().concat(
                        status.current_version.text().as_str(),
                    ),
                );
            }
            if Version::new(0, 0, 0).is_before(&status.latest_version) {
                Ok(Some(status.latest_version))
            } else {
                Ok(None)
            }
        },
    }
}

// ---------------------------------------------------------------------------
// Laws
// ---------------------------------------------------------------------------

/// Whether some line carries `mark`.
pub open spec fn has_mark(lines: Seq<(Mark, Seq<char>)>, mark: Mark) -> bool {
    exists|i: int| 0 <= i < lines.len() && (#[trigger] lines[i]).0 == mark
}

/// The writer is warned about exactly where the cache cannot be read, or where it
/// was written by another executable whose recorded version is not the one running.
pub proof fn law_warning_needs_another_install_at_another_version(
    last_writer: WriterView,
    this_cli: CliView,
)
    ensures
        has_mark(writer_lines(last_writer, this_cli), Mark::Warn) <==> {
            ||| last_writer is Unreadable
            ||| {
                &&& last_writer is Recorded
                &&& other_install(last_writer->Recorded_0, this_cli)
                &&& !(last_writer->Recorded_0.version is Some && last_writer->Recorded_0.version
                    == this_cli.version)
            }
        },
{
    let lines = writer_lines(last_writer, this_cli);
    assert(lines.len() > 0);
    assert(lines[0].0 == Mark::Warn ==> has_mark(lines, Mark::Warn));
    if lines.len() > 1 {
        assert(lines[1].0 == Mark::Blank);
    }
}

/// The executable that is running is never warned about, whatever version is
/// recorded against it: an upgrade in place is one install, not two.
pub proof fn law_upgrade_in_place_is_one_install(writer: CliView, this_cli: CliView)
    requires
        same_install(writer, this_cli),
    ensures
        writer_lines(WriterView::Recorded(writer), this_cli).len() == 1,
        !has_mark(writer_lines(WriterView::Recorded(writer), this_cli), Mark::Warn),
{
}

/// Where the latest release known is `0.0.0`, as in an empty cache, no executable
/// is judged, whatever it answered.
pub proof fn law_empty_cache_judges_nothing(status: UpgradeStatus, v: installs::InstallView)
    requires
        status.latest_version@ == version::release(0, 0, 0),
    ensures
        latest_release(Some(status)) is None,
        installs::behind(
            v,
            match latest_release(Some(status)) {
                Some(latest) => Some(latest@),
                None => None,
            },
        ) is None,
{
}

/// How a record with a version and an executable is shown: both of its own, the
/// executable in parentheses.
pub proof fn law_a_record_is_shown_by_its_own_parts(
    record: CheckPerformedBy,
    version: String,
    executable: String,
)
    requires
        record.version == Some(version),
        record.executable == Some(executable),
    ensures
        record@.shown == version@ + " ("@ + executable@ + ")"@,
        record@.version == Some(version@),
        record@.executable == Some(executable@),
{
}

/// A record without a version or without an executable is shown as it says itself.
pub proof fn law_a_record_in_part_is_shown_as_it_says(record: CheckPerformedBy)
    requires
        record.version is None || record.executable is None,
    ensures
        record@.shown == record.shown_in_part@,
        record@.version is None <==> record.version is None,
        record@.executable is None <==> record.executable is None,
{
}

/// Where the cache was written by another executable, the last line is about the
/// running CLI alone, whoever wrote the cache: its own version and its own executable.
pub proof fn law_the_last_line_names_the_running_cli(
    writer: CheckPerformedBy,
    other_writer: CheckPerformedBy,
    this_cli: CheckPerformedBy,
    written_by: String,
    other_written_by: String,
    running: String,
)
    requires
        writer.executable == Some(written_by),
        other_writer.executable == Some(other_written_by),
        this_cli.executable == Some(running),
        written_by@ != running@,
        other_written_by@ != running@,
    ensures
        ({
            let lines = writer_lines(LastWriter::Recorded(writer)@, this_cli@);
            let other_lines = writer_lines(LastWriter::Recorded(other_writer)@, this_cli@);
            &&& lines.len() == 2
            &&& lines[1] == other_lines[1]
            &&& lines[1].0 == Mark::Blank
            &&& this_cli.version matches Some(version) ==> lines[1].1 == "this one is "@ + version@
                + " ("@ + running@ + ")"@
            &&& this_cli.version is None ==> lines[1].1 == "this one is "@ + this_cli.shown_in_part@
        }),
{
    let lines = writer_lines(LastWriter::Recorded(writer)@, this_cli@);
    if let Some(version) = this_cli.version {
        assert(lines[1].1 =~= "this one is "@ + version@ + " ("@ + running@ + ")"@);
    }
}

/// Where the cache was written by another executable, the first line names that
/// executable and the version it recorded, and it is a warning exactly where that is not
/// the version running.
pub proof fn law_the_first_line_names_the_writer(
    writer: CheckPerformedBy,
    this_cli: CheckPerformedBy,
    recorded: String,
    written_by: String,
    running: String,
)
    requires
        writer.version == Some(recorded),
        writer.executable == Some(written_by),
        this_cli.executable == Some(running),
        written_by@ != running@,
    ensures
        ({
            let first = writer_lines(LastWriter::Recorded(writer)@, this_cli@)[0];
            let writer_text = recorded@ + " ("@ + written_by@ + ")"@;
            first == if this_cli.version is Some && this_cli.version.unwrap()@ == recorded@ {
                (
                    Mark::Info,
                    "Version cache was last checked by a different Stellar CLI at the same version: "@
                        + writer_text,
                )
            } else {
                (
                    Mark::Warn,
                    "Version cache was last checked by a different Stellar CLI: "@ + writer_text,
                )
            }
        }),
{
}

/// Where the cache was written by the executable that is running, one line tells from
/// which version it came and, where that is another one, which it is now.
pub proof fn law_the_same_executable_is_one_line(
    writer: CheckPerformedBy,
    this_cli: CheckPerformedBy,
    written_by: String,
    running: String,
)
    requires
        writer.executable == Some(written_by),
        this_cli.executable == Some(running),
        written_by@ == running@,
    ensures
        ({
            let lines = writer_lines(LastWriter::Recorded(writer)@, this_cli@);
            &&& lines.len() == 1
            &&& match (writer.version, this_cli.version) {
                (Some(recorded), Some(now)) => lines[0] == if recorded@ == now@ {
                    (
                        Mark::Check,
                        "Version cache last checked by: "@ + recorded@ + " ("@ + written_by@ + ")"@,
                    )
                } else {
                    (
                        Mark::Info,
                        "Version cache was last checked by this install running "@ + recorded@
                            + "; it is now "@ + now@,
                    )
                },
                (None, Some(now)) => lines[0] == (
                    Mark::Info,
                    "Version cache was last checked by this install running "@
                        + "an unknown version"@ + "; it is now "@ + now@,
                ),
                (Some(recorded), None) => lines[0] == (
                    Mark::Info,
                    "Version cache was last checked by this install running "@ + recorded@
                        + "; it is now "@ + "unknown"@,
                ),
                (None, None) => lines[0] == (
                    Mark::Check,
                    "Version cache last checked by: "@ + writer.shown_in_part@,
                ),
            }
        }),
{
    let lines = writer_lines(LastWriter::Recorded(writer)@, this_cli@);
    match (writer.version, this_cli.version) {
        (Some(recorded), Some(now)) => {
            if recorded@ == now@ {
                assert(lines[0].1 =~= "Version cache last checked by: "@ + recorded@ + " ("@
                    + written_by@ + ")"@);
            }
        },
        _ => {},
    }
}

/// Without an executable on either side nothing is claimed of the writer but who it is.
pub proof fn law_without_both_executables_nothing_is_claimed(
    writer: CheckPerformedBy,
    this_cli: CheckPerformedBy,
)
    requires
        writer.executable is None || this_cli.executable is None,
    ensures
        writer_lines(LastWriter::Recorded(writer)@, this_cli@) == seq![
            (
                Mark::Info,
                "Version cache was last checked by: "@ + (match (
                    writer.version,
                    writer.executable,
                ) {
                    (Some(version), Some(executable)) => version@ + " ("@ + executable@ + ")"@,
                    _ => writer.shown_in_part@,
                }),
            ),
        ],
{
}

/// What is said of a cache without a writer on record does not depend on the running
/// CLI, and only a cache that cannot be read is a warning.
pub proof fn law_a_cache_without_a_writer_is_one_line(this_cli: CliView)
    ensures
        writer_lines(LastWriter::NoCache@, this_cli) == seq![
            (
                Mark::Check,
                "No version cache yet; nothing has checked for a new release on this machine"@,
            ),
        ],
        writer_lines(LastWriter::Unreadable@, this_cli) == seq![
            (
                Mark::Warn,
                "Version cache exists but could not be read; delete it to let the next check rewrite it"@,
            ),
        ],
        writer_lines(LastWriter::Unrecorded@, this_cli) == seq![
            (
                Mark::Info,
                "Version cache predates the record of which Stellar CLI writes it, so its writer is unknown"@,
            ),
        ],
{
}

/// An upgrade check that could be made is one line: the message of the upgrade where
/// there is one, else the current version, which is then the latest. One that could not
/// be made is none, and gives nothing to judge by.
pub proof fn law_the_upgrade_check_is_one_line(status: UpgradeStatus)
    ensures
        upgrade_lines(Some(status)) == seq![
            if status.upgrade_available {
                (Mark::Warn, status.upgrade_message@)
            } else {
                (
                    Mark::Check,
                    "You are using the latest version of Stellar CLI: "@ + version::version_text(
                        status.current_version@,
                    ),
                )
            },
        ],
        upgrade_lines(None).len() == 0,
        latest_release(None) is None,
{
}

/// Installs are judged against the latest version that the check found, and against
/// nothing exactly where that is `0.0.0` or a pre-release of it. The current version and
/// whether there is an upgrade play no part.
pub proof fn law_installs_are_judged_by_the_latest(status: UpgradeStatus)
    ensures
        latest_release(Some(status)) matches Some(latest) ==> latest == status.latest_version,
        latest_release(Some(status)) is None <==> ({
            let latest = status.latest_version@;
            &&& latest.major == 0
            &&& latest.minor == 0
            &&& latest.patch == 0
            &&& latest.pre.len() > 0 || latest.build.len() == 0
        }),
{
    let latest = status.latest_version@;
    assert(latest.pre.len() == 0 ==> latest.pre =~= Seq::empty());
    assert(latest.build.len() == 0 ==> latest.build =~= Seq::empty());
}

/// Another executable that recorded no version is warned about, whatever version is
/// running.
pub proof fn law_a_writer_without_a_version_is_warned_about(
    writer: CheckPerformedBy,
    this_cli: CheckPerformedBy,
    written_by: String,
    running: String,
)
    requires
        writer.version is None,
        writer.executable == Some(written_by),
        this_cli.executable == Some(running),
        written_by@ != running@,
    ensures
        writer_lines(LastWriter::Recorded(writer)@, this_cli@)[0] == (
            Mark::Warn,
            "Version cache was last checked by a different Stellar CLI: "@ + writer.shown_in_part@,
        ),
{
}

} // verus!
