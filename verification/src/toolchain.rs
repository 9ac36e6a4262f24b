//! The Rust toolchain, and the other tools that building a contract takes.

use crate::print;
use crate::print::{Mark, Print};
use crate::text;
use crate::text::{from_utf8_lossy, lines, same_text, trim};
use crate::version;
use crate::version::{Version, VersionView};
use vstd::prelude::*;

verus! {

// ---------------------------------------------------------------------------
// Rust
// ---------------------------------------------------------------------------

/// Whether a version of Rust cannot build contracts: from 1.82.0 up to, and
/// without, 1.84.0.
pub open spec fn cannot_build(rust: VersionView) -> bool {
    !version::precedes(rust, version::release(1, 82, 0)) && version::precedes(
        rust,
        version::release(1, 84, 0),
    )
}

/// What is said of the version of Rust.
pub open spec fn rust_lines(rust: Option<VersionView>) -> Seq<(Mark, Seq<char>)> {
    match rust {
        Some(rust) => if cannot_build(rust) {
            print::line(
                Mark::Error,
                "Rust "@ + version::version_text(rust) + " cannot be used to build contracts"@,
            )
        } else {
            print::line(Mark::Info, "Rust version: "@ + version::version_text(rust))
        },
        None => print::line(Mark::Warn, "Could not determine Rust version"@),
    }
}

/// Rust 1.84.0.
fn rust_1_84() -> (r: Version)
    ensures
        r@ == version::release(1, 84, 0),
{
    proof {
        reveal_strlit("1.84.0");
        reveal_strlit(".");
        reveal_with_fuel(text::decimal, 2);
        assert("1.84.0"@ =~= version::release_text(1, 84, 0));
        version::law_a_release_reads_back(1, 84, 0);
    }
    Version::parse("1.84.0").unwrap()
}

/// Rust 1.82.0.
fn rust_1_82() -> (r: Version)
    ensures
        r@ == version::release(1, 82, 0),
{
    proof {
        reveal_strlit("1.82.0");
        reveal_strlit(".");
        reveal_with_fuel(text::decimal, 2);
        assert("1.82.0"@ =~= version::release_text(1, 82, 0));
        version::law_a_release_reads_back(1, 82, 0);
    }
    Version::parse("1.82.0").unwrap()
}

/// Writes whether the version of Rust, where it can be told, can build contracts.
pub fn check_rust_version(print: &mut Print, rust_version: &Option<Version>)
    ensures
        final(print)@ == old(print)@ + rust_lines(version::version_if_any(*rust_version)),
{
    match rust_version {
        Some(rust) => {
            if !rust.is_before(&rust_1_82()) && rust.is_before(&rust_1_84()) {
                print.errorln(
                    "Rust ".to_owned().concat(rust.text().as_str()).concat(
                        " cannot be used to build contracts",
                    ),
                );
            } else {
                print.infoln("Rust version: ".to_owned().concat(rust.text().as_str()));
            }
        },
        None => print.warnln("Could not determine Rust version".to_owned()),
    }
}

/// The target that contracts are built for.
pub open spec fn wasm_target(rust: Option<VersionView>) -> Seq<char> {
    match rust {
        Some(rust) if version::precedes(
            rust,
            version::release(1, 84, 0),
        ) => "wasm32-unknown-unknown"@,
        _ => "wasm32v1-none"@,
    }
}

/// The target that contracts are built for. It is the newer one where the version
/// of Rust cannot be told.
pub fn get_expected_wasm_target(rust_version: &Option<Version>) -> (r: String)
    ensures
        r@ == wasm_target(version::version_if_any(*rust_version)),
{
    match rust_version {
        Some(current) => if current.is_before(&rust_1_84()) {
            "wasm32-unknown-unknown".to_owned()
        } else {
            "wasm32v1-none".to_owned()
        },
        None => "wasm32v1-none".to_owned(),
    }
}

/// What `rustup target list --installed` brought.
#[derive(Debug)]
pub enum RustTargets {
    /// It could not be run.
    NotRun,
    /// It exited with an error.
    Failed,
    /// It succeeded and wrote this.
    Listed(Vec<u8>),
}

/// Whether a list of targets, one to a line, names `target`.
pub open spec fn names_target(listed: Seq<char>, target: Seq<char>) -> bool {
    exists|i: int|
        0 <= i < text::lines_of(listed).len() && text::trimmed(
            #[trigger] text::lines_of(listed)[i],
        ) == target
}

/// Whether a list of targets, one to a line, names `target`.
pub fn lists_target(listed: &str, target: &str) -> (r: bool)
    ensures
        r == names_target(listed@, target@),
{
    let all = lines(listed);
    let ghost l = text::lines_of(listed@);
    assert(l.len() == all@.len());
    let mut i: usize = 0;
    while i < all.len()
        invariant
            i <= all.len(),
            text::texts(all@) == l,
            l == text::lines_of(listed@),
            forall|k: int| 0 <= k < i ==> text::trimmed(#[trigger] l[k]) != target@,
        decreases all.len() - i,
    {
        assert(l[i as int] == all@[i as int]@);
        if same_text(trim(all[i].as_str()).as_str(), target) {
            return true;
        }
        i += 1;
    }
    false
}

/// What is said of the target.
pub open spec fn target_lines(
    rust: Option<VersionView>,
    targets: RustTargets,
) -> Seq<(Mark, Seq<char>)> {
    let target = wasm_target(rust);
    match targets {
        RustTargets::Listed(output) => if names_target(text::text_of(output@), target) {
            print::line(Mark::Check, "Rust target `"@ + target + "` is installed"@)
        } else {
            print::line(Mark::Error, "Rust target `"@ + target + "` is not installed"@)
        },
        _ => print::line(Mark::Warn, "Could not retrieve Rust targets"@),
    }
}

/// Writes whether the target that contracts are built for is installed.
pub fn check_wasm_target(
    print: &mut Print,
    rust_version: &Option<Version>,
    targets: &RustTargets,
)
    ensures
        final(print)@ == old(print)@ + target_lines(version::version_if_any(*rust_version), *targets),
{
    let expected = get_expected_wasm_target(rust_version);
    match targets {
        RustTargets::Listed(output) => {
            if lists_target(from_utf8_lossy(output).as_str(), expected.as_str()) {
                print.checkln(
                    "Rust target `".to_owned().concat(expected.as_str()).concat("` is installed"),
                );
            } else {
                print.errorln(
                    "Rust target `".to_owned().concat(expected.as_str()).concat(
                        "` is not installed",
                    ),
                );
            }
        },
        _ => print.warnln("Could not retrieve Rust targets".to_owned()),
    }
}

// ---------------------------------------------------------------------------
// Container engine
// ---------------------------------------------------------------------------

/// Which container engine is to be used.
#[derive(Debug)]
pub enum EngineSetting {
    /// The setting names no engine. `supported` lists those there are.
    Unknown { value: String, supported: String },
    /// The engine, as it is shown, and the program to run for it.
    Resolved { engine: String, program: String },
}

/// What is said of the container engine. An unknown one is reported as such
/// instead of a default that nobody asked for.
pub open spec fn engine_lines(
    setting: EngineSetting,
    installed: bool,
) -> Seq<(Mark, Seq<char>)> {
    match setting {
        EngineSetting::Unknown { value, supported } => print::line(
            Mark::Warn,
            "Unknown container engine `"@ + value@ + "`; expected one of: "@ + supported@,
        ),
        EngineSetting::Resolved { engine, .. } => if installed {
            print::line(Mark::Check, "Container engine `"@ + engine@ + "` is available"@)
        } else {
            print::line(Mark::Warn, "Container engine `"@ + engine@ + "` is not installed"@)
        },
    }
}

/// Writes whether the container engine is known and, where it is, whether its
/// program could be run.
pub fn check_container_engine(print: &mut Print, setting: &EngineSetting, installed: bool)
    ensures
        final(print)@ == old(print)@ + engine_lines(*setting, installed),
{
    match setting {
        EngineSetting::Unknown { value, supported } => print.warnln(
            "Unknown container engine `".to_owned().concat(value.as_str()).concat(
                "`; expected one of: ",
            ).concat(supported.as_str()),
        ),
        EngineSetting::Resolved { engine, .. } => if installed {
            print.checkln(
                "Container engine `".to_owned().concat(engine.as_str()).concat("` is available"),
            );
        } else {
            print.warnln(
                "Container engine `".to_owned().concat(engine.as_str()).concat(
                    "` is not installed",
                ),
            );
        },
    }
}

// ---------------------------------------------------------------------------
// Optional features
// ---------------------------------------------------------------------------

/// What is said of the features that come with additional libraries.
pub open spec fn feature_lines(additional_libs: bool) -> Seq<(Mark, Seq<char>)> {
    if additional_libs {
        print::line(Mark::Check, "Wasm optimization"@) + print::line(
            Mark::Check,
            "Secure store (OS keyring)"@,
        ) + print::line(Mark::Check, "Ledger hardware wallet"@)
    } else {
        print::line(
            Mark::Warn,
            "The following features are disabled until `--features additional-libs` is used:"@,
        ) + print::line(Mark::Blank, "- Wasm optimization"@) + print::line(
            Mark::Blank,
            "- Secure store (OS keyring)"@,
        ) + print::line(Mark::Blank, "- Ledger hardware wallet"@)
    }
}

/// Writes which optional features the CLI was built with.
pub fn check_optional_features(print: &mut Print, additional_libs: bool)
    ensures
        final(print)@ == old(print)@ + feature_lines(additional_libs),
{
    if additional_libs {
        print.checkln("Wasm optimization".to_owned());
        print.checkln("Secure store (OS keyring)".to_owned());
        print.checkln("Ledger hardware wallet".to_owned());
    } else {
        print.warnln(
            "The following features are disabled until `--features additional-libs` is used:".to_owned(),
        );
        print.blankln("- Wasm optimization".to_owned());
        print.blankln("- Secure store (OS keyring)".to_owned());
        print.blankln("- Ledger hardware wallet".to_owned());
    }
    assert(print@ =~= old(print)@ + feature_lines(additional_libs));
}

// ---------------------------------------------------------------------------
// Laws
// ---------------------------------------------------------------------------

/// Which versions of Rust are refused: every 1.82 and 1.83 but the pre-releases of
/// 1.82.0, and the pre-releases of 1.84.0.
pub proof fn law_refused_rust(rust: VersionView)
    ensures
        cannot_build(rust) <==> rust.major == 1 && {
            ||| rust.minor == 82 && (rust.patch > 0 || rust.pre.len() == 0)
            ||| rust.minor == 83
            ||| rust.minor == 84 && rust.patch == 0 && rust.pre.len() > 0
        },
{
    version::law_before_a_release(rust, 1, 82, 0);
    version::law_before_a_release(rust, 1, 84, 0);
}

/// The newer target is expected exactly of Rust 1.84.0 and later, and where the
/// version of Rust cannot be told. So no version that is refused expects it.
pub proof fn law_newer_target_from_1_84(rust: Option<VersionView>)
    ensures
        wasm_target(rust) == "wasm32v1-none"@ <==> (rust matches Some(v) ==> {
            ||| v.major > 1
            ||| v.major == 1 && v.minor > 84
            ||| v.major == 1 && v.minor == 84 && (v.patch > 0 || v.pre.len() == 0)
        }),
        wasm_target(rust) != "wasm32v1-none"@ ==> wasm_target(rust) == "wasm32-unknown-unknown"@,
        rust matches Some(v) && cannot_build(v) ==> wasm_target(rust) == "wasm32-unknown-unknown"@,
{
    reveal_strlit("wasm32v1-none");
    reveal_strlit("wasm32-unknown-unknown");
    assert("wasm32v1-none"@.len() != "wasm32-unknown-unknown"@.len());
    match rust {
        Some(v) => {
            version::law_before_a_release(v, 1, 84, 0);
        },
        None => {},
    }
}

proof fn lemma_lines_add_up(before: Seq<char>, rest: Seq<char>)
    requires
        before.len() > 0 ==> before.last() == '\n',
    ensures
        text::lines_of(before + rest) == text::lines_of(before) + text::lines_of(rest),
    decreases before.len(),
{
    if before.len() == 0 {
        assert(before + rest =~= rest);
        assert(text::lines_of(before) + text::lines_of(rest) =~= text::lines_of(rest));
    } else {
        text::lemma_line_end(before);
        let n = text::line_end(before);
        if n == before.len() {
            assert(before[before.len() - 1] != '\n');
        }
        let (line, more) = (before.take(n), before.skip(n + 1));
        assert(before =~= line + seq!['\n'] + more);
        assert(before + rest =~= line + seq!['\n'] + (more + rest));
        text::law_lines_end_at_line_feeds(line, more);
        text::law_lines_end_at_line_feeds(line, more + rest);
        if more.len() > 0 {
            assert(more.last() == before.last());
        }
        lemma_lines_add_up(more, rest);
        assert(text::lines_of(before + rest) =~= text::lines_of(before) + text::lines_of(rest));
    }
}

/// A target that stands on a line of its own is found, wherever the line stands and
/// whatever whitespace is around the target.
pub proof fn law_a_listed_target_is_found(
    before: Seq<char>,
    left: Seq<char>,
    target: Seq<char>,
    right: Seq<char>,
    after: Seq<char>,
)
    requires
        before.len() > 0 ==> before.last() == '\n',
        forall|i: int| 0 <= i < left.len() ==> text::is_space(#[trigger] left[i]) && left[i] != '\n',
        target.len() > 0,
        !text::is_space(target[0]),
        !text::is_space(target.last()),
        forall|i: int| 0 <= i < target.len() ==> #[trigger] target[i] != '\n',
        forall|i: int|
            0 <= i < right.len() ==> text::is_space(#[trigger] right[i]) && right[i] != '\n',
        after.len() > 0 ==> after[0] == '\n',
    ensures
        names_target(before + left + target + right + after, target),
{
    let line = left + target + right;
    let listed = before + left + target + right + after;
    assert(listed =~= before + (line + after));
    lemma_lines_add_up(before, line + after);
    let n = text::lines_of(before).len() as int;
    assert forall|i: int| 0 <= i < line.len() implies #[trigger] line[i] != '\n' by {
        if i < left.len() {
            assert(line[i] == left[i]);
        } else if i < left.len() + target.len() {
            assert(line[i] == target[i - left.len()]);
        } else {
            assert(line[i] == right[i - left.len() - target.len()]);
        }
    }
    text::law_trimming_leaves_the_text(left, target, right);
    if after.len() == 0 {
        assert(line + after =~= line);
        text::law_lines_end_at_line_feeds(line, after);
        assert(text::lines_of(line + after)[0] == line);
        assert(text::lines_of(listed)[n] == line);
    } else {
        let rest = after.drop_first();
        assert(line + after =~= line + seq!['\n'] + rest);
        text::law_lines_end_at_line_feeds(line, rest);
        let bare = if line.last() == '\r' {
            line.drop_last()
        } else {
            line
        };
        assert(text::lines_of(line + after)[0] == bare);
        assert(text::lines_of(listed)[n] == bare);
        if line.last() == '\r' {
            if right.len() == 0 {
                assert(line.last() == target.last());
            } else {
                assert(bare =~= left + target + right.drop_last());
                text::law_trimming_leaves_the_text(left, target, right.drop_last());
            }
        }
    }
}

/// Only a target that is some line of the list, but for whitespace around it, is found.
pub proof fn law_a_target_that_is_found_is_listed(listed: Seq<char>, target: Seq<char>)
    requires
        names_target(listed, target),
    ensures
        exists|before: Seq<char>, line: Seq<char>, after: Seq<char>|
            {
                &&& listed == #[trigger] (before + line + after)
                &&& before.len() > 0 ==> before.last() == '\n'
                &&& forall|i: int| 0 <= i < line.len() ==> #[trigger] line[i] != '\n'
                &&& after.len() > 0 ==> after[0] == '\n' || after.len() > 1 && after[0] == '\r'
                    && after[1] == '\n'
                &&& text::trimmed(line) == target
            },
    decreases listed.len(),
{
    let i = choose|i: int|
        0 <= i < text::lines_of(listed).len() && text::trimmed(
            #[trigger] text::lines_of(listed)[i],
        ) == target;
    text::lemma_line_end(listed);
    let n = text::line_end(listed);
    let line = text::first_line(listed);
    let empty = Seq::<char>::empty();
    if i == 0 {
        let after = listed.skip(line.len() as int);
        assert(text::lines_of(listed)[0] == line);
        assert(listed =~= empty + line + after);
        assert forall|k: int| 0 <= k < line.len() implies #[trigger] line[k] != '\n' by {
            assert(line[k] == listed[k]);
        }
        if after.len() > 0 {
            assert(after[0] == listed[line.len() as int]);
            if after[0] != '\n' {
                assert(after[1] == listed[n]);
            }
        }
    } else {
        let head = listed.take(n + 1);
        let rest = listed.skip(n + 1);
        assert(text::lines_of(listed)[i] == text::lines_of(rest)[i - 1]);
        assert(names_target(rest, target));
        law_a_target_that_is_found_is_listed(rest, target);
        let (before, found, after) = choose|before: Seq<char>, line: Seq<char>, after: Seq<char>|
            {
                &&& rest == #[trigger] (before + line + after)
                &&& before.len() > 0 ==> before.last() == '\n'
                &&& forall|i: int| 0 <= i < line.len() ==> #[trigger] line[i] != '\n'
                &&& after.len() > 0 ==> after[0] == '\n' || after.len() > 1 && after[0] == '\r'
                    && after[1] == '\n'
                &&& text::trimmed(line) == target
            };
        let longer = head + before;
        assert(listed =~= head + rest);
        assert(listed =~= longer + found + after);
        if before.len() > 0 {
            assert(longer.last() == before.last());
        } else {
            assert(longer.last() == listed[n]);
        }
    }
}

proof fn lemma_wasm_target_is_a_word(rust: Option<VersionView>)
    ensures
        wasm_target(rust).len() > 0,
        forall|i: int| 0 <= i < wasm_target(rust).len() ==> !text::is_space(
            #[trigger] wasm_target(rust)[i],
        ),
{
    reveal_strlit("wasm32v1-none");
    reveal_strlit("wasm32-unknown-unknown");
}

/// The target that contracts are built for is reported as installed where some line of
/// the list is that target, wherever it stands, and as missing where none is.
pub proof fn law_the_target_is_reported_where_it_is_listed(
    rust: Option<VersionView>,
    output: Vec<u8>,
    before: Seq<char>,
    left: Seq<char>,
    right: Seq<char>,
    after: Seq<char>,
)
    requires
        before.len() > 0 ==> before.last() == '\n',
        forall|i: int| 0 <= i < left.len() ==> text::is_space(#[trigger] left[i]) && left[i] != '\n',
        forall|i: int|
            0 <= i < right.len() ==> text::is_space(#[trigger] right[i]) && right[i] != '\n',
        after.len() > 0 ==> after[0] == '\n',
    ensures
        text::text_of(output@) == before + left + wasm_target(rust) + right + after
            ==> target_lines(rust, RustTargets::Listed(output)) == seq![
            (Mark::Check, "Rust target `"@ + wasm_target(rust) + "` is installed"@),
        ],
{
    let target = wasm_target(rust);
    lemma_wasm_target_is_a_word(rust);
    assert(!text::is_space(target[target.len() - 1]));
    assert forall|i: int| 0 <= i < target.len() implies #[trigger] target[i] != '\n' by {
        assert(!text::is_space(target[i]));
    }
    law_a_listed_target_is_found(before, left, target, right, after);
}

/// A list of which no line is the target, but for whitespace around it, is reported as
/// one without it, and a list that could not be had as neither.
pub proof fn law_a_missing_target_is_an_error(rust: Option<VersionView>, output: Vec<u8>)
    ensures
        (forall|before: Seq<char>, line: Seq<char>, after: Seq<char>|
            text::text_of(output@) == #[trigger] (before + line + after) && (before.len() > 0
                ==> before.last() == '\n') && (after.len() > 0 ==> after[0] == '\n' || after.len()
                > 1 && after[0] == '\r' && after[1] == '\n') && (forall|i: int|
                0 <= i < line.len() ==> #[trigger] line[i] != '\n') ==> text::trimmed(line)
                != wasm_target(rust)) ==> target_lines(rust, RustTargets::Listed(output)) == seq![
            (Mark::Error, "Rust target `"@ + wasm_target(rust) + "` is not installed"@),
        ],
        target_lines(rust, RustTargets::NotRun) == seq![
            (Mark::Warn, "Could not retrieve Rust targets"@),
        ],
        target_lines(rust, RustTargets::Failed) == seq![
            (Mark::Warn, "Could not retrieve Rust targets"@),
        ],
{
    if names_target(text::text_of(output@), wasm_target(rust)) {
        law_a_target_that_is_found_is_listed(text::text_of(output@), wasm_target(rust));
    }
}

/// The version of Rust is shown, as an error where it is refused, or is said to be
/// unknown.
pub proof fn law_the_version_of_rust_is_shown(rust: VersionView)
    ensures
        rust_lines(Some(rust)) == seq![
            if rust.major == 1 && {
                ||| rust.minor == 82 && (rust.patch > 0 || rust.pre.len() == 0)
                ||| rust.minor == 83
                ||| rust.minor == 84 && rust.patch == 0 && rust.pre.len() > 0
            } {
                (
                    Mark::Error,
                    "Rust "@ + version::version_text(rust) + " cannot be used to build contracts"@,
                )
            } else {
                (Mark::Info, "Rust version: "@ + version::version_text(rust))
            },
        ],
        rust_lines(None) == seq![(Mark::Warn, "Could not determine Rust version"@)],
{
    law_refused_rust(rust);
}

/// What is said of a container engine names it as it is set, and says that it is there
/// exactly where its program could be run. Of one that is not known it says which there
/// are, whatever could be run.
pub proof fn law_the_engine_is_there_where_it_runs(
    value: String,
    supported: String,
    engine: String,
    program: String,
    installed: bool,
)
    ensures
        engine_lines((EngineSetting::Unknown { value, supported }), installed) == seq![
            (
                Mark::Warn,
                "Unknown container engine `"@ + value@ + "`; expected one of: "@ + supported@,
            ),
        ],
        engine_lines((EngineSetting::Resolved { engine, program }), true) == seq![
            (Mark::Check, "Container engine `"@ + engine@ + "` is available"@),
        ],
        engine_lines((EngineSetting::Resolved { engine, program }), false) == seq![
            (Mark::Warn, "Container engine `"@ + engine@ + "` is not installed"@),
        ],
{
}

/// The same three features are named whether they are there or not: with the success
/// mark where they are, else beneath a warning that tells how to get them.
pub proof fn law_features_are_all_there_or_all_missing()
    ensures
        ({
            let there = feature_lines(true);
            let missing = feature_lines(false);
            &&& there.len() == 3
            &&& missing.len() == 4
            &&& missing[0] == (
                Mark::Warn,
                "The following features are disabled until `--features additional-libs` is used:"@,
            )
            &&& there[0].1 == "Wasm optimization"@
            &&& there[1].1 == "Secure store (OS keyring)"@
            &&& there[2].1 == "Ledger hardware wallet"@
            &&& forall|i: int|
                0 <= i < 3 ==> (#[trigger] there[i]).0 == Mark::Check && missing[i + 1] == (
                    Mark::Blank,
                    "- "@ + there[i].1,
                )
        }),
{
    reveal_strlit("- ");
    reveal_strlit("Wasm optimization");
    reveal_strlit("- Wasm optimization");
    reveal_strlit("Secure store (OS keyring)");
    reveal_strlit("- Secure store (OS keyring)");
    reveal_strlit("Ledger hardware wallet");
    reveal_strlit("- Ledger hardware wallet");
    assert("- Wasm optimization"@ =~= "- "@ + "Wasm optimization"@);
    assert("- Secure store (OS keyring)"@ =~= "- "@ + "Secure store (OS keyring)"@);
    assert("- Ledger hardware wallet"@ =~= "- "@ + "Ledger hardware wallet"@);
}

} // verus!
