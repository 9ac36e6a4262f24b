//! Semantic versions, as the `semver` crate reads and orders them.

use crate::text;
use crate::text::number;
use vstd::prelude::*;

verus! {

/// What a semantic version says.
pub struct VersionView {
    pub major: nat,
    pub minor: nat,
    pub patch: nat,
    /// Empty for a release.
    pub pre: Seq<char>,
    /// Empty where there is no build metadata.
    pub build: Seq<char>,
}

/// A semantic version.
#[derive(Debug)]
pub struct Version {
    major: u64,
    minor: u64,
    patch: u64,
    pre: String,
    build: String,
}

impl View for Version {
    type V = VersionView;

    closed spec fn view(&self) -> VersionView {
        VersionView {
            major: self.major as nat,
            minor: self.minor as nat,
            patch: self.patch as nat,
            pre: self.pre@,
            build: self.build@,
        }
    }
}

/// What a version that may be missing says.
pub open spec fn version_if_any(v: Option<Version>) -> Option<VersionView> {
    match v {
        Some(v) => Some(v@),
        None => None,
    }
}

/// What a version that may be missing says, where it is borrowed.
pub open spec fn latest_if_any(v: Option<&Version>) -> Option<VersionView> {
    match v {
        Some(v) => Some(v@),
        None => None,
    }
}

/// A release: no pre-release identifiers and no build metadata.
pub open spec fn release(major: nat, minor: nat, patch: nat) -> VersionView {
    VersionView { major, minor, patch, pre: Seq::empty(), build: Seq::empty() }
}

/// How a release is written.
pub open spec fn release_text(major: nat, minor: nat, patch: nat) -> Seq<char> {
    text::decimal(major) + "."@ + text::decimal(minor) + "."@ + text::decimal(patch)
}

/// How a version is written.
pub open spec fn version_text(v: VersionView) -> Seq<char> {
    release_text(v.major, v.minor, v.patch) + (if v.pre.len() == 0 {
        Seq::empty()
    } else {
        "-"@ + v.pre
    }) + (if v.build.len() == 0 {
        Seq::empty()
    } else {
        "+"@ + v.build
    })
}

/// A decimal digit.
pub open spec fn is_digit(c: char) -> bool {
    '0' <= c <= '9'
}

/// A character of an identifier: a letter or digit of ASCII, or a hyphen.
pub open spec fn is_identifier_char(c: char) -> bool {
    is_digit(c) || 'a' <= c <= 'z' || 'A' <= c <= 'Z' || c == '-'
}

/// Whether `s` holds nothing but digits.
pub open spec fn is_numeric(s: Seq<char>) -> bool {
    forall|i: int| 0 <= i < s.len() ==> is_digit(#[trigger] s[i])
}

/// What stands before, between and behind the dots of `s`.
pub open spec fn identifiers(s: Seq<char>) -> Seq<Seq<char>>
    decreases s.len(),
{
    if s.len() == 0 {
        seq![s]
    } else {
        let before = identifiers(s.drop_last());
        if s.last() == '.' {
            before.push(Seq::empty())
        } else {
            before.drop_last().push(before.last().push(s.last()))
        }
    }
}

/// A series of identifiers with dots between them, none of them empty.
pub open spec fn is_dotted(s: Seq<char>) -> bool {
    &&& forall|i: int| 0 <= i < s.len() ==> #[trigger] s[i] == '.' || is_identifier_char(s[i])
    &&& forall|i: int| 0 <= i < identifiers(s).len() ==> #[trigger] identifiers(s)[i].len() > 0
}

/// Whether `s` can stand as build metadata, or for there being none.
pub open spec fn is_build(s: Seq<char>) -> bool {
    s.len() == 0 || is_dotted(s)
}

/// Whether `s` can stand as pre-release identifiers, or for there being none. A
/// number among them has no leading zero.
pub open spec fn is_prerelease(s: Seq<char>) -> bool {
    s.len() == 0 || is_dotted(s) && forall|i: int|
        0 <= i < identifiers(s).len() && is_numeric(#[trigger] identifiers(s)[i])
            && identifiers(s)[i].len() > 1 ==> identifiers(s)[i][0] != '0'
}

/// Whether these parts make a semantic version.
pub open spec fn is_semver(v: VersionView) -> bool {
    &&& v.major <= u64::MAX
    &&& v.minor <= u64::MAX
    &&& v.patch <= u64::MAX
    &&& is_prerelease(v.pre)
    &&& is_build(v.build)
}

/// The version that a text spells, if it spells one: the one that is written so.
pub open spec fn version_of(t: Seq<char>) -> Option<VersionView> {
    if exists|v: VersionView| is_semver(v) && #[trigger] version_text(v) == t {
        Some(choose|v: VersionView| is_semver(v) && #[trigger] version_text(v) == t)
    } else {
        None
    }
}

/// The number that digits stand for.
pub open spec fn value(s: Seq<char>) -> nat
    decreases s.len(),
{
    if s.len() == 0 {
        0
    } else {
        value(s.drop_last()) * 10 + (s.last() as nat - '0' as nat) as nat
    }
}

/// Whether `a` comes before `b` in the order of a dictionary.
pub open spec fn spelled_before(a: Seq<char>, b: Seq<char>) -> bool
    decreases a.len(),
{
    b.len() > 0 && (a.len() == 0 || a[0] < b[0] || a[0] == b[0] && spelled_before(
        a.drop_first(),
        b.drop_first(),
    ))
}

/// Whether one identifier sorts before another: numbers by their value, and where
/// that is the same by their leading zeros; others as in a dictionary; a number
/// before any other.
pub open spec fn identifier_before(a: Seq<char>, b: Seq<char>) -> bool {
    if is_numeric(a) && is_numeric(b) {
        value(a) < value(b) || value(a) == value(b) && a.len() < b.len()
    } else if is_numeric(a) || is_numeric(b) {
        is_numeric(a)
    } else {
        spelled_before(a, b)
    }
}

/// Whether one series of identifiers sorts before another: the first that differs
/// decides, and where none does the shorter series comes first.
pub open spec fn series_before(a: Seq<Seq<char>>, b: Seq<Seq<char>>) -> bool
    decreases a.len(),
{
    b.len() > 0 && (a.len() == 0 || if a[0] == b[0] {
        series_before(a.drop_first(), b.drop_first())
    } else {
        identifier_before(a[0], b[0])
    })
}

/// Whether `a` sorts before `b`: by the three numbers, of which the first that
/// differs decides; by the pre-release identifiers, where a pre-release comes
/// before its release; by the build metadata, with none of it before any.
pub open spec fn precedes(a: VersionView, b: VersionView) -> bool {
    if a.major != b.major {
        a.major < b.major
    } else if a.minor != b.minor {
        a.minor < b.minor
    } else if a.patch != b.patch {
        a.patch < b.patch
    } else if a.pre != b.pre {
        b.pre.len() == 0 || a.pre.len() > 0 && series_before(identifiers(a.pre), identifiers(b.pre))
    } else if a.build != b.build {
        a.build.len() == 0 || b.build.len() > 0 && series_before(
            identifiers(a.build),
            identifiers(b.build),
        )
    } else {
        false
    }
}

/// What the parts of a version say.
pub open spec fn joined(parts: (u64, u64, u64, String, String)) -> VersionView {
    VersionView {
        major: parts.0 as nat,
        minor: parts.1 as nat,
        patch: parts.2 as nat,
        pre: parts.3@,
        build: parts.4@,
    }
}

/// Calls `semver::Version::parse` and takes the version apart: the three
/// numbers, the pre-release identifiers and the build metadata. Trusted: what is
/// read is a semantic version that is written as the text, and nothing is read
/// only where there is no such version.
#[verifier::external_body]
fn read_version(text: &str) -> (r: Option<(u64, u64, u64, String, String)>)
    ensures
        r is Some ==> is_semver(joined(r.unwrap())) && version_text(joined(r.unwrap())) == text@,
        r is None ==> (forall|v: VersionView| is_semver(v) ==> #[trigger] version_text(v) != text@),
{
    match semver::Version::parse(text) {
        Ok(v) => Some((v.major, v.minor, v.patch, v.pre.to_string(), v.build.to_string())),
        Err(_) => None,
    }
}

/// Calls `<` on two values of `semver::Version`, put together again from their
/// parts. Trusted: they sort as [`precedes`] says, and the parts of a semantic
/// version can be put together.
#[verifier::external_body]
fn less_than(a: &Version, b: &Version) -> (r: bool)
    requires
        is_semver(a@),
        is_semver(b@),
    ensures
        r == precedes(a@, b@),
{
    let mut x = semver::Version::new(a.major, a.minor, a.patch);
    x.pre = semver::Prerelease::new(&a.pre).unwrap();
    x.build = semver::BuildMetadata::new(&a.build).unwrap();
    let mut y = semver::Version::new(b.major, b.minor, b.patch);
    y.pre = semver::Prerelease::new(&b.pre).unwrap();
    y.build = semver::BuildMetadata::new(&b.build).unwrap();
    x < y
}

impl Version {
    /// The parts of a version make a semantic version.
    #[verifier::type_invariant]
    closed spec fn well_formed(&self) -> bool {
        is_semver(self@)
    }

    /// The version that `text` spells, if it spells one.
    pub fn parse(text: &str) -> (r: Option<Version>)
        ensures
            match r {
                Some(v) => version_of(text@) == Some(v@),
                None => version_of(text@) is None,
            },
    {
        match read_version(text) {
            Some((major, minor, patch, pre, build)) => {
                proof {
                    law_a_version_reads_back(joined((major, minor, patch, pre, build)));
                }
                Some(Version { major, minor, patch, pre, build })
            },
            None => None,
        }
    }

    /// The release with these numbers, read from how it is written.
    pub fn new(major: u64, minor: u64, patch: u64) -> (r: Version)
        ensures
            r@ == release(major as nat, minor as nat, patch as nat),
    {
        let text = number(major).concat(".").concat(number(minor).as_str()).concat(".").concat(
            number(patch).as_str(),
        );
        proof {
            law_a_release_reads_back(major, minor, patch);
        }
        Version::parse(text.as_str()).unwrap()
    }

    /// Whether this version sorts before `other`.
    pub fn is_before(&self, other: &Version) -> (r: bool)
        ensures
            r == precedes(self@, other@),
    {
        proof {
            use_type_invariant(self);
            use_type_invariant(other);
        }
        less_than(self, other)
    }

    /// The version as it is written.
    pub fn text(&self) -> (r: String)
        ensures
            r@ == version_text(self@),
    {
        let mut r = number(self.major).concat(".").concat(number(self.minor).as_str()).concat(
            ".",
        ).concat(number(self.patch).as_str());
        if !self.pre.as_str().is_empty() {
            r = r.concat("-").concat(self.pre.as_str());
        }
        if !self.build.as_str().is_empty() {
            r = r.concat("+").concat(self.build.as_str());
        }
        assert(r@ =~= version_text(self@));
        r
    }
}

// ---------------------------------------------------------------------------
// Laws
// ---------------------------------------------------------------------------

proof fn lemma_decimal(n: nat)
    ensures
        text::decimal(n).len() > 0,
        is_numeric(text::decimal(n)),
        text::decimal(n).len() == 1 <==> n < 10,
    decreases n,
{
    if n >= 10 {
        lemma_decimal(n / 10);
    }
}

proof fn lemma_decimal_is_injective(m: nat, n: nat)
    requires
        text::decimal(m) == text::decimal(n),
    ensures
        m == n,
    decreases m,
{
    let (a, b) = (text::decimal(m), text::decimal(n));
    lemma_decimal(m);
    lemma_decimal(n);
    if m < 10 {
        assert(a[0] == text::digit(m) && b[0] == text::digit(n));
    } else {
        assert(a.drop_last() =~= text::decimal(m / 10));
        assert(b.drop_last() =~= text::decimal(n / 10));
        assert(a.last() == text::digit(m % 10) && b.last() == text::digit(n % 10));
        lemma_decimal_is_injective(m / 10, n / 10);
    }
}

/// A text falls apart in one way only where the characters of its first part have
/// a property that its second part does not start with.
proof fn lemma_split(
    p: spec_fn(char) -> bool,
    x: Seq<char>,
    u: Seq<char>,
    y: Seq<char>,
    v: Seq<char>,
)
    requires
        forall|i: int| 0 <= i < x.len() ==> p(#[trigger] x[i]),
        forall|i: int| 0 <= i < y.len() ==> p(#[trigger] y[i]),
        u.len() > 0 ==> !p(u[0]),
        v.len() > 0 ==> !p(v[0]),
        x + u == y + v,
    ensures
        x == y,
        u == v,
{
    let s = x + u;
    let t = y + v;
    if x.len() < y.len() {
        assert(s[x.len() as int] == u[0]);
        assert(t[x.len() as int] == y[x.len() as int]);
    }
    if y.len() < x.len() {
        assert(t[y.len() as int] == v[0]);
        assert(s[y.len() as int] == x[y.len() as int]);
    }
    assert(s.take(x.len() as int) =~= x);
    assert(t.take(y.len() as int) =~= y);
    assert(s.skip(x.len() as int) =~= u);
    assert(t.skip(y.len() as int) =~= v);
}

spec fn pre_part(v: VersionView) -> Seq<char> {
    if v.pre.len() == 0 {
        Seq::empty()
    } else {
        "-"@ + v.pre
    }
}

spec fn build_part(v: VersionView) -> Seq<char> {
    if v.build.len() == 0 {
        Seq::empty()
    } else {
        "+"@ + v.build
    }
}

proof fn lemma_version_text_is_injective(v: VersionView, w: VersionView)
    requires
        is_semver(v),
        is_semver(w),
        version_text(v) == version_text(w),
    ensures
        v == w,
{
    reveal_strlit(".");
    reveal_strlit("-");
    reveal_strlit("+");
    let d = |c: char| is_digit(c);
    let no_plus = |c: char| c != '+';
    let (a, b, c) = (text::decimal(v.major), text::decimal(v.minor), text::decimal(v.patch));
    let (x, y, z) = (text::decimal(w.major), text::decimal(w.minor), text::decimal(w.patch));
    lemma_decimal(v.major);
    lemma_decimal(v.minor);
    lemma_decimal(v.patch);
    lemma_decimal(w.major);
    lemma_decimal(w.minor);
    lemma_decimal(w.patch);
    let (p, q) = (pre_part(v), build_part(v));
    let (r, s) = (pre_part(w), build_part(w));
    assert(version_text(v) =~= a + ("."@ + (b + ("."@ + (c + (p + q))))));
    assert(version_text(w) =~= x + ("."@ + (y + ("."@ + (z + (r + s))))));
    lemma_split(d, a, "."@ + (b + ("."@ + (c + (p + q)))), x, "."@ + (y + ("."@ + (z + (r + s)))));
    assert(("."@ + (b + ("."@ + (c + (p + q))))).skip(1) =~= b + ("."@ + (c + (p + q))));
    assert(("."@ + (y + ("."@ + (z + (r + s))))).skip(1) =~= y + ("."@ + (z + (r + s))));
    lemma_split(d, b, "."@ + (c + (p + q)), y, "."@ + (z + (r + s)));
    assert(("."@ + (c + (p + q))).skip(1) =~= c + (p + q));
    assert(("."@ + (z + (r + s))).skip(1) =~= z + (r + s));
    lemma_split(d, c, p + q, z, r + s);
    lemma_split(no_plus, p, q, r, s);
    lemma_decimal_is_injective(v.major, w.major);
    lemma_decimal_is_injective(v.minor, w.minor);
    lemma_decimal_is_injective(v.patch, w.patch);
    assert(v.pre =~= w.pre) by {
        assert(v.pre.len() > 0 ==> p.skip(1) =~= v.pre);
        assert(w.pre.len() > 0 ==> r.skip(1) =~= w.pre);
    }
    assert(v.build =~= w.build) by {
        assert(v.build.len() > 0 ==> q.skip(1) =~= v.build);
        assert(w.build.len() > 0 ==> s.skip(1) =~= w.build);
    }
}

/// A version reads back as it is written: its text spells this version, and no
/// other.
pub proof fn law_a_version_reads_back(v: VersionView)
    requires
        is_semver(v),
    ensures
        version_of(version_text(v)) == Some(v),
{
    let t = version_text(v);
    let w = choose|w: VersionView| is_semver(w) && #[trigger] version_text(w) == t;
    lemma_version_text_is_injective(v, w);
}

/// A version that was read is written as the text that it was read from.
pub proof fn law_reading_keeps_the_text(t: Seq<char>)
    ensures
        version_of(t) matches Some(v) ==> is_semver(v) && version_text(v) == t,
{
}

/// Three numbers with dots between them spell the release with these numbers.
pub proof fn law_a_release_reads_back(major: u64, minor: u64, patch: u64)
    ensures
        version_of(release_text(major as nat, minor as nat, patch as nat)) == Some(
            release(major as nat, minor as nat, patch as nat),
        ),
{
    let v = release(major as nat, minor as nat, patch as nat);
    assert(version_text(v) =~= release_text(major as nat, minor as nat, patch as nat));
    law_a_version_reads_back(v);
}

/// A text that spells a version is one word that starts with a digit: there is
/// nothing in it but letters, digits, dots, hyphens and plus signs.
pub proof fn law_a_version_is_one_word(t: Seq<char>)
    requires
        version_of(t) is Some,
    ensures
        t.len() > 0,
        is_digit(t[0]),
        forall|i: int|
            0 <= i < t.len() ==> is_identifier_char(#[trigger] t[i]) || t[i] == '.' || t[i] == '+',
        forall|i: int| 0 <= i < t.len() ==> !text::is_space(#[trigger] t[i]),
{
    reveal_strlit(".");
    reveal_strlit("-");
    reveal_strlit("+");
    let v = version_of(t).unwrap();
    let (a, b, c) = (text::decimal(v.major), text::decimal(v.minor), text::decimal(v.patch));
    lemma_decimal(v.major);
    lemma_decimal(v.minor);
    lemma_decimal(v.patch);
    assert(t == version_text(v));
    assert(t =~= a + "."@ + b + "."@ + c + pre_part(v) + build_part(v));
    assert(t[0] == a[0]);
    let ok = |s: Seq<char>|
        forall|i: int|
            0 <= i < s.len() ==> is_identifier_char(#[trigger] s[i]) || s[i] == '.' || s[i] == '+';
    assert(ok(a) && ok(b) && ok(c) && ok("."@) && ok(pre_part(v)) && ok(build_part(v)));
    assert(ok(a + "."@));
    assert(ok(a + "."@ + b));
    assert(ok(a + "."@ + b + "."@));
    assert(ok(a + "."@ + b + "."@ + c));
    assert(ok(a + "."@ + b + "."@ + c + pre_part(v)));
    assert(ok(t));
}

proof fn lemma_spelled(a: Seq<char>, b: Seq<char>)
    ensures
        a == b ==> !spelled_before(a, b),
        a != b ==> spelled_before(a, b) != spelled_before(b, a),
    decreases a.len(),
{
    if a.len() > 0 && b.len() > 0 {
        lemma_spelled(a.drop_first(), b.drop_first());
        assert(a =~= seq![a[0]] + a.drop_first());
        assert(b =~= seq![b[0]] + b.drop_first());
    } else {
        assert(a.len() == b.len() ==> a =~= b);
    }
}

proof fn lemma_value(a: Seq<char>, b: Seq<char>)
    requires
        is_numeric(a),
        is_numeric(b),
        a.len() == b.len(),
        value(a) == value(b),
    ensures
        a == b,
    decreases a.len(),
{
    if a.len() > 0 {
        assert(is_digit(a.last()) && is_digit(b.last()));
        assert(a.last() == b.last() && value(a.drop_last()) == value(b.drop_last()));
        lemma_value(a.drop_last(), b.drop_last());
        assert(a =~= a.drop_last().push(a.last()));
        assert(b =~= b.drop_last().push(b.last()));
    } else {
        assert(a =~= b);
    }
}

proof fn lemma_identifier(a: Seq<char>, b: Seq<char>)
    ensures
        a == b ==> !identifier_before(a, b),
        a != b ==> identifier_before(a, b) != identifier_before(b, a),
{
    lemma_spelled(a, b);
    if is_numeric(a) && is_numeric(b) && a.len() == b.len() && value(a) == value(b) {
        lemma_value(a, b);
    }
}

proof fn lemma_series(a: Seq<Seq<char>>, b: Seq<Seq<char>>)
    ensures
        a != b ==> series_before(a, b) != series_before(b, a),
    decreases a.len(),
{
    if a.len() > 0 && b.len() > 0 {
        lemma_identifier(a[0], b[0]);
        lemma_series(a.drop_first(), b.drop_first());
        assert(a =~= seq![a[0]] + a.drop_first());
        assert(b =~= seq![b[0]] + b.drop_first());
    } else {
        assert(a.len() == b.len() ==> a =~= b);
    }
}

proof fn lemma_identifiers_are_some(s: Seq<char>)
    ensures
        identifiers(s).len() > 0,
        s.len() > 0 && s.last() == '.' ==> identifiers(s).len() > 1,
    decreases s.len(),
{
    if s.len() > 0 {
        lemma_identifiers_are_some(s.drop_last());
    }
}

proof fn lemma_identifiers_are_injective(a: Seq<char>, b: Seq<char>)
    requires
        identifiers(a) == identifiers(b),
    ensures
        a == b,
    decreases a.len(),
{
    let (s, t) = (identifiers(a), identifiers(b));
    lemma_identifiers_are_some(a);
    lemma_identifiers_are_some(b);
    if a.len() == 0 || b.len() == 0 {
        assert(s.last().len() == 0);
        assert(a =~= b);
    } else {
        let (x, y) = (identifiers(a.drop_last()), identifiers(b.drop_last()));
        lemma_identifiers_are_some(a.drop_last());
        lemma_identifiers_are_some(b.drop_last());
        assert(a.last() == '.' <==> s.last().len() == 0);
        assert(b.last() == '.' <==> t.last().len() == 0);
        if a.last() == '.' {
            assert(s.drop_last() =~= x);
            assert(t.drop_last() =~= y);
        } else {
            assert(s.last() == x.last().push(a.last()));
            assert(t.last() == y.last().push(b.last()));
            assert(s.last().drop_last() =~= x.last());
            assert(t.last().drop_last() =~= y.last());
            assert(s.last().last() == a.last() && t.last().last() == b.last());
            assert(s.drop_last() =~= x.drop_last());
            assert(t.drop_last() =~= y.drop_last());
            assert(x =~= x.drop_last().push(x.last()));
            assert(y =~= y.drop_last().push(y.last()));
        }
        lemma_identifiers_are_injective(a.drop_last(), b.drop_last());
        assert(a =~= a.drop_last().push(a.last()));
        assert(b =~= b.drop_last().push(b.last()));
    }
}

/// No version sorts before itself, and of two that differ exactly one sorts before
/// the other.
pub proof fn law_versions_are_ordered(a: VersionView, b: VersionView)
    ensures
        a == b ==> !precedes(a, b),
        a != b ==> precedes(a, b) != precedes(b, a),
{
    lemma_series(identifiers(a.pre), identifiers(b.pre));
    lemma_series(identifiers(a.build), identifiers(b.build));
    if identifiers(a.pre) == identifiers(b.pre) {
        lemma_identifiers_are_injective(a.pre, b.pre);
    }
    if identifiers(a.build) == identifiers(b.build) {
        lemma_identifiers_are_injective(a.build, b.build);
    }
    assert(a.pre.len() == 0 && b.pre.len() == 0 ==> a.pre =~= b.pre);
    assert(a.build.len() == 0 && b.build.len() == 0 ==> a.build =~= b.build);
}

proof fn lemma_spelled_is_transitive(a: Seq<char>, b: Seq<char>, c: Seq<char>)
    requires
        spelled_before(a, b),
        spelled_before(b, c),
    ensures
        spelled_before(a, c),
    decreases a.len(),
{
    if a.len() > 0 && a[0] == b[0] && b[0] == c[0] {
        lemma_spelled_is_transitive(a.drop_first(), b.drop_first(), c.drop_first());
    }
}

proof fn lemma_identifier_is_transitive(a: Seq<char>, b: Seq<char>, c: Seq<char>)
    requires
        identifier_before(a, b),
        identifier_before(b, c),
    ensures
        identifier_before(a, c),
{
    if !is_numeric(a) && !is_numeric(b) && !is_numeric(c) {
        lemma_spelled_is_transitive(a, b, c);
    }
}

proof fn lemma_series_is_transitive(a: Seq<Seq<char>>, b: Seq<Seq<char>>, c: Seq<Seq<char>>)
    requires
        series_before(a, b),
        series_before(b, c),
    ensures
        series_before(a, c),
    decreases a.len(),
{
    if a.len() > 0 {
        if a[0] == b[0] && b[0] == c[0] {
            lemma_series_is_transitive(a.drop_first(), b.drop_first(), c.drop_first());
        } else if a[0] != b[0] && b[0] != c[0] {
            lemma_identifier_is_transitive(a[0], b[0], c[0]);
            lemma_identifier(a[0], b[0]);
            lemma_identifier(a[0], c[0]);
        }
    }
}

/// A version that sorts before another sorts before whatever that one sorts before.
pub proof fn law_order_is_transitive(a: VersionView, b: VersionView, c: VersionView)
    requires
        precedes(a, b),
        precedes(b, c),
    ensures
        precedes(a, c),
{
    law_versions_are_ordered(a, b);
    law_versions_are_ordered(b, c);
    assert(a.pre.len() == 0 && c.pre.len() == 0 ==> a.pre =~= c.pre);
    assert(a.pre.len() == 0 && b.pre.len() == 0 ==> a.pre =~= b.pre);
    assert(b.pre.len() == 0 && c.pre.len() == 0 ==> b.pre =~= c.pre);
    assert(a.build.len() == 0 && c.build.len() == 0 ==> a.build =~= c.build);
    if series_before(identifiers(a.pre), identifiers(b.pre)) && series_before(
        identifiers(b.pre),
        identifiers(c.pre),
    ) {
        lemma_series_is_transitive(identifiers(a.pre), identifiers(b.pre), identifiers(c.pre));
        lemma_series(identifiers(a.pre), identifiers(b.pre));
    }
    if series_before(identifiers(a.build), identifiers(b.build)) && series_before(
        identifiers(b.build),
        identifiers(c.build),
    ) {
        lemma_series_is_transitive(
            identifiers(a.build),
            identifiers(b.build),
            identifiers(c.build),
        );
        lemma_series(identifiers(a.build), identifiers(b.build));
    }
}

/// What sorts before a release: a smaller number in the first place that differs,
/// or a pre-release of that very release.
pub proof fn law_before_a_release(v: VersionView, major: nat, minor: nat, patch: nat)
    ensures
        precedes(v, release(major, minor, patch)) <==> {
            ||| v.major < major
            ||| v.major == major && v.minor < minor
            ||| v.major == major && v.minor == minor && v.patch < patch
            ||| v.major == major && v.minor == minor && v.patch == patch && v.pre.len() > 0
        },
{
    assert(v.pre.len() == 0 ==> v.pre =~= Seq::empty());
    assert(v.build.len() == 0 ==> v.build =~= Seq::empty());
}

/// A version that may be missing is missing exactly where there is none.
pub proof fn law_a_version_is_there_or_not(v: Version)
    ensures
        version_if_any(Some(v)) == Some(v@),
        version_if_any(None) is None,
        latest_if_any(Some(&v)) == Some(v@),
        latest_if_any(None) is None,
{
}

/// Identifiers are what stands between dots: one text without a dot is one identifier,
/// and a dot between two texts keeps their identifiers apart.
pub proof fn law_identifiers_are_kept_apart_by_dots(a: Seq<char>, b: Seq<char>)
    ensures
        identifiers(a + seq!['.'] + b) == identifiers(a) + identifiers(b),
        (forall|i: int| 0 <= i < b.len() ==> #[trigger] b[i] != '.') ==> identifiers(b) == seq![b],
    decreases b.len(),
{
    let s = a + seq!['.'] + b;
    lemma_identifiers_are_some(a);
    lemma_identifiers_are_some(b);
    if b.len() == 0 {
        assert(s.drop_last() =~= a);
        assert(s.last() == '.');
        assert(b =~= Seq::empty());
        assert(identifiers(s) =~= identifiers(a) + identifiers(b));
    } else {
        let shorter = b.drop_last();
        law_identifiers_are_kept_apart_by_dots(a, shorter);
        lemma_identifiers_are_some(shorter);
        assert(s.drop_last() =~= a + seq!['.'] + shorter);
        assert(s.last() == b.last());
        assert(identifiers(s) =~= identifiers(a) + identifiers(b));
        if forall|i: int| 0 <= i < b.len() ==> #[trigger] b[i] != '.' {
            assert(b.last() == b[b.len() - 1]);
            assert(forall|i: int| 0 <= i < shorter.len() ==> #[trigger] shorter[i] == b[i]);
            assert(b =~= shorter.push(b.last()));
            assert(identifiers(b) =~= seq![b]);
        }
    }
}

/// Numbers among the identifiers are ordered by their value and come before words.
pub proof fn law_identifiers_are_ordered_by_value(m: nat, n: nat, word: Seq<char>)
    requires
        exists|i: int| 0 <= i < word.len() && !('0' <= #[trigger] word[i] <= '9'),
    ensures
        identifier_before(text::decimal(m), text::decimal(n)) <==> m < n,
        identifier_before(text::decimal(m), word),
        !identifier_before(word, text::decimal(m)),
{
    lemma_decimal(m);
    lemma_decimal(n);
    lemma_value_of_decimal(m);
    lemma_value_of_decimal(n);
    let i = choose|i: int| 0 <= i < word.len() && !('0' <= #[trigger] word[i] <= '9');
    assert(!is_digit(word[i]));
}

proof fn lemma_value_of_decimal(n: nat)
    ensures
        value(text::decimal(n)) == n,
    decreases n,
{
    let d = text::decimal(n);
    if n < 10 {
        assert(d.drop_last() =~= Seq::empty());
        assert(value(d.drop_last()) == 0);
    } else {
        lemma_value_of_decimal(n / 10);
        assert(d.drop_last() =~= text::decimal(n / 10));
    }
}

/// What pre-release identifiers and build metadata are made of: one identifier is
/// letters and digits of ASCII and hyphens, and in a pre-release no number with a
/// leading zero; several of them have dots between them.
pub proof fn law_what_stands_behind_a_release(one: Seq<char>, a: Seq<char>, b: Seq<char>)
    requires
        one.len() > 0,
        forall|i: int| 0 <= i < one.len() ==> #[trigger] one[i] != '.',
        a.len() > 0,
        b.len() > 0,
    ensures
        is_build(one) <==> forall|i: int|
            0 <= i < one.len() ==> ('0' <= #[trigger] one[i] <= '9' || 'a' <= one[i] <= 'z' || 'A'
                <= one[i] <= 'Z' || one[i] == '-'),
        is_prerelease(one) <==> is_build(one) && !(one.len() > 1 && one[0] == '0' && (forall|i: int|
            0 <= i < one.len() ==> '0' <= #[trigger] one[i] <= '9')),
        is_build(a + seq!['.'] + b) <==> is_build(a) && is_build(b),
        is_prerelease(a + seq!['.'] + b) <==> is_prerelease(a) && is_prerelease(b),
        is_build(Seq::empty()) && is_prerelease(Seq::empty()),
{
    law_identifiers_are_kept_apart_by_dots(a, b);
    law_identifiers_are_kept_apart_by_dots(a, one);
    let s = a + seq!['.'] + b;
    let (x, y) = (identifiers(a), identifiers(b));
    assert(identifiers(s) == x + y);
    assert(identifiers(one)[0] == one);
    if is_numeric(one) {
        assert forall|i: int| 0 <= i < one.len() implies '0' <= #[trigger] one[i] <= '9' by {
            assert(is_digit(one[i]));
        }
    }
    if is_dotted(s) {
        assert forall|i: int| 0 <= i < a.len() implies #[trigger] a[i] == '.'
            || is_identifier_char(a[i]) by {
            assert(s[i] == a[i]);
        }
        assert forall|i: int| 0 <= i < b.len() implies #[trigger] b[i] == '.'
            || is_identifier_char(b[i]) by {
            assert(s[a.len() + 1 + i] == b[i]);
        }
        assert forall|i: int| 0 <= i < x.len() implies #[trigger] x[i].len() > 0 by {
            assert(identifiers(s)[i] == x[i]);
        }
        assert forall|i: int| 0 <= i < y.len() implies #[trigger] y[i].len() > 0 by {
            assert(identifiers(s)[x.len() + i] == y[i]);
        }
        assert(is_dotted(a) && is_dotted(b));
    }
    if is_dotted(a) && is_dotted(b) {
        assert forall|i: int| 0 <= i < s.len() implies #[trigger] s[i] == '.'
            || is_identifier_char(s[i]) by {
            if i < a.len() {
                assert(s[i] == a[i]);
            } else if i > a.len() {
                assert(s[i] == b[i - a.len() - 1]);
            }
        }
        assert forall|i: int| 0 <= i < identifiers(s).len() implies #[trigger] identifiers(
            s,
        )[i].len() > 0 by {
            if i < x.len() {
                assert(identifiers(s)[i] == x[i]);
            } else {
                assert(identifiers(s)[i] == y[i - x.len()]);
            }
        }
        assert(is_dotted(s));
    }
    if is_prerelease(s) {
        assert forall|i: int|
            0 <= i < x.len() && is_numeric(#[trigger] x[i]) && x[i].len() > 1 implies x[i][0]
            != '0' by {
            assert(identifiers(s)[i] == x[i]);
        }
        assert forall|i: int|
            0 <= i < y.len() && is_numeric(#[trigger] y[i]) && y[i].len() > 1 implies y[i][0]
            != '0' by {
            assert(identifiers(s)[x.len() + i] == y[i]);
        }
    }
    if is_prerelease(a) && is_prerelease(b) {
        assert forall|i: int|
            0 <= i < identifiers(s).len() && is_numeric(#[trigger] identifiers(s)[i])
                && identifiers(s)[i].len() > 1 implies identifiers(s)[i][0] != '0' by {
            if i < x.len() {
                assert(identifiers(s)[i] == x[i]);
            } else {
                assert(identifiers(s)[i] == y[i - x.len()]);
            }
        }
    }
}

/// Which parts make a semantic version: three numbers of 64 bits, and what can stand
/// behind a release, each on its own.
pub proof fn law_what_makes_a_version(v: VersionView)
    ensures
        is_semver(v) <==> v.major <= u64::MAX && v.minor <= u64::MAX && v.patch <= u64::MAX
            && is_prerelease(v.pre) && is_build(v.build),
{
}

} // verus!
