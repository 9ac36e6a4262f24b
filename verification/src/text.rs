//! Text as the probes and the report need it: trimming, lines, words, numbers
//! and quoting.

use vstd::prelude::*;

verus! {

// ---------------------------------------------------------------------------
// Whitespace and trimming
// ---------------------------------------------------------------------------

/// The characters with the Unicode property `White_Space`.
pub open spec fn is_space(c: char) -> bool {
    let u = c as u32;
    ||| 0x9 <= u <= 0xd
    ||| u == 0x20
    ||| u == 0x85
    ||| u == 0xa0
    ||| u == 0x1680
    ||| 0x2000 <= u <= 0x200a
    ||| u == 0x2028
    ||| u == 0x2029
    ||| u == 0x202f
    ||| u == 0x205f
    ||| u == 0x3000
}

/// Whether `c` is whitespace.
pub fn is_whitespace(c: char) -> (r: bool)
    ensures
        r == is_space(c),
{
    let u: u32 = c as u32;
    (0x9 <= u && u <= 0xd) || u == 0x20 || u == 0x85 || u == 0xa0 || u == 0x1680 || (0x2000 <= u
        && u <= 0x200a) || u == 0x2028 || u == 0x2029 || u == 0x202f || u == 0x205f || u == 0x3000
}

/// `s` without the whitespace at both of its ends.
pub open spec fn trimmed(s: Seq<char>) -> Seq<char>
    decreases s.len(),
{
    if s.len() == 0 {
        s
    } else if is_space(s[0]) {
        trimmed(s.drop_first())
    } else if is_space(s.last()) {
        trimmed(s.drop_last())
    } else {
        s
    }
}

/// The characters of `s`, for access by index.
pub fn chars_of(s: &str) -> (r: Vec<char>)
    ensures
        r@ == s@,
{
    let mut r: Vec<char> = Vec::new();
    for c in it: s.chars()
        invariant
            r@ == it.seq().take(it.index()),
            it.seq() == s@,
    {
        r.push(c);
        assert(it.seq().take(it.index() + 1) =~= it.seq().take(it.index()).push(c));
    }
    assert(s@.take(s@.len() as int) =~= s@);
    r
}

/// `s` without the whitespace at both of its ends.
pub fn trim(s: &str) -> (r: String)
    ensures
        r@ == trimmed(s@),
{
    let chars = chars_of(s);
    let mut from: usize = 0;
    let mut to: usize = chars.len();
    assert(s@.subrange(0, to as int) =~= s@);
    while from < to && is_whitespace(chars[from])
        invariant
            from <= to == chars.len(),
            chars@ == s@,
            trimmed(s@.subrange(from as int, to as int)) == trimmed(s@),
        decreases to - from,
    {
        assert(s@.subrange(from as int, to as int).drop_first() =~= s@.subrange(
            from + 1,
            to as int,
        ));
        from += 1;
    }
    while from < to && is_whitespace(chars[to - 1])
        invariant
            from <= to <= chars.len(),
            chars@ == s@,
            from < to ==> !is_space(s@[from as int]),
            trimmed(s@.subrange(from as int, to as int)) == trimmed(s@),
        decreases to - from,
    {
        assert(s@.subrange(from as int, to as int).drop_last() =~= s@.subrange(
            from as int,
            to - 1,
        ));
        to -= 1;
    }
    s.substring_char(from, to).to_owned()
}

// ---------------------------------------------------------------------------
// Lines
// ---------------------------------------------------------------------------

/// Where the first line of `s` ends: at its first line feed, or at the end.
pub open spec fn line_end(s: Seq<char>) -> int
    decreases s.len(),
{
    if s.len() == 0 || s[0] == '\n' {
        0
    } else {
        1 + line_end(s.drop_first())
    }
}

/// The first line of `s` without its ending, which is a line feed with or
/// without a carriage return before it. A carriage return alone ends no line.
pub open spec fn first_line(s: Seq<char>) -> Seq<char> {
    let end = line_end(s);
    if 0 < end < s.len() && s[end - 1] == '\r' {
        s.take(end - 1)
    } else {
        s.take(end)
    }
}

/// The lines of `s`. The ending of the last one may be missing.
pub open spec fn lines_of(s: Seq<char>) -> Seq<Seq<char>>
    decreases s.len(),
    via lines_of_decreases
{
    if s.len() == 0 {
        Seq::empty()
    } else if line_end(s) < s.len() {
        seq![first_line(s)] + lines_of(s.skip(line_end(s) + 1))
    } else {
        seq![first_line(s)]
    }
}

#[via_fn]
proof fn lines_of_decreases(s: Seq<char>) {
    lemma_line_end(s);
}

pub(crate) proof fn lemma_line_end(s: Seq<char>)
    ensures
        0 <= line_end(s) <= s.len(),
        line_end(s) < s.len() ==> s[line_end(s)] == '\n',
        forall|i: int| 0 <= i < line_end(s) ==> s[i] != '\n',
    decreases s.len(),
{
    if s.len() > 0 && s[0] != '\n' {
        lemma_line_end(s.drop_first());
        let rest = s.drop_first();
        assert forall|i: int| 0 <= i < line_end(s) implies s[i] != '\n' by {
            if i > 0 {
                assert(rest[i - 1] == s[i]);
            }
        }
    }
}

pub(crate) proof fn lemma_line_end_is(s: Seq<char>, end: int)
    requires
        0 <= end <= s.len(),
        end < s.len() ==> s[end] == '\n',
        forall|i: int| 0 <= i < end ==> s[i] != '\n',
    ensures
        line_end(s) == end,
{
    lemma_line_end(s);
    if line_end(s) < end {
        assert(s[line_end(s)] != '\n');
    }
}

/// The texts of several strings.
pub open spec fn texts(strings: Seq<String>) -> Seq<Seq<char>> {
    strings.map_values(|s: String| s@)
}

/// The lines of `s`, without their endings.
pub fn lines(s: &str) -> (r: Vec<String>)
    ensures
        texts(r@) == lines_of(s@),
{
    let chars = chars_of(s);
    let mut r: Vec<String> = Vec::new();
    let mut from: usize = 0;
    assert(s@.skip(0) =~= s@);
    assert(texts(r@) + lines_of(s@.skip(0)) =~= lines_of(s@));
    while from < chars.len()
        invariant
            from <= chars.len(),
            chars@ == s@,
            texts(r@) + lines_of(s@.skip(from as int)) == lines_of(s@),
        decreases chars.len() - from,
    {
        let ghost rest = s@.skip(from as int);
        let mut end: usize = from;
        while end < chars.len() && chars[end] != '\n'
            invariant
                from <= end <= chars.len(),
                chars@ == s@,
                forall|i: int| from <= i < end ==> s@[i] != '\n',
            decreases chars.len() - end,
        {
            end += 1;
        }
        proof {
            lemma_line_end_is(rest, end - from);
        }
        let cut: usize = if from < end && end < chars.len() && chars[end - 1] == '\r' {
            end - 1
        } else {
            end
        };
        let ghost before = texts(r@);
        r.push(s.substring_char(from, cut).to_owned());
        assert(s@.subrange(from as int, cut as int) =~= first_line(rest));
        assert(texts(r@) =~= before + seq![first_line(rest)]);
        if end < chars.len() {
            assert(rest.skip(line_end(rest) + 1) =~= s@.skip(end + 1));
            assert(texts(r@) + lines_of(s@.skip(end + 1)) =~= before + lines_of(rest));
            from = end + 1;
        } else {
            assert(texts(r@) + lines_of(s@.skip(end as int)) =~= before + lines_of(rest));
            from = end;
        }
    }
    assert(texts(r@) + lines_of(s@.skip(from as int)) =~= texts(r@));
    r
}

// ---------------------------------------------------------------------------
// Words
// ---------------------------------------------------------------------------

/// How many characters `s` starts with that are not whitespace.
pub open spec fn word_end(s: Seq<char>) -> int
    decreases s.len(),
{
    if s.len() == 0 || is_space(s[0]) {
        0
    } else {
        1 + word_end(s.drop_first())
    }
}

/// The words of `s`: what stands between its stretches of whitespace.
pub open spec fn words_of(s: Seq<char>) -> Seq<Seq<char>>
    decreases s.len(),
    via words_of_decreases
{
    if s.len() == 0 {
        Seq::empty()
    } else if is_space(s[0]) {
        words_of(s.drop_first())
    } else {
        seq![s.take(word_end(s))] + words_of(s.skip(word_end(s)))
    }
}

#[via_fn]
proof fn words_of_decreases(s: Seq<char>) {
    lemma_word_end(s);
}

pub(crate) proof fn lemma_word_end(s: Seq<char>)
    ensures
        0 <= word_end(s) <= s.len(),
        s.len() > 0 && !is_space(s[0]) ==> word_end(s) > 0,
        word_end(s) < s.len() ==> is_space(s[word_end(s)]),
        forall|i: int| 0 <= i < word_end(s) ==> !is_space(s[i]),
    decreases s.len(),
{
    if s.len() > 0 && !is_space(s[0]) {
        lemma_word_end(s.drop_first());
        let rest = s.drop_first();
        assert forall|i: int| 0 <= i < word_end(s) implies !is_space(s[i]) by {
            if i > 0 {
                assert(rest[i - 1] == s[i]);
            }
        }
    }
}

pub(crate) proof fn lemma_word_end_is(s: Seq<char>, end: int)
    requires
        0 <= end <= s.len(),
        end < s.len() ==> is_space(s[end]),
        forall|i: int| 0 <= i < end ==> !is_space(s[i]),
    ensures
        word_end(s) == end,
{
    lemma_word_end(s);
    if word_end(s) < end {
        assert(!is_space(s[word_end(s)]));
    }
}

/// The words of `s`, in their order.
pub fn words(s: &str) -> (r: Vec<String>)
    ensures
        texts(r@) == words_of(s@),
{
    let chars = chars_of(s);
    let mut r: Vec<String> = Vec::new();
    let mut from: usize = 0;
    assert(s@.skip(0) =~= s@);
    assert(texts(r@) + words_of(s@.skip(0)) =~= words_of(s@));
    while from < chars.len()
        invariant
            from <= chars.len(),
            chars@ == s@,
            texts(r@) + words_of(s@.skip(from as int)) == words_of(s@),
        decreases chars.len() - from,
    {
        let ghost rest = s@.skip(from as int);
        if is_whitespace(chars[from]) {
            assert(rest.drop_first() =~= s@.skip(from + 1));
            from += 1;
        } else {
            let mut end: usize = from;
            while end < chars.len() && !is_whitespace(chars[end])
                invariant
                    from <= end <= chars.len(),
                    chars@ == s@,
                    forall|i: int| from <= i < end ==> !is_space(s@[i]),
                    end == from ==> !is_space(s@[from as int]),
                decreases chars.len() - end,
            {
                end += 1;
            }
            proof {
                lemma_word_end_is(rest, end - from);
            }
            let ghost before = texts(r@);
            r.push(s.substring_char(from, end).to_owned());
            assert(s@.subrange(from as int, end as int) =~= rest.take(word_end(rest)));
            assert(texts(r@) =~= before + seq![rest.take(word_end(rest))]);
            assert(rest.skip(word_end(rest)) =~= s@.skip(end as int));
            assert(texts(r@) + words_of(s@.skip(end as int)) =~= before + words_of(rest));
            from = end;
        }
    }
    assert(texts(r@) + words_of(s@.skip(from as int)) =~= texts(r@));
    r
}

// ---------------------------------------------------------------------------
// Numbers
// ---------------------------------------------------------------------------

/// The digit that stands for `n`.
pub open spec fn digit(n: nat) -> char {
    (0x30 + n) as char
}

/// `n` in decimal, without leading zeros.
pub open spec fn decimal(n: nat) -> Seq<char>
    decreases n,
{
    if n < 10 {
        seq![digit(n)]
    } else {
        decimal(n / 10).push(digit(n % 10))
    }
}

fn digit_text(n: u64) -> (r: &'static str)
    requires
        n < 10,
    ensures
        r@ == seq![digit(n as nat)],
{
    proof {
        reveal_strlit("0");
        reveal_strlit("1");
        reveal_strlit("2");
        reveal_strlit("3");
        reveal_strlit("4");
        reveal_strlit("5");
        reveal_strlit("6");
        reveal_strlit("7");
        reveal_strlit("8");
        reveal_strlit("9");
    }
    let r = match n {
        0 => "0",
        1 => "1",
        2 => "2",
        3 => "3",
        4 => "4",
        5 => "5",
        6 => "6",
        7 => "7",
        8 => "8",
        _ => "9",
    };
    assert(r@ =~= seq![digit(n as nat)]);
    r
}

/// `n` in decimal.
pub fn number(n: u64) -> (r: String)
    ensures
        r@ == decimal(n as nat),
    decreases n,
{
    if n < 10 {
        digit_text(n).to_owned()
    } else {
        let r = number(n / 10).concat(digit_text(n % 10));
        assert(r@ =~= decimal(n as nat));
        r
    }
}

/// "1" and the singular for one, the number and the plural for any other count.
pub open spec fn counted(n: nat, singular: Seq<char>, plural: Seq<char>) -> Seq<char> {
    if n == 1 {
        "1 "@ + singular
    } else {
        decimal(n) + " "@ + plural
    }
}

/// A count with the noun that goes with it.
pub fn count_of(n: usize, singular: &str, plural: &str) -> (r: String)
    ensures
        r@ == counted(n as nat, singular@, plural@),
{
    if n == 1 {
        "1 ".to_owned().concat(singular)
    } else {
        number(n as u64).concat(" ").concat(plural)
    }
}

// ---------------------------------------------------------------------------
// Equality
// ---------------------------------------------------------------------------

/// Whether two texts are the same.
pub fn same_text(a: &str, b: &str) -> (r: bool)
    ensures
        r == (a@ == b@),
{
    a.to_owned() == b.to_owned()
}

// ---------------------------------------------------------------------------
// What only std can tell
// ---------------------------------------------------------------------------

/// What `String::from_utf8_lossy` makes of bytes that are not UTF-8.
pub uninterp spec fn replaced_text(bytes: Seq<u8>) -> Seq<char>;

/// The text of `bytes`: what they encode where they are UTF-8, else what
/// `String::from_utf8_lossy` makes of them.
pub open spec fn text_of(bytes: Seq<u8>) -> Seq<char> {
    if vstd::utf8::valid_utf8(bytes) {
        vstd::utf8::decode_utf8(bytes)
    } else {
        replaced_text(bytes)
    }
}

/// Calls `String::from_utf8_lossy`. Trusted: valid UTF-8 comes back as the text
/// it encodes, and what comes back of other bytes depends on the bytes alone.
#[verifier::external_body]
pub(crate) fn from_utf8_lossy(bytes: &Vec<u8>) -> (r: String)
    ensures
        vstd::utf8::valid_utf8(bytes@) ==> r@ == vstd::utf8::decode_utf8(bytes@),
        !vstd::utf8::valid_utf8(bytes@) ==> r@ == replaced_text(bytes@),
{
    String::from_utf8_lossy(bytes).into_owned()
}

/// How `format!("{:?}")` writes a string in which something may need an escape.
pub uninterp spec fn escaped_text(s: Seq<char>) -> Seq<char>;

/// A character that stands for itself in any quoted text.
pub open spec fn is_plain(c: char) -> bool {
    'a' <= c <= 'z' || 'A' <= c <= 'Z' || '0' <= c <= '9' || c == '-' || c == '_' || c == '.'
}

/// Whether all characters of `s` stand for themselves in quoted text.
pub open spec fn all_plain(s: Seq<char>) -> bool {
    forall|i: int| 0 <= i < s.len() ==> is_plain(#[trigger] s[i])
}

/// `s` as `format!("{:?}")` writes it: between double quotes, and with escapes
/// where they are needed.
pub open spec fn quoted_text(s: Seq<char>) -> Seq<char> {
    if all_plain(s) {
        "\""@ + s + "\""@
    } else {
        escaped_text(s)
    }
}

/// Calls `format!` with the `Debug` format of a string. Trusted: letters, digits,
/// hyphens, underscores and dots of ASCII are only put between double quotes, and
/// what is written of any other string depends on the string alone.
#[verifier::external_body]
pub(crate) fn quoted(s: &str) -> (r: String)
    ensures
        all_plain(s@) ==> r@ == "\""@ + s@ + "\""@,
        !all_plain(s@) ==> r@ == escaped_text(s@),
{
    format!("{s:?}")
}

// ---------------------------------------------------------------------------
// Laws
// ---------------------------------------------------------------------------

/// Trimming takes away the whitespace around a text and nothing of the text.
pub proof fn law_trimming_leaves_the_text(left: Seq<char>, s: Seq<char>, right: Seq<char>)
    requires
        forall|i: int| 0 <= i < left.len() ==> is_space(#[trigger] left[i]),
        forall|i: int| 0 <= i < right.len() ==> is_space(#[trigger] right[i]),
        s.len() > 0 ==> !is_space(s[0]) && !is_space(s.last()),
    ensures
        trimmed(left + s + right) == s,
    decreases left.len() + right.len(),
{
    let t = left + s + right;
    if left.len() > 0 {
        assert(t[0] == left[0]);
        assert(t.drop_first() =~= left.drop_first() + s + right);
        law_trimming_leaves_the_text(left.drop_first(), s, right);
    } else if right.len() > 0 {
        assert(t.last() == right.last());
        assert(right.last() == right[right.len() - 1]);
        if s.len() > 0 {
            assert(t[0] == s[0]);
            assert(t.drop_last() =~= left + s + right.drop_last());
            law_trimming_leaves_the_text(left, s, right.drop_last());
        } else {
            assert(t[0] == right[0]);
            assert(t.drop_first() =~= left + s + right.drop_first());
            law_trimming_leaves_the_text(left, s, right.drop_first());
        }
    } else {
        assert(t =~= s);
    }
}

/// The lines of a text are what stands before its first line feed, without a
/// carriage return at the end, and the lines of what stands behind it. A text without
/// a line feed is one line as it stands, and an empty text has none.
pub proof fn law_lines_end_at_line_feeds(line: Seq<char>, rest: Seq<char>)
    requires
        forall|i: int| 0 <= i < line.len() ==> #[trigger] line[i] != '\n',
    ensures
        lines_of(line + seq!['\n'] + rest) == seq![
            if line.len() > 0 && line.last() == '\r' {
                line.drop_last()
            } else {
                line
            },
        ] + lines_of(rest),
        line.len() > 0 ==> lines_of(line) == seq![line],
        line.len() == 0 ==> lines_of(line).len() == 0,
{
    let s = line + seq!['\n'] + rest;
    let n = line.len() as int;
    assert forall|i: int| 0 <= i < n implies s[i] != '\n' by {
        assert(s[i] == line[i]);
    }
    assert(s[n] == '\n');
    lemma_line_end_is(s, n);
    assert(s.skip(n + 1) =~= rest);
    assert(s.take(n) =~= line);
    if n > 0 {
        assert(s[n - 1] == line[n - 1]);
        assert(s.take(n - 1) =~= line.drop_last());
    }
    lemma_line_end_is(line, n);
    assert(line.take(n) =~= line);
}

/// The words of a text are its first stretch without whitespace and the words of what
/// stands behind that. Whitespace before a word does not matter, and an empty text has
/// no word.
pub proof fn law_words_end_at_whitespace(space: char, word: Seq<char>, rest: Seq<char>)
    requires
        is_space(space),
        word.len() > 0,
        forall|i: int| 0 <= i < word.len() ==> !is_space(#[trigger] word[i]),
        rest.len() > 0 ==> is_space(rest[0]),
    ensures
        words_of(word + rest) == seq![word] + words_of(rest),
        words_of(seq![space] + word + rest) == words_of(word + rest),
        words_of(seq![space] + rest) == words_of(rest),
        words_of(Seq::empty()).len() == 0,
{
    let s = word + rest;
    assert forall|i: int| 0 <= i < word.len() implies !is_space(s[i]) by {
        assert(s[i] == word[i]);
    }
    assert(rest.len() > 0 ==> s[word.len() as int] == rest[0]);
    lemma_word_end_is(s, word.len() as int);
    assert(s.take(word.len() as int) =~= word);
    assert(s.skip(word.len() as int) =~= rest);
    assert((seq![space] + word + rest).drop_first() =~= word + rest);
    assert((seq![space] + rest).drop_first() =~= rest);
}

/// A number is written by its digits, the last of which tells how many are left over
/// where it is divided by ten.
pub proof fn law_numbers_are_decimal(tens: nat, ones: nat)
    requires
        ones < 10,
    ensures
        decimal(ones) == seq![('0' as u32 + ones) as char],
        tens > 0 ==> decimal(tens * 10 + ones) == decimal(tens).push(('0' as u32 + ones) as char),
{
    assert(tens > 0 ==> (tens * 10 + ones) / 10 == tens && (tens * 10 + ones) % 10 == ones);
}

/// A noun stands in the singular behind 1 and in the plural behind any other number.
pub proof fn law_only_one_takes_the_singular(n: nat, singular: Seq<char>, plural: Seq<char>)
    ensures
        counted(n, singular, plural) == decimal(n) + " "@ + (if n == 1 {
            singular
        } else {
            plural
        }),
{
    reveal_strlit("1 ");
    reveal_strlit(" ");
    assert("1 "@ =~= decimal(1) + " "@);
}

/// The bytes that encode a text are read as that text.
pub proof fn law_encoded_text_is_read_back(s: Seq<char>)
    ensures
        text_of(vstd::utf8::encode_utf8(s)) == s,
{
    vstd::utf8::encode_utf8_valid_utf8(s);
    vstd::utf8::encode_utf8_decode_utf8(s);
}

/// A name of ASCII letters, digits, hyphens, underscores and dots is quoted by a double
/// quote before it and one behind it.
pub proof fn law_plain_names_are_only_put_in_quotes(name: Seq<char>)
    requires
        forall|i: int|
            0 <= i < name.len() ==> ('a' <= #[trigger] name[i] <= 'z' || 'A' <= name[i] <= 'Z'
                || '0' <= name[i] <= '9' || name[i] == '-' || name[i] == '_' || name[i] == '.'),
    ensures
        quoted_text(name) == seq!['"'] + name + seq!['"'],
{
    reveal_strlit("\"");
    assert("\""@ =~= seq!['"']);
}

} // verus!
