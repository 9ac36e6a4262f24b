use stellar_doctor::text::{
    chars_of, count_of, is_whitespace, lines, number, same_text, trim, words,
};

#[test]
fn whitespace_is_what_std_takes_for_it() {
    for c in '\0'..=char::MAX {
        assert_eq!(is_whitespace(c), c.is_whitespace(), "{c:?}");
    }
}

const SAMPLES: [&str; 14] = [
    "",
    " ",
    "\n",
    "\r\n",
    "a",
    " a b ",
    "a\nb",
    "a\r\nb\r\n",
    "a\rb",
    "a\r",
    "\n\na\n\n",
    "\u{3000}stellar\u{a0}22.8.0 \u{2003}(x)\t",
    "z\u{e9}ro \u{1f980}\n",
    "\r\r\n \u{200b} ",
];

#[test]
fn trims_as_std_does() {
    for s in SAMPLES {
        assert_eq!(trim(s), s.trim());
    }
}

#[test]
fn splits_into_lines_as_std_does() {
    for s in SAMPLES {
        assert_eq!(lines(s), s.lines().collect::<Vec<_>>());
    }
}

#[test]
fn splits_into_words_as_std_does() {
    for s in SAMPLES {
        assert_eq!(words(s), s.split_whitespace().collect::<Vec<_>>());
    }
}

#[test]
fn characters_are_those_of_the_text() {
    assert_eq!(chars_of("a\u{1f980}b"), vec!['a', '\u{1f980}', 'b']);
}

#[test]
fn numbers_are_decimal() {
    for n in [0, 7, 10, 84, 100, 65536, u64::MAX] {
        assert_eq!(number(n), n.to_string());
    }
}

#[test]
fn one_takes_the_singular() {
    assert_eq!(count_of(0, "executable", "executables"), "0 executables");
    assert_eq!(count_of(1, "executable", "executables"), "1 executable");
    assert_eq!(count_of(12, "executable", "executables"), "12 executables");
}

#[test]
fn compares_texts() {
    assert!(same_text("mainnet", "mainnet"));
    assert!(!same_text("mainnet", "Mainnet"));
}
