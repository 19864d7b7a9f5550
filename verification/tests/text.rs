use wordlens::text::{is_whitespace, replace, trimmed};

#[test]
fn replace_all_occurrences() {
    assert_eq!(replace("a{x}b{x}", "{x}", "Q"), "aQbQ");
    assert_eq!(replace("aaa", "aa", "b"), "ba");
    assert_eq!(replace("none", "{x}", "Q"), "none");
    assert_eq!(replace("{x}", "{x}", ""), "");
    assert_eq!(replace("é{x}é", "{x}", "ü"), "éüé");
}

#[test]
fn trim_matches_std() {
    for s in ["", "  a b  ", "\t\n x\u{3000}", "\u{2003}\u{85}", "plain", " \u{200B}z"] {
        assert_eq!(trimmed(s), s.trim());
    }
}

#[test]
fn whitespace_matches_std() {
    for c in ['\t', '\n', ' ', '\u{85}', '\u{A0}', '\u{1680}', '\u{2000}', '\u{200A}', '\u{2028}', '\u{3000}', 'a', '\u{200B}', '\u{FEFF}', '_'] {
        assert_eq!(is_whitespace(c), c.is_whitespace(), "{c:?}");
    }
}

#[test]
fn trimming_twice_is_trimming_once() {
    for s in ["  a  ", "\u{3000}b\t", "", " ", "c"] {
        let once = trimmed(s);
        assert_eq!(trimmed(&once), once);
    }
}
