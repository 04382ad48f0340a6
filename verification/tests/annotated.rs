use annotated::Part::{Whitespace, Word};
use annotated::{annotate, is_whitespace, to_parts, Part, Tweet};

#[test]
fn to_parts_ascii() {
    assert_eq!(to_parts(""), []);
    assert_eq!(to_parts("  "), [Whitespace("  ")]);
    assert_eq!(to_parts("one-word"), [Word("one-word")]);
    assert_eq!(
        to_parts("alpha  bet ic"),
        [Word("alpha"), Whitespace("  "), Word("bet"), Whitespace(" "), Word("ic")]
    );
    assert_eq!(
        to_parts("alpha  bet ic   "),
        [Word("alpha"), Whitespace("  "), Word("bet"), Whitespace(" "), Word("ic"), Whitespace("   ")]
    );
    assert_eq!(
        to_parts(" alpha  bet ic   "),
        [
            Whitespace(" "),
            Word("alpha"),
            Whitespace("  "),
            Word("bet"),
            Whitespace(" "),
            Word("ic"),
            Whitespace("   ")
        ]
    );
}

#[test]
fn annotate_length() {
    assert_eq!(
        annotate(to_parts("alpha  bet ic"), |part| part.get_string().len()),
        [
            (Word("alpha"), 5),
            (Whitespace("  "), 2),
            (Word("bet"), 3),
            (Whitespace(" "), 1),
            (Word("ic"), 2),
        ]
    );
}

#[test]
fn to_parts_multibyte_characters() {
    assert_eq!(
        to_parts("héllo wörld"),
        [Word("héllo"), Whitespace(" "), Word("wörld")]
    );
    assert_eq!(
        to_parts("日本\u{3000}語"),
        [Word("日本"), Whitespace("\u{3000}"), Word("語")]
    );
}

#[test]
fn to_parts_non_ascii_whitespace() {
    assert_eq!(
        to_parts("a\u{00A0}b"),
        [Word("a"), Whitespace("\u{00A0}"), Word("b")]
    );
    assert_eq!(to_parts("a\t\r\nb"), [Word("a"), Whitespace("\t\r\n"), Word("b")]);
    // A zero-width space is not in the Unicode `White_Space` set.
    assert_eq!(to_parts("a\u{200B}b"), [Word("a\u{200B}b")]);
}

#[test]
fn to_parts_round_trip() {
    let inputs = ["", " ", "one-word", " alpha  bet ic   ", "日本\u{3000}語", "a\t\r\nb "];
    for s in inputs {
        let mut rebuilt = String::new();
        for part in to_parts(s) {
            rebuilt.push_str(part.get_string());
        }
        assert_eq!(rebuilt, s);
    }
}

#[test]
fn to_parts_alternates_and_is_non_empty() {
    let inputs = ["", "  x ", "one-word", " alpha  bet ic   ", "\u{1680}a\u{2028}"];
    for s in inputs {
        let parts = to_parts(s);
        assert_eq!(parts.is_empty(), s.is_empty());
        let mut prev_was_word: Option<bool> = None;
        for part in &parts {
            assert!(!part.get_string().is_empty());
            let is_word = matches!(part, Word(_));
            if let Some(prev) = prev_was_word {
                assert_ne!(prev, is_word);
            }
            prev_was_word = Some(is_word);
        }
    }
}

#[test]
fn annotate_empty() {
    assert_eq!(annotate(Vec::<u32>::new(), |x| *x), []);
}

#[test]
fn annotate_keeps_order_and_count() {
    let annotated = annotate(vec![10u32, 7, 7, 3], |x| *x + 1);
    assert_eq!(annotated, [(10, 11), (7, 8), (7, 8), (3, 4)]);
}

#[test]
fn is_whitespace_matches_standard_classification() {
    for c in [' ', '\t', '\n', '\r', '\u{0B}', '\u{85}', '\u{A0}', '\u{2003}', '\u{3000}'] {
        assert!(is_whitespace(c));
        assert!(c.is_whitespace());
    }
    for c in ['a', '0', '-', '\u{200B}', '\u{180E}'] {
        assert!(!is_whitespace(c));
        assert!(!c.is_whitespace());
    }
}

#[test]
fn tweet_text_segments() {
    let tweet = Tweet {
        id: String::from("20"),
        text: String::from("just setting up"),
    };
    let parts: Vec<Part> = to_parts(&tweet.text);
    assert_eq!(
        parts,
        [Word("just"), Whitespace(" "), Word("setting"), Whitespace(" "), Word("up")]
    );
    assert_eq!(tweet.id, "20");
}
