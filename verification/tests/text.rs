use tuxedo_driver::text::{buffer_text, chars_of, contains_word, is_whitespace, trim};

#[test]
fn whitespace_is_that_of_unicode() {
    for code in 0..=0x10_ffff_u32 {
        if let Some(c) = char::from_u32(code) {
            assert_eq!(is_whitespace(c), c.is_whitespace(), "{code:x}");
        }
    }
}

#[test]
fn characters() {
    assert_eq!(chars_of(""), Vec::<char>::new());
    assert_eq!(chars_of("a\u{e9}\u{1f600}"), vec!['a', '\u{e9}', '\u{1f600}']);
}

#[test]
fn trim_takes_white_space_off_the_ends() {
    let texts = [
        "", " ", "a", " a", "a ", "\t a b\u{2003}\n", "\u{a0}x\u{3000}", "\n\n", "a\u{200b} ",
    ];
    for text in texts {
        assert_eq!(trim(text), text.trim());
    }
    assert_eq!(trim("  stationary balanced\n"), "stationary balanced");
}

#[test]
fn trimming_again_changes_nothing() {
    for text in ["", " a ", "a b", "\n1\n"] {
        assert_eq!(trim(trim(text)), trim(text));
    }
}

#[test]
fn a_line_feed_is_trimmed_off() {
    for text in ["", "a", "stationary", "a b"] {
        let line = format!("{text}\n");
        assert_eq!(trim(&line), text);
    }
}

#[test]
fn words_as_split_by_white_space() {
    let texts = ["", " ", "a", "high_capacity balanced stationary", " a\tb\n c ", "ab a"];
    let words = ["", "a", "b", "ab", "a b", "balanced", "stationary", "high_capacity", " a"];
    for text in texts {
        for word in words {
            let expected = text.split_whitespace().any(|candidate| candidate == word);
            assert_eq!(contains_word(text, word), expected, "{text:?} {word:?}");
        }
    }
}

#[test]
fn buffers_end_at_the_first_zero() {
    let mut bytes = vec![0_u8; 64];
    bytes[..6].copy_from_slice(b" 0.3.1");
    assert_eq!(buffer_text(&bytes), "0.3.1");
    bytes[6] = b'\n';
    bytes[8] = b'x';
    assert_eq!(buffer_text(&bytes), "0.3.1");
    assert_eq!(buffer_text(b"no zero"), "no zero");
    assert_eq!(buffer_text(b"\0abc"), "");
    assert_eq!(buffer_text(b""), "");
}

#[test]
fn buffers_are_read_as_utf8() {
    assert_eq!(buffer_text("\u{e9}\u{1f600} ".as_bytes()), "\u{e9}\u{1f600}");
    assert_eq!(buffer_text(&[b'a', 0xff, b'b', 0]), "a\u{fffd}b");
    assert_eq!(buffer_text(&[0xe2, 0x82, b'x']), "\u{fffd}x");
}
