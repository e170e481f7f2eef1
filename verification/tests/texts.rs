use wl_translate::command::{read_printed, Failure, Invocation};
use wl_translate::ocr::{normalize, not_started, recognized, Reading};
use wl_translate::paths;
use wl_translate::text::{
    is_space, join, parses_as_i32, push_decimal, split_all, split_once, split_words, trim, trim_end,
};

#[test]
fn rejoins_wrapped_lines_but_keeps_paragraphs() {
    let raw = "Il contratto di\nlocazione deve\n\nessere registrato\n";
    assert_eq!(
        normalize(raw),
        "Il contratto di locazione deve\n\nessere registrato"
    );
}

#[test]
fn drops_empty_output() {
    assert_eq!(normalize("\n \n\n"), "");
}

#[test]
fn normalizing_twice_changes_nothing_more() {
    for raw in [
        "",
        "one\ntwo\n\n\nthree\n",
        "\r\n a \r\n\r\n b ",
        "\n\n\n\n",
        "a\n\nb\n\n\n\nc\nd",
    ] {
        let once = normalize(raw);
        assert_eq!(normalize(&once), once);
    }
}

#[test]
fn normalizing_keeps_every_word_in_its_place() {
    for raw in ["", " \t\n", "one\ntwo  three\n\n \n four", "\r\n a b\r\n\r\n\u{a0}c ", "a\n\n\nb"] {
        let kept = normalize(raw);
        assert_eq!(split_words(&kept), split_words(raw));
        assert_eq!(kept.is_empty(), split_words(raw).is_empty());
    }
    assert_eq!(normalize("one\ntwo  three\n\n \n four"), "one two  three\n\nfour");
}

#[test]
fn three_line_breaks_still_separate_two_paragraphs() {
    assert_eq!(normalize("one\n\n\ntwo"), "one\n\ntwo");
    assert_eq!(normalize("  one  \n\t two\u{a0}"), "one two");
}

#[test]
fn a_missing_language_says_what_to_install() {
    assert_eq!(
        not_started("eng+fas", "no data").message,
        "tesseract init failed for 'eng+fas' - missing language data? install with: \
         sudo pacman -S tesseract-data-eng tesseract-data-fas: no data"
    );
}

#[test]
fn what_was_read_is_normalised_and_what_was_not_says_why() {
    assert_eq!(recognized(Reading::Text("a\nb".to_owned())).unwrap(), "a b");
    assert_eq!(
        recognized(Reading::NotDecoded("bad".to_owned())).unwrap_err().message,
        "leptonica could not decode the capture: bad"
    );
    assert_eq!(
        recognized(Reading::NoText("odd".to_owned())).unwrap_err().message,
        "tesseract returned no text: odd"
    );
}

#[test]
fn white_space_is_what_the_standard_library_says() {
    for code in 0..=0x10ffff {
        if let Some(c) = char::from_u32(code) {
            assert_eq!(is_space(c), c.is_whitespace(), "{code:x}");
        }
    }
}

#[test]
fn trimming_matches_the_standard_library() {
    for text in ["", " ", " a ", "\u{3000}a b\u{2003}", "a", "\n\na\t"] {
        assert_eq!(trim(text), text.trim());
        assert_eq!(trim_end(text), text.trim_end());
    }
}

#[test]
fn splitting_matches_the_standard_library() {
    for text in ["", "+", "a+b", "+a++b+", "\u{633}+\u{645}"] {
        let pieces: Vec<String> = text.split('+').map(str::to_owned).collect();
        assert_eq!(split_all(text, '+'), pieces);
        assert_eq!(
            split_once(text, '+'),
            text.split_once('+').map(|(a, b)| (a.to_owned(), b.to_owned()))
        );
    }
    for text in ["", "  ", " one  two\nthree ", "one"] {
        let words: Vec<String> = text.split_whitespace().map(str::to_owned).collect();
        assert_eq!(split_words(text), words);
        assert_eq!(join(&words, "-"), words.join("-"));
    }
}

#[test]
fn numbers_are_read_as_the_standard_library_reads_them() {
    for text in [
        "", "0", "-0", "+7", "-", "+", "--1", "1x", "2147483647", "2147483648", "-2147483648",
        "-2147483649", "0000000000000012", " 1", "\u{663}", "99999999999999999999",
    ] {
        assert_eq!(parses_as_i32(text), text.parse::<i32>().is_ok(), "{text}");
    }
}

#[test]
fn numbers_are_written_in_decimal() {
    for n in [0, 7, 10, -1, 1234567890, i64::MAX, i64::MIN] {
        let mut text = "=".to_owned();
        push_decimal(&mut text, n);
        assert_eq!(text, format!("={n}"));
    }
}

#[test]
fn what_a_program_printed_is_read_loosely() {
    assert_eq!(read_printed(&b" hello \n".to_vec()), "hello");
    assert_eq!(read_printed(&vec![0xff, b'a', b'\n']), "\u{fffd}a");
}

#[test]
fn a_failure_names_its_cause_last() {
    assert_eq!(Failure::caused("above", "below").message, "above: below");
    assert_eq!(Failure::quoting("'", "it", "'").message, "'it'");
}

#[test]
fn arguments_keep_their_order() {
    let command = Invocation::new("prog").with("a").with("b c");
    assert_eq!(command.program, "prog");
    assert_eq!(command.args, ["a", "b c"]);
}

#[test]
fn paths_are_joined_with_one_slash() {
    assert_eq!(paths::join(&b"/home/you".to_vec(), "x"), b"/home/you/x");
    assert_eq!(paths::join(&b"/".to_vec(), "x"), b"/x");
    assert_eq!(paths::join(&Vec::new(), "x"), b"x");
    assert_eq!(paths::bytes_of("\u{e8}"), [0xc3, 0xa8]);
}
