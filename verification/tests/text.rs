use sdcpp::text::{
    blank, contains, decimal_text, ends_with, join_from, last_part, lower_case, split_lines,
    split_words, starts_with, text_at_most, text_eq, trim, trim_ending, truth_text,
};

#[test]
fn trim_agrees_with_std() {
    let samples = [
        "", " ", "a", " a", "a ", " a b ", "\u{feff}x", "\u{2003}x\u{2029}", "\u{180e}x", "\r\n",
        "\u{1680}\u{202f}é\u{205f}",
    ];
    for sample in samples {
        assert_eq!(trim(sample), sample.trim());
        assert_eq!(blank(sample), sample.trim().is_empty());
    }
}

#[test]
fn words_agree_with_std() {
    let samples = ["", "  ", "a", " a  b\tc\n", "ü\u{3000}ß x", "one"];
    for sample in samples {
        let expected: Vec<String> = sample.split_whitespace().map(|w| w.to_string()).collect();
        assert_eq!(split_words(sample), expected);
    }
}

#[test]
fn lines_agree_with_std() {
    let samples = ["", "\n", "a", "a\n", "a\r\nb", "a\n\nb\r", "\r\n\r", "a\rb\nc\n\n", "é\r\r\nx"];
    for sample in samples {
        let expected: Vec<String> = sample.lines().map(|l| l.to_string()).collect();
        assert_eq!(split_lines(sample), expected);
    }
}

#[test]
fn searching_agrees_with_std() {
    let texts = ["", "a", "abc", "aab", "ééa", "x.zip"];
    let parts = ["", "a", "ab", "é", ".zip", "abcd"];
    for text in texts {
        for part in parts {
            assert_eq!(contains(text, part), text.contains(part));
            assert_eq!(starts_with(text, part), text.starts_with(part));
            assert_eq!(ends_with(text, part), text.ends_with(part));
            assert_eq!(text_eq(text, part), text == part);
            assert_eq!(text_at_most(text, part), text <= part);
        }
    }
}

#[test]
fn order_of_texts_is_that_of_their_bytes() {
    let texts = ["Z", "a", "aé", "b", "\u{ffff}", "\u{10000}", "é", "z"];
    for a in texts {
        for b in texts {
            assert_eq!(text_at_most(a, b), a.as_bytes() <= b.as_bytes());
        }
    }
}

#[test]
fn endings_agree_with_std() {
    for text in ["", "/", "a//", "x/sdapi/v1/sdapi/v1", "aba/", "aaa"] {
        assert_eq!(trim_ending(text, "/"), text.trim_end_matches('/'));
        assert_eq!(trim_ending(text, "/sdapi/v1"), text.trim_end_matches("/sdapi/v1"));
        assert_eq!(trim_ending(text, "aa"), text.trim_end_matches("aa"));
        assert_eq!(Some(last_part(text, '/')), text.split('/').next_back());
    }
}

#[test]
fn numbers_are_written_in_decimal() {
    for n in [0, 7, 10, 99, 100, 17861, 18446744073709551615] {
        assert_eq!(decimal_text(n), format!("{}", n));
    }
    assert_eq!(truth_text(true), "true");
    assert_eq!(truth_text(false), "false");
}

#[test]
fn lower_case_goes_beyond_ascii() {
    assert_eq!(lower_case("ABC.Zip-9"), "abc.zip-9");
    assert_eq!(lower_case("ÀΣ"), "ÀΣ".to_lowercase());
}

#[test]
fn joining_starts_where_it_is_told() {
    let parts = vec!["a".to_string(), "b".to_string(), "".to_string()];
    assert_eq!(join_from(&parts, 0, "--"), "a--b--");
    assert_eq!(join_from(&parts, 1, "|"), "b|");
    assert_eq!(join_from(&parts, 3, "|"), "");
}
