use usb_monitor_switcher::args::parse_args;

fn strings(items: &[&str]) -> Vec<String> {
    items.iter().map(|s| s.to_string()).collect()
}

#[test]
fn keeps_quoted_span_as_one_argument() {
    let input = "-Display \"\\\\.\\Display1\" -SetValue 1";
    assert_eq!(input, r#"-Display "\\.\Display1" -SetValue 1"#);
    assert_eq!(
        parse_args(input),
        strings(&["-Display", "\\\\.\\Display1", "-SetValue", "1"])
    );
}

#[test]
fn splits_plain_words_at_spaces() {
    assert_eq!(parse_args("/SetValue Primary 60 15"), strings(&["/SetValue", "Primary", "60", "15"]));
}

#[test]
fn spaces_inside_quotes_do_not_split() {
    assert_eq!(parse_args("\"a b  c\" d"), strings(&["a b  c", "d"]));
}

#[test]
fn runs_of_spaces_give_no_empty_arguments() {
    assert_eq!(parse_args("  a   b  "), strings(&["a", "b"]));
    assert_eq!(parse_args("     "), strings(&[]));
}

#[test]
fn empty_input_gives_no_arguments() {
    assert_eq!(parse_args(""), strings(&[]));
}

#[test]
fn unmatched_quote_is_tolerated_and_the_tail_flushed() {
    assert_eq!(parse_args("a \"b c"), strings(&["a", "b c"]));
    assert_eq!(parse_args("\"unterminated  "), strings(&["unterminated  "]));
    assert_eq!(parse_args("a \""), strings(&["a"]));
}

#[test]
fn quotes_inside_a_word_join_its_parts() {
    assert_eq!(parse_args("a\"b c\"d e"), strings(&["ab cd", "e"]));
    assert_eq!(parse_args("pre\"\"post"), strings(&["prepost"]));
}

#[test]
fn an_empty_quoted_span_is_dropped() {
    assert_eq!(parse_args("a \"\" b"), strings(&["a", "b"]));
    assert_eq!(parse_args("\"\""), strings(&[]));
}

#[test]
fn a_quoted_space_alone_is_an_argument() {
    assert_eq!(parse_args("\" \""), strings(&[" "]));
}

#[test]
fn only_the_space_character_separates() {
    assert_eq!(parse_args("a\tb\nc"), strings(&["a\tb\nc"]));
    assert_eq!(parse_args("a\u{00A0}b c"), strings(&["a\u{00A0}b", "c"]));
}

#[test]
fn single_quotes_and_backslashes_are_ordinary() {
    assert_eq!(parse_args("'a b' c\\ d"), strings(&["'a", "b'", "c\\", "d"]));
}

#[test]
fn characters_beyond_ascii_pass_through() {
    assert_eq!(parse_args("\"\u{00E9}cran 1\" \u{1F5A5}"), strings(&["\u{00E9}cran 1", "\u{1F5A5}"]));
}

/// The same splitting written as a scan with a quote flag.
fn scan_with_flag(input: &str) -> Vec<String> {
    let mut found = Vec::new();
    let mut word = String::new();
    let mut quoted = false;
    for c in input.chars() {
        if c == '"' {
            quoted = !quoted;
        } else if c == ' ' && !quoted {
            if !word.is_empty() {
                found.push(std::mem::take(&mut word));
            }
        } else {
            word.push(c);
        }
    }
    if !word.is_empty() {
        found.push(word);
    }
    found
}

#[test]
fn agrees_with_a_flag_scan_on_every_short_input() {
    let alphabet = ['a', 'b', ' ', '"'];
    for len in 0..=8u32 {
        for code in 0..alphabet.len().pow(len) {
            let mut rest = code;
            let mut input = String::new();
            for _ in 0..len {
                input.push(alphabet[rest % alphabet.len()]);
                rest /= alphabet.len();
            }
            assert_eq!(parse_args(&input), scan_with_flag(&input), "input {:?}", input);
        }
    }
}

#[test]
fn quote_marks_never_reach_an_argument() {
    for input in ["\"", "\"\"\"", "a\"b\"c\"", "\" \" \" \"", "x \"y z\" \"", "\"a\"\"b\""] {
        for arg in parse_args(input) {
            assert!(!arg.contains('"'), "input {:?}", input);
            assert!(!arg.is_empty(), "input {:?}", input);
        }
    }
}
