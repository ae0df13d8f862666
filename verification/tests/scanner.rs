use c_defines_to_enum::scanner::{is_whitespace, lines_of, scan_line, tokens_of};
use c_defines_to_enum::Error;

fn chars(s: &str) -> Vec<char> {
    s.chars().collect()
}

fn strings(items: Vec<Vec<char>>) -> Vec<String> {
    items.iter().map(|item| item.iter().collect::<String>()).collect()
}

#[test]
fn white_space_is_what_the_standard_library_calls_white_space() {
    for code in 0u32..=0x10FFFF {
        if let Some(c) = char::from_u32(code) {
            assert_eq!(is_whitespace(c), c.is_whitespace(), "U+{:04X}", code);
        }
    }
}

#[test]
fn a_text_has_one_more_line_than_line_feeds() {
    assert_eq!(strings(lines_of(&chars(""))), vec![""]);
    assert_eq!(strings(lines_of(&chars("a"))), vec!["a"]);
    assert_eq!(strings(lines_of(&chars("a\n"))), vec!["a", ""]);
    assert_eq!(strings(lines_of(&chars("a\nb"))), vec!["a", "b"]);
    assert_eq!(strings(lines_of(&chars("\n\n"))), vec!["", "", ""]);
    assert_eq!(strings(lines_of(&chars("a\r\nb c\n\nd"))), vec!["a\r", "b c", "", "d"]);
}

#[test]
fn tokens_are_the_runs_between_white_space() {
    assert_eq!(strings(tokens_of(&chars(""))), Vec::<String>::new());
    assert_eq!(strings(tokens_of(&chars("   \t "))), Vec::<String>::new());
    assert_eq!(strings(tokens_of(&chars("a"))), vec!["a"]);
    assert_eq!(strings(tokens_of(&chars("  a  "))), vec!["a"]);
    assert_eq!(strings(tokens_of(&chars("#define A 1"))), vec!["#define", "A", "1"]);
    assert_eq!(strings(tokens_of(&chars("\t#define\tA\u{3000}1\r"))), vec!["#define", "A", "1"]);
    assert_eq!(strings(tokens_of(&chars("a  b   c d"))), vec!["a", "b", "c", "d"]);
}

#[test]
fn tokens_agree_with_split_whitespace() {
    let samples = [
        "#define SYS_OPEN 2",
        "  #define   X\t0x10 // comment",
        "#define",
        "\u{a0}x\u{2003}y\u{85}z",
        "no define here",
        "",
        " ",
        "trailing ",
        " leading",
    ];
    for sample in samples {
        let expected: Vec<String> = sample.split_whitespace().map(|t| t.to_string()).collect();
        assert_eq!(strings(tokens_of(&chars(sample))), expected, "{:?}", sample);
    }
}

#[test]
fn a_define_line_gives_its_name_and_value() {
    let pair = scan_line("#define SYS_OPEN 2").unwrap().unwrap();
    assert_eq!(pair.raw_name, "SYS_OPEN");
    assert_eq!(pair.raw_value, "2");
    let pair = scan_line("   #define\tA   B   C D").unwrap().unwrap();
    assert_eq!(pair.raw_name, "A");
    assert_eq!(pair.raw_value, "B");
}

#[test]
fn other_lines_are_ignored() {
    assert!(scan_line("").unwrap().is_none());
    assert!(scan_line("   ").unwrap().is_none());
    assert!(scan_line("// #define A 1").unwrap().is_none());
    assert!(scan_line("#include <stdio.h>").unwrap().is_none());
    assert!(scan_line("#ifdef X").unwrap().is_none());
    assert!(scan_line("# define A 1").unwrap().is_none());
    assert!(scan_line("#defineA 1").unwrap().is_none());
    assert!(scan_line("#DEFINE A 1").unwrap().is_none());
    assert!(scan_line("int x;").unwrap().is_none());
    assert!(scan_line("x #define A 1").unwrap().is_none());
}

#[test]
fn a_define_line_without_a_name_fails() {
    assert_eq!(scan_line("#define").unwrap_err(), Error::MissingDefineName);
    assert_eq!(scan_line("  #define   ").unwrap_err(), Error::MissingDefineName);
}

#[test]
fn a_define_line_without_a_value_fails() {
    assert_eq!(scan_line("#define A").unwrap_err(), Error::MissingDefineValue);
    assert_eq!(scan_line("#define GUARD_H  ").unwrap_err(), Error::MissingDefineValue);
}
