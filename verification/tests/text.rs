use hack_tools::pattern::Pattern;
use hack_tools::text::binary;
use hack_tools::text::contains_char;
use hack_tools::text::decimal;
use hack_tools::text::equal;
use hack_tools::text::is_number;
use hack_tools::text::join_lines;
use hack_tools::text::keeps_line;
use hack_tools::text::parse_decimal;
use hack_tools::text::read_source;
use hack_tools::text::split_lines;

#[test]
fn equal_compares_whole_strings() {
    assert!(equal("", ""));
    assert!(equal("push", "push"));
    assert!(!equal("push", "pop"));
    assert!(!equal("push", "pushed"));
    assert!(!equal("pushed", "push"));
    assert!(equal("caf\u{e9}", "caf\u{e9}"));
    assert!(!equal("caf\u{e9}", "cafe"));
}

#[test]
fn contains_char_scans_the_string() {
    assert!(contains_char("D;JGT", ';'));
    assert!(!contains_char("D=A", ';'));
    assert!(contains_char("D+M", 'M'));
    assert!(!contains_char("", 'M'));
}

#[test]
fn decimal_writes_numbers() {
    assert_eq!("0", decimal(0));
    assert_eq!("7", decimal(7));
    assert_eq!("10", decimal(10));
    assert_eq!("1234567890", decimal(1234567890));
    assert_eq!("18446744073709551615", decimal(u64::MAX));
}

#[test]
fn binary_writes_numbers() {
    assert_eq!("0", binary(0, 0));
    assert_eq!("0", binary(0, 1));
    assert_eq!("1", binary(1, 1));
    assert_eq!("101", binary(5, 0));
    assert_eq!("0101", binary(5, 4));
    assert_eq!("00000101", binary(5, 8));
}

#[test]
fn parse_decimal_reads_numbers() {
    assert_eq!(Some(0), parse_decimal("0", 10));
    assert_eq!(Some(10), parse_decimal("10", 10));
    assert_eq!(None, parse_decimal("11", 10));
    assert_eq!(Some(7), parse_decimal("+7", 10));
    assert_eq!(Some(7), parse_decimal("0000000000000000000000000007", 10));
    assert_eq!(Some(u64::MAX), parse_decimal("18446744073709551615", u64::MAX));
    assert_eq!(None, parse_decimal("18446744073709551616", u64::MAX));
    assert_eq!(None, parse_decimal("99999999999999999999999999999999999999999999", u64::MAX));
}

#[test]
fn parse_decimal_refuses_what_is_no_number() {
    assert_eq!(None, parse_decimal("", 10));
    assert_eq!(None, parse_decimal("+", 10));
    assert_eq!(None, parse_decimal("-1", 10));
    assert_eq!(None, parse_decimal("++1", 10));
    assert_eq!(None, parse_decimal("1+", 10));
    assert_eq!(None, parse_decimal(" 1", 10));
    assert_eq!(None, parse_decimal("1 ", 10));
    assert_eq!(None, parse_decimal("1a", 10));
    assert_eq!(None, parse_decimal("\u{661}", 10));
}

#[test]
fn decimal_and_parse_decimal_agree() {
    let numbers: [u64; 6] = [0, 9, 10, 255, 65536, 4294967295];
    for n in numbers.iter() {
        assert_eq!(Some(*n), parse_decimal(&decimal(*n), u64::MAX));
    }
}

#[test]
fn split_lines_cuts_at_line_feeds() {
    assert_eq!(Vec::<String>::new(), split_lines(""));
    assert_eq!(vec!["a"], split_lines("a"));
    assert_eq!(vec!["a"], split_lines("a\n"));
    assert_eq!(vec!["a", "b"], split_lines("a\nb"));
    assert_eq!(vec!["a", "", "b"], split_lines("a\n\nb\n"));
    assert_eq!(vec!["", ""], split_lines("\n\n"));
    assert_eq!(vec!["a", "b"], split_lines("a\r\nb\r\n"));
    assert_eq!(vec!["a\rb", "c\r"], split_lines("a\rb\nc\r"));
}

#[test]
fn split_lines_agrees_with_the_standard_library() {
    let texts = ["", "\n", "a\nb", "a\r\n\r\nb\r", "\r\n", "x\n\ny\n", "\u{e9}\n\u{fc}"];
    for text in texts.iter() {
        let expected: Vec<String> = text.lines().map(|l| l.to_string()).collect();
        assert_eq!(expected, split_lines(text));
    }
}

#[test]
fn keeps_line_drops_empty_lines_and_comments() {
    assert!(!keeps_line(""));
    assert!(!keeps_line("//"));
    assert!(!keeps_line("// note"));
    assert!(keeps_line("/"));
    assert!(keeps_line(" // note"));
    assert!(keeps_line("@1 // note"));
    assert!(keeps_line(" "));
}

#[test]
fn read_source_keeps_the_source_lines() {
    assert_eq!(vec!["@1", "D=A"], read_source("// head\n\n@1\n//\nD=A\n\n"));
    assert_eq!(Vec::<String>::new(), read_source("//only\n"));
}

#[test]
fn search_finds_a_pattern_anywhere() {
    let digits = Pattern::new(r"\d+");
    assert!(digits.search("abc 123"));
    assert!(!digits.search("abc"));
    let whole = Pattern::new(r"^abc$");
    assert!(whole.search("abc"));
    assert!(!whole.search("abc\n"));
    assert!(!whole.search("xabc"));
}

#[test]
fn a_pattern_that_does_not_compile_finds_nothing() {
    assert!(!Pattern::new("(").search("("));
    assert_eq!(None, Pattern::new("(?P<x>").extract("x", "x"));
}

#[test]
fn extract_returns_the_text_of_the_group() {
    let number = Pattern::new(r"(?P<n>\d+)");
    assert_eq!(Some("123".to_string()), number.extract("abc 123 def 456", "n"));
    assert_eq!(None, number.extract("abc", "n"));
    assert_eq!(None, number.extract("123", "m"));
    let either = Pattern::new(r"(?P<n>\d+)|(?P<w>[a-z]+)");
    assert_eq!(None, either.extract("abc", "n"));
    assert_eq!(Some("abc".to_string()), either.extract("abc", "w"));
    assert_eq!(Some(String::new()), Pattern::new(r"x(?P<n>\d*)").extract("x", "n"));
}

#[test]
fn join_lines_ends_each_line() {
    assert_eq!("", join_lines(&Vec::new()));
    assert_eq!("a\n\nb\n", join_lines(&vec!["a".to_string(), String::new(), "b".to_string()]));
}

#[test]
fn is_number_knows_decimal_literals() {
    assert!(is_number("0"));
    assert!(is_number("+12"));
    assert!(is_number("99999999999999999999999999999999999999"));
    assert!(!is_number(""));
    assert!(!is_number("+"));
    assert!(!is_number("-1"));
    assert!(!is_number("12a"));
    assert!(!is_number("1 2"));
    assert!(!is_number("R2"));
}
