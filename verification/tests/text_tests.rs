use calc_core::clipboard::{base64_encode, clean_pasted, osc52_sequence};
use calc_core::functions::{arity_error, gcd};
use calc_core::text::{text_lines, trim_string};
use calc_core::words::{char_to_byte_pos, find_inner_word, find_inner_word_pub, is_word_char};

#[test]
fn test_gcd() {
    assert_eq!(gcd(12, 8), 4);
    assert_eq!(gcd(0, 0), 0);
    assert_eq!(gcd(0, 7), 7);
    assert_eq!(gcd(17, 5), 1);
}

#[test]
fn arity_messages() {
    assert_eq!(arity_error("sin", 1, 2).message, "sin expects 1 argument, got 2");
    assert_eq!(arity_error("pow", 2, 1).message, "pow expects 2 arguments, got 1");
}

#[test]
fn base64_known_values() {
    assert_eq!(base64_encode(b""), "");
    assert_eq!(base64_encode(b"f"), "Zg==");
    assert_eq!(base64_encode(b"fo"), "Zm8=");
    assert_eq!(base64_encode(b"foo"), "Zm9v");
    assert_eq!(base64_encode(b"foobar"), "Zm9vYmFy");
    assert_eq!(base64_encode(&[0xff, 0xfe]), "//4=");
}

#[test]
fn osc52_wraps_base64() {
    assert_eq!(osc52_sequence("hi"), "\x1b]52;c;aGk=\x07");
}

#[test]
fn pasted_text_loses_trailing_line_endings() {
    assert_eq!(clean_pasted("abc\r\n"), "abc");
    assert_eq!(clean_pasted("abc\n\n"), "abc");
    assert_eq!(clean_pasted("a\r\nb"), "a\r\nb");
}

#[test]
fn words_and_byte_offsets() {
    assert!(is_word_char('a'));
    assert!(is_word_char('_'));
    assert!(!is_word_char('+'));
    let chars: Vec<char> = "foo bar+baz".chars().collect();
    assert_eq!(find_inner_word(&chars, 5), (4, 7));
    assert_eq!(find_inner_word_pub(&chars, 7), (7, 8));
    assert_eq!(find_inner_word_pub(&chars, 100), (8, 11));
    assert_eq!(find_inner_word_pub(&[], 0), (0, 0));
    assert_eq!(char_to_byte_pos("héllo", 2), 3);
    assert_eq!(char_to_byte_pos("héllo", 99), 6);
}

#[test]
fn text_helpers() {
    assert_eq!(trim_string("  q!  "), "q!");
    assert_eq!(text_lines("a\r\nb\n"), vec!["a".to_string(), "b".to_string()]);
    assert_eq!(text_lines(""), Vec::<String>::new());
    assert_eq!(text_lines("a\r"), vec!["a\r".to_string()]);
}

#[test]
fn word_under_cursor_is_a_run_of_one_class() {
    let chars: Vec<char> = "a+=b".chars().collect();
    assert_eq!(find_inner_word_pub(&chars, 1), (1, 3));
    let chars: Vec<char> = "x\u{3000}\u{3000}y".chars().collect();
    assert_eq!(find_inner_word_pub(&chars, 1), (1, 3));
    assert_eq!(find_inner_word_pub(&chars, 0), (0, 1));
    let chars: Vec<char> = "é_b c".chars().collect();
    assert_eq!(find_inner_word(&chars, 1), (0, 3));
}
