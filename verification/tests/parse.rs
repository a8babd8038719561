use brumous::parse::parse_i32;
use brumous::parse::parse_usize;
use brumous::parse::same_text;

const TEXTS: [&str; 40] = [
    "",
    "0",
    "7",
    "42",
    "+42",
    "-42",
    "+",
    "-",
    "++1",
    "--1",
    "+-1",
    "1+",
    "1-",
    " 1",
    "1 ",
    "007",
    "-0",
    "+0",
    "2147483647",
    "2147483648",
    "-2147483648",
    "-2147483649",
    "4294967295",
    "4294967296",
    "18446744073709551615",
    "18446744073709551616",
    "99999999999999999999999999",
    "000000000000000000000000000000000000012",
    "-000000000000000000000000000000000000012",
    "12a",
    "a12",
    "1.5",
    "1e3",
    "0x10",
    "１２",
    "٣",
    "1_000",
    "/",
    "1/2",
    "-9223372036854775808",
];

#[test]
fn word_numbers_are_read_as_the_standard_library_reads_them() {
    for text in TEXTS {
        assert_eq!(parse_usize(text), text.parse::<usize>().ok(), "for {:?}", text);
    }
}

#[test]
fn numbers_of_32_bits_are_read_as_the_standard_library_reads_them() {
    for text in TEXTS {
        let n = text.chars().count();
        assert_eq!(parse_i32(text, 0, n), text.parse::<i32>().ok(), "for {:?}", text);
    }
}

#[test]
fn a_number_is_read_from_a_part_of_a_text() {
    assert_eq!(parse_i32("12/-34/+5", 0, 2), Some(12));
    assert_eq!(parse_i32("12/-34/+5", 3, 6), Some(-34));
    assert_eq!(parse_i32("12/-34/+5", 7, 9), Some(5));
    assert_eq!(parse_i32("12/-34/+5", 0, 3), None);
    assert_eq!(parse_i32("12/-34/+5", 2, 2), None);
    assert_eq!(parse_i32("12/-34/+5", 4, 6), Some(34));
    assert_eq!(parse_i32("é12", 1, 3), Some(12));
}

#[test]
fn given_numbers() {
    assert_eq!(parse_usize("5000"), Some(5000));
    assert_eq!(parse_usize("+10"), Some(10));
    assert_eq!(parse_usize("-10"), None);
    assert_eq!(parse_usize("ten"), None);
    assert_eq!(parse_usize(""), None);
    assert_eq!(parse_i32("-2147483648", 0, 11), Some(i32::MIN));
    assert_eq!(parse_i32("2147483647", 0, 10), Some(i32::MAX));
}

#[test]
fn texts_are_the_same_if_their_characters_are() {
    assert!(same_text("", ""));
    assert!(same_text("-max", "-max"));
    assert!(!same_text("-max", "-maxi"));
    assert!(!same_text("-max", "-mix"));
    assert!(!same_text("v", "vt"));
    assert!(same_text("héllo", "héllo"));
    assert!(!same_text("héllo", "hello"));
    for a in TEXTS {
        for b in TEXTS {
            assert_eq!(same_text(a, b), a == b);
        }
    }
}
