use uno::user_input::{parse_number, Input};

fn read(line: &str) -> Input {
    Input::from_line(line)
}

fn is_number(input: Input, expected: i32) -> bool {
    matches!(input, Input::Number(number) if number == expected)
}

fn is_text(input: Input, expected: &str) -> bool {
    matches!(input, Input::Text(text) if text == expected)
}

#[test]
fn lines_of_digits_are_numbers() {
    assert!(is_number(read("1\n"), 1));
    assert!(is_number(read("12\r\n"), 12));
    assert!(is_number(read("007"), 7));
    assert!(is_number(read("-3 \t\n"), -3));
    assert!(is_number(read("+3"), 3));
    assert!(is_number(read("0"), 0));
    assert!(is_number(read("-0"), 0));
    assert!(is_number(read("2147483647"), i32::MAX));
    assert!(is_number(read("-2147483648"), i32::MIN));
}

#[test]
fn other_lines_are_text_without_the_line_end() {
    assert!(is_text(read("d\n"), "d"));
    assert!(is_text(read("D  \n"), "D"));
    assert!(is_text(read("\n"), ""));
    assert!(is_text(read(""), ""));
    assert!(is_text(read(" 5\n"), " 5"));
    assert!(is_text(read("5 5\n"), "5 5"));
    assert!(is_text(read("-\n"), "-"));
    assert!(is_text(read("+\n"), "+"));
    assert!(is_text(read("--5\n"), "--5"));
    assert!(is_text(read("+-5\n"), "+-5"));
    assert!(is_text(read("5-\n"), "5-"));
    assert!(is_text(read("2147483648\n"), "2147483648"));
    assert!(is_text(read("-2147483649\n"), "-2147483649"));
    assert!(is_text(read("99999999999999999999999999\n"), "99999999999999999999999999"));
    assert!(is_text(read("1e3\n"), "1e3"));
    assert!(is_text(read("0x10\n"), "0x10"));
    assert!(is_text(read("٣\n"), "٣"));
}

#[test]
fn text_is_read_as_it_stands_once_trimmed() {
    assert!(is_text(Input::from_trimmed("5 "), "5 "));
    assert!(is_number(Input::from_trimmed("5"), 5));
    assert!(is_text(Input::from_trimmed("r"), "r"));
}

#[test]
fn parse_number_agrees_with_std() {
    let texts = [
        "", "0", "1", "-1", "+1", "10", "0010", "-0010", "+", "-", "++1", "1+", "a", "1a", "a1",
        "2147483647", "2147483648", "-2147483648", "-2147483649", "4294967296", "21474836470",
        "00000000000000000000002147483647", "-00000000000000000000002147483648",
        "18446744073709551616", " 1", "1 ", "1.0", "１",
    ];
    for text in texts {
        assert_eq!(parse_number(text), text.parse::<i32>().ok(), "for {:?}", text);
    }
}
