use n8n_cli::parse::{parse_i32_chars, parse_position, trim_chars};

fn number(text: &str) -> Option<i32> {
    parse_i32_chars(&text.chars().collect())
}

#[test]
fn position_is_two_integers_with_a_comma_between() {
    assert_eq!(parse_position("200,300"), Ok((200, 300)));
    assert_eq!(parse_position("-5,+7"), Ok((-5, 7)));
    assert_eq!(parse_position("0,0"), Ok((0, 0)));
    assert_eq!(parse_position("2147483647,-2147483648"), Ok((i32::MAX, i32::MIN)));
}

#[test]
fn white_space_around_a_coordinate_is_ignored() {
    assert_eq!(parse_position(" 200 ,\t300\n"), Ok((200, 300)));
    assert_eq!(parse_position("\u{a0}1\u{2003},2"), Ok((1, 2)));
}

#[test]
fn position_needs_exactly_one_comma() {
    let shape = Err("Position must be in format 'x,y'".to_string());
    assert_eq!(parse_position("200"), shape);
    assert_eq!(parse_position(""), shape);
    assert_eq!(parse_position("1,2,3"), shape);
    assert_eq!(parse_position(",,"), shape);
}

#[test]
fn bad_coordinates_are_named() {
    let x = Err("Invalid x coordinate".to_string());
    let y = Err("Invalid y coordinate".to_string());
    assert_eq!(parse_position("a,1"), x);
    assert_eq!(parse_position(",1"), x);
    assert_eq!(parse_position("1 2,3"), x);
    assert_eq!(parse_position("2147483648,0"), x);
    assert_eq!(parse_position("x,y"), x);
    assert_eq!(parse_position("1,"), y);
    assert_eq!(parse_position("1,2.5"), y);
    assert_eq!(parse_position("1,-"), y);
    assert_eq!(parse_position("1,-2147483649"), y);
    assert_eq!(parse_position("1,--2"), y);
}

#[test]
fn integers_are_read_like_the_standard_library_reads_them() {
    for text in [
        "0", "-0", "+0", "007", "-007", "12", "+12", "-12", "2147483647", "2147483648",
        "-2147483648", "-2147483649", "99999999999999999999", "000000000000000000000012", "",
        "-", "+", "+-1", "1-", " 1", "1 ", "1_000", "0x10", "\u{661}",
    ] {
        assert_eq!(number(text), text.parse::<i32>().ok(), "for {:?}", text);
    }
}

#[test]
fn trimming_takes_white_space_from_both_ends_only() {
    let text = |chars: Vec<char>| chars.into_iter().collect::<String>();
    for s in ["", "   ", " a b ", "a", "\t\n a\u{a0}", "\u{3000}x\u{3000}y\u{3000}"] {
        assert_eq!(text(trim_chars(s)), s.trim(), "for {:?}", s);
    }
}
