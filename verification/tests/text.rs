use bevy_make_human::text::{
    chars_to_string, decode_lines, parse_u32, parse_usize, split_whitespace, to_lowercase,
    trim_chars, IntErrorKind,
};

fn chars(s: &str) -> Vec<char> {
    s.chars().collect()
}

#[test]
fn lines_split_like_buffered_reading() {
    let (ls, complete) = decode_lines(b"a\r\nb\n\nc");
    assert!(complete);
    let got: Vec<String> = ls.iter().map(|l| l.iter().collect()).collect();
    assert_eq!(got, vec!["a", "b", "", "c"]);
    let (ls, complete) = decode_lines(b"x\n");
    assert!(complete);
    assert_eq!(ls.len(), 1);
    let (ls, complete) = decode_lines(&[b'o', b'k', b'\n', 0x80, b'\n', b'z']);
    assert!(!complete);
    assert_eq!(ls.len(), 1);
}

#[test]
fn unsigned_parsing() {
    assert_eq!(parse_u32(&chars("42")), Ok(42));
    assert_eq!(parse_u32(&chars("+7")), Ok(7));
    assert_eq!(parse_u32(&chars("")), Err(IntErrorKind::Empty));
    assert_eq!(parse_u32(&chars("+")), Err(IntErrorKind::InvalidDigit));
    assert_eq!(parse_u32(&chars("-1")), Err(IntErrorKind::InvalidDigit));
    assert_eq!(parse_u32(&chars("4294967295")), Ok(u32::MAX));
    assert_eq!(parse_u32(&chars("4294967296")), Err(IntErrorKind::PosOverflow));
    assert_eq!(parse_usize(&chars("18")), Ok(18));
}

#[test]
fn words_and_trimming() {
    let w = split_whitespace(&chars("  a\tbc \u{3000} d  "));
    let got: Vec<String> = w.iter().map(|x| x.iter().collect()).collect();
    assert_eq!(got, vec!["a", "bc", "d"]);
    assert_eq!(trim_chars(&chars(" \t x y \n")), chars("x y"));
}

#[test]
fn lowercase_and_collect() {
    assert_eq!(to_lowercase(&chars("ÀbC")), chars("àbc"));
    // ASCII: only A-Z change; digits, signs and whitespace stay.
    assert_eq!(to_lowercase(&chars("AZ az 09 -_@[`{\t")), chars("az az 09 -_@[`{\t"));
    assert_eq!(chars_to_string(&chars("héllo")), "héllo");
}
