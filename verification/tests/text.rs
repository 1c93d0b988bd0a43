use port_scanner::text::char_is_space;
use port_scanner::text::chars_of;
use port_scanner::text::contains_char;
use port_scanner::text::read_u16;
use port_scanner::text::split_at_char;
use port_scanner::text::trim_bounds;

fn chars(s: &str) -> Vec<char> {
    s.chars().collect()
}

#[test]
fn chars_of_keeps_every_character() {
    assert_eq!(chars_of("a-é/"), vec!['a', '-', 'é', '/']);
    assert_eq!(chars_of(""), Vec::<char>::new());
}

#[test]
fn white_space_is_the_unicode_property() {
    for code in 0u32..=0x10ffff {
        if let Some(c) = char::from_u32(code) {
            assert_eq!(char_is_space(c), c.is_whitespace());
        }
    }
}

#[test]
fn contains_char_finds_any_position() {
    assert!(contains_char(&chars("a,b"), ','));
    assert!(contains_char(&chars(","), ','));
    assert!(contains_char(&chars("ab,"), ','));
    assert!(!contains_char(&chars("ab"), ','));
    assert!(!contains_char(&chars(""), ','));
}

#[test]
fn split_gives_the_pieces_between_separators() {
    assert_eq!(split_at_char(&chars("a,b,c"), ','), vec![chars("a"), chars("b"), chars("c")]);
    assert_eq!(split_at_char(&chars("abc"), ','), vec![chars("abc")]);
    assert_eq!(split_at_char(&chars(""), ','), vec![chars("")]);
    assert_eq!(split_at_char(&chars(","), ','), vec![chars(""), chars("")]);
    assert_eq!(split_at_char(&chars("a,,b,"), ','), vec![chars("a"), chars(""), chars("b"), chars("")]);
}

#[test]
fn split_agrees_with_the_standard_split() {
    for s in ["", "-", "1-2", "-1-", "--", "10.0.0.1-10.0.0.9", "a-b-c-"] {
        let expected: Vec<Vec<char>> = s.split('-').map(|p| p.chars().collect()).collect();
        assert_eq!(split_at_char(&chars(s), '-'), expected);
    }
}

#[test]
fn trim_bounds_cut_both_ends() {
    assert_eq!(trim_bounds(&chars("  ab c \n")), (2, 6));
    assert_eq!(trim_bounds(&chars("abc")), (0, 3));
    assert_eq!(trim_bounds(&chars("")), (0, 0));
}

#[test]
fn trim_bounds_of_white_space_are_empty() {
    let (start, end) = trim_bounds(&chars(" \t "));
    assert_eq!(start, end);
}

#[test]
fn trim_agrees_with_the_standard_trim() {
    for s in ["", " ", "a", " a", "a ", "\t a b \r\n", "\u{2003}x\u{85}", "\u{200b}x"] {
        let cs = chars(s);
        let (start, end) = trim_bounds(&cs);
        let got: String = cs[start..end].iter().collect();
        assert_eq!(got, s.trim());
    }
}

#[test]
fn read_u16_reads_decimal_numbers() {
    assert_eq!(read_u16(&chars("0")), Some(0));
    assert_eq!(read_u16(&chars("8080")), Some(8080));
    assert_eq!(read_u16(&chars("+8080")), Some(8080));
    assert_eq!(read_u16(&chars("000065535")), Some(65535));
    assert_eq!(read_u16(&chars("65536")), None);
    assert_eq!(read_u16(&chars("")), None);
    assert_eq!(read_u16(&chars("+")), None);
    assert_eq!(read_u16(&chars("-1")), None);
    assert_eq!(read_u16(&chars(" 1")), None);
    assert_eq!(read_u16(&chars("1x")), None);
    assert_eq!(read_u16(&chars("0x10")), None);
}
