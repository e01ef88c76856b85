use nhentai_archivist::decimal::{format_u32, format_u64_padded5, parse_u32};
use nhentai_archivist::text::{chars_of, lines_of, utf8_len_of, words_of};

fn chars(s: &str) -> Vec<char> {
    s.chars().collect()
}

#[test]
fn parse_u32_accepts_what_str_parse_accepts() {
    for s in ["0", "42", "+7", "0004", "4294967295", "", "+", "-1", "4294967296", " 1", "1 ", "12a", "١٢"] {
        assert_eq!(parse_u32(&chars(s)), s.parse::<u32>().ok(), "input {s:?}");
    }
}

#[test]
fn format_u32_matches_display() {
    for n in [0u32, 7, 10, 99, 100, 12345, u32::MAX] {
        assert_eq!(format_u32(n), n.to_string());
    }
}

#[test]
fn format_padded_matches_zero_padding() {
    for n in [1u64, 42, 12345, 123456, 0] {
        assert_eq!(format_u64_padded5(n), format!("{:05}", n));
    }
}

#[test]
fn lines_match_str_lines() {
    for s in ["", "a", "a\n", "a\r\nb", "a\r", "\n\n", "x\r\n\r\n", "a\rb\n"] {
        let got: Vec<String> = lines_of(s).iter().map(|l| l.iter().collect()).collect();
        let want: Vec<String> = s.lines().map(|l| l.to_owned()).collect();
        assert_eq!(got, want, "input {s:?}");
    }
}

#[test]
fn words_match_split_whitespace() {
    for s in ["", "  ", "a b", " 12  34\t56\n", "a\u{3000}b"] {
        let v = chars(s);
        let got: Vec<String> = words_of(&v, 0, v.len()).iter().map(|w| w.iter().collect()).collect();
        let want: Vec<String> = s.split_whitespace().map(|w| w.to_owned()).collect();
        assert_eq!(got, want, "input {s:?}");
    }
}

#[test]
fn utf8_len_matches_str_len() {
    for s in ["", "abc", "é", "黑风雷", "👨‍👩‍👧‍👦"] {
        assert_eq!(utf8_len_of(s), s.len() as u128);
    }
}

#[test]
fn chars_of_gives_the_characters() {
    assert_eq!(chars_of("añ😀"), vec!['a', 'ñ', '😀']);
}

#[test]
fn formatted_numbers_parse_back() {
    for n in [0u32, 9, 10, 177013, u32::MAX] {
        assert_eq!(parse_u32(&chars(&format_u32(n))), Some(n));
    }
}
