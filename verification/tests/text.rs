use walking_pattern::text::{chars_of, decimal_string, parse_unsigned, split_ranges, trim_range};

#[test]
fn trims_unicode_white_space_at_both_ends() {
    let text = "\u{3000}\t key \u{a0}\n";
    let chars = chars_of(text);
    let (a, b) = trim_range(&chars, 0, chars.len());
    assert_eq!(chars[a..b].iter().collect::<String>(), text.trim());
}

#[test]
fn splits_like_str_split() {
    for text in ["a=b", "=", "", "a==b", "x"] {
        let chars = chars_of(text);
        let pieces: Vec<String> = split_ranges(&chars, 0, chars.len(), '=')
            .iter()
            .map(|&(a, b)| chars[a..b].iter().collect())
            .collect();
        let expected: Vec<String> = text.split('=').map(str::to_string).collect();
        assert_eq!(pieces, expected, "{text}");
    }
}

#[test]
fn decimal_text_round_trips_through_the_unsigned_reader() {
    for n in [0usize, 7, 10, 1024, 65535, usize::MAX] {
        let text = decimal_string(n);
        assert_eq!(text, n.to_string());
        assert_eq!(parse_unsigned(&text), Some(n));
    }
    assert_eq!(parse_unsigned(""), None);
    assert_eq!(parse_unsigned("+0"), Some(0));
    assert_eq!(parse_unsigned("１"), None);
}
