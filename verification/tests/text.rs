use gpt_copy_v5_backend::text::{
    char_is_space, decimal_text, first_words, is_blank, parse_u16, same_text, title_from_message,
    trimmed, DEFAULT_TITLE,
};

fn std_title(content: &str) -> String {
    let title = content.split_whitespace().take(8).collect::<Vec<_>>().join(" ");
    if title.is_empty() {
        "New chat".to_owned()
    } else if title.chars().count() > 80 {
        title.chars().take(80).collect()
    } else {
        title
    }
}

#[test]
fn white_space_matches_std_for_every_char() {
    for code in 0u32..=0x10FFFF {
        if let Some(c) = char::from_u32(code) {
            assert_eq!(char_is_space(c), c.is_whitespace(), "{code:#x}");
        }
    }
}

#[test]
fn trimming_matches_std() {
    let samples = [
        "",
        "   ",
        "  hello  ",
        "\u{3000}\u{a0}text\u{2029}\n",
        "\t\r\n mixed \u{85}",
        "no-space",
        "a b c",
        "\u{200b}zero width is not space\u{200b}",
    ];
    for s in samples {
        assert_eq!(trimmed(s), s.trim(), "{s:?}");
        assert_eq!(is_blank(s), s.trim().is_empty(), "{s:?}");
    }
}

#[test]
fn title_is_first_eight_words() {
    assert_eq!(
        title_from_message("  one two\tthree\nfour five six seven eight nine ten"),
        "one two three four five six seven eight"
    );
    assert_eq!(title_from_message("Hello model"), "Hello model");
}

#[test]
fn title_of_blank_message_is_default() {
    assert_eq!(title_from_message(" \n\t "), DEFAULT_TITLE);
    assert_eq!(title_from_message(""), "New chat");
}

#[test]
fn long_title_is_cut_to_eighty_chars() {
    let word = "é".repeat(50);
    let content = format!("{word} {word} {word}");
    let title = title_from_message(&content);
    assert_eq!(title.chars().count(), 80);
    assert_eq!(title, std_title(&content));
}

#[test]
fn title_matches_std_algorithm() {
    let samples = [
        "What is up?",
        "a  b   c    d e f g h i j k",
        "\u{3000}wide\u{3000}space\u{3000}",
        "x",
        "one\r\ntwo\r\nthree",
    ];
    for s in samples {
        assert_eq!(title_from_message(s), std_title(s), "{s:?}");
    }
}

#[test]
fn first_words_takes_fewer_when_short() {
    assert_eq!(first_words("alpha  beta", 8), "alpha beta");
    assert_eq!(first_words("alpha beta gamma", 2), "alpha beta");
    assert_eq!(first_words("   ", 3), "");
}

#[test]
fn decimal_text_writes_numbers() {
    assert_eq!(decimal_text(0), "0");
    assert_eq!(decimal_text(7), "7");
    assert_eq!(decimal_text(3001), "3001");
    assert_eq!(decimal_text(65535), "65535");
}

#[test]
fn parse_u16_matches_std() {
    let samples = [
        "3001", "0", "+80", "65535", "65536", "", "+", "-1", "12a", " 80", "80 ", "00042", "999999",
        "++1",
    ];
    for s in samples {
        assert_eq!(parse_u16(s), s.parse::<u16>().ok(), "{s:?}");
    }
}

#[test]
fn decimal_round_trips_through_parse() {
    for n in [0u16, 1, 9, 10, 99, 100, 3001, 65535] {
        assert_eq!(parse_u16(&decimal_text(n)), Some(n));
    }
}

#[test]
fn same_text_compares_characters() {
    assert!(same_text("user", "user"));
    assert!(!same_text("user", "users"));
    assert!(!same_text("User", "user"));
    assert!(same_text("", ""));
}
