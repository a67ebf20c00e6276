use mkworld_overlay::text::{chars_of, lower_char, lowercase, same_text, trim, whitespace};

#[test]
fn whitespace_agrees_with_std_on_every_char() {
    let mut code: u32 = 0;
    while code <= 0x10ffff {
        if let Some(c) = char::from_u32(code) {
            assert_eq!(whitespace(c), c.is_whitespace(), "U+{:04X}", code);
        }
        code += 1;
    }
}

#[test]
fn trim_agrees_with_std() {
    let samples = [
        "",
        " ",
        "\t\n\r ",
        "a",
        "  a",
        "a  ",
        "  a b  ",
        "\u{a0}Foo\u{3000}",
        "\u{2003}x y\u{2028}\u{2029}",
        "é ",
        " \u{200b}z ",
        "no-padding",
    ];
    for s in samples {
        assert_eq!(trim(s), s.trim(), "{:?}", s);
    }
}

#[test]
fn trim_keeps_inner_whitespace() {
    assert_eq!(trim("  Foo  Bar \n"), "Foo  Bar");
}

#[test]
fn trim_of_blank_is_empty() {
    assert_eq!(trim(" \t \u{85}"), "");
}

#[test]
fn lower_char_agrees_with_std_on_ascii() {
    for b in 0u8..=127 {
        let c = b as char;
        assert_eq!(lower_char(c), c.to_ascii_lowercase());
    }
}

#[test]
fn lower_char_leaves_other_chars() {
    assert_eq!(lower_char('É'), 'É');
    assert_eq!(lower_char('1'), '1');
    assert_eq!(lower_char('Z'), 'z');
}

#[test]
fn lowercase_agrees_with_std_on_ascii() {
    let all: String = (0u8..=127).map(|b| b as char).collect();
    assert_eq!(lowercase(&all), all.to_lowercase());
    assert_eq!(lowercase("Foo Bar-1.2"), "foo bar-1.2");
    assert_eq!(lowercase(""), "");
}

#[test]
fn lowercase_folds_letters_beyond_ascii() {
    assert_eq!(lowercase("ÀB"), "àb");
    assert_eq!(lowercase("ΣΑΣ"), "ΣΑΣ".to_lowercase());
    assert_eq!(lowercase("Grüße"), "grüße");
}

#[test]
fn lowercase_twice_is_lowercase_once() {
    let once = lowercase("MiXeD Case_42");
    assert_eq!(lowercase(&once), once);
}

#[test]
fn same_text_compares_characters() {
    assert!(same_text("", ""));
    assert!(same_text("Table", "Table"));
    assert!(!same_text("Table", "table"));
    assert!(!same_text("Table", "Tabl"));
    assert!(!same_text("é", "e"));
    assert!(same_text("é漢", "é漢"));
}

#[test]
fn chars_of_lists_the_characters() {
    assert_eq!(chars_of("aé漢"), vec!['a', 'é', '漢']);
    assert_eq!(chars_of(""), Vec::<char>::new());
}
