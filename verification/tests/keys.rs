use mkworld_overlay::key::{cache_key, mode_key, GameMode};

#[test]
fn key_is_lowercase_trimmed_name_colon_tag() {
    assert_eq!(cache_key("FooBar", "12p"), "foobar:mkworld12p");
    assert_eq!(cache_key("FooBar", "24p"), "foobar:mkworld24p");
}

#[test]
fn names_differing_in_case_and_padding_share_a_key() {
    let expected = "foo bar-1.2:mkworld24p";
    for name in ["Foo Bar-1.2", "foo bar-1.2", "FOO BAR-1.2", "  Foo Bar-1.2", "fOO bAR-1.2 \n"] {
        assert_eq!(cache_key(name, ""), expected, "{:?}", name);
    }
}

#[test]
fn normalised_name_has_the_same_key() {
    let key = cache_key("  Some.Player_7 ", "12p");
    assert_eq!(key, "some.player_7:mkworld12p");
    assert_eq!(cache_key("some.player_7", "12p"), key);
}

#[test]
fn unknown_variant_means_twenty_four_players() {
    for variant in ["", "24p", "12P", " 12p", "12", "mkworld12p", "anything"] {
        assert_eq!(GameMode::from_variant(variant), GameMode::TwentyFourPlayers, "{:?}", variant);
    }
    assert_eq!(GameMode::from_variant("12p"), GameMode::TwelvePlayers);
}

#[test]
fn mode_tags() {
    assert_eq!(GameMode::TwelvePlayers.tag(), "mkworld12p");
    assert_eq!(GameMode::TwentyFourPlayers.tag(), "mkworld24p");
}

#[test]
fn different_modes_have_different_keys() {
    assert_ne!(cache_key("foo", "12p"), cache_key("foo", ""));
}

#[test]
fn key_of_name_beyond_ascii_is_lowercased_too() {
    assert_eq!(mode_key(" ÉRIC ", GameMode::TwelvePlayers), "éric:mkworld12p");
}

#[test]
fn key_of_empty_name() {
    assert_eq!(cache_key("", ""), ":mkworld24p");
}

#[test]
fn padding_of_any_whitespace_is_ignored() {
    assert_eq!(cache_key("\u{a0}\tFoo\u{2003}\n", "12p"), "foo:mkworld12p");
}

#[test]
fn keys_tell_names_and_modes_apart() {
    assert_ne!(cache_key("foo", "12p"), cache_key("fo", "12p"));
    assert_ne!(cache_key("foo bar", ""), cache_key("foobar", ""));
    assert_eq!(cache_key("foo", "x"), cache_key("FOO", "y"));
}
