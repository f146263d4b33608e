use miracle_core::{title_from, trimmed, Model};

#[test]
fn title_is_the_trimmed_first_line() {
    assert_eq!(title_from("Plan a trip\nto Lisbon"), "Plan a trip");
    assert_eq!(title_from("  spaced  "), "spaced");
    assert_eq!(title_from("windows\r\nline"), "windows");
    assert_eq!(title_from("\nsecond"), "");
    assert_eq!(title_from(""), "");
    assert_eq!(title_from("one line"), "one line");
}

#[test]
fn trimming_removes_unicode_white_space_only_at_the_ends() {
    assert_eq!(trimmed("  a b  "), "a b");
    assert_eq!(trimmed("\u{85}\u{1680}x\u{2028}\u{205f}"), "x");
    assert_eq!(trimmed(" \n\t "), "");
    assert_eq!(trimmed("é\u{200b}"), "é\u{200b}");
    assert_eq!(trimmed(" a\u{3000}b "), "a\u{3000}b");
}

#[test]
fn model_ids_and_order() {
    assert_eq!(Model::ALL, [Model::Opus5_5, Model::Sonnet5, Model::Haiku4_5]);
    assert_eq!(Model::Opus5_5.id(), "opus-5-5");
    assert_eq!(Model::Sonnet5.id(), "sonnet-5");
    assert_eq!(Model::Haiku4_5.id(), "haiku-4-5");
    assert_eq!(Model::default(), Model::Opus5_5);
}

#[test]
fn decimal_strings_match_display() {
    for n in [0i16, 7, 10, 99, 100, 2025, -1, -40, -9999, i16::MAX, i16::MIN] {
        assert_eq!(miracle_core::decimal_string(n), n.to_string());
    }
}
