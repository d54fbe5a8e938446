use capture_gui::lang::{
    active_language_name, language_at, language_filter, listed_for_filter, match_for_filter,
    top_lang_match, LANGUAGE_COUNT,
};

fn cs(s: &str) -> Vec<char> {
    s.chars().collect()
}

#[test]
fn language_list_ends() {
    assert_eq!(LANGUAGE_COUNT, 75);
    assert_eq!(language_at(0), ("", "Auto-detect"));
    assert_eq!(language_at(1), ("en", "English"));
    assert_eq!(language_at(74), ("my", "Burmese"));
}

#[test]
fn enter_picks_prefix_then_contains() {
    assert_eq!(top_lang_match("ger"), Some("de"));
    assert_eq!(top_lang_match("  Span "), Some("es"));
    assert_eq!(top_lang_match("k"), Some("ko"));
    assert_eq!(top_lang_match("an"), Some("de"));
    assert_eq!(top_lang_match("Ni"), Some("es"));
    assert_eq!(top_lang_match("lian"), Some("it"));
    assert_eq!(top_lang_match("au"), Some(""));
    assert_eq!(top_lang_match("zzz"), None);
    assert_eq!(top_lang_match("   "), None);
}

#[test]
fn typed_text_is_lowercased_before_matching() {
    assert_eq!(top_lang_match("GER"), Some("de"));
    assert_eq!(language_filter("GER"), vec![3]);
    assert_eq!(match_for_filter(&cs("ger")), Some("de"));
    assert_eq!(match_for_filter(&cs("GER")), None);
}

#[test]
fn dropdown_filter() {
    assert_eq!(language_filter("de"), vec![0, 3]);
    assert_eq!(language_filter("lian"), vec![16, 54]);
    assert_eq!(language_filter("zzz"), Vec::<usize>::new());
    assert_eq!(language_filter("").len(), 75);
    assert_eq!(language_filter("  ").len(), 75);
    assert_eq!(listed_for_filter(&cs("k")), vec![6, 10, 22, 23, 39, 47, 49, 56, 63, 64, 70, 73]);
}

#[test]
fn active_language_names() {
    assert_eq!(active_language_name("de"), "German");
    assert_eq!(active_language_name(""), "Auto-detect");
    assert_eq!(active_language_name("xx"), "xx");
}
