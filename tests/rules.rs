use powertoys::filters::{matches_rule, should_exclude, FilterAction, FilterMatchType, FilterRule};
use powertoys::randomiser::AppStateData;
use powertoys::settings::{
    background_data_url, language_for_locale, AppSettings, DarkModeOption, FileRandomiserSettings, LanguageOption,
};
use powertoys::text::{text_contains, text_ends_with, text_starts_with};

fn rule(action: FilterAction, match_type: FilterMatchType, pattern: &str, case_sensitive: bool) -> FilterRule {
    FilterRule { id: "r".to_string(), action, match_type, pattern: pattern.to_string(), case_sensitive }
}

#[test]
fn text_tests() {
    assert!(text_contains("hello world", "o w"));
    assert!(text_contains("abc", ""));
    assert!(!text_contains("abc", "abcd"));
    assert!(text_starts_with("hello", "he"));
    assert!(!text_starts_with("hello", "lo"));
    assert!(text_ends_with("hello", "lo"));
    assert!(text_ends_with("hello", ""));
}

#[test]
fn rules_match_by_kind_and_case() {
    let path = "/Music/Live/Track.MP3";
    assert!(matches_rule(path, &rule(FilterAction::Exclude, FilterMatchType::Contains, "live", false)));
    assert!(!matches_rule(path, &rule(FilterAction::Exclude, FilterMatchType::Contains, "live", true)));
    assert!(matches_rule(path, &rule(FilterAction::Exclude, FilterMatchType::EndsWith, ".mp3", false)));
    assert!(!matches_rule(path, &rule(FilterAction::Exclude, FilterMatchType::EndsWith, ".mp3", true)));
    assert!(matches_rule(path, &rule(FilterAction::Exclude, FilterMatchType::StartsWith, "/MUSIC", false)));
    assert!(matches_rule(path, &rule(FilterAction::Exclude, FilterMatchType::Regex, r"Tr[a-z]+k\.", false)));
    assert!(!matches_rule(path, &rule(FilterAction::Exclude, FilterMatchType::Regex, r"track", false)));
    assert!(!matches_rule(path, &rule(FilterAction::Exclude, FilterMatchType::Regex, r"(", false)));
}

#[test]
fn last_matching_rule_wins() {
    let rules = vec![
        rule(FilterAction::Exclude, FilterMatchType::Contains, "music", false),
        rule(FilterAction::Include, FilterMatchType::EndsWith, ".flac", false),
    ];
    assert!(should_exclude("/music/a.mp3", &rules));
    assert!(!should_exclude("/music/a.flac", &rules));
    assert!(!should_exclude("/video/a.mp4", &rules));
    assert!(!should_exclude("/music/a.mp3", &vec![]));
}

#[test]
fn crawl_marks_excluded_files() {
    let mut st = AppStateData::new();
    st.filter_rules.push(rule(FilterAction::Exclude, FilterMatchType::EndsWith, ".tmp", false));
    st.set_files_from_crawl(&vec![
        ("/d/a.txt".to_string(), "a.txt".to_string()),
        ("/d/b.TMP".to_string(), "b.TMP".to_string()),
    ]);
    assert_eq!(st.files.len(), 2);
    assert_eq!((st.files[0].id, st.files[0].excluded), (1, false));
    assert_eq!((st.files[1].id, st.files[1].excluded), (2, true));
}

#[test]
fn language_from_locale() {
    assert_eq!(language_for_locale(Some("nl-NL".to_string())), LanguageOption::Nl);
    assert_eq!(language_for_locale(Some("DE_de".to_string())), LanguageOption::De);
    assert_eq!(language_for_locale(Some("pl".to_string())), LanguageOption::Pl);
    assert_eq!(language_for_locale(Some("fr-FR".to_string())), LanguageOption::En);
    assert_eq!(language_for_locale(None), LanguageOption::En);
}

#[test]
fn settings_defaults_and_changes() {
    let d = FileRandomiserSettings::default();
    assert!(!d.allow_process_tracking);
    assert_eq!(d.randomness_level, 50);
    assert_eq!(DarkModeOption::default(), DarkModeOption::System);
    let mut s = AppSettings::default();
    assert_eq!(s.dark_mode, DarkModeOption::System);
    assert_eq!(s.custom_background, None);
    s.toggle_process_tracking(true);
    assert!(s.file_randomiser.allow_process_tracking);
    s.set_dark_mode(DarkModeOption::Dark);
    assert_eq!(s.dark_mode, DarkModeOption::Dark);
    s.set_custom_background("data:x".to_string());
    assert_eq!(s.custom_background, Some("data:x".to_string()));
    s.clear_custom_background();
    assert_eq!(s.custom_background, None);
}

#[test]
fn background_data_urls() {
    assert_eq!(background_data_url(&b"hi".to_vec(), "/p/bg.jpg"), "data:image/jpg;base64,aGk=");
    assert_eq!(background_data_url(&b"abc".to_vec(), "/p/bg"), "data:image/png;base64,YWJj");
}
