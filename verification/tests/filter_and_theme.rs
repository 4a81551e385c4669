use portside_tui::models::{Session, SessionStatus};
use portside_tui::theme::{by_name, default_theme, mono_theme, names, solarized_theme, Color};

fn session(topic: &str, description: Option<&str>, tags: &[&str]) -> Session {
    let mut session = Session::new(topic.to_string());
    session.description = description.map(str::to_string);
    session.tags = tags.iter().map(|t| t.to_string()).collect();
    session
}

#[test]
fn empty_query_matches_everything() {
    let session = session("writing", None, &[]);
    assert!(portside_tui::session_filter::matches(&session, ""));
    assert!(portside_tui::session_filter::matches(&session, "   "));
}

#[test]
fn plain_token_matches_topic_substring_case_insensitively() {
    let session = session("Deep Work", None, &[]);
    assert!(portside_tui::session_filter::matches(&session, "deep"));
    assert!(portside_tui::session_filter::matches(&session, "WORK"));
    assert!(!portside_tui::session_filter::matches(&session, "shallow"));
}

#[test]
fn plain_token_matches_description_substring() {
    let session = session("writing", Some("working through chapter 3"), &[]);
    assert!(portside_tui::session_filter::matches(&session, "chapter"));
    assert!(!portside_tui::session_filter::matches(&session, "chapter 5"));
}

#[test]
fn hash_token_matches_a_tag_exactly_case_insensitively() {
    let session = session("writing", None, &["Rust", "study"]);
    assert!(portside_tui::session_filter::matches(&session, "#rust"));
    assert!(portside_tui::session_filter::matches(&session, "#STUDY"));
    assert!(!portside_tui::session_filter::matches(&session, "#ru"));
    assert!(!portside_tui::session_filter::matches(&session, "#unrelated"));
}

#[test]
fn multiple_tokens_are_and_ed_together() {
    let session = session("Deep Work", Some("chapter 3"), &["rust"]);
    assert!(portside_tui::session_filter::matches(&session, "deep #rust"));
    assert!(portside_tui::session_filter::matches(&session, "chapter #rust deep"));
    assert!(!portside_tui::session_filter::matches(&session, "deep #study"));
    assert!(!portside_tui::session_filter::matches(&session, "shallow #rust"));
}

#[test]
fn tag_token_does_not_match_topic_or_description() {
    let session = session("rust basics", Some("about rust"), &[]);
    assert!(!portside_tui::session_filter::matches(&session, "#rust"));
}

#[test]
fn plain_tokens_lowercase_beyond_ascii() {
    let session = session("ÜBUNG Straße", None, &[]);
    assert!(portside_tui::session_filter::matches(&session, "übung"));
    assert!(portside_tui::session_filter::matches(&session, "STRASSE") == "straße".contains("strasse"));
}

#[test]
fn every_name_resolves() {
    for name in names() {
        assert!(by_name(name).is_some(), "expected {name} to resolve");
    }
}

#[test]
fn unknown_name_resolves_to_none() {
    assert!(by_name("nonexistent").is_none());
}

#[test]
fn status_color_covers_every_variant() {
    let theme = default_theme();
    assert_eq!(theme.status_color(SessionStatus::Running), theme.running);
    assert_eq!(theme.status_color(SessionStatus::Paused), theme.paused);
    assert_eq!(theme.status_color(SessionStatus::OnBreak), theme.on_break);
    assert_eq!(theme.status_color(SessionStatus::Completed), theme.completed);
}

#[test]
fn heatmap_color_clamps_out_of_range_levels() {
    let theme = default_theme();
    assert_eq!(theme.heatmap_color(0), theme.heatmap_ramp[0]);
    assert_eq!(theme.heatmap_color(4), theme.heatmap_ramp[4]);
    assert_eq!(theme.heatmap_color(255), theme.heatmap_ramp[4]);
}

#[test]
fn builtin_palettes_by_name() {
    assert_eq!(by_name("solarized").unwrap().background, solarized_theme().background);
    assert_eq!(by_name("mono").unwrap().running, mono_theme().running);
    assert_eq!(by_name("default").unwrap().running, Color::Green);
    assert_eq!(solarized_theme().background, Color::Rgb(0, 43, 54));
}
