//! Collecting reasoning summaries for translation.

use agent_collab::reasoning_summary_translation::{
    Config, PendingReasoningSummarySegment, ReasoningSummaryTranslationState, TranslationConfig,
};

fn config() -> Config {
    Config {
        translation: Some(TranslationConfig {
            provider: "translator".to_string(),
            model: "gemini-2.5-flash-lite".to_string(),
        }),
    }
}

fn state() -> ReasoningSummaryTranslationState {
    ReasoningSummaryTranslationState::from_config(&config())
}

fn segment(summary_index: i64, text: &str) -> Option<PendingReasoningSummarySegment> {
    Some(PendingReasoningSummarySegment { summary_index, text: text.to_string() })
}

#[test]
fn the_configuration_is_kept() {
    assert_eq!(state().config(), config().translation.as_ref());
    assert_eq!(ReasoningSummaryTranslationState::default().config(), None);
}

#[test]
fn text_of_one_section_is_collected() {
    let mut state = state();
    assert_eq!(state.push_delta("a", 0, "one "), None);
    assert_eq!(state.push_delta("a", 0, "two"), None);
    assert_eq!(state.finish_item("a"), segment(0, "one two"));
    assert_eq!(state.finish_item("a"), None);
}

#[test]
fn text_of_another_section_completes_the_first() {
    let mut state = state();
    assert_eq!(state.push_delta("a", 0, "one"), None);
    assert_eq!(state.push_delta("a", 1, "two"), segment(0, "one"));
    assert_eq!(state.push_delta("a", -1, ""), segment(1, "two"));
    assert_eq!(state.push_delta("a", 5, "three"), None);
    assert_eq!(state.finish_item("a"), segment(5, "three"));
}

#[test]
fn a_new_section_hands_out_the_old_one() {
    let mut state = state();
    assert_eq!(state.start_new_section("a", 0), None);
    assert_eq!(state.start_new_section("a", 1), None);
    assert_eq!(state.push_delta("a", 1, "text"), None);
    assert_eq!(state.start_new_section("a", 1), segment(1, "text"));
    assert_eq!(state.finish_item("a"), None);
}

#[test]
fn items_are_collected_apart() {
    let mut state = state();
    assert_eq!(state.push_delta("a", 0, "a0"), None);
    assert_eq!(state.push_delta("b", 1, "b1"), None);
    assert_eq!(state.finish_item("a"), segment(0, "a0"));
    assert_eq!(state.push_delta("b", 1, "!"), None);
    assert_eq!(state.finish_item("b"), segment(1, "b1!"));
}

#[test]
fn without_a_configuration_nothing_is_collected() {
    let mut state = ReasoningSummaryTranslationState::from_config(&Config { translation: None });
    assert_eq!(state.push_delta("a", 0, "text"), None);
    assert_eq!(state.push_delta("a", 1, "more"), None);
    assert_eq!(state.start_new_section("a", 2), None);
    assert_eq!(state.finish_item("a"), None);
}

#[test]
fn no_text_is_lost_or_repeated() {
    let mut state = state();
    let mut handed_out = String::new();
    let mut brought = String::new();
    for (index, text) in [(0, "a"), (0, "b"), (2, ""), (2, "c"), (1, "d"), (1, "é"), (0, "f")] {
        brought.push_str(text);
        if let Some(segment) = state.push_delta("item", index, text) {
            handed_out.push_str(&segment.text);
        }
        if index == 1 {
            if let Some(segment) = state.start_new_section("item", 1) {
                handed_out.push_str(&segment.text);
            }
        }
    }
    if let Some(segment) = state.finish_item("item") {
        handed_out.push_str(&segment.text);
    }
    assert_eq!(handed_out, brought);
}
