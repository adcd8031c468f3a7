//! The agent picker.

use agent_collab::agent::AgentStatus;
use agent_collab::line::Color;
use agent_collab::picker::{
    agent_picker_badge_from_status, agent_picker_status_dot_spans, format_agent_picker_item_name,
    format_agent_picker_list_item_name, sort_agent_picker_threads, AgentPickerBadge,
    AgentPickerThreadEntry,
};
use agent_collab::thread_id::ThreadId;

fn thread(value: u128, is_closed: bool, nickname: &str) -> (ThreadId, AgentPickerThreadEntry) {
    (
        ThreadId { value },
        AgentPickerThreadEntry {
            agent_nickname: Some(nickname.to_string()),
            agent_role: None,
            is_closed,
            badge: AgentPickerBadge::default(),
        },
    )
}

#[test]
fn names_are_made_of_nickname_and_role() {
    assert_eq!(format_agent_picker_item_name(Some("Robie"), Some("dev"), true), "Main [default]");
    assert_eq!(format_agent_picker_item_name(Some(" Robie "), Some(" dev\n"), false), "Robie [dev]");
    assert_eq!(format_agent_picker_item_name(Some("Robie"), Some("  "), false), "Robie");
    assert_eq!(format_agent_picker_item_name(Some("\t"), Some("dev"), false), "[dev]");
    assert_eq!(format_agent_picker_item_name(None, None, false), "Agent");
}

#[test]
fn badges_follow_the_name_of_all_but_the_primary_agent() {
    let name = |badge, primary| {
        format_agent_picker_list_item_name(Some("Robie"), None, badge, primary)
    };
    assert_eq!(name(AgentPickerBadge::Unmarked, false), "Robie");
    assert_eq!(name(AgentPickerBadge::Working, false), "Robie [working]");
    assert_eq!(name(AgentPickerBadge::Finish, false), "Robie [finish]");
    assert_eq!(name(AgentPickerBadge::Error, false), "Robie [error]");
    assert_eq!(name(AgentPickerBadge::Error, true), "Main [default]");
    assert_eq!(AgentPickerBadge::Unmarked.suffix(), None);
    assert_eq!(AgentPickerBadge::Finish.suffix(), Some("[finish]"));
}

#[test]
fn statuses_call_for_badges() {
    let badge = |status: AgentStatus| agent_picker_badge_from_status(&status);
    assert_eq!(badge(AgentStatus::Running), AgentPickerBadge::Working);
    assert_eq!(badge(AgentStatus::Completed(None)), AgentPickerBadge::Finish);
    assert_eq!(badge(AgentStatus::Errored(String::new())), AgentPickerBadge::Error);
    assert_eq!(badge(AgentStatus::PendingInit), AgentPickerBadge::Unmarked);
    assert_eq!(badge(AgentStatus::Shutdown), AgentPickerBadge::Unmarked);
    assert_eq!(badge(AgentStatus::NotFound), AgentPickerBadge::Unmarked);
}

#[test]
fn open_threads_have_a_green_dot() {
    let open = agent_picker_status_dot_spans(false);
    assert_eq!(open[0].content, "•");
    assert_eq!(open[0].style.fg, Some(Color::Green));
    assert_eq!(open[1].content, " ");
    let closed = agent_picker_status_dot_spans(true);
    assert_eq!(closed[0].content, "•");
    assert_eq!(closed[0].style.fg, None);
}

#[test]
fn threads_are_sorted_by_state_and_text_and_equal_ones_keep_their_order() {
    let mut threads = vec![
        thread(7, true, "a"),
        thread(0x10, false, "b"),
        thread(9, false, "c"),
        thread(7, true, "d"),
        thread(9, false, "e"),
        thread(1, true, "f"),
    ];
    sort_agent_picker_threads(&mut threads);
    let order = threads
        .iter()
        .map(|(_, entry)| entry.agent_nickname.clone().unwrap_or_default())
        .collect::<Vec<_>>()
        .join("");
    assert_eq!(order, "cebfad");
    let sorted = threads.clone();
    sort_agent_picker_threads(&mut threads);
    assert_eq!(threads, sorted);
    let mut none: Vec<(ThreadId, AgentPickerThreadEntry)> = vec![];
    sort_agent_picker_threads(&mut none);
    assert!(none.is_empty());
}

#[test]
fn an_unknown_thread_is_open_and_unmarked() {
    let entry = AgentPickerThreadEntry::default();
    assert_eq!(entry.agent_nickname, None);
    assert_eq!(entry.agent_role, None);
    assert!(!entry.is_closed);
    assert_eq!(entry.badge, AgentPickerBadge::Unmarked);
}

#[test]
fn outer_white_space_and_blank_texts_do_not_show() {
    let texts = [None, Some(""), Some(" \t"), Some("Robie"), Some(" Robie\n"), Some("a b ")];
    let kept = |text: Option<&'static str>| text.map(str::trim).filter(|text| !text.is_empty());
    let badges = [AgentPickerBadge::Unmarked, AgentPickerBadge::Working, AgentPickerBadge::Error];
    for nickname in texts {
        for role in texts {
            for badge in badges {
                for primary in [false, true] {
                    let name = format_agent_picker_item_name(nickname, role, primary);
                    assert_eq!(
                        name,
                        format_agent_picker_item_name(kept(nickname), kept(role), primary)
                    );
                    assert!(!name.is_empty());
                    assert_eq!(name.trim(), name);
                    let label = format_agent_picker_list_item_name(nickname, role, badge, primary);
                    assert!(label.starts_with(&name));
                    assert_eq!(label.trim(), label);
                }
            }
        }
    }
}
