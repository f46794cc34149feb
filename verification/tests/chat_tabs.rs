use waku::chat_tabs::{reorder_tabs, ChatTabChip, TabClose, TabCorners, TabTone};
use waku::session::{AgentSession, AppState, ProviderKind};
use waku::waku::Waku;

fn waku_with(session_ids: &[u128], tabs: &[u128], selected: Option<u128>) -> Waku {
    Waku {
        state: AppState {
            sessions: session_ids
                .iter()
                .map(|id| AgentSession::new(*id, ProviderKind::Codex))
                .collect(),
            selected_session: selected,
        },
        chat_tabs: tabs.to_vec(),
        split_session: None,
        split_on_left: false,
        split_focused: false,
        fps_frames: Vec::new(),
        fps_value: 0,
        toast: None,
    }
}

#[test]
fn reorder_moves_tab_to_target_slot() {
    let mut tabs = vec![1u128, 2, 3, 4];
    reorder_tabs(&mut tabs, 1, 2); // drag 1 rightwards onto index 2
    assert_eq!(tabs, vec![2, 3, 1, 4]);

    let mut tabs = vec![1u128, 2, 3, 4];
    reorder_tabs(&mut tabs, 4, 0); // drag 4 to the front
    assert_eq!(tabs, vec![4, 1, 2, 3]);

    let mut tabs = vec![1u128, 2, 3];
    reorder_tabs(&mut tabs, 2, 1); // no-op onto own slot
    assert_eq!(tabs, vec![1, 2, 3]);
}

#[test]
fn reorder_past_the_end_lands_last() {
    let mut tabs = vec![1u128, 2, 3];
    assert!(reorder_tabs(&mut tabs, 1, 9));
    assert_eq!(tabs, vec![2, 3, 1]);
}

#[test]
fn reorder_of_unknown_tab_changes_nothing() {
    let mut tabs = vec![1u128, 2, 3];
    assert!(!reorder_tabs(&mut tabs, 7, 0));
    assert_eq!(tabs, vec![1, 2, 3]);
    assert!(!reorder_tabs(&mut tabs, 3, 2));
    assert_eq!(tabs, vec![1, 2, 3]);
}

#[test]
fn reorder_chat_tab_moves_only_the_strip() {
    let mut w = waku_with(&[1, 2, 3], &[1, 2, 3], Some(2));
    assert!(w.reorder_chat_tab(3, 0));
    assert_eq!(w.chat_tabs, vec![3, 1, 2]);
    assert_eq!(w.state.selected_session, Some(2));
}

#[test]
fn close_of_unopened_tab_is_not_open() {
    let mut w = waku_with(&[1, 2], &[1], Some(1));
    assert_eq!(w.close_chat_tab(2), TabClose::NotOpen);
    assert_eq!(w.chat_tabs, vec![1]);
}

#[test]
fn close_of_background_tab_keeps_selection() {
    let mut w = waku_with(&[1, 2, 3], &[1, 2, 3], Some(1));
    assert_eq!(w.close_chat_tab(2), TabClose::Closed);
    assert_eq!(w.chat_tabs, vec![1, 3]);
    assert_eq!(w.state.selected_session, Some(1));
    // the session stays
    assert_eq!(w.state.sessions.len(), 3);
}

#[test]
fn close_of_selected_tab_selects_the_following_tab() {
    let mut w = waku_with(&[1, 2, 3], &[1, 2, 3], Some(2));
    assert_eq!(w.close_chat_tab(2), TabClose::Select(3));
    assert_eq!(w.chat_tabs, vec![1, 3]);
}

#[test]
fn close_of_selected_last_tab_selects_the_new_last() {
    let mut w = waku_with(&[1, 2, 3], &[1, 2, 3], Some(3));
    assert_eq!(w.close_chat_tab(3), TabClose::Select(2));
    assert_eq!(w.chat_tabs, vec![1, 2]);
}

#[test]
fn close_of_only_tab_clears_selection() {
    let mut w = waku_with(&[1], &[1], Some(1));
    assert_eq!(w.close_chat_tab(1), TabClose::Cleared);
    assert!(w.chat_tabs.is_empty());
    assert_eq!(w.state.selected_session, None);
}

#[test]
fn close_of_split_tab_closes_the_split() {
    let mut w = waku_with(&[1, 2], &[1, 2], Some(1));
    w.split_session = Some(2);
    w.split_focused = true;
    assert_eq!(w.close_chat_tab(2), TabClose::Closed);
    assert_eq!(w.split_session, None);
    assert!(!w.split_focused);
}

#[test]
fn readd_adds_existing_session_once() {
    let mut w = waku_with(&[1, 2], &[1], Some(1));
    assert!(w.readd_chat_tab(2));
    assert!(!w.readd_chat_tab(2));
    assert_eq!(w.chat_tabs, vec![1, 2]);
    // no selection change
    assert_eq!(w.state.selected_session, Some(1));
}

#[test]
fn readd_ignores_missing_session() {
    let mut w = waku_with(&[1], &[1], Some(1));
    assert!(!w.readd_chat_tab(5));
    assert_eq!(w.chat_tabs, vec![1]);
}

#[test]
fn close_then_readd_reopens_the_tab_last() {
    let mut w = waku_with(&[1, 2, 3], &[1, 2, 3], Some(1));
    w.close_chat_tab(2);
    assert!(w.readd_chat_tab(2));
    assert_eq!(w.chat_tabs, vec![1, 3, 2]);
}

#[test]
fn strip_is_hidden_without_tabs() {
    let w = waku_with(&[1], &[], None);
    assert!(w.render_chat_tab_strip(None).is_none());
}

#[test]
fn strip_skips_tabs_without_session_and_joins_split_pair() {
    let mut w = waku_with(&[1, 2, 3], &[1, 9, 2, 3], Some(2));
    w.split_session = Some(3);
    let chips = w.render_chat_tab_strip(Some(3)).unwrap();
    assert_eq!(chips.len(), 3);
    assert_eq!(
        chips[0],
        ChatTabChip {
            index: 0,
            session_id: 1,
            focused: false,
            on_screen: false,
            join_left: false,
            join_right: false,
            flush: true,
            corners: TabCorners::All,
            tone: TabTone::Secondary,
        }
    );
    assert_eq!(
        chips[1],
        ChatTabChip {
            index: 2,
            session_id: 2,
            focused: false,
            on_screen: true,
            join_left: true,
            join_right: false,
            flush: false,
            corners: TabCorners::Left,
            tone: TabTone::Primary,
        }
    );
    assert_eq!(
        chips[2],
        ChatTabChip {
            index: 3,
            session_id: 3,
            focused: true,
            on_screen: true,
            join_left: false,
            join_right: true,
            flush: true,
            corners: TabCorners::Right,
            tone: TabTone::Accent,
        }
    );
}
