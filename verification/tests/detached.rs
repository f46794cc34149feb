use waku::chat_tabs::TabClose;
use waku::detached::{DetachedSessionView, DetachedTabChip};
use waku::rows::MessageRow;
use waku::session::{AgentSession, AppState, ChatMessage, MessageRole, ProviderKind};
use waku::waku::Waku;

fn session(id: u128, messages: usize) -> AgentSession {
    let mut s = AgentSession::new(id, ProviderKind::Codex);
    for k in 0..messages {
        s.messages.push(ChatMessage {
            id: id * 100 + k as u128,
            role: MessageRole::Assistant,
            content: "text".to_string(),
            streaming: false,
        });
    }
    s
}

fn waku_with(sessions: Vec<AgentSession>, tabs: &[u128]) -> Waku {
    Waku {
        state: AppState { sessions, selected_session: None },
        chat_tabs: tabs.to_vec(),
        split_session: None,
        split_on_left: false,
        split_focused: false,
        fps_frames: Vec::new(),
        fps_value: 0,
        toast: None,
    }
}

#[test]
fn new_window_holds_the_torn_off_session() {
    let v = DetachedSessionView::new(4);
    assert_eq!(v.tabs(), &vec![4u128]);
    assert_eq!(v.active(), 4);
    assert_eq!(v.detached_tab(4), DetachedTabChip { session_id: 4, active: true });
    assert_eq!(v.detached_tab(5), DetachedTabChip { session_id: 5, active: false });
}

#[test]
fn accept_takes_the_tab_from_the_main_strip() {
    let mut w = waku_with(vec![session(1, 0), session(2, 0)], &[1, 2]);
    let mut v = DetachedSessionView::new(1);
    assert_eq!(v.accept_session(&mut w, 2), TabClose::Closed);
    assert_eq!(v.tabs(), &vec![1u128, 2]);
    assert_eq!(v.active(), 2);
    assert_eq!(w.chat_tabs, vec![1]);
    // accepting again adds no second tab
    v.accept_session(&mut w, 2);
    assert_eq!(v.tabs(), &vec![1u128, 2]);
}

#[test]
fn closing_a_window_tab_returns_it_to_main() {
    let mut w = waku_with(vec![session(1, 0), session(2, 0)], &[]);
    let mut v = DetachedSessionView::new(1);
    v.accept_session(&mut w, 2);
    assert!(v.close_detached_tab(&mut w, 2));
    assert_eq!(v.tabs(), &vec![1u128]);
    assert_eq!(v.active(), 1);
    assert_eq!(w.chat_tabs, vec![2]);
}

#[test]
fn closing_the_last_window_tab_keeps_active_pointer() {
    let mut w = waku_with(vec![session(1, 0)], &[]);
    let mut v = DetachedSessionView::new(1);
    assert!(v.close_detached_tab(&mut w, 1));
    assert!(v.tabs().is_empty());
    assert_eq!(v.active(), 1);
    assert_eq!(w.chat_tabs, vec![1]);
}

#[test]
fn releasing_a_window_returns_every_live_tab() {
    let mut w = waku_with(vec![session(1, 0), session(2, 0), session(3, 0)], &[3]);
    let mut v = DetachedSessionView::new(1);
    v.accept_session(&mut w, 2);
    v.accept_session(&mut w, 9);
    assert_eq!(w.chat_tabs, vec![3]);
    v.release_tabs(&mut w);
    // 9 has no session, so it does not come back
    assert_eq!(w.chat_tabs, vec![3, 1, 2]);
}

#[test]
fn reconcile_drops_tabs_moved_back_or_gone() {
    let mut w = waku_with(vec![session(1, 3), session(2, 5)], &[]);
    let mut v = DetachedSessionView::new(1);
    v.accept_session(&mut w, 2);
    v.accept_session(&mut w, 7);
    // 7 has no session; 1 moved back to the main strip
    w.chat_tabs.push(1);
    let frame = v.reconcile(&w).unwrap();
    assert_eq!(v.tabs(), &vec![2u128]);
    assert_eq!(v.active(), 2);
    assert_eq!(frame.chips, vec![DetachedTabChip { session_id: 2, active: true }]);
    // the row count is that of the session shown once the tabs settled
    assert_eq!(frame.message_count, 5);
}

#[test]
fn reconcile_of_an_emptied_window_is_inert() {
    let w = waku_with(vec![session(1, 0)], &[1]);
    let mut v = DetachedSessionView::new(1);
    assert!(v.reconcile(&w).is_none());
    assert!(v.tabs().is_empty());
}

#[test]
fn select_tab_ignores_sessions_without_a_tab() {
    let mut w = waku_with(vec![session(1, 0), session(2, 0)], &[]);
    let mut v = DetachedSessionView::new(1);
    v.accept_session(&mut w, 2);
    assert!(v.select_tab(1));
    assert_eq!(v.active(), 1);
    assert!(!v.select_tab(5));
    assert_eq!(v.active(), 1);
}

#[test]
fn detached_row_reads_the_shown_session() {
    let w = waku_with(vec![session(1, 2)], &[]);
    let v = DetachedSessionView::new(1);
    assert_eq!(
        v.detached_row(&w, 1),
        MessageRow::Markdown { message_id: 101, user: false, streaming: false }
    );
    assert_eq!(v.detached_row(&w, 2), MessageRow::Empty);
}

#[test]
fn tear_off_needs_an_existing_session() {
    let mut w = waku_with(vec![session(1, 0), session(2, 0)], &[1, 2]);
    assert!(w.tear_off_chat_tab(5).is_none());
    let v = w.tear_off_chat_tab(2).unwrap();
    assert_eq!(v.tabs(), &vec![2u128]);
    assert_eq!(v.active(), 2);
    assert_eq!(w.close_chat_tab(2), TabClose::Closed);
    assert_eq!(w.chat_tabs, vec![1]);
}

#[test]
fn reconcile_sizes_the_list_for_the_tab_that_takes_over() {
    // tabs [2, 1] showing 1; session 1 is gone, session 2 has one message
    let mut w = waku_with(vec![session(1, 0), session(2, 1)], &[]);
    let mut v = DetachedSessionView::new(2);
    v.accept_session(&mut w, 1);
    assert_eq!(v.active(), 1);
    w.state.sessions.remove(0);
    let frame = v.reconcile(&w).unwrap();
    assert_eq!(v.active(), 2);
    assert_eq!(frame.message_count, 1);
}
