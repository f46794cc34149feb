use waku::rows::MessageRow;
use waku::session::{AgentSession, AppState, ChatMessage, MessageRole, ProviderKind};
use waku::split::{pane_layout, PaneLayout, SplitOpened, SplitPane};
use waku::waku::Waku;

fn waku_with(sessions: Vec<AgentSession>) -> Waku {
    Waku {
        state: AppState { sessions, selected_session: Some(1) },
        chat_tabs: vec![1, 2],
        split_session: None,
        split_on_left: false,
        split_focused: false,
        fps_frames: Vec::new(),
        fps_value: 0,
        toast: None,
    }
}

fn session_with(id: u128, roles: &[(MessageRole, &str)]) -> AgentSession {
    let mut s = AgentSession::new(id, ProviderKind::Codex);
    for (k, (role, text)) in roles.iter().enumerate() {
        s.messages.push(ChatMessage {
            id: 1000 + k as u128,
            role: *role,
            content: text.to_string(),
            streaming: k == 0,
        });
    }
    s
}

#[test]
fn open_split_reports_what_changed() {
    let mut w = waku_with(vec![]);
    assert_eq!(w.open_split(2, true), SplitOpened { changed: true, session_changed: true });
    assert_eq!(w.split_session, Some(2));
    assert!(w.split_on_left);
    assert_eq!(w.open_split(2, true), SplitOpened { changed: false, session_changed: false });
    assert_eq!(w.open_split(2, false), SplitOpened { changed: true, session_changed: false });
    assert!(!w.split_on_left);
}

#[test]
fn close_and_promote_split() {
    let mut w = waku_with(vec![]);
    assert_eq!(w.promote_split(), None);
    w.open_split(2, false);
    assert_eq!(w.promote_split(), Some(2));
    w.close_split();
    assert_eq!(w.split_session, None);
}

#[test]
fn closing_the_main_pane_hands_it_the_split_session() {
    let mut w = waku_with(vec![]);
    assert_eq!(w.close_main_pane(), None);
    w.open_split(2, false);
    assert_eq!(w.close_main_pane(), Some(2));
    assert_eq!(w.split_session, None);
}

#[test]
fn split_pane_collapses_when_its_session_is_gone() {
    let mut w = waku_with(vec![session_with(1, &[]), session_with(2, &[(MessageRole::User, "a")])]);
    assert_eq!(w.render_split_pane(), None);
    w.open_split(2, false);
    assert_eq!(w.render_split_pane(), Some(SplitPane { session_id: 2, message_count: 1 }));
    w.open_split(3, false);
    assert_eq!(w.render_split_pane(), None);
    assert_eq!(w.split_session, None);
}

#[test]
fn split_rows_follow_role_and_text() {
    let mut w = waku_with(vec![session_with(
        2,
        &[
            (MessageRole::User, "hello"),
            (MessageRole::Assistant, "answer"),
            (MessageRole::Other, "tool output"),
            (MessageRole::Assistant, " \n\t\u{3000}"),
        ],
    )]);
    assert_eq!(w.split_row(0), MessageRow::Empty);
    w.open_split(2, false);
    assert_eq!(w.split_row(0), MessageRow::Markdown { message_id: 1000, user: true, streaming: true });
    assert_eq!(w.split_row(1), MessageRow::Markdown { message_id: 1001, user: false, streaming: false });
    assert_eq!(w.split_row(2), MessageRow::Plain { message_id: 1002 });
    assert_eq!(w.split_row(3), MessageRow::Empty);
    assert_eq!(w.split_row(4), MessageRow::Empty);
}

#[test]
fn pane_layout_orders_columns() {
    assert_eq!(pane_layout(false, true), PaneLayout::Single);
    assert_eq!(pane_layout(true, true), PaneLayout::SplitFirst);
    assert_eq!(pane_layout(true, false), PaneLayout::TranscriptFirst);
}
