use uuid::Uuid;
use waku::render::{
    dismisses_toast, render_panel_resize_handle, should_render_empty_state, toast_status_icon,
    PanelResizeTarget, ResizeHandle, FPS_WINDOW_NANOS,
};
use waku::session::{AgentSession, AppState, ChatMessage, MessageRole, ProviderKind};
use waku::waku::{Toast, ToastTone, Waku};

fn empty_waku() -> Waku {
    Waku {
        state: AppState { sessions: Vec::new(), selected_session: None },
        chat_tabs: Vec::new(),
        split_session: None,
        split_on_left: false,
        split_focused: false,
        fps_frames: Vec::new(),
        fps_value: 0,
        toast: None,
    }
}

#[test]
fn unloaded_history_never_renders_the_new_task_prompt() {
    let mut stored = AgentSession::new(Uuid::new_v4().as_u128(), ProviderKind::Codex);
    stored.detail_loaded = false;

    assert!(!should_render_empty_state(Some(&stored)));

    let draft = AgentSession::new(Uuid::new_v4().as_u128(), ProviderKind::Codex);
    assert!(should_render_empty_state(Some(&draft)));
    assert!(should_render_empty_state(None));
}

#[test]
fn session_with_messages_is_not_empty() {
    let mut s = AgentSession::new(1, ProviderKind::Codex);
    s.messages.push(ChatMessage {
        id: 10,
        role: MessageRole::User,
        content: "hi".to_string(),
        streaming: false,
    });
    assert!(!should_render_empty_state(Some(&s)));
}

#[test]
fn fps_counts_frames_within_a_second() {
    let mut w = empty_waku();
    w.tick_fps(100);
    w.tick_fps(200);
    w.tick_fps(300);
    assert_eq!(w.fps_value, 3);
    assert_eq!(w.fps_frames, vec![100, 200, 300]);
}

#[test]
fn fps_window_slides_over_the_last_second() {
    let mut w = empty_waku();
    for t in 0..5u64 {
        w.tick_fps(t * 100);
    }
    assert_eq!(w.fps_value, 5);
    // a frame at 3 s: the second ending there holds only it
    w.tick_fps(3 * FPS_WINDOW_NANOS);
    assert_eq!(w.fps_value, 1);
    assert_eq!(w.fps_frames, vec![3 * FPS_WINDOW_NANOS]);
}

#[test]
fn fps_drops_a_frame_exactly_one_second_old() {
    let mut w = empty_waku();
    w.tick_fps(5);
    w.tick_fps(6);
    w.tick_fps(5 + FPS_WINDOW_NANOS);
    assert_eq!(w.fps_frames, vec![6, 5 + FPS_WINDOW_NANOS]);
    assert_eq!(w.fps_value, 2);
}

#[test]
fn fps_ignores_frames_recorded_after_now() {
    let mut w = empty_waku();
    w.tick_fps(10 * FPS_WINDOW_NANOS);
    w.tick_fps(0);
    assert_eq!(w.fps_frames, vec![0]);
    assert_eq!(w.fps_value, 1);
}

#[test]
fn active_toast_copies_the_raised_toast() {
    let mut w = empty_waku();
    assert!(w.render_active_toast().is_none());
    w.toast = Some(Toast { message: "saved".to_string(), tone: ToastTone::Success, id: 7 });
    let t = w.render_active_toast().unwrap();
    assert_eq!(t.message, "saved");
    assert_eq!(t.tone, ToastTone::Success);
    assert_eq!(t.generation, 7);
}

#[test]
fn toast_icons_follow_tone() {
    assert_eq!(toast_status_icon(ToastTone::Alert), "icons/alert.svg");
    assert_eq!(toast_status_icon(ToastTone::Success), "icons/check.svg");
}

#[test]
fn only_enter_space_and_escape_dismiss_a_toast() {
    assert!(dismisses_toast("enter"));
    assert!(dismisses_toast("space"));
    assert!(dismisses_toast("escape"));
    assert!(!dismisses_toast("tab"));
    assert!(!dismisses_toast("Enter"));
    assert!(!dismisses_toast(""));
}

#[test]
fn right_panel_handle_stays_left_of_its_edge() {
    let h = render_panel_resize_handle(None, PanelResizeTarget::RightPanel);
    assert_eq!(
        h,
        ResizeHandle { strip_left: -7, strip_width: 7, bar_left: 5, bar_width: 2, active: false }
    );
    assert!(h.strip_left + h.strip_width <= 0);
}

#[test]
fn other_handles_straddle_their_edge_and_show_while_dragged() {
    let h = render_panel_resize_handle(Some(PanelResizeTarget::Split), PanelResizeTarget::Split);
    assert_eq!(
        h,
        ResizeHandle { strip_left: -5, strip_width: 10, bar_left: 5, bar_width: 2, active: true }
    );
    let h = render_panel_resize_handle(Some(PanelResizeTarget::Split), PanelResizeTarget::Sidebar);
    assert!(!h.active);
    let h = render_panel_resize_handle(None, PanelResizeTarget::FileTree);
    assert_eq!((h.strip_left, h.strip_width, h.active), (-5, 10, false));
}
