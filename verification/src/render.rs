use vstd::prelude::*;
use crate::session::AgentSession;
use crate::waku::{ToastTone, Waku};

verus! {

/// Whether the main pane shows the new-task screen: with no session, or with
/// a session whose history has loaded and holds no message. A stored session
/// whose history is still loading never shows it.
pub fn should_render_empty_state(session: Option<&AgentSession>) -> (empty: bool)
    ensures
        empty == match session {
            Some(s) => s.detail_loaded && s.messages@.len() == 0,
            None => true,
        },
{
    match session {
        Some(s) => s.detail_loaded && s.messages.len() == 0,
        None => true,
    }
}

/// One second, in nanoseconds: the frame counter's window.
pub const FPS_WINDOW_NANOS: u64 = 1_000_000_000;

/// Holds of a frame rendered at `t` when it falls in the second ending at
/// `now`, that is in `(now - 1 s, now]`.
pub open spec fn in_last_second(now: u64) -> spec_fn(u64) -> bool {
    |t: u64| t <= now && now - t < FPS_WINDOW_NANOS
}

/// The notification to draw this frame.
#[derive(Debug)]
pub struct ActiveToast {
    pub message: String,
    pub tone: ToastTone,
    /// Which raised notification this is; keys its elements and animation.
    pub generation: u64,
}

/// The status icon of a notification.
pub fn toast_status_icon(tone: ToastTone) -> (path: &'static str)
    ensures
        path@ == match tone {
            ToastTone::Alert => "icons/alert.svg"@,
            ToastTone::Success => "icons/check.svg"@,
        },
{
    match tone {
        ToastTone::Alert => "icons/alert.svg",
        ToastTone::Success => "icons/check.svg",
    }
}

impl Waku {
    /// Counts one rendered frame at time `now` (nanoseconds) and measures
    /// the live frame rate over a sliding one-second window: the frames
    /// recorded in the second ending at `now`, this one included, are kept,
    /// older ones are dropped, and the rate shown is how many are kept.
    pub fn tick_fps(&mut self, now: u64)
        ensures
            final(self).fps_frames@ == old(self).fps_frames@.push(now).filter(in_last_second(now)),
            final(self).fps_value == if final(self).fps_frames@.len() > u32::MAX {
                u32::MAX
            } else {
                final(self).fps_frames@.len() as u32
            },
            final(self).state == old(self).state,
            final(self).chat_tabs@ == old(self).chat_tabs@,
            final(self).same_split(*old(self)),
            final(self).toast == old(self).toast,
    {
        let ghost pred = in_last_second(now);
        let mut kept: Vec<u64> = Vec::new();
        let mut i: usize = 0;
        while i < self.fps_frames.len()
            invariant
                i <= self.fps_frames@.len(),
                self.fps_frames@ == old(self).fps_frames@,
                kept@ == self.fps_frames@.take(i as int).filter(pred),
                pred == in_last_second(now),
            decreases self.fps_frames@.len() - i,
        {
            let t = self.fps_frames[i];
            proof {
                assert(self.fps_frames@.take(i + 1) == self.fps_frames@.take(i as int).push(t));
                self.fps_frames@.take(i as int).lemma_filter_push(t, pred);
            }
            if t <= now && now - t < FPS_WINDOW_NANOS {
                kept.push(t);
            }
            i += 1;
        }
        proof {
            assert(self.fps_frames@.take(self.fps_frames@.len() as int) == self.fps_frames@);
            old(self).fps_frames@.lemma_filter_push(now, pred);
        }
        kept.push(now);
        let n = kept.len();
        self.fps_value = if n > u32::MAX as usize { u32::MAX } else { n as u32 };
        self.fps_frames = kept;
    }

    /// The raised notification, if any, as the toast layer draws it.
    pub fn render_active_toast(&self) -> (r: Option<ActiveToast>)
        ensures
            match self.toast {
                None => r is None,
                Some(t) => r matches Some(a) && a.message@ == t.message@ && a.tone == t.tone
                    && a.generation == t.id,
            },
    {
        match &self.toast {
            Some(toast) => Some(
                ActiveToast {
                    message: toast.message.clone(),
                    tone: toast.tone,
                    generation: toast.id,
                },
            ),
            None => None,
        }
    }
}

/// Whether a key pressed on the dismiss button dismisses the notification:
/// enter, space or escape.
pub fn dismisses_toast(key: &str) -> (dismiss: bool)
    ensures
        dismiss == (key@ == "enter"@ || key@ == "space"@ || key@ == "escape"@),
{
    let key = key.to_owned();
    key == "enter".to_owned() || key == "space".to_owned() || key == "escape".to_owned()
}

/// A panel edge that can be dragged to resize a panel.
#[derive(Clone, Copy, Debug, PartialEq, Eq, Structural)]
pub enum PanelResizeTarget {
    Sidebar,
    FileTree,
    RightPanel,
    Split,
}

/// A resize handle's geometry, in pixels from the panel edge it sits on.
#[derive(Clone, Copy, Debug, PartialEq, Eq, Structural)]
pub struct ResizeHandle {
    /// Where the hover strip starts, left of the edge when negative.
    pub strip_left: i32,
    pub strip_width: i32,
    /// Where the visible bar starts, from the strip's left side.
    pub bar_left: i32,
    pub bar_width: i32,
    /// The edge is being dragged: the bar shows without hovering.
    pub active: bool,
}

/// The resize handle of edge `target` while `dragging` is being dragged.
/// The right panel's left edge abuts a native view that draws above
/// everything at or beyond the edge, so its bar and hover strip sit entirely
/// left of the edge; the other edges' strips straddle them.
pub fn render_panel_resize_handle(
    dragging: Option<PanelResizeTarget>,
    target: PanelResizeTarget,
) -> (handle: ResizeHandle)
    ensures
        handle.active == (dragging == Some(target)),
        handle.bar_left == 5,
        handle.bar_width == 2,
        target == PanelResizeTarget::RightPanel ==> handle.strip_left == -7 && handle.strip_width == 7,
        target != PanelResizeTarget::RightPanel ==> handle.strip_left == -5 && handle.strip_width == 10,
        target == PanelResizeTarget::RightPanel ==> handle.strip_left + handle.strip_width <= 0,
        target != PanelResizeTarget::RightPanel ==> handle.strip_left < 0 < handle.strip_left
            + handle.strip_width,
        0 <= handle.bar_left && handle.bar_left + handle.bar_width <= handle.strip_width,
{
    let active = match dragging {
        Some(d) => d == target,
        None => false,
    };
    let (strip_left, strip_width): (i32, i32) = match target {
        PanelResizeTarget::RightPanel => (-7, 7),
        PanelResizeTarget::Sidebar | PanelResizeTarget::FileTree | PanelResizeTarget::Split => (-5, 10),
    };
    ResizeHandle { strip_left, strip_width, bar_left: 5, bar_width: 2, active }
}

} // verus!
