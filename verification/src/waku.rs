use vstd::prelude::*;
use crate::session::AppState;

verus! {

/// The main window's state that its tab strip, split pane and frame counter read.
pub struct Waku {
    pub state: AppState,
    /// Open chat tabs, in strip order.
    pub chat_tabs: Vec<u128>,
    /// The session shown in the secondary pane, if the transcript is split.
    pub split_session: Option<u128>,
    pub split_on_left: bool,
    pub split_focused: bool,
    /// When the frames of the last second were rendered, in nanoseconds.
    pub fps_frames: Vec<u64>,
    /// The shown frame rate: frames rendered in the last second.
    pub fps_value: u32,
    /// The notification currently raised, if any.
    pub toast: Option<Toast>,
}

/// How a notification reads.
#[derive(Clone, Copy, Debug, PartialEq, Eq, Structural)]
pub enum ToastTone {
    Alert,
    Success,
}

/// A raised notification; `id` counts the notifications raised so far.
#[derive(Debug)]
pub struct Toast {
    pub message: String,
    pub tone: ToastTone,
    pub id: u64,
}

impl Waku {
    /// Everything but the tab strip, the split pane and the app state is the same.
    pub open spec fn same_frame_state(self, other: Waku) -> bool {
        &&& self.fps_frames@ == other.fps_frames@
        &&& self.fps_value == other.fps_value
        &&& self.toast == other.toast
    }

    /// The split pane's fields are the same.
    pub open spec fn same_split(self, other: Waku) -> bool {
        &&& self.split_session == other.split_session
        &&& self.split_on_left == other.split_on_left
        &&& self.split_focused == other.split_focused
    }
}

} // verus!
