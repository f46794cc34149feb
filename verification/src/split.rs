use vstd::prelude::*;
use crate::rows::{MessageRow, message_row, row_for};
use crate::session::{find_session, message_count, session_ids, has_session};
use crate::waku::Waku;

verus! {

/// What opening a split asks of the caller.
#[derive(Clone, Copy, Debug, PartialEq, Eq, Structural)]
pub struct SplitOpened {
    /// The pane changed: redraw.
    pub changed: bool,
    /// The pane shows another session: drop its cached markdown.
    pub session_changed: bool,
}

/// What opening a split on `id`, on the left or not, reports when the pane
/// showed `split` on the left or not.
pub open spec fn split_change(split: Option<u128>, was_on_left: bool, id: u128, on_left: bool) -> SplitOpened {
    let session_changed = split != Some(id);
    SplitOpened { changed: session_changed || was_on_left != on_left, session_changed }
}

/// What the secondary pane draws.
#[derive(Clone, Copy, Debug, PartialEq, Eq, Structural)]
pub struct SplitPane {
    pub session_id: u128,
    /// How many transcript rows the pane's list should hold.
    pub message_count: usize,
}

/// The order of the transcript row's columns.
#[derive(Clone, Copy, Debug, PartialEq, Eq, Structural)]
pub enum PaneLayout {
    /// The main transcript alone.
    Single,
    /// The secondary pane on the left, the main transcript right of it.
    SplitFirst,
    /// The main transcript on the left, the secondary pane right of it.
    TranscriptFirst,
}

/// Which columns the transcript row holds, and in what order.
pub fn pane_layout(has_split: bool, on_left: bool) -> (layout: PaneLayout)
    ensures
        layout == if !has_split {
            PaneLayout::Single
        } else if on_left {
            PaneLayout::SplitFirst
        } else {
            PaneLayout::TranscriptFirst
        },
{
    if !has_split {
        PaneLayout::Single
    } else if on_left {
        PaneLayout::SplitFirst
    } else {
        PaneLayout::TranscriptFirst
    }
}

impl Waku {
    /// Shows `session_id` in the secondary pane, on the left or the right.
    pub fn open_split(&mut self, session_id: u128, on_left: bool) -> (r: SplitOpened)
        ensures
            r == split_change(old(self).split_session, old(self).split_on_left, session_id, on_left),
            final(self).split_session == Some(session_id),
            final(self).split_on_left == on_left,
            final(self).split_focused == old(self).split_focused,
            final(self).chat_tabs@ == old(self).chat_tabs@,
            final(self).state == old(self).state,
            final(self).same_frame_state(*old(self)),
    {
        let session_changed = self.split_session != Some(session_id);
        let changed = session_changed || self.split_on_left != on_left;
        self.split_on_left = on_left;
        if session_changed {
            self.split_session = Some(session_id);
        }
        SplitOpened { changed, session_changed }
    }

    /// Closes the secondary pane.
    pub fn close_split(&mut self)
        ensures
            final(self).split_session is None,
            final(self).split_on_left == old(self).split_on_left,
            final(self).split_focused == old(self).split_focused,
            final(self).chat_tabs@ == old(self).chat_tabs@,
            final(self).state == old(self).state,
            final(self).same_frame_state(*old(self)),
    {
        self.split_session = None;
    }

    /// The session to select so that the secondary pane's session becomes the
    /// main one; selecting it swaps the panes.
    pub fn promote_split(&self) -> (r: Option<u128>)
        ensures
            r == self.split_session,
    {
        self.split_session
    }

    /// Closes the main pane while split: the secondary pane closes and its
    /// session is returned, to be selected into the main pane. Unsplit, nothing
    /// happens.
    pub fn close_main_pane(&mut self) -> (r: Option<u128>)
        ensures
            r == old(self).split_session,
            final(self).split_session is None,
            final(self).split_on_left == old(self).split_on_left,
            final(self).split_focused == old(self).split_focused,
            final(self).chat_tabs@ == old(self).chat_tabs@,
            final(self).state == old(self).state,
            final(self).same_frame_state(*old(self)),
    {
        let split = self.split_session;
        if split.is_some() {
            self.split_session = None;
        }
        split
    }

    /// The secondary pane to draw, or `None` when nothing is split. A split
    /// whose session is gone collapses.
    pub fn render_split_pane(&mut self) -> (pane: Option<SplitPane>)
        ensures
            match old(self).split_session {
                None => pane is None && final(self).split_session is None,
                Some(id) => if has_session(old(self).state, id) {
                    &&& pane == Some(
                        SplitPane {
                            session_id: id,
                            message_count: message_count(old(self).state.sessions@, id) as usize,
                        },
                    )
                    &&& final(self).split_session == Some(id)
                } else {
                    pane is None && final(self).split_session is None
                },
            },
            final(self).split_on_left == old(self).split_on_left,
            final(self).split_focused == old(self).split_focused,
            final(self).chat_tabs@ == old(self).chat_tabs@,
            final(self).state == old(self).state,
            final(self).same_frame_state(*old(self)),
    {
        let session_id = match self.split_session {
            Some(id) => id,
            None => {
                return None;
            },
        };
        proof {
            session_ids(self.state.sessions@).index_of_first_ensures(session_id);
        }
        match find_session(&self.state.sessions, session_id) {
            Some(slot) => Some(
                SplitPane {
                    session_id,
                    message_count: self.state.sessions[slot].messages.len(),
                },
            ),
            None => {
                self.split_session = None;
                None
            },
        }
    }

    /// How row `index` of the secondary pane draws.
    pub fn split_row(&self, index: usize) -> (row: MessageRow)
        ensures
            row == match self.split_session {
                Some(id) => row_for(self.state.sessions@, id, index as int),
                None => MessageRow::Empty,
            },
    {
        match self.split_session {
            Some(id) => message_row(&self.state.sessions, id, index),
            None => MessageRow::Empty,
        }
    }
}

} // verus!
