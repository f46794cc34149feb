use vstd::prelude::*;
use crate::session::{AppState, has_session, session_ids, position_of, find_session};
use crate::waku::Waku;

verus! {

/// A chat tab being dragged to reorder within the strip, or onto the
/// transcript to open a split pane.
#[derive(Clone, Copy, Debug, PartialEq, Eq, Structural)]
pub struct ChatTabDrag {
    pub session_id: u128,
}

/// The strip after dragging `id` onto slot `to_index`: the tab leaves its
/// slot and lands at `to_index`, or at the end when `to_index` lies past it.
/// Dropping a tab onto its own slot, or a tab that is not open, changes nothing.
pub open spec fn reordered(tabs: Seq<u128>, id: u128, to_index: int) -> Seq<u128> {
    match tabs.index_of_first(id) {
        None => tabs,
        Some(from) => if from == to_index {
            tabs
        } else {
            let rest = tabs.remove(from);
            rest.insert(if to_index < rest.len() { to_index } else { rest.len() as int }, id)
        },
    }
}

/// Moves tab `session_id` to slot `to_index`; says whether anything moved.
pub fn reorder_tabs(tabs: &mut Vec<u128>, session_id: u128, to_index: usize) -> (moved: bool)
    ensures
        final(tabs)@ == reordered(old(tabs)@, session_id, to_index as int),
        moved == (old(tabs)@.index_of_first(session_id) matches Some(from) && from != to_index),
{
    let from = match position_of(tabs, session_id) {
        Some(from) => from,
        None => {
            return false;
        },
    };
    if from == to_index {
        return false;
    }
    let id = tabs.remove(from);
    let to = if to_index < tabs.len() { to_index } else { tabs.len() };
    tabs.insert(to, id);
    true
}

/// What closing a chat tab asks of the caller.
#[derive(Clone, Copy, Debug, PartialEq, Eq, Structural)]
pub enum TabClose {
    /// The session had no tab; nothing changed.
    NotOpen,
    /// The tab closed; the main pane keeps its session.
    Closed,
    /// The main pane's tab closed: select this neighbour next.
    Select(u128),
    /// The last tab closed: nothing is selected any more.
    Cleared,
}

/// The tab that takes over when the tab at `index` has left `rest`: the one
/// that followed it, else the last one.
pub open spec fn neighbour_after_close(rest: Seq<u128>, index: int) -> Option<u128> {
    if 0 <= index < rest.len() {
        Some(rest[index])
    } else if rest.len() > 0 {
        Some(rest.last())
    } else {
        None
    }
}

/// The strip once the first tab of `id` has left it.
pub open spec fn closed_tabs(tabs: Seq<u128>, id: u128) -> Seq<u128> {
    match tabs.index_of_first(id) {
        Some(index) => tabs.remove(index),
        None => tabs,
    }
}

/// The strip once `id` has been offered back to it: it joins at the end when
/// its session exists and it has no tab yet.
pub open spec fn readded_tabs(state: AppState, tabs: Seq<u128>, id: u128) -> Seq<u128> {
    if has_session(state, id) && !tabs.contains(id) {
        tabs.push(id)
    } else {
        tabs
    }
}

/// The strip once every id of `ids` has been offered back to it, in order.
pub open spec fn readded_all(state: AppState, tabs: Seq<u128>, ids: Seq<u128>) -> Seq<u128>
    decreases ids.len(),
{
    if ids.len() == 0 {
        tabs
    } else {
        readded_tabs(state, readded_all(state, tabs, ids.drop_last()), ids.last())
    }
}

impl Waku {
    /// `self` is `before` after closing the tab of `id` with outcome `r`.
    pub open spec fn closes_tab(self, before: Waku, id: u128, r: TabClose) -> bool {
        &&& self.chat_tabs@ == closed_tabs(before.chat_tabs@, id)
        &&& self.same_frame_state(before)
        &&& match before.chat_tabs@.index_of_first(id) {
            None => r == TabClose::NotOpen && self.state == before.state && self.same_split(before),
            Some(index) => {
                let rest = before.chat_tabs@.remove(index);
                let was_split = before.split_session == Some(id);
                &&& self.split_session == if was_split {
                    None
                } else {
                    before.split_session
                }
                &&& self.split_focused == (before.split_focused && !was_split)
                &&& self.split_on_left == before.split_on_left
                &&& self.state.sessions == before.state.sessions
                &&& if before.state.selected_session != Some(id) {
                    r == TabClose::Closed && self.state == before.state
                } else {
                    match neighbour_after_close(rest, index) {
                        Some(next) => r == TabClose::Select(next) && self.state == before.state,
                        None => r == TabClose::Cleared && self.state.selected_session is None,
                    }
                }
            },
        }
    }

    /// `self` is `before` after offering `id` back to the strip; `added` says
    /// whether it joined.
    pub open spec fn readds_tab(self, before: Waku, id: u128, added: bool) -> bool {
        &&& added == (has_session(before.state, id) && !before.chat_tabs@.contains(id))
        &&& self.chat_tabs@ == readded_tabs(before.state, before.chat_tabs@, id)
        &&& self.state == before.state
        &&& self.same_split(before)
        &&& self.same_frame_state(before)
    }

    /// Drops a dragged tab onto slot `to_index`; says whether the strip changed.
    pub fn reorder_chat_tab(&mut self, session_id: u128, to_index: usize) -> (moved: bool)
        ensures
            final(self).chat_tabs@ == reordered(old(self).chat_tabs@, session_id, to_index as int),
            moved == (old(self).chat_tabs@.index_of_first(session_id) matches Some(from) && from
                != to_index),
            final(self).state == old(self).state,
            final(self).same_split(*old(self)),
            final(self).same_frame_state(*old(self)),
    {
        reorder_tabs(&mut self.chat_tabs, session_id, to_index)
    }

    /// Closes a chat tab without deleting its session; when it was the main
    /// pane's tab, a neighbour takes over.
    pub fn close_chat_tab(&mut self, session_id: u128) -> (r: TabClose)
        ensures
            final(self).closes_tab(*old(self), session_id, r),
    {
        let index = match position_of(&self.chat_tabs, session_id) {
            Some(index) => index,
            None => {
                return TabClose::NotOpen;
            },
        };
        self.chat_tabs.remove(index);
        if self.split_session == Some(session_id) {
            self.split_session = None;
            self.split_focused = false;
        }
        if self.state.selected_session != Some(session_id) {
            return TabClose::Closed;
        }
        let n = self.chat_tabs.len();
        if index < n {
            TabClose::Select(self.chat_tabs[index])
        } else if n > 0 {
            TabClose::Select(self.chat_tabs[n - 1])
        } else {
            self.state.selected_session = None;
            TabClose::Cleared
        }
    }

    /// Returns a session to the chat strip if it still exists and is not
    /// already a tab; the selection stays as it is. Says whether a tab was added.
    pub fn readd_chat_tab(&mut self, session_id: u128) -> (added: bool)
        ensures
            final(self).readds_tab(*old(self), session_id, added),
    {
        let exists = find_session(&self.state.sessions, session_id).is_some();
        let open = position_of(&self.chat_tabs, session_id).is_some();
        proof {
            session_ids(old(self).state.sessions@).index_of_first_ensures(session_id);
        }
        if exists && !open {
            self.chat_tabs.push(session_id);
            true
        } else {
            false
        }
    }
}

/// Which corners of a tab chip are rounded; the two tabs on screen while
/// split join into one pill.
#[derive(Clone, Copy, Debug, PartialEq, Eq, Structural)]
pub enum TabCorners {
    /// A tab on its own: all corners.
    All,
    /// The left half of a joined pair.
    Left,
    /// The right half of a joined pair, with a divider on its left edge.
    Right,
    /// A tab joined on both sides.
    Square,
}

/// How strongly a tab's label reads.
#[derive(Clone, Copy, Debug, PartialEq, Eq, Structural)]
pub enum TabTone {
    /// The focused pane's tab while split.
    Accent,
    /// A tab shown in a pane.
    Primary,
    /// A tab not on screen.
    Secondary,
}

/// One chip of the main window's tab strip.
#[derive(Clone, Copy, Debug, PartialEq, Eq, Structural)]
pub struct ChatTabChip {
    /// The tab's slot in the strip; a drop on the chip moves the dragged tab there.
    pub index: usize,
    pub session_id: u128,
    pub focused: bool,
    /// Shown in the main or the secondary pane.
    pub on_screen: bool,
    /// On screen, and so is the next tab: joins its right neighbour.
    pub join_left: bool,
    /// On screen, and so is the previous tab: joins its left neighbour.
    pub join_right: bool,
    /// No gap before the chip: the first chip, or one joined on its left.
    pub flush: bool,
    pub corners: TabCorners,
    pub tone: TabTone,
}

/// Whether a session is shown in the main or the secondary pane.
pub open spec fn shown_in_pane(w: Waku, id: u128) -> bool {
    w.state.selected_session == Some(id) || w.split_session == Some(id)
}

/// The chip of the tab at slot `i`, with `focused` the focused pane's session.
pub open spec fn tab_chip(w: Waku, focused: Option<u128>, i: int) -> ChatTabChip {
    let tabs = w.chat_tabs@;
    let id = tabs[i];
    let on = shown_in_pane(w, id);
    let next_on = i + 1 < tabs.len() && shown_in_pane(w, tabs[i + 1]);
    let prev_on = i >= 1 && shown_in_pane(w, tabs[i - 1]);
    let join_left = on && next_on;
    let join_right = on && prev_on;
    ChatTabChip {
        index: i as usize,
        session_id: id,
        focused: focused == Some(id),
        on_screen: on,
        join_left,
        join_right,
        flush: i == 0 || join_right,
        corners: if !join_left && !join_right {
            TabCorners::All
        } else if join_left && !join_right {
            TabCorners::Left
        } else if join_right && !join_left {
            TabCorners::Right
        } else {
            TabCorners::Square
        },
        tone: if focused == Some(id) && w.split_session is Some {
            TabTone::Accent
        } else if on {
            TabTone::Primary
        } else {
            TabTone::Secondary
        },
    }
}

/// The chips of the first `n` tabs: one per tab whose session exists, in order.
pub open spec fn strip_chips(w: Waku, focused: Option<u128>, n: nat) -> Seq<ChatTabChip>
    decreases n,
{
    if n == 0 {
        Seq::empty()
    } else {
        let before = strip_chips(w, focused, (n - 1) as nat);
        if has_session(w.state, w.chat_tabs@[n - 1]) {
            before.push(tab_chip(w, focused, n - 1))
        } else {
            before
        }
    }
}

impl Waku {
    /// Whether a session is shown in the main or the secondary pane.
    pub fn is_on_screen(&self, session_id: u128) -> (on: bool)
        ensures
            on == shown_in_pane(*self, session_id),
    {
        self.state.selected_session == Some(session_id) || self.split_session == Some(session_id)
    }

    /// The chip of the tab at slot `index`.
    pub fn chat_tab_chip(&self, focused: Option<u128>, index: usize) -> (chip: ChatTabChip)
        requires
            index < self.chat_tabs@.len(),
        ensures
            chip == tab_chip(*self, focused, index as int),
    {
        let id = self.chat_tabs[index];
        let on = self.is_on_screen(id);
        let n = self.chat_tabs.len();
        let next_on = index + 1 < n && self.is_on_screen(self.chat_tabs[index + 1]);
        let prev_on = index >= 1 && self.is_on_screen(self.chat_tabs[index - 1]);
        let join_left = on && next_on;
        let join_right = on && prev_on;
        let is_focused = focused == Some(id);
        let corners = if !join_left && !join_right {
            TabCorners::All
        } else if join_left && !join_right {
            TabCorners::Left
        } else if join_right && !join_left {
            TabCorners::Right
        } else {
            TabCorners::Square
        };
        let tone = if is_focused && self.split_session.is_some() {
            TabTone::Accent
        } else if on {
            TabTone::Primary
        } else {
            TabTone::Secondary
        };
        ChatTabChip {
            index,
            session_id: id,
            focused: is_focused,
            on_screen: on,
            join_left,
            join_right,
            flush: index == 0 || join_right,
            corners,
            tone,
        }
    }

    /// The chat tab strip above the transcript: one chip per open tab whose
    /// session exists, in strip order; `None` when no tab is open, so the
    /// strip hides on the empty new-task screen. `focused` is the session of
    /// the focused pane.
    pub fn render_chat_tab_strip(&self, focused: Option<u128>) -> (strip: Option<Vec<ChatTabChip>>)
        ensures
            match strip {
                None => self.chat_tabs@.len() == 0,
                Some(chips) => self.chat_tabs@.len() > 0 && chips@ == strip_chips(
                    *self,
                    focused,
                    self.chat_tabs@.len(),
                ),
            },
    {
        if self.chat_tabs.len() == 0 {
            return None;
        }
        let mut chips: Vec<ChatTabChip> = Vec::new();
        let mut i: usize = 0;
        while i < self.chat_tabs.len()
            invariant
                i <= self.chat_tabs@.len(),
                chips@ == strip_chips(*self, focused, i as nat),
            decreases self.chat_tabs@.len() - i,
        {
            let id = self.chat_tabs[i];
            proof {
                session_ids(self.state.sessions@).index_of_first_ensures(id);
            }
            if find_session(&self.state.sessions, id).is_some() {
                chips.push(self.chat_tab_chip(focused, i));
            }
            i += 1;
        }
        Some(chips)
    }
}

} // verus!
