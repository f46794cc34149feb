use vstd::prelude::*;
use crate::chat_tabs::{TabClose, readded_all};
use crate::session::{has_session, message_count, position_of, find_session, session_ids};
use crate::rows::{MessageRow, message_row, row_for};
use crate::waku::Waku;

verus! {

/// One tab chip in a detached window's strip.
#[derive(Clone, Copy, Debug, PartialEq, Eq, Structural)]
pub struct DetachedTabChip {
    pub session_id: u128,
    /// The chip of the session the window shows.
    pub active: bool,
}

/// What a detached window draws this frame.
#[derive(Debug)]
pub struct DetachedFrame {
    /// One chip per tab, in strip order.
    pub chips: Vec<DetachedTabChip>,
    /// How many transcript rows the window's list should hold.
    pub message_count: usize,
}

/// A torn-off window: a small tab strip over its own sessions plus the active
/// session's transcript. A session lives in exactly one place, either here or
/// in the main window's strip.
pub struct DetachedSessionView {
    tabs: Vec<u128>,
    active: u128,
}

/// Whether a detached tab may stay: its session exists and has no tab in the
/// main strip.
pub open spec fn stays_detached(waku: Waku, id: u128) -> bool {
    has_session(waku.state, id) && !waku.chat_tabs@.contains(id)
}

/// The window's tabs that may stay, in order.
pub open spec fn live_detached(waku: Waku, tabs: Seq<u128>) -> Seq<u128> {
    tabs.filter(|id: u128| stays_detached(waku, id))
}

/// The window's tabs without `id`.
pub open spec fn without_tab(tabs: Seq<u128>, id: u128) -> Seq<u128> {
    tabs.filter(other_than(id))
}

/// Holds of every id but `id`.
pub open spec fn other_than(id: u128) -> spec_fn(u128) -> bool {
    |x: u128| x != id
}

/// The tab shown once the tabs became `tabs`: the old one while it is still a
/// tab, else the first tab; with no tabs left the old one is kept.
pub open spec fn next_active(tabs: Seq<u128>, active: u128) -> u128 {
    if !tabs.contains(active) && tabs.len() > 0 {
        tabs[0]
    } else {
        active
    }
}

/// The chips of a strip of `tabs` showing `active`, in order.
pub open spec fn detached_chips(tabs: Seq<u128>, active: u128) -> Seq<DetachedTabChip> {
    Seq::new(tabs.len(), |i: int| (DetachedTabChip { session_id: tabs[i], active: tabs[i] == active }))
}

/// Filtering keeps a sequence free of duplicates.
pub proof fn lemma_filter_no_duplicates(s: Seq<u128>, pred: spec_fn(u128) -> bool)
    requires
        s.no_duplicates(),
    ensures
        s.filter(pred).no_duplicates(),
    decreases s.len(),
{
    reveal(Seq::filter);
    if s.len() > 0 {
        let init = s.drop_last();
        let last = s.last();
        lemma_filter_no_duplicates(init, pred);
        let f = init.filter(pred);
        if pred(last) {
            assert(!f.contains(last)) by {
                if f.contains(last) {
                    init.lemma_filter_contains_rev(pred, last);
                    let k = choose|k: int| 0 <= k < init.len() && init[k] == last;
                    assert(s[k] == s[s.len() - 1]);
                }
            }
            assert(s.filter(pred) == f.push(last));
            assert forall|i: int, j: int|
                0 <= i < f.len() + 1 && 0 <= j < f.len() + 1 && i != j implies
                f.push(last)[i] != f.push(last)[j] by {
                if i == f.len() {
                    assert(f[j] != last);
                } else if j == f.len() {
                    assert(f[i] != last);
                }
            }
        }
    }
}

impl DetachedSessionView {
    /// The window's tabs, in strip order.
    pub closed spec fn tab_ids(self) -> Seq<u128> {
        self.tabs@
    }

    /// The session the window shows.
    pub closed spec fn active_id(self) -> u128 {
        self.active
    }

    /// No session has two tabs, and while there are tabs the shown one is one of them.
    pub open spec fn wf(self) -> bool {
        &&& self.tab_ids().no_duplicates()
        &&& self.tab_ids().len() > 0 ==> self.tab_ids().contains(self.active_id())
    }

    /// A window holding the one torn-off session.
    pub fn new(session_id: u128) -> (v: DetachedSessionView)
        ensures
            v.tab_ids() == seq![session_id],
            v.active_id() == session_id,
            v.wf(),
    {
        let mut tabs: Vec<u128> = Vec::new();
        tabs.push(session_id);
        let v = DetachedSessionView { tabs, active: session_id };
        assert(v.tab_ids()[0] == session_id);
        v
    }

    /// Session id of the currently shown tab.
    pub fn active(&self) -> (r: u128)
        ensures
            r == self.active_id(),
    {
        self.active
    }

    /// The window's tabs, in strip order.
    pub fn tabs(&self) -> (r: &Vec<u128>)
        ensures
            r@ == self.tab_ids(),
    {
        &self.tabs
    }

    /// The chip of one tab: it shows as active when it is the shown session.
    pub fn detached_tab(&self, session_id: u128) -> (chip: DetachedTabChip)
        ensures
            chip.session_id == session_id,
            chip.active == (self.active_id() == session_id),
    {
        DetachedTabChip { session_id, active: self.active == session_id }
    }

    /// How row `index` of the shown session's transcript draws.
    pub fn detached_row(&self, waku: &Waku, index: usize) -> (row: MessageRow)
        ensures
            row == row_for(waku.state.sessions@, self.active_id(), index as int),
    {
        message_row(&waku.state.sessions, self.active, index)
    }

    /// Shows the session of a clicked chip. A chip exists only for a tab:
    /// `reconcile` draws exactly the window's tabs, and the one other change
    /// before a click lands, closing a tab with its X button, stops that click
    /// from reaching the chip. So the session always has a tab here; an id
    /// without one is ignored, which keeps the shown tab one of the tabs.
    pub fn select_tab(&mut self, session_id: u128) -> (shown: bool)
        requires
            old(self).wf(),
        ensures
            shown == old(self).tab_ids().contains(session_id),
            final(self).tab_ids() == old(self).tab_ids(),
            final(self).active_id() == if shown {
                session_id
            } else {
                old(self).active_id()
            },
            final(self).wf(),
    {
        if position_of(&self.tabs, session_id).is_some() {
            self.active = session_id;
            true
        } else {
            false
        }
    }

    /// Takes a session into this window and drops its tab from the main strip.
    pub fn accept_session(&mut self, waku: &mut Waku, incoming: u128) -> (r: TabClose)
        requires
            old(self).wf(),
        ensures
            final(self).tab_ids() == if old(self).tab_ids().contains(incoming) {
                old(self).tab_ids()
            } else {
                old(self).tab_ids().push(incoming)
            },
            final(self).active_id() == incoming,
            final(self).wf(),
            final(waku).closes_tab(*old(waku), incoming, r),
    {
        if position_of(&self.tabs, incoming).is_none() {
            self.tabs.push(incoming);
            proof {
                assert(self.tabs@.last() == incoming);
                assert forall|i: int, j: int|
                    0 <= i < self.tabs@.len() && 0 <= j < self.tabs@.len() && i != j implies
                    self.tabs@[i] != self.tabs@[j] by {
                    if i < old(self).tabs@.len() && j < old(self).tabs@.len() {
                        assert(old(self).tabs@[i] != old(self).tabs@[j]);
                    } else if i < old(self).tabs@.len() {
                        assert(old(self).tabs@[i] != incoming);
                    } else {
                        assert(old(self).tabs@[j] != incoming);
                    }
                }
            }
        }
        self.active = incoming;
        proof {
            assert(self.tabs@.contains(incoming)) by {
                let k = choose|k: int| 0 <= k < self.tabs@.len() && self.tabs@[k] == incoming;
            }
        }
        waku.close_chat_tab(incoming)
    }

    /// Returns a tab to the main strip and drops it from this window; when it
    /// was the shown tab, the first remaining tab is shown. Says whether the
    /// main strip gained the tab.
    pub fn close_detached_tab(&mut self, waku: &mut Waku, session_id: u128) -> (readded: bool)
        requires
            old(self).wf(),
        ensures
            final(self).tab_ids() == without_tab(old(self).tab_ids(), session_id),
            final(self).active_id() == if old(self).active_id() == session_id
                && final(self).tab_ids().len() > 0 {
                final(self).tab_ids()[0]
            } else {
                old(self).active_id()
            },
            old(self).active_id() != session_id ==> final(self).active_id() == old(self).active_id(),
            final(self).wf(),
            final(waku).readds_tab(*old(waku), session_id, readded),
    {
        let ghost pred = other_than(session_id);
        let mut kept: Vec<u128> = Vec::new();
        let mut i: usize = 0;
        while i < self.tabs.len()
            invariant
                i <= self.tabs@.len(),
                self.tabs@ == old(self).tabs@,
                kept@ == self.tabs@.take(i as int).filter(pred),
                pred == other_than(session_id),
            decreases self.tabs@.len() - i,
        {
            let id = self.tabs[i];
            proof {
                assert(self.tabs@.take(i + 1) == self.tabs@.take(i as int).push(id));
                self.tabs@.take(i as int).lemma_filter_push(id, pred);
            }
            if id != session_id {
                kept.push(id);
            }
            i += 1;
        }
        proof {
            assert(self.tabs@.take(self.tabs@.len() as int) == self.tabs@);
            lemma_filter_no_duplicates(old(self).tabs@, pred);
        }
        self.tabs = kept;
        if self.active == session_id {
            if self.tabs.len() > 0 {
                self.active = self.tabs[0];
            }
        }
        proof {
            let t = self.tabs@;
            if t.len() > 0 {
                if self.active == old(self).active {
                    old(self).tabs@.lemma_filter_contains(pred, old(self).tabs@.index_of(old(self).active));
                }
                assert(t.contains(self.active)) by {
                    if self.active != old(self).active {
                        assert(t[0] == self.active);
                    }
                }
            }
        }
        waku.readd_chat_tab(session_id)
    }

    /// Returns every tab of this window to the main strip, as when the window
    /// closes: nothing is deleted and the selection stays.
    pub fn release_tabs(&self, waku: &mut Waku)
        ensures
            final(waku).chat_tabs@ == readded_all(
                old(waku).state,
                old(waku).chat_tabs@,
                self.tab_ids(),
            ),
            final(waku).state == old(waku).state,
            final(waku).same_split(*old(waku)),
            final(waku).same_frame_state(*old(waku)),
    {
        let mut i: usize = 0;
        while i < self.tabs.len()
            invariant
                i <= self.tabs@.len(),
                waku.chat_tabs@ == readded_all(
                    old(waku).state,
                    old(waku).chat_tabs@,
                    self.tabs@.take(i as int),
                ),
                waku.state == old(waku).state,
                waku.same_split(*old(waku)),
                waku.same_frame_state(*old(waku)),
            decreases self.tabs@.len() - i,
        {
            let id = self.tabs[i];
            proof {
                let next = self.tabs@.take(i + 1);
                assert(next.drop_last() == self.tabs@.take(i as int));
                assert(next.last() == id);
            }
            waku.readd_chat_tab(id);
            i += 1;
        }
        proof {
            assert(self.tabs@.take(self.tabs@.len() as int) == self.tabs@);
        }
    }

    /// Settles the window against the shared state before it draws: tabs whose
    /// session is gone or back in the main strip leave, the shown tab stays
    /// valid, and the frame lists the chips and the row count of the shown
    /// session, the one shown once the tabs have settled. `None` once no tab is left:
    /// the window is inert until closed.
    pub fn reconcile(&mut self, waku: &Waku) -> (frame: Option<DetachedFrame>)
        requires
            old(self).wf(),
        ensures
            final(self).tab_ids() == live_detached(*waku, old(self).tab_ids()),
            final(self).active_id() == next_active(final(self).tab_ids(), old(self).active_id()),
            final(self).tab_ids().contains(old(self).active_id())
                ==> final(self).active_id() == old(self).active_id(),
            final(self).wf(),
            match frame {
                None => final(self).tab_ids().len() == 0,
                Some(f) => {
                    &&& final(self).tab_ids().len() > 0
                    &&& f.chips@ == detached_chips(final(self).tab_ids(), final(self).active_id())
                    &&& f.message_count == message_count(waku.state.sessions@, final(self).active_id())
                },
            },
    {
        let ghost pred = |x: u128| stays_detached(*waku, x);
        let mut kept: Vec<u128> = Vec::new();
        let mut i: usize = 0;
        while i < self.tabs.len()
            invariant
                i <= self.tabs@.len(),
                self.tabs@ == old(self).tabs@,
                kept@ == self.tabs@.take(i as int).filter(pred),
                pred == (|x: u128| stays_detached(*waku, x)),
            decreases self.tabs@.len() - i,
        {
            let id = self.tabs[i];
            proof {
                assert(self.tabs@.take(i + 1) == self.tabs@.take(i as int).push(id));
                self.tabs@.take(i as int).lemma_filter_push(id, pred);
                session_ids(waku.state.sessions@).index_of_first_ensures(id);
            }
            let exists = find_session(&waku.state.sessions, id).is_some();
            let in_main = position_of(&waku.chat_tabs, id).is_some();
            if exists && !in_main {
                kept.push(id);
            }
            i += 1;
        }
        proof {
            assert(self.tabs@.take(self.tabs@.len() as int) == self.tabs@);
            lemma_filter_no_duplicates(old(self).tabs@, pred);
        }
        self.tabs = kept;
        if position_of(&self.tabs, self.active).is_none() && self.tabs.len() > 0 {
            self.active = self.tabs[0];
        }
        proof {
            if self.tabs@.len() > 0 {
                assert(self.tabs@.contains(self.active)) by {
                    if self.active != old(self).active {
                        assert(self.tabs@[0] == self.active);
                    }
                }
            }
        }
        if self.tabs.len() == 0 {
            return None;
        }
        let count: usize = match find_session(&waku.state.sessions, self.active) {
            Some(k) => waku.state.sessions[k].messages.len(),
            None => 0,
        };
        let mut chips: Vec<DetachedTabChip> = Vec::new();
        let mut j: usize = 0;
        while j < self.tabs.len()
            invariant
                j <= self.tabs@.len(),
                chips@ == detached_chips(self.tabs@, self.active).take(j as int),
            decreases self.tabs@.len() - j,
        {
            let id = self.tabs[j];
            chips.push(DetachedTabChip { session_id: id, active: id == self.active });
            proof {
                assert(chips@ == detached_chips(self.tabs@, self.active).take(j + 1));
            }
            j += 1;
        }
        proof {
            assert(chips@ == detached_chips(self.tabs@, self.active));
        }
        Some(DetachedFrame { chips, message_count: count })
    }
}

impl Waku {
    /// Starts tearing a chat tab off into a window of its own: the view that
    /// window shows, holding the session, or `None` when the session is gone.
    /// Once the window has opened, the caller closes the tab here with
    /// `close_chat_tab`.
    pub fn tear_off_chat_tab(&self, session_id: u128) -> (view: Option<DetachedSessionView>)
        ensures
            match view {
                None => !has_session(self.state, session_id),
                Some(v) => {
                    &&& has_session(self.state, session_id)
                    &&& v.tab_ids() == seq![session_id]
                    &&& v.active_id() == session_id
                    &&& v.wf()
                },
            },
    {
        proof {
            session_ids(self.state.sessions@).index_of_first_ensures(session_id);
        }
        if find_session(&self.state.sessions, session_id).is_some() {
            Some(DetachedSessionView::new(session_id))
        } else {
            None
        }
    }
}

} // verus!
