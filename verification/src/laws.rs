//! What holds of the tab operations across calls.
use vstd::prelude::*;
use crate::chat_tabs::{
    closed_tabs, neighbour_after_close, readded_all, readded_tabs, reordered, strip_chips, tab_chip,
    TabClose, TabTone,
};
use crate::detached::{detached_chips, live_detached, next_active, stays_detached, without_tab};
use crate::split::{SplitOpened, split_change};
use crate::render::{FPS_WINDOW_NANOS, in_last_second};
use crate::session::{AgentSession, AppState, MessageRole, has_session, message_count, session_ids, session_slot};
use crate::rows::{MessageRow, is_blank_text, row_for};
use crate::waku::Waku;

verus! {

broadcast use vstd::seq_lib::group_to_multiset_ensures, vstd::multiset::group_multiset_axioms;

/// Dragging a tab to another slot neither loses nor duplicates a tab: the
/// strip afterwards holds the same tabs, as often as before.
pub proof fn reorder_keeps_every_tab(tabs: Seq<u128>, id: u128, to_index: int)
    requires
        to_index >= 0,
    ensures
        reordered(tabs, id, to_index).to_multiset() == tabs.to_multiset(),
        reordered(tabs, id, to_index).len() == tabs.len(),
{
    tabs.index_of_first_ensures(id);
    if let Some(from) = tabs.index_of_first(id) {
        if from != to_index {
            let rest = tabs.remove(from);
            let to = if to_index < rest.len() { to_index } else { rest.len() as int };
            assert(rest.insert(to, id).to_multiset() == rest.to_multiset().insert(id));
            assert(rest.to_multiset() == tabs.to_multiset().remove(id));
            assert(tabs.to_multiset().count(id) > 0);
            assert(tabs.to_multiset().remove(id).insert(id) =~= tabs.to_multiset());
        }
    }
}

/// A strip in which no session has two tabs keeps that property when a tab is dragged.
pub proof fn reorder_keeps_tabs_distinct(tabs: Seq<u128>, id: u128, to_index: int)
    requires
        to_index >= 0,
        tabs.no_duplicates(),
    ensures
        reordered(tabs, id, to_index).no_duplicates(),
{
    reorder_keeps_every_tab(tabs, id, to_index);
    tabs.lemma_multiset_has_no_duplicates();
    reordered(tabs, id, to_index).lemma_multiset_has_no_duplicates_conv();
}

/// A dragged open tab lands on the slot it was dropped on, or on the last
/// slot when it was dropped past the end.
pub proof fn reorder_lands_on_target(tabs: Seq<u128>, id: u128, to_index: int)
    requires
        to_index >= 0,
        tabs.contains(id),
    ensures
        reordered(tabs, id, to_index)[if to_index < tabs.len() {
            to_index
        } else {
            tabs.len() - 1
        }] == id,
{
    tabs.index_of_first_ensures(id);
}

/// Closing a tab removes exactly that tab: the strip loses one copy of it
/// and keeps every other tab.
pub proof fn close_removes_only_that_tab(tabs: Seq<u128>, id: u128)
    ensures
        closed_tabs(tabs, id).to_multiset() == tabs.to_multiset().remove(id),
{
    tabs.index_of_first_ensures(id);
    if tabs.index_of_first(id) is None {
        assert(tabs.to_multiset().count(id) == 0);
        assert(tabs.to_multiset().remove(id) =~= tabs.to_multiset());
    }
}

/// In a strip where no session has two tabs, a closed tab is gone and no
/// session gains a second tab.
pub proof fn closed_tab_is_gone(tabs: Seq<u128>, id: u128)
    requires
        tabs.no_duplicates(),
    ensures
        !closed_tabs(tabs, id).contains(id),
        closed_tabs(tabs, id).no_duplicates(),
{
    close_removes_only_that_tab(tabs, id);
    tabs.lemma_multiset_has_no_duplicates();
    let c = closed_tabs(tabs, id);
    assert(c.to_multiset().count(id) == 0);
    assert forall|x: u128| c.to_multiset().contains(x) implies c.to_multiset().count(x) == 1 by {
        assert(tabs.to_multiset().contains(x));
    }
    c.lemma_multiset_has_no_duplicates_conv();
}

/// When the main pane's tab closes, the tab that takes over is still open
/// and is another session.
pub proof fn close_hands_over_to_an_open_tab(tabs: Seq<u128>, id: u128)
    requires
        tabs.no_duplicates(),
        tabs.contains(id),
    ensures
        ({
            let index = tabs.index_of_first(id)->0;
            let rest = closed_tabs(tabs, id);
            neighbour_after_close(rest, index) matches Some(next) ==> rest.contains(next) && next
                != id
        }),
{
    tabs.index_of_first_ensures(id);
    closed_tab_is_gone(tabs, id);
    let index = tabs.index_of_first(id)->0;
    let rest = closed_tabs(tabs, id);
    if let Some(next) = neighbour_after_close(rest, index) {
        if index < rest.len() {
            assert(rest[index] == next);
        } else {
            assert(rest[rest.len() - 1] == next);
        }
    }
}

/// Offering a session back to the strip twice is the same as once.
pub proof fn readd_is_idempotent(state: AppState, tabs: Seq<u128>, id: u128)
    ensures
        readded_tabs(state, readded_tabs(state, tabs, id), id) == readded_tabs(state, tabs, id),
{
    let once = readded_tabs(state, tabs, id);
    if has_session(state, id) && !tabs.contains(id) {
        assert(once[tabs.len() as int] == id);
        assert(once.contains(id));
    }
}

/// A session that exists has a tab once offered back, and no session gains
/// a second tab.
pub proof fn readd_opens_existing_session(state: AppState, tabs: Seq<u128>, id: u128)
    requires
        tabs.no_duplicates(),
    ensures
        has_session(state, id) ==> readded_tabs(state, tabs, id).contains(id),
        readded_tabs(state, tabs, id).no_duplicates(),
        forall|x: u128| tabs.contains(x) ==> readded_tabs(state, tabs, id).contains(x),
{
    let r = readded_tabs(state, tabs, id);
    if has_session(state, id) && !tabs.contains(id) {
        assert(r[tabs.len() as int] == id);
        assert forall|x: u128| tabs.contains(x) implies r.contains(x) by {
            let k = choose|k: int| 0 <= k < tabs.len() && tabs[k] == x;
            assert(r[k] == x);
        }
    }
}

/// Closing a tab and offering its session back reopens it: the strip holds
/// the same tabs as before, the reopened one now last.
pub proof fn close_then_readd_restores_the_tabs(state: AppState, tabs: Seq<u128>, id: u128)
    requires
        tabs.no_duplicates(),
        tabs.contains(id),
        has_session(state, id),
    ensures
        readded_tabs(state, closed_tabs(tabs, id), id) == closed_tabs(tabs, id).push(id),
        readded_tabs(state, closed_tabs(tabs, id), id).to_multiset() == tabs.to_multiset(),
{
    closed_tab_is_gone(tabs, id);
    close_removes_only_that_tab(tabs, id);
    let c = closed_tabs(tabs, id);
    assert(c.push(id).to_multiset() == c.to_multiset().insert(id));
    assert(tabs.to_multiset().count(id) > 0);
    assert(tabs.to_multiset().remove(id).insert(id) =~= tabs.to_multiset());
}

/// Once a window has settled, each of its tabs has a session and no tab in
/// the main strip: a session lives in exactly one place.
pub proof fn settled_window_owns_its_tabs(waku: Waku, tabs: Seq<u128>)
    ensures
        forall|i: int|
            0 <= i < live_detached(waku, tabs).len() ==> has_session(
                waku.state,
                #[trigger] live_detached(waku, tabs)[i],
            ) && !waku.chat_tabs@.contains(live_detached(waku, tabs)[i]),
        forall|x: u128| live_detached(waku, tabs).contains(x) ==> tabs.contains(x),
{
    broadcast use vstd::seq_lib::group_filter_ensures;

    let pred = |id: u128| stays_detached(waku, id);
    assert forall|i: int| 0 <= i < live_detached(waku, tabs).len() implies has_session(
        waku.state,
        #[trigger] live_detached(waku, tabs)[i],
    ) && !waku.chat_tabs@.contains(live_detached(waku, tabs)[i]) by {
        tabs.lemma_filter_pred(pred, i);
    }
    assert forall|x: u128| live_detached(waku, tabs).contains(x) implies tabs.contains(x) by {
        tabs.lemma_filter_contains_rev(pred, x);
    }
}

/// A session dropped onto a window ends up there and nowhere else: the
/// window has its tab, and the main strip, where no session had two tabs,
/// has none.
pub proof fn accepted_session_lives_in_the_window(
    main_tabs: Seq<u128>,
    window_tabs: Seq<u128>,
    incoming: u128,
)
    requires
        main_tabs.no_duplicates(),
    ensures
        (if window_tabs.contains(incoming) {
            window_tabs
        } else {
            window_tabs.push(incoming)
        }).contains(incoming),
        !closed_tabs(main_tabs, incoming).contains(incoming),
{
    closed_tab_is_gone(main_tabs, incoming);
    if !window_tabs.contains(incoming) {
        assert(window_tabs.push(incoming)[window_tabs.len() as int] == incoming);
    }
}

/// A tab closed in a window leaves it and, when its session exists, is back
/// in the main strip.
pub proof fn closed_window_tab_returns_to_main(
    state: AppState,
    main_tabs: Seq<u128>,
    window_tabs: Seq<u128>,
    id: u128,
)
    requires
        main_tabs.no_duplicates(),
    ensures
        !without_tab(window_tabs, id).contains(id),
        has_session(state, id) ==> readded_tabs(state, main_tabs, id).contains(id),
{
    broadcast use vstd::seq_lib::group_filter_ensures;

    readd_opens_existing_session(state, main_tabs, id);
    if without_tab(window_tabs, id).contains(id) {
        let k = choose|k: int| 0 <= k < without_tab(window_tabs, id).len() && without_tab(window_tabs, id)[k] == id;
        window_tabs.lemma_filter_pred(crate::detached::other_than(id), k);
    }
}

/// Closing a window returns its tabs to the main strip: every tab whose
/// session exists has a tab there afterwards, the strip's own tabs stay, and
/// no session gains a second tab.
pub proof fn released_tabs_return_to_main(state: AppState, main_tabs: Seq<u128>, ids: Seq<u128>)
    requires
        main_tabs.no_duplicates(),
    ensures
        forall|i: int|
            0 <= i < ids.len() && has_session(state, ids[i]) ==> readded_all(state, main_tabs, ids).contains(
                ids[i],
            ),
        forall|x: u128| main_tabs.contains(x) ==> readded_all(state, main_tabs, ids).contains(x),
        readded_all(state, main_tabs, ids).no_duplicates(),
    decreases ids.len(),
{
    if ids.len() > 0 {
        let init = ids.drop_last();
        released_tabs_return_to_main(state, main_tabs, init);
        let before = readded_all(state, main_tabs, init);
        readd_opens_existing_session(state, before, ids.last());
        assert forall|i: int|
            0 <= i < ids.len() && has_session(state, ids[i]) implies readded_all(state, main_tabs, ids).contains(
                ids[i],
            ) by {
            if i < ids.len() - 1 {
                assert(init[i] == ids[i]);
            }
        }
    }
}

/// Opening the split that is already open reports no change.
pub proof fn reopening_split_changes_nothing(id: u128, on_left: bool)
    ensures
        split_change(Some(id), on_left, id, on_left) == (SplitOpened { changed: false, session_changed: false }),
{
}

/// Two neighbouring tabs join into one pill from both sides: a tab joins its
/// right neighbour exactly when that neighbour joins it.
pub proof fn joined_tabs_pair_up(w: Waku, focused: Option<u128>, i: int)
    requires
        0 <= i,
        i + 1 < w.chat_tabs@.len(),
    ensures
        tab_chip(w, focused, i).join_left == tab_chip(w, focused, i + 1).join_right,
{
}

/// Every chip of the strip belongs to an open tab whose session exists.
pub proof fn strip_shows_only_open_sessions(w: Waku, focused: Option<u128>, n: nat)
    requires
        n <= w.chat_tabs@.len(),
    ensures
        forall|k: int|
            0 <= k < strip_chips(w, focused, n).len() ==> {
                let c = #[trigger] strip_chips(w, focused, n)[k];
                &&& 0 <= c.index < n
                &&& w.chat_tabs@[c.index as int] == c.session_id
                &&& has_session(w.state, c.session_id)
            },
    decreases n,
{
    assert(w.chat_tabs.len() == w.chat_tabs@.len());
    if n > 0 {
        strip_shows_only_open_sessions(w, focused, (n - 1) as nat);
    }
}

/// A window with tabs, no two for one session, shows exactly one of them as active.
pub proof fn window_strip_has_one_active_chip(tabs: Seq<u128>, active: u128)
    requires
        tabs.no_duplicates(),
        tabs.contains(active),
    ensures
        exists|k: int| 0 <= k < tabs.len() && #[trigger] detached_chips(tabs, active)[k].active,
        forall|k: int, j: int|
            0 <= k < tabs.len() && 0 <= j < tabs.len() && detached_chips(tabs, active)[k].active
                && detached_chips(tabs, active)[j].active ==> k == j,
{
    let k = choose|k: int| 0 <= k < tabs.len() && tabs[k] == active;
    assert(detached_chips(tabs, active)[k].active);
}

/// The frame counter keeps exactly the frames of the second ending at the
/// current frame, the current frame among them: a frame more than a second
/// old no longer counts.
pub proof fn frame_rate_counts_only_the_last_second(frames: Seq<u64>, now: u64)
    ensures
        frames.push(now).filter(in_last_second(now)).contains(now),
        forall|t: u64|
            frames.push(now).filter(in_last_second(now)).contains(t) ==> t <= now && now - t
                < FPS_WINDOW_NANOS,
        forall|t: u64|
            frames.contains(t) && t <= now && now - t < FPS_WINDOW_NANOS ==> frames.push(
                now,
            ).filter(in_last_second(now)).contains(t),
{
    broadcast use vstd::seq_lib::group_filter_ensures;

    let s = frames.push(now);
    let pred = in_last_second(now);
    s.lemma_filter_contains(pred, frames.len() as int);
    assert(s[frames.len() as int] == now);
    assert forall|t: u64| s.filter(pred).contains(t) implies t <= now && now - t < FPS_WINDOW_NANOS by {
        let k = choose|k: int| 0 <= k < s.filter(pred).len() && s.filter(pred)[k] == t;
        s.lemma_filter_pred(pred, k);
    }
    assert forall|t: u64| frames.contains(t) && t <= now && now - t < FPS_WINDOW_NANOS implies s.filter(
        pred,
    ).contains(t) by {
        let k = choose|k: int| 0 <= k < frames.len() && frames[k] == t;
        assert(s[k] == t);
        s.lemma_filter_contains(pred, k);
    }
}

/// Dragging a tab to another slot moves only that tab: the strip without it
/// reads as before, in the same order, and it sits on the slot it was dropped
/// on, or on the last slot when dropped past the end.
pub proof fn reorder_keeps_the_others_in_order(tabs: Seq<u128>, id: u128, from: int, to_index: int)
    requires
        0 <= from < tabs.len(),
        tabs[from] == id,
        forall|j: int| 0 <= j < from ==> tabs[j] != id,
        to_index >= 0,
    ensures
        ({
            let landing = if to_index < tabs.len() { to_index } else { tabs.len() - 1 };
            let after = reordered(tabs, id, to_index);
            &&& after.len() == tabs.len()
            &&& after[landing] == id
            &&& after.remove(landing) == tabs.remove(from)
        }),
{
    crate::session::lemma_first_index(tabs, id, from);
    let landing = if to_index < tabs.len() { to_index } else { tabs.len() - 1 };
    let after = reordered(tabs, id, to_index);
    if from == to_index {
        assert(after.remove(landing) =~= tabs.remove(from));
    } else {
        let rest = tabs.remove(from);
        assert(after == rest.insert(landing, id));
        assert(after.remove(landing) =~= rest);
    }
}

/// When the main pane's tab closes and a tab remains on its slot, that tab
/// (the one that followed it) takes over; when the closed tab was last, the
/// new last tab takes over; when none is left, the selection clears.
pub proof fn close_hands_over_to_the_following_tab(before: Waku, after: Waku, id: u128, r: TabClose, index: int)
    requires
        after.closes_tab(before, id, r),
        before.state.selected_session == Some(id),
        0 <= index < before.chat_tabs@.len(),
        before.chat_tabs@[index] == id,
        forall|j: int| 0 <= j < index ==> before.chat_tabs@[j] != id,
    ensures
        after.chat_tabs@.len() == before.chat_tabs@.len() - 1,
        index < after.chat_tabs@.len() ==> r == TabClose::Select(after.chat_tabs@[index]),
        index == after.chat_tabs@.len() && index > 0 ==> r == TabClose::Select(
            after.chat_tabs@[index - 1],
        ),
        after.chat_tabs@.len() == 0 ==> r == TabClose::Cleared && after.state.selected_session is None,
{
    crate::session::lemma_first_index(before.chat_tabs@, id, index);
}

/// Closing a tab that is not the main pane's leaves the selection and
/// reports a plain close; closing a tab that is not open changes nothing.
pub proof fn close_keeps_other_selections(before: Waku, after: Waku, id: u128, r: TabClose)
    requires
        after.closes_tab(before, id, r),
    ensures
        !before.chat_tabs@.contains(id) ==> r == TabClose::NotOpen && after.chat_tabs@ == before.chat_tabs@,
        before.chat_tabs@.contains(id) && before.state.selected_session != Some(id) ==> r == TabClose::Closed
            && after.state == before.state,
{
    before.chat_tabs@.index_of_first_ensures(id);
}

/// A chip's label reads in the accent colour only while the window is split:
/// unsplit, a tab on screen reads as primary and any other as secondary.
pub proof fn accent_only_while_split(w: Waku, focused: Option<u128>, i: int)
    requires
        0 <= i < w.chat_tabs@.len(),
    ensures
        tab_chip(w, focused, i).tone == TabTone::Accent ==> w.split_session is Some && focused == Some(
            w.chat_tabs@[i],
        ),
        w.split_session is None ==> tab_chip(w, focused, i).tone == if w.state.selected_session == Some(
            w.chat_tabs@[i],
        ) {
            TabTone::Primary
        } else {
            TabTone::Secondary
        },
        w.split_session is Some && focused == Some(w.chat_tabs@[i]) ==> tab_chip(w, focused, i).tone
            == TabTone::Accent,
{
}

/// Settling a window never moves the shown tab while it stays a tab; only
/// when it is gone does the first tab take over.
pub proof fn settling_keeps_the_shown_tab(tabs: Seq<u128>, active: u128)
    ensures
        tabs.contains(active) ==> next_active(tabs, active) == active,
        !tabs.contains(active) && tabs.len() > 0 ==> next_active(tabs, active) == tabs[0],
        tabs.len() > 0 ==> tabs.contains(next_active(tabs, active)),
{
    if tabs.len() > 0 && !tabs.contains(active) {
        assert(tabs[0] == next_active(tabs, active));
    }
}

/// A message that draws as markdown, from the user or the assistant and not
/// blank, keeps its own id, its author and its streaming state: a reply still
/// streaming is drawn as streaming.
pub proof fn markdown_rows_keep_the_message_state(sessions: Seq<AgentSession>, session_id: u128, index: int)
    requires
        session_slot(sessions, session_id) is Some,
        0 <= index < sessions[session_slot(sessions, session_id)->0].messages@.len(),
    ensures
        ({
            let m = sessions[session_slot(sessions, session_id)->0].messages@[index];
            let row = row_for(sessions, session_id, index);
            &&& is_blank_text(m.content@) ==> row == MessageRow::Empty
            &&& !is_blank_text(m.content@) && m.role != MessageRole::Other ==> row == (MessageRow::Markdown {
                message_id: m.id,
                user: m.role == MessageRole::User,
                streaming: m.streaming,
            })
            &&& !is_blank_text(m.content@) && m.role == MessageRole::Other ==> row == (MessageRow::Plain { message_id: m.id })
        }),
{
}

/// Offering back a session that is gone, or that already has a tab, leaves
/// the strip as it is.
pub proof fn readd_leaves_missing_or_open_sessions(state: AppState, tabs: Seq<u128>, id: u128)
    ensures
        !has_session(state, id) ==> readded_tabs(state, tabs, id) == tabs,
        tabs.contains(id) ==> readded_tabs(state, tabs, id) == tabs,
        has_session(state, id) && !tabs.contains(id) ==> readded_tabs(state, tabs, id).drop_last() == tabs
            && readded_tabs(state, tabs, id).last() == id,
{
}

/// Opening the split on another session always reports a change of
/// session; moving the same session to the other side reports a change but
/// keeps the session.
pub proof fn split_change_follows_what_moved(split: Option<u128>, was_on_left: bool, id: u128, on_left: bool)
    ensures
        split != Some(id) ==> split_change(split, was_on_left, id, on_left).session_changed
            && split_change(split, was_on_left, id, on_left).changed,
        split == Some(id) ==> !split_change(split, was_on_left, id, on_left).session_changed,
        split == Some(id) ==> split_change(split, was_on_left, id, on_left).changed == (was_on_left
            != on_left),
{
}

/// Every open tab whose session exists gets a chip, on its own slot.
pub proof fn strip_shows_every_open_session(w: Waku, focused: Option<u128>, n: nat)
    requires
        n <= w.chat_tabs@.len(),
    ensures
        forall|i: int|
            0 <= i < n && has_session(w.state, #[trigger] w.chat_tabs@[i]) ==> exists|k: int|
                0 <= k < strip_chips(w, focused, n).len() && strip_chips(w, focused, n)[k]
                    == tab_chip(w, focused, i),
    decreases n,
{
    if n > 0 {
        let m = (n - 1) as nat;
        strip_shows_every_open_session(w, focused, m);
        let before = strip_chips(w, focused, m);
        assert forall|i: int|
            0 <= i < n && has_session(w.state, #[trigger] w.chat_tabs@[i]) implies exists|k: int|
                0 <= k < strip_chips(w, focused, n).len() && strip_chips(w, focused, n)[k]
                    == tab_chip(w, focused, i) by {
            if i < m {
                let k = choose|k: int| 0 <= k < before.len() && before[k] == tab_chip(w, focused, i);
                assert(strip_chips(w, focused, n)[k] == tab_chip(w, focused, i));
            } else {
                assert(strip_chips(w, focused, n)[before.len() as int] == tab_chip(w, focused, i));
            }
        }
    }
}

/// A chip joins a neighbour only while on screen, and its corners follow its
/// joins: a lone tab is rounded all round, the two halves of a pair each on
/// their outer side.
pub proof fn chip_corners_follow_joins(w: Waku, focused: Option<u128>, i: int)
    requires
        0 <= i < w.chat_tabs@.len(),
    ensures
        ({
            let c = tab_chip(w, focused, i);
            &&& (c.join_left || c.join_right) ==> c.on_screen
            &&& c.join_left ==> i + 1 < w.chat_tabs@.len()
            &&& c.join_right ==> i >= 1
            &&& (c.corners == crate::chat_tabs::TabCorners::All) == (!c.join_left && !c.join_right)
            &&& c.flush == (i == 0 || c.join_right)
            &&& c.session_id == w.chat_tabs@[i]
            &&& c.index == i
        }),
{
    assert(w.chat_tabs.len() == w.chat_tabs@.len());
}

/// Settling keeps every tab that may stay, in order: a tab whose session
/// exists and has no tab in the main strip is never dropped.
pub proof fn settling_keeps_every_live_tab(waku: Waku, tabs: Seq<u128>)
    ensures
        forall|x: u128| tabs.contains(x) && stays_detached(waku, x) ==> live_detached(waku, tabs).contains(x),
{
    broadcast use vstd::seq_lib::group_filter_ensures;

    assert forall|x: u128| tabs.contains(x) && stays_detached(waku, x) implies live_detached(
        waku,
        tabs,
    ).contains(x) by {
        let k = choose|k: int| 0 <= k < tabs.len() && tabs[k] == x;
        tabs.lemma_filter_contains(|id: u128| stays_detached(waku, id), k);
    }
}

/// Closing a window tab drops that tab only: every other tab stays.
pub proof fn closing_a_window_tab_keeps_the_others(tabs: Seq<u128>, id: u128)
    ensures
        forall|x: u128| tabs.contains(x) && x != id ==> without_tab(tabs, id).contains(x),
        without_tab(tabs, id).len() <= tabs.len(),
{
    broadcast use vstd::seq_lib::group_filter_ensures;

    assert forall|x: u128| tabs.contains(x) && x != id implies without_tab(tabs, id).contains(x) by {
        let k = choose|k: int| 0 <= k < tabs.len() && tabs[k] == x;
        tabs.lemma_filter_contains(crate::detached::other_than(id), k);
    }
}

/// A session's row count is how many messages the session found by its id
/// holds, and 0 when no session has that id.
pub proof fn row_count_is_the_sessions_messages(sessions: Seq<AgentSession>, id: u128)
    ensures
        !session_ids(sessions).contains(id) ==> message_count(sessions, id) == 0,
        forall|i: int|
            0 <= i < sessions.len() && sessions[i].id == id && (forall|j: int|
                0 <= j < i ==> sessions[j].id != id) ==> message_count(sessions, id)
                == #[trigger] sessions[i].messages@.len(),
{
    session_ids(sessions).index_of_first_ensures(id);
    assert forall|i: int|
        0 <= i < sessions.len() && sessions[i].id == id && (forall|j: int|
            0 <= j < i ==> sessions[j].id != id) implies message_count(sessions, id)
        == #[trigger] sessions[i].messages@.len() by {
        let ids = session_ids(sessions);
        assert(ids[i] == id);
        assert forall|j: int| 0 <= j < i implies ids[j] != id by {
            assert(ids[j] == sessions[j].id);
        }
        crate::session::lemma_first_index(ids, id, i);
    }
}

} // verus!
