use vstd::prelude::*;
use vstd::std_specs::iter::IteratorSpec;
use crate::session::{AgentSession, MessageRole, session_slot, find_session};

verus! {

/// Unicode's White_Space property, the whitespace that trimming removes.
pub open spec fn is_white_space(c: char) -> bool {
    let v = c as u32;
    ||| 0x09 <= v <= 0x0d
    ||| v == 0x20
    ||| v == 0x85
    ||| v == 0xa0
    ||| v == 0x1680
    ||| 0x2000 <= v <= 0x200a
    ||| v == 0x2028
    ||| v == 0x2029
    ||| v == 0x202f
    ||| v == 0x205f
    ||| v == 0x3000
}

/// The text is empty once trimmed: every character is whitespace.
pub open spec fn is_blank_text(text: Seq<char>) -> bool {
    forall|i: int| 0 <= i < text.len() ==> is_white_space(#[trigger] text[i])
}

/// Whether `c` has Unicode's White_Space property.
pub fn is_white_space_char(c: char) -> (r: bool)
    ensures
        r == is_white_space(c),
{
    let v = c as u32;
    (0x09 <= v && v <= 0x0d) || v == 0x20 || v == 0x85 || v == 0xa0 || v == 0x1680 || (0x2000 <= v
        && v <= 0x200a) || v == 0x2028 || v == 0x2029 || v == 0x202f || v == 0x205f || v == 0x3000
}

/// Whether the text is empty once trimmed.
pub fn is_blank(text: &str) -> (r: bool)
    ensures
        r == is_blank_text(text@),
{
    broadcast use vstd::string::axiom_spec_iter, vstd::string::next_postcondition;

    let mut chars = text.chars();
    let ghost whole = text@;
    let ghost mut done: Seq<char> = Seq::empty();
    assert(chars.remaining() == whole);
    loop
        invariant
            whole == text@,
            whole == done + chars.remaining(),
            is_blank_text(done),
        decreases whole.len() - done.len(),
    {
        let ghost before = chars.remaining();
        match chars.next() {
            None => {
                assert(chars.remaining().len() == 0);
                assert(done == whole);
                return true;
            },
            Some(c) => {
                proof {
                    assert(c == before[0]);
                    assert(whole[done.len() as int] == c);
                }
                if !is_white_space_char(c) {
                    return false;
                }
                proof {
                    done = done.push(c);
                    assert(whole == done + chars.remaining());
                }
            },
        }
    }
}

/// How one transcript row of a secondary pane draws.
#[derive(Clone, Copy, Debug, PartialEq, Eq, Structural)]
pub enum MessageRow {
    /// Nothing: the session or message is gone, or its text is blank.
    Empty,
    /// Markdown body; a user message sits in a bubble.
    Markdown { message_id: u128, user: bool, streaming: bool },
    /// Small plain text, for every other role.
    Plain { message_id: u128 },
}

/// The row at `index` of the session `session_id`.
pub open spec fn row_for(sessions: Seq<AgentSession>, session_id: u128, index: int) -> MessageRow {
    match session_slot(sessions, session_id) {
        None => MessageRow::Empty,
        Some(slot) => {
            let messages = sessions[slot].messages@;
            if !(0 <= index < messages.len()) {
                MessageRow::Empty
            } else {
                let m = messages[index];
                if is_blank_text(m.content@) {
                    MessageRow::Empty
                } else {
                    match m.role {
                        MessageRole::User => MessageRow::Markdown {
                            message_id: m.id,
                            user: true,
                            streaming: m.streaming,
                        },
                        MessageRole::Assistant => MessageRow::Markdown {
                            message_id: m.id,
                            user: false,
                            streaming: m.streaming,
                        },
                        MessageRole::Other => MessageRow::Plain { message_id: m.id },
                    }
                }
            }
        },
    }
}

/// Decides how the row at `index` of session `session_id` draws.
pub fn message_row(sessions: &Vec<AgentSession>, session_id: u128, index: usize) -> (row: MessageRow)
    ensures
        row == row_for(sessions@, session_id, index as int),
{
    let slot = match find_session(sessions, session_id) {
        Some(slot) => slot,
        None => {
            return MessageRow::Empty;
        },
    };
    let session = &sessions[slot];
    if index >= session.messages.len() {
        return MessageRow::Empty;
    }
    let m = &session.messages[index];
    if is_blank(m.content.as_str()) {
        return MessageRow::Empty;
    }
    match m.role {
        MessageRole::User => MessageRow::Markdown { message_id: m.id, user: true, streaming: m.streaming },
        MessageRole::Assistant => MessageRow::Markdown {
            message_id: m.id,
            user: false,
            streaming: m.streaming,
        },
        MessageRole::Other => MessageRow::Plain { message_id: m.id },
    }
}

/// Replace the rows `start..end` of a virtual list with `insert` fresh rows.
#[derive(Clone, Copy, Debug, PartialEq, Eq, Structural)]
pub struct ListSplice {
    pub start: usize,
    pub end: usize,
    pub insert: usize,
}

/// The splice that brings a list of `current` rows to `target` rows: append
/// the missing rows at the end, or cut the surplus off the end; `None` when
/// the count already matches.
pub fn list_splice(current: usize, target: usize) -> (r: Option<ListSplice>)
    ensures
        current == target ==> r is None,
        current < target ==> r == Some(ListSplice { start: current, end: current, insert: (target - current) as usize }),
        current > target ==> r == Some(ListSplice { start: target, end: current, insert: 0 }),
{
    if target > current {
        Some(ListSplice { start: current, end: current, insert: target - current })
    } else if target < current {
        Some(ListSplice { start: target, end: current, insert: 0 })
    } else {
        None
    }
}

} // verus!
