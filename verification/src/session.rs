use vstd::prelude::*;

verus! {

/// The agent backend a session runs on. Nothing here branches on it; it is
/// carried so a session can be built the way the client builds one.
#[derive(Clone, Copy, Debug, PartialEq, Eq, Structural)]
pub enum ProviderKind {
    Codex,
}

/// Who wrote a transcript message. `Other` covers every role that is neither
/// the user nor the assistant (tool output, notices); the transcript shows
/// those as plain text.
#[derive(Clone, Copy, Debug, PartialEq, Eq, Structural)]
pub enum MessageRole {
    User,
    Assistant,
    Other,
}

/// One transcript message, as far as the pane views read it.
#[derive(Debug)]
pub struct ChatMessage {
    pub id: u128,
    pub role: MessageRole,
    /// The text the transcript shows for this message.
    pub content: String,
    pub streaming: bool,
}

/// A chat session: its id and the messages loaded for it so far.
#[derive(Debug)]
pub struct AgentSession {
    pub id: u128,
    pub provider: ProviderKind,
    /// False while the session's stored history has not been fetched yet.
    pub detail_loaded: bool,
    pub messages: Vec<ChatMessage>,
}

impl AgentSession {
    /// A fresh draft session: nothing to load, no messages.
    pub fn new(id: u128, provider: ProviderKind) -> (s: AgentSession)
        ensures
            s.id == id,
            s.provider == provider,
            s.detail_loaded,
            s.messages@.len() == 0,
    {
        AgentSession { id, provider, detail_loaded: true, messages: Vec::new() }
    }
}

/// The shared application state the tab logic reads.
#[derive(Debug)]
pub struct AppState {
    pub sessions: Vec<AgentSession>,
    /// The session shown in the main transcript pane.
    pub selected_session: Option<u128>,
}

/// The ids of the sessions, in order.
pub open spec fn session_ids(sessions: Seq<AgentSession>) -> Seq<u128> {
    sessions.map_values(|s: AgentSession| s.id)
}

/// Whether a session with this id exists.
pub open spec fn has_session(state: AppState, id: u128) -> bool {
    session_ids(state.sessions@).contains(id)
}

/// Where the first session with this id stands, if any: the one a lookup finds.
pub open spec fn session_slot(sessions: Seq<AgentSession>, id: u128) -> Option<int> {
    session_ids(sessions).index_of_first(id)
}

/// How many messages the first session with this id has; 0 when there is none.
pub open spec fn message_count(sessions: Seq<AgentSession>, id: u128) -> nat {
    match session_slot(sessions, id) {
        Some(i) => sessions[i].messages@.len(),
        None => 0,
    }
}

/// `i` is the first index of `x` in `s`.
pub proof fn lemma_first_index<A>(s: Seq<A>, x: A, i: int)
    requires
        0 <= i < s.len(),
        s[i] == x,
        forall|j: int| 0 <= j < i ==> s[j] != x,
    ensures
        s.index_of_first(x) == Some(i),
{
    s.index_of_first_ensures(x);
}

/// Index of the first occurrence of `id` in `ids`.
pub fn position_of(ids: &Vec<u128>, id: u128) -> (r: Option<usize>)
    ensures
        match ids@.index_of_first(id) {
            Some(i) => r is Some && r->0 == i && 0 <= i < ids@.len() && ids@[i] == id,
            None => r is None && !ids@.contains(id),
        },
{
    let mut i: usize = 0;
    while i < ids.len()
        invariant
            i <= ids.len(),
            forall|j: int| 0 <= j < i ==> ids@[j] != id,
        decreases ids.len() - i,
    {
        if ids[i] == id {
            proof {
                lemma_first_index(ids@, id, i as int);
            }
            return Some(i);
        }
        i += 1;
    }
    proof {
        ids@.index_of_first_ensures(id);
    }
    None
}

/// Index of the first session with this id.
pub fn find_session(sessions: &Vec<AgentSession>, id: u128) -> (r: Option<usize>)
    ensures
        match session_slot(sessions@, id) {
            Some(i) => r is Some && r->0 == i && 0 <= i < sessions@.len(),
            None => r is None,
        },
{
    let ghost ids = session_ids(sessions@);
    let mut i: usize = 0;
    while i < sessions.len()
        invariant
            i <= sessions.len(),
            ids == session_ids(sessions@),
            forall|j: int| 0 <= j < i ==> ids[j] != id,
        decreases sessions.len() - i,
    {
        if sessions[i].id == id {
            proof {
                assert(ids[i as int] == id);
                lemma_first_index(ids, id, i as int);
            }
            return Some(i);
        }
        i += 1;
    }
    proof {
        ids.index_of_first_ensures(id);
        assert(!ids.contains(id)) by {
            if ids.contains(id) {
                let k = choose|k: int| 0 <= k < ids.len() && ids[k] == id;
                assert(ids[k] != id);
            }
        }
    }
    None
}

} // verus!
