use vstd::prelude::*;
use vstd::string::*;

verus! {

/// History bound every lazily created session starts with.
pub const DEFAULT_MAX_HISTORY: usize = 10;

/// One conversation turn: a role (`"user"` or `"assistant"`) and its text.
#[derive(Clone, Debug)]
pub struct Message {
    pub role: String,
    pub content: String,
}

/// Abstract value of a message: its role and content character sequences.
pub open spec fn msg_view(m: Message) -> (Seq<char>, Seq<char>) {
    (m.role@, m.content@)
}

/// Abstract value of a history: the messages' views in order.
pub open spec fn msgs_view(h: Seq<Message>) -> Seq<(Seq<char>, Seq<char>)> {
    h.map_values(|m: Message| msg_view(m))
}

/// Appending under a sliding window: the new element always enters, and
/// the oldest one leaves when the bound would be exceeded.
pub open spec fn evict_push<M>(h: Seq<M>, m: M, max: nat) -> Seq<M> {
    if h.len() + 1 > max {
        h.push(m).drop_first()
    } else {
        h.push(m)
    }
}

/// Repeated sliding-window appends, oldest new message first.
pub open spec fn append_all<M>(h: Seq<M>, msgs: Seq<M>, max: nat) -> Seq<M>
    decreases msgs.len(),
{
    if msgs.len() == 0 {
        h
    } else {
        append_all(evict_push(h, msgs[0], max), msgs.drop_first(), max)
    }
}

/// An ordered, bounded conversation history.
///
/// Invariant: `history.len() <= max_history` at all times; an append that
/// would exceed the bound evicts the oldest message (FIFO), it never
/// rejects the new one.
pub struct ChatSession {
    pub history: Vec<Message>,
    pub max_history: usize,
}

/// One prompt line, `"role: content\n"`.
pub open spec fn msg_line(m: (Seq<char>, Seq<char>)) -> Seq<char> {
    m.0 + ": "@ + m.1 + "\n"@
}

/// The prompt a history renders to: its lines concatenated in order.
pub open spec fn prompt_of(h: Seq<(Seq<char>, Seq<char>)>) -> Seq<char>
    decreases h.len(),
{
    if h.len() == 0 {
        Seq::empty()
    } else {
        prompt_of(h.drop_last()) + msg_line(h.last())
    }
}

impl ChatSession {
    pub open spec fn wf(self) -> bool {
        self.history@.len() <= self.max_history
    }

    /// A fresh, empty session with the given history bound.
    pub fn new(max_history: usize) -> (s: ChatSession)
        ensures
            s.history@ == Seq::<Message>::empty(),
            s.max_history == max_history,
            s.wf(),
    {
        ChatSession { history: Vec::new(), max_history }
    }

    /// Appends a message, evicting the oldest one first-in-first-out when
    /// the bound would be exceeded.
    pub fn add_message(&mut self, role: &str, content: &str)
        ensures
            final(self).max_history == old(self).max_history,
            msgs_view(final(self).history@) == evict_push(
                msgs_view(old(self).history@),
                (role@, content@),
                old(self).max_history as nat,
            ),
            final(self).history@.len() == if old(self).history@.len() + 1 > old(
                self,
            ).max_history {
                old(self).history@.len()
            } else {
                old(self).history@.len() + 1
            },
            old(self).wf() ==> final(self).wf(),
    {
        let m = Message { role: role.to_owned(), content: content.to_owned() };
        let ghost h0 = msgs_view(self.history@);
        self.history.push(m);
        proof {
            assert(msgs_view(self.history@) =~= h0.push((role@, content@)));
        }
        if self.history.len() > self.max_history {
            let ghost h1 = self.history@;
            let _ = self.history.remove(0);
            proof {
                assert(self.history@ =~= h1.drop_first());
                assert(msgs_view(h1.drop_first()) =~= msgs_view(h1).drop_first());
            }
        }
    }

    /// Renders the history as one prompt string, one `"role: content\n"`
    /// line per message in order.
    pub fn get_prompt(&self) -> (r: String)
        ensures
            r@ == prompt_of(msgs_view(self.history@)),
    {
        let ghost hv = msgs_view(self.history@);
        let mut out = String::new();
        let mut i: usize = 0;
        while i < self.history.len()
            invariant
                i <= self.history@.len(),
                hv == msgs_view(self.history@),
                hv.len() == self.history@.len(),
                out@ == prompt_of(hv.take(i as int)),
            decreases self.history@.len() - i,
        {
            let m = &self.history[i];
            out.append(m.role.as_str());
            out.append(": ");
            out.append(m.content.as_str());
            out.append("\n");
            proof {
                assert(hv.take(i + 1).drop_last() =~= hv.take(i as int));
                assert(hv.take(i + 1).last() == msg_view(self.history@[i as int]));
                assert(out@ =~= prompt_of(hv.take(i as int)) + msg_line(hv.take(i + 1).last()));
            }
            i = i + 1;
        }
        proof {
            assert(hv.take(self.history@.len() as int) =~= hv);
        }
        out
    }
}

/// Law: the history is a strict FIFO sliding window. Starting from any
/// history within its bound, appending at least `max` messages leaves
/// exactly the most recent `max` of them, in their original order.
pub proof fn lemma_sliding_window<M>(h: Seq<M>, msgs: Seq<M>, max: nat)
    requires
        h.len() <= max,
    ensures
        append_all(h, msgs, max) == if h.len() + msgs.len() <= max {
            h + msgs
        } else {
            (h + msgs).subrange(h.len() + msgs.len() - max, (h.len() + msgs.len()) as int)
        },
    decreases msgs.len(),
{
    if msgs.len() == 0 {
        assert(h + msgs =~= h);
    } else {
        let h1 = evict_push(h, msgs[0], max);
        if h.len() + 1 > max {
            assert(h1 =~= (h + msgs.take(1)).drop_first());
        } else {
            assert(h1 =~= h + msgs.take(1));
        }
        lemma_sliding_window(h1, msgs.drop_first(), max);
        assert(h1 + msgs.drop_first() =~= if h.len() + 1 > max {
            (h + msgs).drop_first()
        } else {
            h + msgs
        });
        if h.len() + msgs.len() <= max {
            assert(append_all(h, msgs, max) =~= h + msgs);
        } else {
            assert(append_all(h, msgs, max) =~= (h + msgs).subrange(
                h.len() + msgs.len() - max,
                (h.len() + msgs.len()) as int,
            ));
        }
    }
}

/// Law: appending `max` or more messages to a fresh session leaves exactly
/// the most recent `max`, unreordered.
pub proof fn lemma_fresh_session_window<M>(msgs: Seq<M>, max: nat)
    requires
        msgs.len() >= max,
    ensures
        append_all(Seq::<M>::empty(), msgs, max) == msgs.subrange(
            msgs.len() - max,
            msgs.len() as int,
        ),
{
    lemma_sliding_window(Seq::<M>::empty(), msgs, max);
    if msgs.len() == max {
        assert(Seq::<M>::empty() + msgs =~= msgs.subrange(msgs.len() - max, msgs.len() as int));
    } else {
        assert((Seq::<M>::empty() + msgs).subrange(msgs.len() - max, msgs.len() as int) =~= msgs
            .subrange(msgs.len() - max, msgs.len() as int));
    }
}

/// Maps session ids to their sessions; sessions are created lazily and
/// never destroyed. A caller that supplies no id lands on a fixed
/// default session.
pub struct SessionManager {
    pub sessions: Vec<(String, ChatSession)>,
    pub default_session_id: String,
}

/// Index of the first entry carrying `id`, if any.
pub open spec fn find_session(s: Seq<(String, ChatSession)>, id: Seq<char>) -> Option<int>
    decreases s.len(),
{
    if s.len() == 0 {
        None
    } else if s[0].0@ == id {
        Some(0)
    } else {
        match find_session(s.drop_first(), id) {
            None => None,
            Some(i) => Some(i + 1),
        }
    }
}

/// What `find_session` finds: the first match, or proof there is none.
pub proof fn lemma_find_session_char(s: Seq<(String, ChatSession)>, id: Seq<char>)
    ensures
        match find_session(s, id) {
            Some(i) => 0 <= i < s.len() && s[i].0@ == id && (forall|j: int|
                0 <= j < i ==> s[j].0@ != id),
            None => forall|j: int| 0 <= j < s.len() ==> s[j].0@ != id,
        },
    decreases s.len(),
{
    if s.len() == 0 {
    } else if s[0].0@ == id {
    } else {
        let t = s.drop_first();
        lemma_find_session_char(t, id);
        match find_session(t, id) {
            None => {
                assert forall|j: int| 0 <= j < s.len() implies s[j].0@ != id by {
                    if j > 0 {
                        assert(t[j - 1] == s[j]);
                        assert(t[j - 1].0@ != id);
                    }
                }
            },
            Some(i) => {
                assert(t[i] == s[i + 1]);
                assert forall|j: int| 0 <= j < i + 1 implies s[j].0@ != id by {
                    if j > 0 {
                        assert(t[j - 1] == s[j]);
                        assert(t[j - 1].0@ != id);
                    }
                }
            },
        }
    }
}

impl SessionManager {
    /// Session ids are unique, so a lookup is unambiguous, and every
    /// session respects its history bound.
    pub open spec fn wf(self) -> bool {
        &&& forall|i: int, j: int|
            0 <= i < j < self.sessions@.len() ==> self.sessions@[i].0@ != self.sessions@[j].0@
        &&& forall|i: int| 0 <= i < self.sessions@.len() ==> (#[trigger] self.sessions@[i].1).wf()
    }

    /// A registry holding only the default session, empty and bounded to
    /// the default history length.
    pub fn new() -> (m: SessionManager)
        ensures
            m.wf(),
            m.default_session_id@ == "default"@,
            m.sessions@.len() == 1,
            m.sessions@[0].0@ == "default"@,
            m.sessions@[0].1.history@ == Seq::<Message>::empty(),
            m.sessions@[0].1.max_history == DEFAULT_MAX_HISTORY,
    {
        let mut sessions: Vec<(String, ChatSession)> = Vec::new();
        let default_id = "default".to_owned();
        sessions.push((default_id.clone(), ChatSession::new(DEFAULT_MAX_HISTORY)));
        SessionManager { sessions, default_session_id: default_id }
    }

    /// Resolves an optional session id (falling back to the default id)
    /// to the index of its session, creating an empty session with the
    /// default bound on first reference. Lookup never fails.
    pub fn get_session_mut(&mut self, session_id: Option<String>) -> (idx: usize)
        requires
            old(self).wf(),
        ensures
            final(self).wf(),
            final(self).default_session_id@ == old(self).default_session_id@,
            idx < final(self).sessions@.len(),
            ({
                let key = match session_id {
                    Some(id) => id@,
                    None => old(self).default_session_id@,
                };
                &&& final(self).sessions@[idx as int].0@ == key
                &&& match find_session(old(self).sessions@, key) {
                    Some(i) => idx == i && final(self).sessions@ == old(self).sessions@,
                    None => {
                        &&& idx == old(self).sessions@.len()
                        &&& final(self).sessions@.len() == old(self).sessions@.len() + 1
                        &&& final(self).sessions@.subrange(0, old(self).sessions@.len() as int)
                            == old(self).sessions@
                        &&& final(self).sessions@[idx as int].1.history@
                            == Seq::<Message>::empty()
                        &&& final(self).sessions@[idx as int].1.max_history
                            == DEFAULT_MAX_HISTORY
                    }
                }
            }),
    {
        let key: String = match session_id {
            Some(id) => id,
            None => self.default_session_id.clone(),
        };
        proof {
            lemma_find_session_char(self.sessions@, key@);
        }
        let n = self.sessions.len();
        let mut i: usize = 0;
        while i < n
            invariant
                *self == *old(self),
                old(self).wf(),
                n == self.sessions@.len(),
                i <= n,
                key@ == match session_id {
                    Some(id) => id@,
                    None => old(self).default_session_id@,
                },
                forall|j: int| 0 <= j < i ==> self.sessions@[j].0@ != key@,
            decreases n - i,
        {
            let pair = &self.sessions[i];
            if pair.0 == key {
                proof {
                    lemma_find_session_char(self.sessions@, key@);
                    assert(self.sessions@[i as int].0@ == key@);
                    match find_session(self.sessions@, key@) {
                        Some(f) => {
                            assert(f <= i);
                            assert(i <= f);
                        },
                        None => {
                            assert(self.sessions@[i as int].0@ != key@);
                        },
                    }
                }
                return i;
            }
            i = i + 1;
        }
        self.sessions.push((key, ChatSession::new(DEFAULT_MAX_HISTORY)));
        proof {
            assert(final(self).sessions@.subrange(0, old(self).sessions@.len() as int)
                =~= old(self).sessions@);
        }
        n
    }

    /// Appends a message to the session at `idx` under its sliding window;
    /// no other session is touched.
    pub fn add_message_to(&mut self, idx: usize, role: &str, content: &str)
        requires
            idx < old(self).sessions@.len(),
            old(self).wf(),
        ensures
            final(self).wf(),
            final(self).default_session_id@ == old(self).default_session_id@,
            final(self).sessions@.len() == old(self).sessions@.len(),
            forall|j: int|
                0 <= j < old(self).sessions@.len() && j != idx ==> final(self).sessions@[j]
                    == old(self).sessions@[j],
            final(self).sessions@[idx as int].0 == old(self).sessions@[idx as int].0,
            final(self).sessions@[idx as int].1.max_history == old(self).sessions@[idx
                as int].1.max_history,
            msgs_view(final(self).sessions@[idx as int].1.history@) == evict_push(
                msgs_view(old(self).sessions@[idx as int].1.history@),
                (role@, content@),
                old(self).sessions@[idx as int].1.max_history as nat,
            ),
            final(self).sessions@[idx as int].1.history@.len() == if old(
                self,
            ).sessions@[idx as int].1.history@.len() + 1 > old(self).sessions@[idx
                as int].1.max_history {
                old(self).sessions@[idx as int].1.history@.len()
            } else {
                old(self).sessions@[idx as int].1.history@.len() + 1
            },
    {
        let mut pair = self.sessions.remove(idx);
        pair.1.add_message(role, content);
        self.sessions.insert(idx, pair);
        proof {
            assert(forall|j: int|
                0 <= j < old(self).sessions@.len() && j != idx ==> final(self).sessions@[j]
                    == old(self).sessions@[j]);
        }
    }

    /// Renders the prompt of the session at `idx`.
    pub fn prompt_of_session(&self, idx: usize) -> (r: String)
        requires
            idx < self.sessions@.len(),
        ensures
            r@ == prompt_of(msgs_view(self.sessions@[idx as int].1.history@)),
    {
        let pair = &self.sessions[idx];
        pair.1.get_prompt()
    }
}

} // verus!
