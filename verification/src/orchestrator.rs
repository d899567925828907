use vstd::prelude::*;
use vstd::string::*;
use crate::errors::ChatError;
use crate::embedding::Embedding;
use crate::locator::ModelManager;
use crate::memory::{VectorMemory, search_spec};
use crate::session::{SessionManager, Message, msgs_view, prompt_of, evict_push, find_session};

verus! {

/// How many retrieved memories augment each turn.
pub const RETRIEVAL_TOP_K: usize = 2;

/// Token budget of one generation run.
pub const GENERATION_MAX_TOKENS: usize = 512;

/// `"- {text}\n"` lines for the retrieved context, in retrieval order.
pub open spec fn context_lines(ctx: Seq<Seq<char>>) -> Seq<char>
    decreases ctx.len(),
{
    if ctx.len() == 0 {
        Seq::empty()
    } else {
        context_lines(ctx.drop_last()) + "- "@ + ctx.last() + "\n"@
    }
}

/// The augmented prompt: retrieved context, when there is any, precedes
/// the session prompt under a preamble; an empty retrieval passes the
/// session prompt through untouched.
pub open spec fn rag_prompt(ctx: Seq<Seq<char>>, session_prompt: Seq<char>) -> Seq<char> {
    if ctx.len() == 0 {
        session_prompt
    } else {
        "Context from memory:\n"@ + context_lines(ctx) + "\n"@ + session_prompt
    }
}

/// Law: with nothing retrieved the context preamble is skipped entirely
/// and the prompt is exactly the session prompt.
pub proof fn lemma_empty_context_prompt(session_prompt: Seq<char>)
    ensures
        rag_prompt(Seq::<Seq<char>>::empty(), session_prompt) == session_prompt,
{
}

/// The id key a turn resolves its session under.
pub open spec fn session_key(session_id: Option<String>, default_id: Seq<char>) -> Seq<char> {
    match session_id {
        Some(id) => id@,
        None => default_id,
    }
}

/// Composes tier detection, session state, retrieval memory and the
/// generation loop into turn-taking chat.
///
/// The graph runs themselves happen outside: a turn is prepared (user
/// message recorded, memory searched, prompt augmented), the caller
/// generates against the prompt, and the outcome is applied, so a failed
/// generation can never leave a partial assistant reply or an orphan
/// memory entry.
pub struct OnnxSystem {
    pub model_manager: ModelManager,
    pub sessions: SessionManager,
    pub memory: VectorMemory,
}

impl OnnxSystem {
    /// A fresh system: detected tier, only the default session, an empty
    /// memory store.
    pub fn new() -> (m: OnnxSystem)
        ensures
            m.sessions.wf(),
            m.sessions.sessions@.len() == 1,
            m.sessions.sessions@[0].1.history@ == Seq::<Message>::empty(),
            m.sessions.default_session_id@ == "default"@,
            m.memory.entries@ == Seq::<crate::memory::MemoryEntry>::empty(),
    {
        OnnxSystem {
            model_manager: ModelManager::new(),
            sessions: SessionManager::new(),
            memory: VectorMemory::new(),
        }
    }

    /// Opens a turn: records the user message in the resolved session
    /// (created lazily), retrieves the most similar memories for the
    /// message's embedding, and returns the session's handle with the
    /// augmented prompt. The memory store is only read.
    pub fn prepare_turn(
        &mut self,
        message: &str,
        session_id: Option<String>,
        query: &Embedding,
    ) -> (r: (usize, String))
        requires
            old(self).sessions.wf(),
        ensures
            final(self).sessions.wf(),
            final(self).memory == old(self).memory,
            final(self).model_manager == old(self).model_manager,
            final(self).sessions.default_session_id@ == old(self).sessions.default_session_id@,
            r.0 < final(self).sessions.sessions@.len(),
            final(self).sessions.sessions@.len() >= old(self).sessions.sessions@.len(),
            forall|j: int|
                0 <= j < old(self).sessions.sessions@.len() && j != r.0
                    ==> final(self).sessions.sessions@[j] == old(self).sessions.sessions@[j],
            ({
                let key = session_key(session_id, old(self).sessions.default_session_id@);
                &&& final(self).sessions.sessions@[r.0 as int].0@ == key
                &&& msgs_view(final(self).sessions.sessions@[r.0 as int].1.history@)
                    == match find_session(old(self).sessions.sessions@, key) {
                    Some(i) => evict_push(
                        msgs_view(old(self).sessions.sessions@[i].1.history@),
                        ("user"@, message@),
                        old(self).sessions.sessions@[i].1.max_history as nat,
                    ),
                    None => seq![("user"@, message@)],
                }
                &&& r.1@ == rag_prompt(
                    search_spec(old(self).memory.entries@, query@, RETRIEVAL_TOP_K as nat),
                    prompt_of(msgs_view(final(self).sessions.sessions@[r.0 as int].1.history@)),
                )
            }),
    {
        let idx = self.sessions.get_session_mut(session_id);
        self.sessions.add_message_to(idx, "user", message);
        proof {
            let key = session_key(session_id, old(self).sessions.default_session_id@);
            if find_session(old(self).sessions.sessions@, key) is None {
                assert(msgs_view(self.sessions.sessions@[idx as int].1.history@) =~= seq![
                    ("user"@, message@),
                ]);
            }
        }
        let context = self.memory.search(query, RETRIEVAL_TOP_K);
        let session_prompt = self.sessions.prompt_of_session(idx);
        let ghost ctxv = context@.map_values(|s: String| s@);
        let mut prompt = String::new();
        if context.len() > 0 {
            prompt.append("Context from memory:\n");
            let mut i: usize = 0;
            while i < context.len()
                invariant
                    i <= context@.len(),
                    ctxv == context@.map_values(|s: String| s@),
                    ctxv.len() == context@.len(),
                    prompt@ == "Context from memory:\n"@ + context_lines(ctxv.take(i as int)),
                decreases context@.len() - i,
            {
                prompt.append("- ");
                prompt.append(context[i].as_str());
                prompt.append("\n");
                proof {
                    assert(ctxv.take(i + 1).drop_last() =~= ctxv.take(i as int));
                    assert(ctxv.take(i + 1).last() == ctxv[i as int]);
                    assert(prompt@ =~= "Context from memory:\n"@ + context_lines(
                        ctxv.take(i + 1),
                    ));
                }
                i = i + 1;
            }
            prompt.append("\n");
            prompt.append(session_prompt.as_str());
            proof {
                assert(ctxv.take(context@.len() as int) =~= ctxv);
                assert(prompt@ =~= rag_prompt(ctxv, session_prompt@));
            }
        } else {
            prompt.append(session_prompt.as_str());
            proof {
                assert(ctxv.len() == 0);
                assert(prompt@ =~= rag_prompt(ctxv, session_prompt@));
            }
        }
        (idx, prompt)
    }

    /// Closes a successful turn: records the assistant reply in the
    /// resolved session and appends the user message with its embedding
    /// to the memory store.
    pub fn commit_turn(
        &mut self,
        message: &str,
        session_id: Option<String>,
        embedding: Embedding,
        response: &str,
    )
        requires
            old(self).sessions.wf(),
        ensures
            final(self).sessions.wf(),
            final(self).model_manager == old(self).model_manager,
            final(self).sessions.default_session_id@ == old(self).sessions.default_session_id@,
            final(self).memory.entries@.len() == old(self).memory.entries@.len() + 1,
            final(self).memory.entries@.subrange(0, old(self).memory.entries@.len() as int) == old(
                self,
            ).memory.entries@,
            final(self).memory.entries@.last().text@ == message@,
            final(self).memory.entries@.last().embedding@ == embedding@,
            final(self).sessions.sessions@.len() >= old(self).sessions.sessions@.len(),
            ({
                let key = session_key(session_id, old(self).sessions.default_session_id@);
                exists|idx: int|
                    {
                        &&& 0 <= idx < final(self).sessions.sessions@.len()
                        &&& (#[trigger] final(self).sessions.sessions@[idx]).0@ == key
                        &&& msgs_view(final(self).sessions.sessions@[idx].1.history@)
                            == match find_session(old(self).sessions.sessions@, key) {
                            Some(i) => evict_push(
                                msgs_view(old(self).sessions.sessions@[i].1.history@),
                                ("assistant"@, response@),
                                old(self).sessions.sessions@[i].1.max_history as nat,
                            ),
                            None => seq![("assistant"@, response@)],
                        }
                        &&& forall|j: int|
                            0 <= j < old(self).sessions.sessions@.len() && j != idx
                                ==> final(self).sessions.sessions@[j] == old(
                                self,
                            ).sessions.sessions@[j]
                    }
            }),
    {
        let idx = self.sessions.get_session_mut(session_id);
        self.sessions.add_message_to(idx, "assistant", response);
        proof {
            let key = session_key(session_id, old(self).sessions.default_session_id@);
            if find_session(old(self).sessions.sessions@, key) is None {
                assert(msgs_view(self.sessions.sessions@[idx as int].1.history@) =~= seq![
                    ("assistant"@, response@),
                ]);
            }
        }
        self.memory.add(message.to_owned(), embedding);
        proof {
            assert(self.sessions.sessions@[idx as int].0@ == session_key(
                session_id,
                old(self).sessions.default_session_id@,
            ));
        }
    }

    /// Applies a generation outcome to the turn opened by
    /// [`OnnxSystem::prepare_turn`]. A successful generation records the
    /// assistant reply and the memory entry; a failure changes nothing,
    /// so the failed turn leaves no partial assistant reply and no
    /// orphan memory entry.
    pub fn finish_turn(
        &mut self,
        message: &str,
        session_id: Option<String>,
        embedding: Embedding,
        outcome: Result<String, ChatError>,
    ) -> (r: Result<String, ChatError>)
        requires
            old(self).sessions.wf(),
        ensures
            final(self).sessions.wf(),
            r == outcome,
            outcome is Err ==> *final(self) == *old(self),
            match outcome {
                Ok(response) => {
                    &&& final(self).memory.entries@.len() == old(self).memory.entries@.len() + 1
                    &&& final(self).memory.entries@.subrange(
                        0,
                        old(self).memory.entries@.len() as int,
                    ) == old(self).memory.entries@
                    &&& final(self).memory.entries@.last().text@ == message@
                    &&& final(self).memory.entries@.last().embedding@ == embedding@
                    &&& ({
                        let key = session_key(session_id, old(self).sessions.default_session_id@);
                        exists|idx: int|
                            {
                                &&& 0 <= idx < final(self).sessions.sessions@.len()
                                &&& (#[trigger] final(self).sessions.sessions@[idx]).0@ == key
                                &&& msgs_view(final(self).sessions.sessions@[idx].1.history@)
                                    == match find_session(old(self).sessions.sessions@, key) {
                                    Some(i) => evict_push(
                                        msgs_view(old(self).sessions.sessions@[i].1.history@),
                                        ("assistant"@, response@),
                                        old(self).sessions.sessions@[i].1.max_history as nat,
                                    ),
                                    None => seq![("assistant"@, response@)],
                                }
                            }
                    })
                },
                Err(e) => true,
            },
    {
        match outcome {
            Ok(response) => {
                self.commit_turn(message, session_id, embedding, response.as_str());
                Ok(response)
            },
            Err(e) => Err(e),
        }
    }
}

} // verus!
