use vstd::prelude::*;
use vstd::string::*;
use crate::errors::ChatError;
use crate::tokenizer::TokenizerAdapter;

verus! {

/// First index of the maximum among the first `upto` keys: a later key
/// displaces the running best only when strictly greater.
pub open spec fn argmax_upto(keys: Seq<i64>, upto: int) -> int
    decreases upto,
{
    if upto <= 1 {
        0
    } else {
        let prev = argmax_upto(keys, upto - 1);
        if keys[upto - 1] > keys[prev] {
            upto - 1
        } else {
            prev
        }
    }
}

/// Greedy selection over a whole key row: the first-seen maximum.
pub open spec fn argmax_first(keys: Seq<i64>) -> int {
    argmax_upto(keys, keys.len() as int)
}

/// Greedy selection is sound: the pick is a valid index carrying the
/// maximal key, and every earlier index carries a strictly smaller key
/// (ties are broken by the first-seen maximum).
pub proof fn lemma_argmax_first_char(keys: Seq<i64>, upto: int)
    requires
        1 <= upto <= keys.len(),
    ensures
        0 <= argmax_upto(keys, upto) < upto,
        forall|j: int| 0 <= j < upto ==> #[trigger] keys[j] <= keys[argmax_upto(keys, upto)],
        forall|j: int|
            0 <= j < argmax_upto(keys, upto) ==> #[trigger] keys[j] < keys[argmax_upto(
                keys,
                upto,
            )],
    decreases upto,
{
    if upto > 1 {
        lemma_argmax_first_char(keys, upto - 1);
    }
}

/// Index of the greatest key, scanning left to right and keeping the
/// earliest maximum.
pub fn argmax(keys: &Vec<i64>) -> (idx: usize)
    requires
        keys@.len() > 0,
    ensures
        idx == argmax_first(keys@),
        idx < keys@.len(),
{
    let mut best: usize = 0;
    let mut j: usize = 1;
    while j < keys.len()
        invariant
            1 <= j <= keys@.len(),
            best == argmax_upto(keys@, j as int),
            best < j,
        decreases keys@.len() - j,
    {
        if keys[j] > keys[best] {
            best = j;
        }
        j = j + 1;
    }
    best
}

/// A generated text ends in a newline.
pub open spec fn ends_newline(s: Seq<char>) -> bool {
    s.len() > 0 && s.last() == '\n'
}

fn str_ends_newline(s: &str) -> (r: bool)
    ensures
        r == ends_newline(s@),
{
    let n = s.unicode_len();
    if n == 0 {
        false
    } else {
        s.get_char(n - 1) == '\n'
    }
}

/// The autoregressive decoding loop as a state machine.
///
/// The caller runs the chat graph on `tokens`, reduces the final
/// position's logits to order keys, and feeds them to [`Generator::on_logits`];
/// a selected non-stop token is decoded outside and handed back through
/// [`Generator::on_decoded`]. The loop is over when [`Generator::running`]
/// turns false: on the end-of-sequence id, on a generated newline, or
/// when the `max_tokens` budget is spent — the budget is a normal end,
/// not an error.
pub struct Generator {
    /// The full token sequence resubmitted to the graph each step.
    pub tokens: Vec<u32>,
    /// Text decoded so far, in generation order.
    pub text: String,
    /// Stop-token id.
    pub eos_id: u32,
    /// Step budget.
    pub max_tokens: usize,
    /// Completed decode steps.
    pub steps: usize,
    /// Stopped early: end-of-sequence seen, trailing newline generated,
    /// or a decode failure abandoned the run.
    pub stopped: bool,
    /// A token was selected and awaits its decoded text.
    pub pending: bool,
}

impl Generator {
    pub open spec fn wf(self) -> bool {
        &&& self.steps <= self.max_tokens
        &&& self.pending ==> !self.stopped && self.steps < self.max_tokens
    }

    /// Whether another step may run: not stopped and budget left.
    pub open spec fn spec_running(self) -> bool {
        !self.stopped && self.steps < self.max_tokens
    }

    /// A fresh loop seeded with an already tokenized prompt.
    pub fn new(prompt_tokens: Vec<u32>, max_tokens: usize, eos_id: u32) -> (g: Generator)
        ensures
            g.tokens@ == prompt_tokens@,
            g.text@ == Seq::<char>::empty(),
            g.eos_id == eos_id,
            g.max_tokens == max_tokens,
            g.steps == 0,
            !g.stopped,
            !g.pending,
            g.wf(),
    {
        Generator {
            tokens: prompt_tokens,
            text: String::new(),
            eos_id,
            max_tokens,
            steps: 0,
            stopped: false,
            pending: false,
        }
    }

    /// A fresh loop seeded by tokenizing the prompt and looking the
    /// stop token up.
    pub fn from_prompt(tok: &TokenizerAdapter, prompt: &str, max_tokens: usize) -> (r: Result<
        Generator,
        ChatError,
    >)
        ensures
            match r {
                Ok(g) => {
                    &&& g.text@ == Seq::<char>::empty()
                    &&& g.max_tokens == max_tokens
                    &&& g.steps == 0
                    &&& !g.stopped
                    &&& !g.pending
                    &&& g.wf()
                },
                Err(e) => e == ChatError::Tokenization,
            },
    {
        match tok.encode_ids(prompt) {
            Ok(ids) => Ok(Generator::new(ids, max_tokens, tok.eos_id())),
            Err(e) => Err(e),
        }
    }

    /// Whether another step may run.
    pub fn running(&self) -> (r: bool)
        ensures
            r == self.spec_running(),
    {
        !self.stopped && self.steps < self.max_tokens
    }

    /// Consumes one graph run: selects the next token greedily from the
    /// final position's logit order keys. The end-of-sequence id stops
    /// the loop without being appended; any other id is appended to the
    /// token sequence and returned for decoding.
    pub fn on_logits(&mut self, keys: &Vec<i64>) -> (r: Option<u32>)
        requires
            old(self).wf(),
            !old(self).stopped,
            !old(self).pending,
            old(self).steps < old(self).max_tokens,
            keys@.len() > 0,
            keys@.len() <= 0x100000000,
        ensures
            final(self).wf(),
            final(self).eos_id == old(self).eos_id,
            final(self).max_tokens == old(self).max_tokens,
            final(self).steps == old(self).steps,
            final(self).text == old(self).text,
            ({
                let a = argmax_first(keys@);
                if a as u32 == old(self).eos_id {
                    &&& r is None
                    &&& final(self).stopped
                    &&& !final(self).pending
                    &&& final(self).tokens == old(self).tokens
                } else {
                    &&& r == Some(a as u32)
                    &&& !final(self).stopped
                    &&& final(self).pending
                    &&& final(self).tokens@ == old(self).tokens@.push(a as u32)
                }
            }),
    {
        let idx = argmax(keys);
        let id = idx as u32;
        if id == self.eos_id {
            self.stopped = true;
            None
        } else {
            self.tokens.push(id);
            self.pending = true;
            Some(id)
        }
    }

    /// Consumes the decoded text of the last selected token: appends it
    /// to the output and stops the loop when the text now ends in a
    /// newline (the heuristic stop condition).
    pub fn on_decoded(&mut self, piece: &str)
        requires
            old(self).wf(),
            old(self).pending,
        ensures
            final(self).wf(),
            final(self).eos_id == old(self).eos_id,
            final(self).max_tokens == old(self).max_tokens,
            final(self).tokens == old(self).tokens,
            !final(self).pending,
            final(self).steps == old(self).steps + 1,
            final(self).text@ == old(self).text@ + piece@,
            final(self).stopped == ends_newline(old(self).text@ + piece@),
    {
        self.text.append(piece);
        self.steps = self.steps + 1;
        self.pending = false;
        if str_ends_newline(self.text.as_str()) {
            self.stopped = true;
        }
    }

    /// One full decode step: greedy selection, then decoding of the one
    /// new token. A decode failure abandons the run: the loop reports
    /// stopped and the turn surfaces the error.
    pub fn advance(&mut self, tok: &TokenizerAdapter, keys: &Vec<i64>) -> (r: Result<
        (),
        ChatError,
    >)
        requires
            old(self).wf(),
            !old(self).stopped,
            !old(self).pending,
            old(self).steps < old(self).max_tokens,
            keys@.len() > 0,
            keys@.len() <= 0x100000000,
        ensures
            final(self).wf(),
            !final(self).pending,
            final(self).eos_id == old(self).eos_id,
            final(self).max_tokens == old(self).max_tokens,
            match r {
                Ok(u) => ({
                    let a = argmax_first(keys@);
                    if a as u32 == old(self).eos_id {
                        &&& final(self).stopped
                        &&& final(self).tokens == old(self).tokens
                        &&& final(self).text == old(self).text
                        &&& final(self).steps == old(self).steps
                    } else {
                        &&& final(self).tokens@ == old(self).tokens@.push(a as u32)
                        &&& final(self).steps == old(self).steps + 1
                        &&& (exists|p: Seq<char>| final(self).text@ == old(self).text@ + p)
                        &&& final(self).stopped == ends_newline(final(self).text@)
                    }
                }),
                Err(e) => e == ChatError::Tokenization && final(self).stopped,
            },
    {
        match self.on_logits(keys) {
            None => Ok(()),
            Some(id) => {
                match tok.decode_one(id) {
                    Ok(piece) => {
                        self.on_decoded(piece.as_str());
                        proof {
                            assert(final(self).text@ == old(self).text@ + piece@);
                        }
                        Ok(())
                    },
                    Err(e) => {
                        self.pending = false;
                        self.stopped = true;
                        Err(e)
                    },
                }
            },
        }
    }
}

} // verus!
