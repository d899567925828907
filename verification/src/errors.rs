use vstd::prelude::*;

verus! {

/// Failures a chat turn can surface to its caller.
///
/// Tier detection has no error variant: an unreadable memory probe falls
/// back to the smallest tier instead of failing startup.
#[derive(Clone, Copy, Debug, PartialEq, Eq, Structural)]
pub enum ChatError {
    /// A model artifact could not be loaded or committed by any provider.
    ModelLoad,
    /// The vocabulary could not encode or decode the given input.
    Tokenization,
    /// A graph run failed: shape mismatch, missing input or output name,
    /// or a backend execution failure.
    Inference,
}

impl ChatError {
    /// A short stable description of the failure.
    pub fn describe(&self) -> (r: &'static str)
        ensures
            self is ModelLoad ==> r@ == "model load failure"@,
            self is Tokenization ==> r@ == "tokenization failure"@,
            self is Inference ==> r@ == "inference failure"@,
    {
        match self {
            ChatError::ModelLoad => "model load failure",
            ChatError::Tokenization => "tokenization failure",
            ChatError::Inference => "inference failure",
        }
    }
}

} // verus!
