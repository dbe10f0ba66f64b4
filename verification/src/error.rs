//! What can go wrong with the engine.

use vstd::prelude::*;

verus! {

/// What went wrong with the engine, with the words of whoever reported it.
#[derive(Clone, Debug, PartialEq, Eq)]
pub enum EngineError {
    /// There is no connection to the engine.
    Transport(String),
    /// The engine refused a call.
    Status(String),
    /// The engine's program was not found.
    MissingBinary,
    /// The engine did not answer in time after it was started.
    StartupTimeout,
    /// A file or process operation failed.
    Io(String),
    /// The operating system does not say where the application's files are.
    Path(String),
}

/// What the user is told of an error.
pub open spec fn error_message(error: EngineError) -> Seq<char> {
    match error {
        EngineError::Transport(words) => "failed to connect to rag-engine: "@ + words@,
        EngineError::Status(words) => "rag-engine gRPC error: "@ + words@,
        EngineError::MissingBinary => "rag-engine sidecar binary was not found"@,
        EngineError::StartupTimeout => "rag-engine startup timed out"@,
        EngineError::Io(words) => "engine I/O failed: "@ + words@,
        EngineError::Path(words) => "failed to resolve app path: "@ + words@,
    }
}

fn prefixed(prefix: &str, words: &str) -> (res: String)
    ensures
        res@ == prefix@ + words@,
{
    let mut res = prefix.to_owned();
    res.append(words);
    res
}

impl EngineError {
    /// What the user is told of the error.
    pub fn message(&self) -> (res: String)
        ensures
            res@ == error_message(*self),
    {
        match self {
            EngineError::Transport(words) => prefixed(
                "failed to connect to rag-engine: ",
                words.as_str(),
            ),
            EngineError::Status(words) => prefixed("rag-engine gRPC error: ", words.as_str()),
            EngineError::MissingBinary => "rag-engine sidecar binary was not found".to_owned(),
            EngineError::StartupTimeout => "rag-engine startup timed out".to_owned(),
            EngineError::Io(words) => prefixed("engine I/O failed: ", words.as_str()),
            EngineError::Path(words) => prefixed("failed to resolve app path: ", words.as_str()),
        }
    }
}

/// The user is told what failed, and behind a colon the words of whoever
/// reported it, all of them; a missing program and a timeout have no more words.
pub proof fn law_messages_end_in_the_reported_words(words: String)
    ensures
        error_message(EngineError::Transport(words)) == "failed to connect to rag-engine: "@
            + words@,
        error_message(EngineError::Status(words)) == "rag-engine gRPC error: "@ + words@,
        error_message(EngineError::Io(words)) == "engine I/O failed: "@ + words@,
        error_message(EngineError::Path(words)) == "failed to resolve app path: "@ + words@,
        error_message(EngineError::MissingBinary) == "rag-engine sidecar binary was not found"@,
        error_message(EngineError::StartupTimeout) == "rag-engine startup timed out"@,
{
}

/// The library tells a refused call and its words like this.
pub proof fn law_refusals_are_told_in_full(words: String, message: String)
    requires
        call_ensures(EngineError::message, (&EngineError::Status(words),), message),
    ensures
        message@ == "rag-engine gRPC error: "@ + words@,
{
}

} // verus!
