//! What can go wrong apart from reading and writing files.

use vstd::prelude::*;

verus! {

/// The failures that the library itself reports.
#[derive(Debug)]
pub enum TriageError {
    /// The hook input is not JSON.
    BadInput(serde_json::Error),
    /// A label was given by hand with no prompt waiting for one.
    NoPending,
    /// A prompt was to be scored before the weights were set up.
    NoWeights,
    /// The embedding model failed on a prompt.
    Embedding(anyhow::Error),
    /// The embedding model gave no vector for a prompt.
    NoEmbedding,
    /// There is nowhere to keep the data.
    NoDataDir,
}

/// A failure as a mathematical value, with its cause where it has one.
pub enum Failure {
    BadInput(serde_json::Error),
    NoPending,
    NoWeights,
    Embedding(anyhow::Error),
    NoEmbedding,
    NoDataDir,
}

impl View for TriageError {
    type V = Failure;

    open spec fn view(&self) -> Failure {
        match self {
            TriageError::BadInput(cause) => Failure::BadInput(*cause),
            TriageError::NoPending => Failure::NoPending,
            TriageError::NoWeights => Failure::NoWeights,
            TriageError::Embedding(cause) => Failure::Embedding(*cause),
            TriageError::NoEmbedding => Failure::NoEmbedding,
            TriageError::NoDataDir => Failure::NoDataDir,
        }
    }
}

/// The message of a failure.
pub open spec fn message_of(failure: Failure) -> Seq<char> {
    match failure {
        Failure::BadInput(_) => "parsing hook input"@,
        Failure::NoPending => "no pending prompt to label"@,
        Failure::NoWeights => "no weights yet: run `triage setup` first"@,
        Failure::Embedding(_) => "embedding the prompt"@,
        Failure::NoEmbedding => "the embedding model returned nothing"@,
        Failure::NoDataDir => "no data directory on this system"@,
    }
}

impl TriageError {
    /// The message to show to the user.
    pub fn message(&self) -> (r: &'static str)
        ensures
            r@ == message_of(self@),
    {
        match self {
            TriageError::BadInput(_) => "parsing hook input",
            TriageError::NoPending => "no pending prompt to label",
            TriageError::NoWeights => "no weights yet: run `triage setup` first",
            TriageError::Embedding(_) => "embedding the prompt",
            TriageError::NoEmbedding => "the embedding model returned nothing",
            TriageError::NoDataDir => "no data directory on this system",
        }
    }
}

/// The messages, each for its failure.
pub proof fn law_messages(e: TriageError, r: &'static str)
    requires
        call_ensures(TriageError::message, (&e,), r),
    ensures
        e is BadInput ==> r@ == "parsing hook input"@,
        e is NoPending ==> r@ == "no pending prompt to label"@,
        e is NoWeights ==> r@ == "no weights yet: run `triage setup` first"@,
        e is Embedding ==> r@ == "embedding the prompt"@,
        e is NoEmbedding ==> r@ == "the embedding model returned nothing"@,
        e is NoDataDir ==> r@ == "no data directory on this system"@,
{
}

/// A failure is named by what it is, and its cause is kept.
pub proof fn law_failures_keep_their_causes(e: TriageError, f: Failure)
    requires
        e@ == f,
    ensures
        e matches TriageError::BadInput(cause) ==> f == Failure::BadInput(cause),
        e is NoPending <==> f is NoPending,
        e is NoWeights <==> f is NoWeights,
        e matches TriageError::Embedding(cause) ==> f == Failure::Embedding(cause),
        e is NoEmbedding <==> f is NoEmbedding,
        e is NoDataDir <==> f is NoDataDir,
{
}

} // verus!
