//! Turns a prompt into a fixed-size vector with a sentence-embedding model that
//! the `fastembed` crate runs locally.
//!
//! The model is never trained here: it is a frozen feature extractor.

use crate::error::Failure;
use crate::error::TriageError;
use crate::single::Single;
use fastembed::TextEmbedding;
use vstd::prelude::*;

verus! {

/// Length of the embedding of a prompt.
pub const DIM: usize = 384;

/// A loaded embedding model.
#[verifier::external_type_specification]
#[verifier::external_body]
pub struct ExTextEmbedding(fastembed::TextEmbedding);

/// An error of the embedding model.
#[verifier::external_type_specification]
#[verifier::external_body]
pub struct ExAnyhowError(anyhow::Error);

/// `TextEmbedding::embed` of `model`, on the batch of the one text `text`, may
/// come out as `outcome`: the vectors, or the error. More than one
/// outcome may be possible for a model and a text.
pub uninterp spec fn may_embed(
    model: TextEmbedding,
    text: Seq<char>,
    outcome: Result<Seq<Seq<Single>>, anyhow::Error>,
) -> bool;

/// A result of the embedding model as a mathematical value.
pub open spec fn outcome_of(result: Result<Vec<Vec<Single>>, anyhow::Error>) -> Result<
    Seq<Seq<Single>>,
    anyhow::Error,
> {
    match result {
        Ok(batch) => Ok(batch@.map_values(|v: Vec<Single>| v@)),
        Err(cause) => Err(cause),
    }
}

/// The vector that is taken out of an outcome for a batch of one text, or the
/// failure: an error of the model is its cause.
pub open spec fn taken_from(outcome: Result<Seq<Seq<Single>>, anyhow::Error>) -> Result<
    Seq<Single>,
    Failure,
> {
    match outcome {
        Ok(batch) => if batch.len() > 0 {
            Ok(batch.last())
        } else {
            Err(Failure::NoEmbedding)
        },
        Err(cause) => Err(Failure::Embedding(cause)),
    }
}

/// Calls `TextEmbedding::embed` on a batch of one text, and keeps the numbers
/// by their bit patterns. The result is one that this model may give for this
/// text. Which vectors those are, how many, and when the call succeeds is left
/// unsaid: it rests on the model's files and on how the machine's runtime
/// evaluates them.
#[verifier::external_body]
fn vectors(model: &mut TextEmbedding, text: &str) -> (r: Result<Vec<Vec<Single>>, anyhow::Error>)
    ensures
        may_embed(*old(model), text@, outcome_of(r)),
{
    let batch = model.embed([text], None)?;
    Ok(batch.iter().map(|v| v.iter().map(|x| Single { bits: x.to_bits() }).collect()).collect())
}

/// Takes the single vector out of the result for a batch of one text: the last
/// one, if there is any.
pub fn single_vector(result: Result<Vec<Vec<Single>>, anyhow::Error>) -> (r: Result<
    Vec<Single>,
    TriageError,
>)
    ensures
        match result {
            Ok(batch) => if batch@.len() > 0 {
                r matches Ok(v) && v@ == batch@.last()@
            } else {
                r matches Err(e) && e@ == Failure::NoEmbedding
            },
            Err(cause) => r matches Err(TriageError::Embedding(e)) && e == cause,
        },
{
    match result {
        Ok(batch) => {
            let mut batch: Vec<Vec<Single>> = batch;
            match batch.pop() {
                Some(v) => Ok(v),
                None => Err(TriageError::NoEmbedding),
            }
        },
        Err(cause) => Err(TriageError::Embedding(cause)),
    }
}

/// A loaded embedding model. Loading takes a noticeable fraction of a second,
/// so each command loads it at most once.
pub struct Embedder {
    pub model: TextEmbedding,
}

impl Embedder {
    /// Embeds one text. The model works on batches, so the text is a batch of
    /// one and the single result is taken back out: what comes back is the
    /// vector, or the failure, of an outcome that the model may give for the
    /// text.
    pub fn embed(&mut self, text: &str) -> (r: Result<Vec<Single>, TriageError>)
        ensures
            exists|outcome: Result<Seq<Seq<Single>>, anyhow::Error>|
                #[trigger] may_embed(old(self).model, text@, outcome) && taken_from(outcome)
                    == match r {
                    Ok(v) => Ok(v@),
                    Err(e) => Err(e@),
                },
    {
        single_vector(vectors(&mut self.model, text))
    }
}

/// The vector is the last of the batch, as it is; an empty batch is a failure, and
/// an error of the model is the cause of one.
pub proof fn law_single_vector(
    result: Result<Vec<Vec<Single>>, anyhow::Error>,
    r: Result<Vec<Single>, TriageError>,
)
    requires
        call_ensures(single_vector, (result,), r),
    ensures
        result matches Ok(batch) ==> batch@.len() > 0 ==> r is Ok && (r->Ok_0)@
            == batch@[batch@.len() - 1]@,
        result matches Ok(batch) ==> batch@.len() == 0 ==> r == Err::<Vec<Single>, TriageError>(
            TriageError::NoEmbedding,
        ),
        result matches Err(cause) ==> r == Err::<Vec<Single>, TriageError>(
            TriageError::Embedding(cause),
        ),
{
}

/// What is taken out of an outcome of the model: of a batch of `n` vectors the
/// one at `n - 1`.
pub proof fn law_taken_from(outcome: Result<Seq<Seq<Single>>, anyhow::Error>)
    ensures
        outcome matches Ok(batch) ==> batch.len() > 0 ==> taken_from(outcome) == Ok::<_, Failure>(
            batch[batch.len() - 1],
        ),
        outcome matches Ok(batch) ==> batch.len() == 0 ==> taken_from(outcome) == Err::<
            Seq<Single>,
            Failure,
        >(Failure::NoEmbedding),
        outcome matches Err(cause) ==> taken_from(outcome) == Err::<Seq<Single>, Failure>(
            Failure::Embedding(cause),
        ),
        DIM == 384,
{
}

/// A batch of vectors is seen vector by vector and number by number.
pub proof fn law_outcome_of(result: Result<Vec<Vec<Single>>, anyhow::Error>)
    ensures
        result matches Ok(batch) ==> {
            &&& outcome_of(result) matches Ok(seen)
            &&& seen.len() == batch@.len()
            &&& forall|i: int| 0 <= i < batch@.len() ==> #[trigger] seen[i] == batch@[i]@
        },
        result matches Err(cause) ==> outcome_of(result) == Err::<Seq<Seq<Single>>, anyhow::Error>(
            cause,
        ),
{
}

/// The vector of a text is taken out of an outcome that the model, as it was, may
/// give for exactly that text: the last vector of the batch, or the failure.
pub proof fn law_embed(e: &mut Embedder, text: &str, r: Result<Vec<Single>, TriageError>)
    requires
        call_ensures(Embedder::embed, (e, text), r),
    ensures
        exists|outcome: Result<Seq<Seq<Single>>, anyhow::Error>|
            {
                &&& #[trigger] may_embed(old(e).model, text@, outcome)
                &&& outcome matches Ok(batch) ==> if batch.len() > 0 {
                    r is Ok && (r->Ok_0)@ == batch[batch.len() - 1]
                } else {
                    r == Err::<Vec<Single>, TriageError>(TriageError::NoEmbedding)
                }
                &&& outcome matches Err(cause) ==> r == Err::<Vec<Single>, TriageError>(
                    TriageError::Embedding(cause),
                )
            },
{
}

} // verus!
