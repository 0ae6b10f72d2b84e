//! The commands, one step at a time.
//!
//! A command is a conversation with the outside: the library names the next
//! thing to do (an `Action`), the caller does it and hands back what came of it
//! (an `Event`). Which action follows which event is decided here.

use crate::embed::DIM;
use crate::error::Failure;
use crate::error::TriageError;
use crate::id::hex_id;
use crate::id::random_number;
use crate::json::member;
use crate::json::parse;
use crate::json::parsed_members;
use crate::json::text_member;
use crate::model::Weights;
use crate::prompt::label_name;
use crate::prompt::request;
use crate::prompt::verdict;
use crate::prompt::Request;
use crate::protocol::embeddings_of;
use crate::protocol::example_views;
use crate::protocol::examples_of;
use crate::protocol::hook_begins;
use crate::protocol::label_begins;
use crate::protocol::labeled;
use crate::protocol::long_prediction;
use crate::protocol::next;
use crate::protocol::pair_view;
use crate::protocol::prediction_of;
use crate::protocol::score_begins;
use crate::protocol::setup_begins;
use crate::protocol::stats_begin;
use crate::protocol::vector_views;
use crate::report::has_both_classes;
use crate::report::report;
use crate::report::Report;
use crate::report::Stats;
use crate::single::Single;
use crate::store::row_views;
use crate::store::Row;
use crate::store::Scored;
use vstd::prelude::*;
use vstd::slice::slice_to_vec;

verus! {

/// An embedding with its label, as the classifier is fitted to it.
#[derive(Debug)]
pub struct Example {
    pub embedding: Vec<Single>,
    pub label: bool,
}

/// What is told about a prompt that was submitted.
#[derive(Debug)]
pub struct Prediction {
    /// The printed verdict.
    pub verdict: &'static str,
    /// The probability of "trivial".
    pub p: Single,
    /// That probability in hundredths, where it is one.
    pub hundredths: Option<u64>,
    /// The length of the prompt.
    pub chars: usize,
    /// The prompt was too long to be scored.
    pub long: bool,
}

/// What a command prints.
#[derive(Debug)]
pub enum Output {
    /// The setup is done.
    Ready,
    /// The pending prompt was dropped.
    Cancelled,
    /// A prompt was scored, or was too long for it.
    Predicted(Prediction),
    /// The pending prompt got its label from a reply, and is handed back.
    Labeled { label: &'static str, report: Report, prompt: String },
    /// The pending prompt got its label by hand.
    LabeledByHand { label: &'static str, report: Report },
    /// A text was scored by hand.
    Judged { verdict: &'static str, p: Single },
    /// The statistics.
    Stats(Stats),
}

/// The next thing to do.
#[derive(Debug)]
pub enum Action {
    LoadModel { show_progress: bool },
    ReadWeights,
    DrawWeights { dim: usize },
    WriteWeights(Weights),
    ReadPending,
    ClearPending,
    WritePending(Scored),
    AppendRow(Row),
    ReadDataset,
    Train { examples: Vec<Example>, dim: usize },
    Embed(String),
    ReadClock,
    Predict { weights: Weights, embedding: Vec<Single> },
    Rescore { weights: Weights, embeddings: Vec<Vec<Single>> },
    /// Print this, if anything, and stop.
    Finish(Option<Output>),
    /// Stop with this failure.
    Fail(TriageError),
}

/// What came of an action.
#[derive(Debug)]
pub enum Event {
    /// The model is loaded.
    Loaded,
    /// The weights on disk, if there are any.
    Weights(Option<Weights>),
    /// Weights drawn at random.
    Drawn(Weights),
    /// Something was written, appended or removed.
    Done,
    /// The prompt that waits for its label, if there is one.
    Pending(Option<Scored>),
    /// All labeled rows, oldest first.
    Dataset(Vec<Row>),
    /// Weights fitted to the examples.
    Trained(Weights),
    /// The vector of a text, or why there is none.
    Embedded(Result<Vec<Single>, TriageError>),
    /// Seconds since the epoch.
    Clock(u64),
    /// The probability of "trivial".
    Probability(Single),
    /// The probability of each row.
    Rescored(Vec<Single>),
}

/// Where a label comes from.
#[derive(Clone, Copy, Debug, PartialEq, Eq, Structural)]
pub enum Source {
    /// A reply to the hook.
    Reply,
    /// The command line.
    Hand,
}

/// What a score is for.
#[derive(Clone, Copy, Debug, PartialEq, Eq, Structural)]
pub enum Purpose {
    /// To be kept pending: the prompt has this many characters.
    Keep { chars: usize },
    /// To be shown.
    Show,
}

/// How far a command has come: what it waits for, and what it knows.
#[derive(Debug)]
pub enum State {
    SetupLoading,
    SetupChecking,
    SetupDrawing,
    SetupSaving,
    CancelLooking,
    CancelClearing,
    LabelLooking { trivial: bool, source: Source },
    LabelClearing { trivial: bool, source: Source, pending: Scored },
    LabelAppending { trivial: bool, source: Source, prompt: String },
    LabelReading { trivial: bool, source: Source, prompt: String },
    LabelFitting { trivial: bool, source: Source, prompt: String, report: Report },
    LabelSaving { trivial: bool, source: Source, prompt: String, report: Report },
    ScoreWeighing { purpose: Purpose, text: String },
    ScoreLoading { purpose: Purpose, text: String, weights: Weights },
    ScoreEmbedding { purpose: Purpose, text: String, weights: Weights },
    ScoreTiming { purpose: Purpose, text: String, weights: Weights, embedding: Vec<Single> },
    ScorePredicting { purpose: Purpose, text: String, id: String, ts: u64, embedding: Vec<Single> },
    ScoreSaving { output: Output },
    StatsReading,
    StatsWeighing { rows: Vec<Row> },
    StatsRescoring { rows: Vec<Row> },
    Finished,
}

/// Collects the embeddings of the rows with their labels.
fn examples(rows: &Vec<Row>) -> (r: Vec<Example>)
    ensures
        example_views(r@) == examples_of(row_views(rows@)),
{
    let ghost all = examples_of(row_views(rows@));
    let mut found: Vec<Example> = Vec::new();
    let mut i: usize = 0;
    while i < rows.len()
        invariant
            i <= rows@.len(),
            all == examples_of(row_views(rows@)),
            example_views(found@) == all.take(i as int),
        decreases rows@.len() - i,
    {
        let ghost before = found@;
        let example = Example {
            embedding: slice_to_vec(rows[i].scored.embedding.as_slice()),
            label: rows[i].label,
        };
        let ghost added = example@;
        found.push(example);
        proof {
            assert(example_views(found@) =~= example_views(before).push(added));
            assert(added == all[i as int]);
            assert(example_views(found@) =~= all.take(i + 1));
        }
        i = i + 1;
    }
    assert(all.take(i as int) =~= all);
    found
}

/// Collects the embeddings of the rows.
fn embeddings(rows: &Vec<Row>) -> (r: Vec<Vec<Single>>)
    ensures
        vector_views(r@) == embeddings_of(row_views(rows@)),
{
    let ghost all = embeddings_of(row_views(rows@));
    let mut found: Vec<Vec<Single>> = Vec::new();
    let mut i: usize = 0;
    while i < rows.len()
        invariant
            i <= rows@.len(),
            all == embeddings_of(row_views(rows@)),
            vector_views(found@) == all.take(i as int),
        decreases rows@.len() - i,
    {
        let ghost before = found@;
        let vector: Vec<Single> = slice_to_vec(rows[i].scored.embedding.as_slice());
        let ghost added = vector@;
        found.push(vector);
        proof {
            assert(vector_views(found@) =~= vector_views(before).push(added));
            assert(added == all[i as int]);
            assert(vector_views(found@) =~= all.take(i + 1));
        }
        i = i + 1;
    }
    assert(all.take(i as int) =~= all);
    found
}

/// What is told about a scored prompt.
pub fn prediction(p: Single, chars: usize) -> (r: Prediction)
    ensures
        r@ == prediction_of(p, chars),
{
    Prediction { verdict: verdict(p), p, hundredths: p.hundredths(), chars, long: false }
}

/// What is told about a prompt that is too long to be scored.
pub fn too_long(chars: usize) -> (r: Prediction)
    ensures
        r@ == long_prediction(chars),
{
    Prediction {
        verdict: label_name(false),
        p: Single::zero(),
        hundredths: Some(0),
        chars,
        long: true,
    }
}

/// What is printed after a label.
fn labeled_output(trivial: bool, source: Source, prompt: String, report: Report) -> (r: Output)
    ensures
        r@ == labeled(trivial, source, prompt@, report@),
{
    match source {
        Source::Reply => Output::Labeled { label: label_name(trivial), report, prompt },
        Source::Hand => Output::LabeledByHand { label: label_name(trivial), report },
    }
}

/// Downloads the model and writes random weights if there are none yet, so
/// that the hook never has to do either.
pub fn setup() -> (r: (State, Action))
    ensures
        pair_view(r) == setup_begins(),
{
    (State::SetupLoading, Action::LoadModel { show_progress: true })
}

/// Handles one submitted prompt, given as the JSON input of the hook.
pub fn hook(input: &str) -> (r: Result<(State, Action), TriageError>)
    ensures
        match parsed_members(input@) {
            Ok(members) => r matches Ok(pair) && pair_view(pair) == hook_begins(
                member(members, "prompt"@),
            ),
            Err(cause) => r matches Err(e) && e@ == Failure::BadInput(cause),
        },
{
    match parse(input) {
        Ok(value) => {
            let field: Option<String> = text_member(&value, "prompt");
            Ok(hook_prompt(field))
        },
        Err(e) => Err(TriageError::BadInput(e)),
    }
}

/// Handles one submitted prompt, given as the prompt field of the hook's
/// input. An empty prompt or a slash command passes through untouched; a label
/// reply labels the pending prompt; a cancel reply drops it; a long prompt is
/// reported and not kept; any other prompt is scored and kept pending.
pub fn hook_prompt(field: Option<String>) -> (r: (State, Action))
    ensures
        pair_view(r) == hook_begins(
            match field {
                Some(s) => Some(s@),
                None => None,
            },
        ),
{
    let text: String = match field {
        Some(s) => s,
        None => return (State::Finished, Action::Finish(None)),
    };
    let prompt: &str = text.as_str().trim();
    match request(prompt) {
        Request::Pass => (State::Finished, Action::Finish(None)),
        Request::Cancel => (State::CancelLooking, Action::ReadPending),
        Request::Label { trivial } => {
            (State::LabelLooking { trivial, source: Source::Reply }, Action::ReadPending)
        },
        Request::Long { chars } => {
            (State::Finished, Action::Finish(Some(Output::Predicted(too_long(chars)))))
        },
        Request::Score { chars } => (
            State::ScoreWeighing { purpose: Purpose::Keep { chars }, text: prompt.to_owned() },
            Action::ReadWeights,
        ),
    }
}

/// Attaches the label to the pending prompt by hand (the hook normally does).
pub fn label_pending(trivial: bool) -> (r: (State, Action))
    ensures
        pair_view(r) == label_begins(trivial),
{
    (State::LabelLooking { trivial, source: Source::Hand }, Action::ReadPending)
}

/// Scores a text and shows the verdict, for trying the model by hand.
pub fn predict(text: &str) -> (r: (State, Action))
    ensures
        pair_view(r) == score_begins(Purpose::Show, text@),
{
    (State::ScoreWeighing { purpose: Purpose::Show, text: text.to_owned() }, Action::ReadWeights)
}

/// Shows the dataset size, how many rows are trivial, and the rates overall
/// and over the most recent rows, from the probability each prompt got when it
/// arrived; and the rates of the current weights on all rows.
pub fn stats() -> (r: (State, Action))
    ensures
        pair_view(r) == stats_begin(),
{
    (State::StatsReading, Action::ReadDataset)
}

/// What follows when `event` happens in `state`, with a random identifier for
/// a prompt that is scored here; `None` if the state does not wait for such an
/// event.
pub fn step(state: State, event: Event) -> (r: Option<(State, Action)>)
    ensures
        exists|id: u64|
            match r {
                Some(pair) => #[trigger] next(state@, event@, id) == Some(pair_view(pair)),
                None => next(state@, event@, id) is None,
            },
{
    let id: u64 = match state {
        State::ScoreTiming { .. } => random_number(),
        _ => 0,
    };
    step_with(state, event, id)
}

/// What follows when `event` happens in `state`, where a prompt that is scored
/// here gets the identifier of the number `id`.
pub fn step_with(state: State, event: Event, id: u64) -> (r: Option<(State, Action)>)
    ensures
        match r {
            Some(pair) => next(state@, event@, id) == Some(pair_view(pair)),
            None => next(state@, event@, id) is None,
        },
{
    match (state, event) {
        (State::SetupLoading, Event::Loaded) => Some((State::SetupChecking, Action::ReadWeights)),
        (State::SetupChecking, Event::Weights(weights)) => {
            if weights.is_some() {
                Some((State::Finished, Action::Finish(Some(Output::Ready))))
            } else {
                Some((State::SetupDrawing, Action::DrawWeights { dim: DIM }))
            }
        },
        (State::SetupDrawing, Event::Drawn(weights)) => {
            Some((State::SetupSaving, Action::WriteWeights(weights)))
        },
        (State::SetupSaving, Event::Done) => {
            Some((State::Finished, Action::Finish(Some(Output::Ready))))
        },
        (State::CancelLooking, Event::Pending(pending)) => {
            if pending.is_some() {
                Some((State::CancelClearing, Action::ClearPending))
            } else {
                Some((State::Finished, Action::Finish(None)))
            }
        },
        (State::CancelClearing, Event::Done) => {
            Some((State::Finished, Action::Finish(Some(Output::Cancelled))))
        },
        (State::LabelLooking { trivial, source }, Event::Pending(found)) => match found {
            Some(pending) => {
                Some((State::LabelClearing { trivial, source, pending }, Action::ClearPending))
            },
            None => match source {
                Source::Reply => Some((State::Finished, Action::Finish(None))),
                Source::Hand => Some((State::Finished, Action::Fail(TriageError::NoPending))),
            },
        },
        (State::LabelClearing { trivial, source, pending }, Event::Done) => {
            let prompt: String = pending.prompt.clone();
            Some(
                (
                    State::LabelAppending { trivial, source, prompt },
                    Action::AppendRow(Row { scored: pending, label: trivial }),
                ),
            )
        },
        (State::LabelAppending { trivial, source, prompt }, Event::Done) => {
            Some((State::LabelReading { trivial, source, prompt }, Action::ReadDataset))
        },
        (State::LabelReading { trivial, source, prompt }, Event::Dataset(rows)) => {
            let told: Report = report(&rows);
            if has_both_classes(&rows) {
                Some(
                    (
                        State::LabelFitting { trivial, source, prompt, report: told },
                        Action::Train { examples: examples(&rows), dim: DIM },
                    ),
                )
            } else {
                let output: Output = labeled_output(trivial, source, prompt, told);
                Some((State::Finished, Action::Finish(Some(output))))
            }
        },
        (State::LabelFitting { trivial, source, prompt, report }, Event::Trained(weights)) => Some(
            (
                State::LabelSaving { trivial, source, prompt, report },
                Action::WriteWeights(weights),
            ),
        ),
        (State::LabelSaving { trivial, source, prompt, report }, Event::Done) => {
            let output: Output = labeled_output(trivial, source, prompt, report);
            Some((State::Finished, Action::Finish(Some(output))))
        },
        (State::ScoreWeighing { purpose, text }, Event::Weights(found)) => match found {
            Some(weights) => Some(
                (
                    State::ScoreLoading { purpose, text, weights },
                    Action::LoadModel { show_progress: false },
                ),
            ),
            None => Some((State::Finished, Action::Fail(TriageError::NoWeights))),
        },
        (State::ScoreLoading { purpose, text, weights }, Event::Loaded) => {
            let asked: String = text.clone();
            Some((State::ScoreEmbedding { purpose, text, weights }, Action::Embed(asked)))
        },
        (State::ScoreEmbedding { purpose, text, weights }, Event::Embedded(result)) => match result {
            Ok(embedding) => Some(
                (State::ScoreTiming { purpose, text, weights, embedding }, Action::ReadClock),
            ),
            Err(e) => Some((State::Finished, Action::Fail(e))),
        },
        (State::ScoreTiming { purpose, text, weights, embedding }, Event::Clock(ts)) => {
            let asked: Vec<Single> = slice_to_vec(embedding.as_slice());
            Some(
                (
                    State::ScorePredicting { purpose, text, id: hex_id(id), ts, embedding },
                    Action::Predict { weights, embedding: asked },
                ),
            )
        },
        (
            State::ScorePredicting { purpose, text, id, ts, embedding },
            Event::Probability(p),
        ) => match purpose {
            Purpose::Keep { chars } => Some(
                (
                    State::ScoreSaving { output: Output::Predicted(prediction(p, chars)) },
                    Action::WritePending(Scored { id, ts, prompt: text, embedding, p }),
                ),
            ),
            Purpose::Show => Some(
                (
                    State::Finished,
                    Action::Finish(Some(Output::Judged { verdict: verdict(p), p })),
                ),
            ),
        },
        (State::ScoreSaving { output }, Event::Done) => {
            Some((State::Finished, Action::Finish(Some(output))))
        },
        (State::StatsReading, Event::Dataset(rows)) => {
            Some((State::StatsWeighing { rows }, Action::ReadWeights))
        },
        (State::StatsWeighing { rows }, Event::Weights(found)) => match found {
            Some(weights) => {
                let all: Vec<Vec<Single>> = embeddings(&rows);
                Some(
                    (
                        State::StatsRescoring { rows },
                        Action::Rescore { weights, embeddings: all },
                    ),
                )
            },
            None => Some((State::Finished, Action::Fail(TriageError::NoWeights))),
        },
        (State::StatsRescoring { rows }, Event::Rescored(scores)) => {
            if scores.len() == rows.len() {
                let told: Stats = crate::report::stats(&rows, &scores);
                Some((State::Finished, Action::Finish(Some(Output::Stats(told)))))
            } else {
                None
            }
        },
        _ => None,
    }
}

} // verus!
