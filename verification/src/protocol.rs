//! The commands as mathematics: which action follows which event.

use crate::embed::DIM;
use crate::error::Failure;
use crate::id::hex;
use crate::model::WeightsView;
use crate::prompt::name_of;
use crate::prompt::request_in;
use crate::prompt::Request;
use crate::report::both_classes;
use crate::report::report_of;
use crate::report::stats_of;
use crate::report::ReportView;
use crate::report::StatsView;
use crate::session::Action;
use crate::session::Event;
use crate::session::Example;
use crate::session::Output;
use crate::session::Prediction;
use crate::session::Purpose;
use crate::session::Source;
use crate::session::State;
use crate::single::Single;
use crate::store::row_views;
use crate::store::RowView;
use crate::store::ScoredView;
use crate::text::trimmed;
use vstd::prelude::*;

verus! {

/// An example as mathematical values.
#[verifier::ext_equal]
pub struct ExampleView {
    pub embedding: Seq<Single>,
    pub label: bool,
}

impl View for Example {
    type V = ExampleView;

    open spec fn view(&self) -> ExampleView {
        ExampleView { embedding: self.embedding@, label: self.label }
    }
}

/// A prediction as mathematical values.
#[verifier::ext_equal]
pub struct PredictionView {
    pub verdict: Seq<char>,
    pub p: Single,
    pub hundredths: Option<int>,
    pub chars: usize,
    pub long: bool,
}

impl View for Prediction {
    type V = PredictionView;

    open spec fn view(&self) -> PredictionView {
        PredictionView {
            verdict: self.verdict@,
            p: self.p,
            hundredths: match self.hundredths {
                Some(k) => Some(k as int),
                None => None,
            },
            chars: self.chars,
            long: self.long,
        }
    }
}

/// An output as mathematical values.
#[verifier::ext_equal]
pub enum OutputView {
    Ready,
    Cancelled,
    Predicted(PredictionView),
    Labeled { label: Seq<char>, report: ReportView, prompt: Seq<char> },
    LabeledByHand { label: Seq<char>, report: ReportView },
    Judged { verdict: Seq<char>, p: Single },
    Stats(StatsView),
}

impl View for Output {
    type V = OutputView;

    open spec fn view(&self) -> OutputView {
        match self {
            Output::Ready => OutputView::Ready,
            Output::Cancelled => OutputView::Cancelled,
            Output::Predicted(prediction) => OutputView::Predicted(prediction@),
            Output::Labeled { label, report, prompt } => OutputView::Labeled {
                label: label@,
                report: report@,
                prompt: prompt@,
            },
            Output::LabeledByHand { label, report } => OutputView::LabeledByHand {
                label: label@,
                report: report@,
            },
            Output::Judged { verdict, p } => OutputView::Judged { verdict: verdict@, p: *p },
            Output::Stats(stats) => OutputView::Stats(stats@),
        }
    }
}

/// Vectors of numbers as mathematical values.
pub open spec fn vector_views(vectors: Seq<Vec<Single>>) -> Seq<Seq<Single>> {
    vectors.map_values(|v: Vec<Single>| v@)
}

/// Examples as mathematical values.
pub open spec fn example_views(examples: Seq<Example>) -> Seq<ExampleView> {
    examples.map_values(|e: Example| e@)
}

/// An action as mathematical values.
#[verifier::ext_equal]
pub enum ActionView {
    LoadModel { show_progress: bool },
    ReadWeights,
    DrawWeights { dim: usize },
    WriteWeights(WeightsView),
    ReadPending,
    ClearPending,
    WritePending(ScoredView),
    AppendRow(RowView),
    ReadDataset,
    Train { examples: Seq<ExampleView>, dim: usize },
    Embed(Seq<char>),
    ReadClock,
    Predict { weights: WeightsView, embedding: Seq<Single> },
    Rescore { weights: WeightsView, embeddings: Seq<Seq<Single>> },
    Finish(Option<OutputView>),
    Fail(Failure),
}

impl View for Action {
    type V = ActionView;

    open spec fn view(&self) -> ActionView {
        match self {
            Action::LoadModel { show_progress } => ActionView::LoadModel {
                show_progress: *show_progress,
            },
            Action::ReadWeights => ActionView::ReadWeights,
            Action::DrawWeights { dim } => ActionView::DrawWeights { dim: *dim },
            Action::WriteWeights(weights) => ActionView::WriteWeights(weights@),
            Action::ReadPending => ActionView::ReadPending,
            Action::ClearPending => ActionView::ClearPending,
            Action::WritePending(scored) => ActionView::WritePending(scored@),
            Action::AppendRow(row) => ActionView::AppendRow(row@),
            Action::ReadDataset => ActionView::ReadDataset,
            Action::Train { examples, dim } => ActionView::Train {
                examples: example_views(examples@),
                dim: *dim,
            },
            Action::Embed(text) => ActionView::Embed(text@),
            Action::ReadClock => ActionView::ReadClock,
            Action::Predict { weights, embedding } => ActionView::Predict {
                weights: weights@,
                embedding: embedding@,
            },
            Action::Rescore { weights, embeddings } => ActionView::Rescore {
                weights: weights@,
                embeddings: vector_views(embeddings@),
            },
            Action::Finish(output) => ActionView::Finish(
                match output {
                    Some(o) => Some(o@),
                    None => None,
                },
            ),
            Action::Fail(e) => ActionView::Fail(e@),
        }
    }
}

/// An event as mathematical values.
#[verifier::ext_equal]
pub enum EventView {
    Loaded,
    Weights(Option<WeightsView>),
    Drawn(WeightsView),
    Done,
    Pending(Option<ScoredView>),
    Dataset(Seq<RowView>),
    Trained(WeightsView),
    Embedded(Result<Seq<Single>, Failure>),
    Clock(u64),
    Probability(Single),
    Rescored(Seq<Single>),
}

impl View for Event {
    type V = EventView;

    open spec fn view(&self) -> EventView {
        match self {
            Event::Loaded => EventView::Loaded,
            Event::Weights(weights) => EventView::Weights(
                match weights {
                    Some(w) => Some(w@),
                    None => None,
                },
            ),
            Event::Drawn(weights) => EventView::Drawn(weights@),
            Event::Done => EventView::Done,
            Event::Pending(pending) => EventView::Pending(
                match pending {
                    Some(s) => Some(s@),
                    None => None,
                },
            ),
            Event::Dataset(rows) => EventView::Dataset(row_views(rows@)),
            Event::Trained(weights) => EventView::Trained(weights@),
            Event::Embedded(result) => EventView::Embedded(
                match result {
                    Ok(v) => Ok(v@),
                    Err(e) => Err(e@),
                },
            ),
            Event::Clock(ts) => EventView::Clock(*ts),
            Event::Probability(p) => EventView::Probability(*p),
            Event::Rescored(scores) => EventView::Rescored(scores@),
        }
    }
}

/// A state as mathematical values.
#[verifier::ext_equal]
pub enum StateView {
    SetupLoading,
    SetupChecking,
    SetupDrawing,
    SetupSaving,
    CancelLooking,
    CancelClearing,
    LabelLooking { trivial: bool, source: Source },
    LabelClearing { trivial: bool, source: Source, pending: ScoredView },
    LabelAppending { trivial: bool, source: Source, prompt: Seq<char> },
    LabelReading { trivial: bool, source: Source, prompt: Seq<char> },
    LabelFitting { trivial: bool, source: Source, prompt: Seq<char>, report: ReportView },
    LabelSaving { trivial: bool, source: Source, prompt: Seq<char>, report: ReportView },
    ScoreWeighing { purpose: Purpose, text: Seq<char> },
    ScoreLoading { purpose: Purpose, text: Seq<char>, weights: WeightsView },
    ScoreEmbedding { purpose: Purpose, text: Seq<char>, weights: WeightsView },
    ScoreTiming {
        purpose: Purpose,
        text: Seq<char>,
        weights: WeightsView,
        embedding: Seq<Single>,
    },
    ScorePredicting {
        purpose: Purpose,
        text: Seq<char>,
        id: Seq<char>,
        ts: u64,
        embedding: Seq<Single>,
    },
    ScoreSaving { output: OutputView },
    StatsReading,
    StatsWeighing { rows: Seq<RowView> },
    StatsRescoring { rows: Seq<RowView> },
    Finished,
}

impl View for State {
    type V = StateView;

    open spec fn view(&self) -> StateView {
        match self {
            State::SetupLoading => StateView::SetupLoading,
            State::SetupChecking => StateView::SetupChecking,
            State::SetupDrawing => StateView::SetupDrawing,
            State::SetupSaving => StateView::SetupSaving,
            State::CancelLooking => StateView::CancelLooking,
            State::CancelClearing => StateView::CancelClearing,
            State::LabelLooking { trivial, source } => StateView::LabelLooking {
                trivial: *trivial,
                source: *source,
            },
            State::LabelClearing { trivial, source, pending } => StateView::LabelClearing {
                trivial: *trivial,
                source: *source,
                pending: pending@,
            },
            State::LabelAppending { trivial, source, prompt } => StateView::LabelAppending {
                trivial: *trivial,
                source: *source,
                prompt: prompt@,
            },
            State::LabelReading { trivial, source, prompt } => StateView::LabelReading {
                trivial: *trivial,
                source: *source,
                prompt: prompt@,
            },
            State::LabelFitting { trivial, source, prompt, report } => StateView::LabelFitting {
                trivial: *trivial,
                source: *source,
                prompt: prompt@,
                report: report@,
            },
            State::LabelSaving { trivial, source, prompt, report } => StateView::LabelSaving {
                trivial: *trivial,
                source: *source,
                prompt: prompt@,
                report: report@,
            },
            State::ScoreWeighing { purpose, text } => StateView::ScoreWeighing {
                purpose: *purpose,
                text: text@,
            },
            State::ScoreLoading { purpose, text, weights } => StateView::ScoreLoading {
                purpose: *purpose,
                text: text@,
                weights: weights@,
            },
            State::ScoreEmbedding { purpose, text, weights } => StateView::ScoreEmbedding {
                purpose: *purpose,
                text: text@,
                weights: weights@,
            },
            State::ScoreTiming { purpose, text, weights, embedding } => StateView::ScoreTiming {
                purpose: *purpose,
                text: text@,
                weights: weights@,
                embedding: embedding@,
            },
            State::ScorePredicting { purpose, text, id, ts, embedding } => {
                StateView::ScorePredicting {
                    purpose: *purpose,
                    text: text@,
                    id: id@,
                    ts: *ts,
                    embedding: embedding@,
                }
            },
            State::ScoreSaving { output } => StateView::ScoreSaving { output: output@ },
            State::StatsReading => StateView::StatsReading,
            State::StatsWeighing { rows } => StateView::StatsWeighing { rows: row_views(rows@) },
            State::StatsRescoring { rows } => StateView::StatsRescoring { rows: row_views(rows@) },
            State::Finished => StateView::Finished,
        }
    }
}

/// A state and the action that leads out of it.
pub open spec fn pair_view(pair: (State, Action)) -> (StateView, ActionView) {
    (pair.0@, pair.1@)
}

/// The examples in `rows`.
pub open spec fn examples_of(rows: Seq<RowView>) -> Seq<ExampleView> {
    rows.map_values(|r: RowView| ExampleView { embedding: r.scored.embedding, label: r.label })
}

/// The embeddings in `rows`.
pub open spec fn embeddings_of(rows: Seq<RowView>) -> Seq<Seq<Single>> {
    rows.map_values(|r: RowView| r.scored.embedding)
}

/// What is told about a scored prompt of `chars` characters.
pub open spec fn prediction_of(p: Single, chars: usize) -> PredictionView {
    PredictionView {
        verdict: name_of(p.reaches_half()),
        p,
        hundredths: if p.is_probability() {
            Some(p.nearest_hundredth())
        } else {
            None
        },
        chars,
        long: false,
    }
}

/// What is told about a prompt that is too long to be scored: it is not
/// trivial, with a probability of zero.
pub open spec fn long_prediction(chars: usize) -> PredictionView {
    PredictionView {
        verdict: name_of(false),
        p: Single { bits: 0 },
        hundredths: Some(0),
        chars,
        long: true,
    }
}

/// Stops, having printed `output`, if anything.
pub open spec fn finish(output: Option<OutputView>) -> (StateView, ActionView) {
    (StateView::Finished, ActionView::Finish(output))
}

/// Stops with a failure.
pub open spec fn fail(failure: Failure) -> (StateView, ActionView) {
    (StateView::Finished, ActionView::Fail(failure))
}

/// What is printed after a label.
pub open spec fn labeled(
    trivial: bool,
    source: Source,
    prompt: Seq<char>,
    report: ReportView,
) -> OutputView {
    match source {
        Source::Reply => OutputView::Labeled { label: name_of(trivial), report, prompt },
        Source::Hand => OutputView::LabeledByHand { label: name_of(trivial), report },
    }
}

/// Begins the setup: the model is downloaded first, with a progress bar.
pub open spec fn setup_begins() -> (StateView, ActionView) {
    (StateView::SetupLoading, ActionView::LoadModel { show_progress: true })
}

/// Begins a label given by hand.
pub open spec fn label_begins(trivial: bool) -> (StateView, ActionView) {
    (StateView::LabelLooking { trivial, source: Source::Hand }, ActionView::ReadPending)
}

/// Begins to score a text.
pub open spec fn score_begins(purpose: Purpose, text: Seq<char>) -> (StateView, ActionView) {
    (StateView::ScoreWeighing { purpose, text }, ActionView::ReadWeights)
}

/// Begins the statistics.
pub open spec fn stats_begin() -> (StateView, ActionView) {
    (StateView::StatsReading, ActionView::ReadDataset)
}

/// Begins the hook on the prompt field of its input.
pub open spec fn hook_begins(field: Option<Seq<char>>) -> (StateView, ActionView) {
    let prompt = match field {
        Some(s) => trimmed(s),
        None => Seq::empty(),
    };
    match request_in(prompt) {
        Request::Pass => finish(None),
        Request::Cancel => (StateView::CancelLooking, ActionView::ReadPending),
        Request::Label { trivial } => (
            StateView::LabelLooking { trivial, source: Source::Reply },
            ActionView::ReadPending,
        ),
        Request::Long { chars } => finish(Some(OutputView::Predicted(long_prediction(chars)))),
        Request::Score { chars } => score_begins(Purpose::Keep { chars }, prompt),
    }
}

/// What follows when `event` happens in `state`; `None` if the state does not
/// wait for such an event. A prompt that is scored here gets the number `id`.
pub open spec fn next(state: StateView, event: EventView, id: u64) -> Option<
    (StateView, ActionView),
> {
    match (state, event) {
        (StateView::SetupLoading, EventView::Loaded) => {
            Some((StateView::SetupChecking, ActionView::ReadWeights))
        },
        (StateView::SetupChecking, EventView::Weights(weights)) => if weights is Some {
            Some(finish(Some(OutputView::Ready)))
        } else {
            Some((StateView::SetupDrawing, ActionView::DrawWeights { dim: DIM }))
        },
        (StateView::SetupDrawing, EventView::Drawn(weights)) => {
            Some((StateView::SetupSaving, ActionView::WriteWeights(weights)))
        },
        (StateView::SetupSaving, EventView::Done) => Some(finish(Some(OutputView::Ready))),
        (StateView::CancelLooking, EventView::Pending(pending)) => if pending is Some {
            Some((StateView::CancelClearing, ActionView::ClearPending))
        } else {
            Some(finish(None))
        },
        (StateView::CancelClearing, EventView::Done) => Some(finish(Some(OutputView::Cancelled))),
        (StateView::LabelLooking { trivial, source }, EventView::Pending(found)) => match found {
            Some(pending) => Some(
                (StateView::LabelClearing { trivial, source, pending }, ActionView::ClearPending),
            ),
            None => match source {
                Source::Reply => Some(finish(None)),
                Source::Hand => Some(fail(Failure::NoPending)),
            },
        },
        (StateView::LabelClearing { trivial, source, pending }, EventView::Done) => Some(
            (
                StateView::LabelAppending { trivial, source, prompt: pending.prompt },
                ActionView::AppendRow(RowView { scored: pending, label: trivial }),
            ),
        ),
        (StateView::LabelAppending { trivial, source, prompt }, EventView::Done) => Some(
            (StateView::LabelReading { trivial, source, prompt }, ActionView::ReadDataset),
        ),
        (StateView::LabelReading { trivial, source, prompt }, EventView::Dataset(rows)) => {
            let report = report_of(rows);
            if both_classes(rows) {
                Some(
                    (
                        StateView::LabelFitting { trivial, source, prompt, report },
                        ActionView::Train { examples: examples_of(rows), dim: DIM },
                    ),
                )
            } else {
                Some(finish(Some(labeled(trivial, source, prompt, report))))
            }
        },
        (
            StateView::LabelFitting { trivial, source, prompt, report },
            EventView::Trained(weights),
        ) => Some(
            (
                StateView::LabelSaving { trivial, source, prompt, report },
                ActionView::WriteWeights(weights),
            ),
        ),
        (StateView::LabelSaving { trivial, source, prompt, report }, EventView::Done) => {
            Some(finish(Some(labeled(trivial, source, prompt, report))))
        },
        (StateView::ScoreWeighing { purpose, text }, EventView::Weights(found)) => match found {
            Some(weights) => Some(
                (
                    StateView::ScoreLoading { purpose, text, weights },
                    ActionView::LoadModel { show_progress: false },
                ),
            ),
            None => Some(fail(Failure::NoWeights)),
        },
        (StateView::ScoreLoading { purpose, text, weights }, EventView::Loaded) => Some(
            (StateView::ScoreEmbedding { purpose, text, weights }, ActionView::Embed(text)),
        ),
        (StateView::ScoreEmbedding { purpose, text, weights }, EventView::Embedded(result)) => {
            match result {
                Ok(embedding) => Some(
                    (
                        StateView::ScoreTiming { purpose, text, weights, embedding },
                        ActionView::ReadClock,
                    ),
                ),
                Err(failure) => Some(fail(failure)),
            }
        },
        (StateView::ScoreTiming { purpose, text, weights, embedding }, EventView::Clock(ts)) => {
            Some(
                (
                    StateView::ScorePredicting { purpose, text, id: hex(id as nat), ts, embedding },
                    ActionView::Predict { weights, embedding },
                ),
            )
        },
        (
            StateView::ScorePredicting { purpose, text, id, ts, embedding },
            EventView::Probability(p),
        ) => match purpose {
            Purpose::Keep { chars } => Some(
                (
                    StateView::ScoreSaving {
                        output: OutputView::Predicted(prediction_of(p, chars)),
                    },
                    ActionView::WritePending(ScoredView { id, ts, prompt: text, embedding, p }),
                ),
            ),
            Purpose::Show => Some(
                finish(Some(OutputView::Judged { verdict: name_of(p.reaches_half()), p })),
            ),
        },
        (StateView::ScoreSaving { output }, EventView::Done) => Some(finish(Some(output))),
        (StateView::StatsReading, EventView::Dataset(rows)) => {
            Some((StateView::StatsWeighing { rows }, ActionView::ReadWeights))
        },
        (StateView::StatsWeighing { rows }, EventView::Weights(found)) => match found {
            Some(weights) => Some(
                (
                    StateView::StatsRescoring { rows },
                    ActionView::Rescore { weights, embeddings: embeddings_of(rows) },
                ),
            ),
            None => Some(fail(Failure::NoWeights)),
        },
        (StateView::StatsRescoring { rows }, EventView::Rescored(scores)) => {
            if scores.len() == rows.len() {
                Some(finish(Some(OutputView::Stats(stats_of(rows, scores)))))
            } else {
                None
            }
        },
        _ => None,
    }
}

} // verus!
