//! What whole commands do to what is kept on disk.
//!
//! The steps of a command are played here against a model of the outside: a
//! disk that gives back what was written to it, and a classifier, a clock and
//! an embedding model of which nothing is known.

use crate::embed::DIM;
use crate::error::Failure;
use crate::id::hex;
use crate::model::WeightsView;
use crate::prompt::label_in;
use crate::prompt::law_replies_are_distinct;
use crate::prompt::name_of;
use crate::prompt::passes;
use crate::prompt::request_in;
use crate::prompt::says_cancel;
use crate::prompt::LONG_PROMPT;
use crate::protocol::embeddings_of;
use crate::protocol::examples_of;
use crate::protocol::hook_begins;
use crate::protocol::label_begins;
use crate::protocol::long_prediction;
use crate::protocol::next;
use crate::protocol::prediction_of;
use crate::protocol::score_begins;
use crate::protocol::setup_begins;
use crate::protocol::stats_begin;
use crate::protocol::ActionView;
use crate::protocol::EventView;
use crate::protocol::ExampleView;
use crate::protocol::OutputView;
use crate::protocol::StateView;
use crate::report::both_classes;
use crate::report::report_of;
use crate::report::stats_of;
use crate::session::Purpose;
use crate::single::Single;
use crate::store::RowView;
use crate::store::ScoredView;
use crate::text::trimmed;
use vstd::prelude::*;

verus! {

/// What is on disk.
#[verifier::ext_equal]
pub struct Disk {
    pub pending: Option<ScoredView>,
    pub rows: Seq<RowView>,
    pub weights: Option<WeightsView>,
}

/// Everything else that a command meets.
pub struct World {
    /// The weights that a random draw of so many dimensions gives.
    pub drawn: spec_fn(usize) -> WeightsView,
    /// The weights that a fit to some examples gives.
    pub fit: spec_fn(Seq<ExampleView>, usize) -> WeightsView,
    /// The vector of a text, or why the embedding model gives none.
    pub embed: spec_fn(Seq<char>) -> Result<Seq<Single>, Failure>,
    /// The probability that some weights give an embedding.
    pub judge: spec_fn(WeightsView, Seq<Single>) -> Single,
    /// The time.
    pub clock: u64,
    /// The random number that a scored prompt gets.
    pub id: u64,
}

/// A command that the user or the hook gives.
pub enum Command {
    Setup,
    /// A submitted prompt: the prompt field of the hook's input.
    Hook(Option<Seq<char>>),
    Label(bool),
    Predict(Seq<char>),
    Stats,
}

/// How a command begins.
pub open spec fn begins(command: Command) -> (StateView, ActionView) {
    match command {
        Command::Setup => setup_begins(),
        Command::Hook(field) => hook_begins(field),
        Command::Label(trivial) => label_begins(trivial),
        Command::Predict(text) => score_begins(Purpose::Show, text),
        Command::Stats => stats_begin(),
    }
}

/// What an action does to the disk, and what comes of it.
pub open spec fn perform(action: ActionView, disk: Disk, world: World) -> (Disk, EventView) {
    match action {
        ActionView::LoadModel { .. } => (disk, EventView::Loaded),
        ActionView::ReadWeights => (disk, EventView::Weights(disk.weights)),
        ActionView::DrawWeights { dim } => (disk, EventView::Drawn((world.drawn)(dim))),
        ActionView::WriteWeights(weights) => (
            Disk { weights: Some(weights), ..disk },
            EventView::Done,
        ),
        ActionView::ReadPending => (disk, EventView::Pending(disk.pending)),
        ActionView::ClearPending => (Disk { pending: None, ..disk }, EventView::Done),
        ActionView::WritePending(scored) => (
            Disk { pending: Some(scored), ..disk },
            EventView::Done,
        ),
        ActionView::AppendRow(row) => (Disk { rows: disk.rows.push(row), ..disk }, EventView::Done),
        ActionView::ReadDataset => (disk, EventView::Dataset(disk.rows)),
        ActionView::Train { examples, dim } => (
            disk,
            EventView::Trained((world.fit)(examples, dim)),
        ),
        ActionView::Embed(text) => (disk, EventView::Embedded((world.embed)(text))),
        ActionView::ReadClock => (disk, EventView::Clock(world.clock)),
        ActionView::Predict { weights, embedding } => (
            disk,
            EventView::Probability((world.judge)(weights, embedding)),
        ),
        ActionView::Rescore { weights, embeddings } => (
            disk,
            EventView::Rescored(embeddings.map_values(|e: Seq<Single>| (world.judge)(weights, e))),
        ),
        ActionView::Finish(_) => (disk, EventView::Done),
        ActionView::Fail(_) => (disk, EventView::Done),
    }
}

/// How a command ends: what is then on disk, and what is printed, if anything,
/// or the failure.
#[verifier::ext_equal]
pub struct Outcome {
    pub disk: Disk,
    pub result: Result<Option<OutputView>, Failure>,
}

/// Plays a command to its end, in at most `steps` steps.
pub open spec fn play(
    at: (StateView, ActionView),
    disk: Disk,
    world: World,
    steps: nat,
) -> Option<Outcome>
    decreases steps,
{
    match at.1 {
        ActionView::Finish(output) => Some(Outcome { disk, result: Ok(output) }),
        ActionView::Fail(failure) => Some(Outcome { disk, result: Err(failure) }),
        action => if steps == 0 {
            None
        } else {
            let (after, event) = perform(action, disk, world);
            match next(at.0, event, world.id) {
                Some(then) => play(then, after, world, (steps - 1) as nat),
                None => None,
            }
        },
    }
}

/// How a command ends; `None` would mean that it gets stuck, or takes more than
/// six steps.
pub open spec fn outcome(command: Command, disk: Disk, world: World) -> Option<Outcome> {
    play(begins(command), disk, world, 6)
}

/// The prompt in the prompt field of the hook's input.
pub open spec fn prompt_in(field: Option<Seq<char>>) -> Seq<char> {
    match field {
        Some(s) => trimmed(s),
        None => Seq::empty(),
    }
}

/// The vector that the embedding model gives for `text`.
pub open spec fn vector_of(text: Seq<char>, world: World) -> Seq<Single> {
    (world.embed)(text)->Ok_0
}

/// The probability that `weights` give `text`.
pub open spec fn score_of(text: Seq<char>, weights: WeightsView, world: World) -> Single {
    (world.judge)(weights, vector_of(text, world))
}

/// The disk after the pending prompt got a label: the prompt is no longer
/// pending but is the last row, and the weights are fitted to all rows if both
/// labels occur among them, and left as they were if not.
pub open spec fn after_label(disk: Disk, pending: ScoredView, trivial: bool, world: World) -> Disk {
    let rows = disk.rows.push(RowView { scored: pending, label: trivial });
    Disk {
        pending: None,
        rows,
        weights: if both_classes(rows) {
            Some((world.fit)(examples_of(rows), DIM))
        } else {
            disk.weights
        },
    }
}

/// A prompt that is empty or a slash command passes through untouched: nothing
/// on disk changes and nothing is printed.
pub proof fn law_untouched_prompt(field: Option<Seq<char>>, disk: Disk, world: World)
    requires
        passes(prompt_in(field)),
    ensures
        outcome(Command::Hook(field), disk, world) == Some(Outcome { disk, result: Ok(None) }),
{
    reveal_with_fuel(play, 7);
}

/// A reply with nothing pending passes through untouched too.
pub proof fn law_reply_with_nothing_pending(field: Option<Seq<char>>, disk: Disk, world: World)
    requires
        says_cancel(prompt_in(field)) || label_in(prompt_in(field)) is Some,
        disk.pending is None,
    ensures
        outcome(Command::Hook(field), disk, world) == Some(Outcome { disk, result: Ok(None) }),
{
    reveal_with_fuel(play, 7);
    law_replies_are_distinct(prompt_in(field));
}

/// A cancel reply drops the pending prompt without labeling it, and leaves the
/// rows and the weights alone.
pub proof fn law_cancel(field: Option<Seq<char>>, disk: Disk, world: World)
    requires
        says_cancel(prompt_in(field)),
        disk.pending is Some,
    ensures
        outcome(Command::Hook(field), disk, world) == Some(
            Outcome {
                disk: Disk { pending: None, ..disk },
                result: Ok(Some(OutputView::Cancelled)),
            },
        ),
{
    reveal_with_fuel(play, 7);
    law_replies_are_distinct(prompt_in(field));
}

/// A label reply labels the pending prompt, refits the classifier and hands the
/// prompt back with the report on all rows.
pub proof fn law_label_reply(field: Option<Seq<char>>, trivial: bool, disk: Disk, world: World)
    requires
        label_in(prompt_in(field)) == Some(trivial),
        disk.pending is Some,
    ensures
        outcome(Command::Hook(field), disk, world) == Some(
            Outcome {
                disk: after_label(disk, disk.pending->0, trivial, world),
                result: Ok(
                    Some(
                        OutputView::Labeled {
                            label: name_of(trivial),
                            report: report_of(
                                after_label(disk, disk.pending->0, trivial, world).rows,
                            ),
                            prompt: disk.pending->0.prompt,
                        },
                    ),
                ),
            },
        ),
{
    reveal_with_fuel(play, 7);
    law_replies_are_distinct(prompt_in(field));
}

/// A label given by hand does to the disk what a label reply does. With nothing
/// pending it is a failure, and nothing changes.
pub proof fn law_label_by_hand(trivial: bool, disk: Disk, world: World)
    ensures
        match disk.pending {
            Some(pending) => outcome(Command::Label(trivial), disk, world) == Some(
                Outcome {
                    disk: after_label(disk, pending, trivial, world),
                    result: Ok(
                        Some(
                            OutputView::LabeledByHand {
                                label: name_of(trivial),
                                report: report_of(after_label(disk, pending, trivial, world).rows),
                            },
                        ),
                    ),
                },
            ),
            None => outcome(Command::Label(trivial), disk, world) == Some(
                Outcome { disk, result: Err(Failure::NoPending) },
            ),
        },
{
    reveal_with_fuel(play, 7);
}

/// A long prompt is reported as not trivial, and is neither scored nor kept
/// pending: nothing on disk changes.
pub proof fn law_long_prompt(field: Option<Seq<char>>, disk: Disk, world: World)
    requires
        !passes(prompt_in(field)),
        prompt_in(field).len() > LONG_PROMPT,
    ensures
        outcome(Command::Hook(field), disk, world) == Some(
            Outcome {
                disk,
                result: Ok(
                    Some(
                        OutputView::Predicted(long_prediction(prompt_in(field).len() as usize)),
                    ),
                ),
            },
        ),
{
    reveal_with_fuel(play, 7);
    law_replies_are_distinct(prompt_in(field));
}

/// A prompt that is to be scored: not passed through, not a reply, not long.
pub open spec fn is_scored(prompt: Seq<char>) -> bool {
    request_in(prompt) is Score
}

/// Any other prompt is scored with the current weights and kept pending in
/// place of the one before, with the probability it got; the rows and the
/// weights stay as they are.
pub proof fn law_scored_prompt(field: Option<Seq<char>>, disk: Disk, world: World)
    requires
        is_scored(prompt_in(field)),
        disk.weights is Some,
        (world.embed)(prompt_in(field)) is Ok,
    ensures
        ({
            let prompt = prompt_in(field);
            let p = score_of(prompt, disk.weights->0, world);
            outcome(Command::Hook(field), disk, world) == Some(
                Outcome {
                    disk: Disk {
                        pending: Some(
                            ScoredView {
                                id: hex(world.id as nat),
                                ts: world.clock,
                                prompt,
                                embedding: vector_of(prompt, world),
                                p,
                            },
                        ),
                        ..disk
                    },
                    result: Ok(
                        Some(OutputView::Predicted(prediction_of(p, prompt.len() as usize))),
                    ),
                },
            )
        }),
{
    reveal_with_fuel(play, 7);
}

/// Scoring a text by hand shows the verdict and changes nothing on disk.
pub proof fn law_predict_changes_nothing(text: Seq<char>, disk: Disk, world: World)
    requires
        disk.weights is Some,
        (world.embed)(text) is Ok,
    ensures
        ({
            let p = score_of(text, disk.weights->0, world);
            outcome(Command::Predict(text), disk, world) == Some(
                Outcome {
                    disk,
                    result: Ok(
                        Some(OutputView::Judged { verdict: name_of(p.reaches_half()), p }),
                    ),
                },
            )
        }),
{
    reveal_with_fuel(play, 7);
}

/// Without weights, or where the embedding model gives no vector, scoring fails
/// for that reason and nothing on disk changes.
pub proof fn law_failed_score(command: Command, text: Seq<char>, disk: Disk, world: World)
    requires
        command == Command::Predict(text) || (command matches Command::Hook(field) && text
            == prompt_in(field) && is_scored(text)),
        disk.weights is None || (world.embed)(text) is Err,
    ensures
        outcome(command, disk, world) == Some(
            Outcome {
                disk,
                result: Err(
                    if disk.weights is None {
                        Failure::NoWeights
                    } else {
                        (world.embed)(text)->Err_0
                    },
                ),
            },
        ),
{
    reveal_with_fuel(play, 7);
}

/// The setup writes random weights only where there are none yet, and touches
/// nothing else; a second setup changes nothing. Loading the model comes first,
/// so where that fails nothing was written.
pub proof fn law_setup(disk: Disk, world: World)
    ensures
        begins(Command::Setup).1 == (ActionView::LoadModel { show_progress: true }),
        outcome(Command::Setup, disk, world) == Some(
            Outcome {
                disk: Disk {
                    weights: if disk.weights is Some {
                        disk.weights
                    } else {
                        Some((world.drawn)(DIM))
                    },
                    ..disk
                },
                result: Ok(Some(OutputView::Ready)),
            },
        ),
{
    reveal_with_fuel(play, 7);
}

/// The statistics change nothing on disk, and cover all rows.
pub proof fn law_stats_change_nothing(disk: Disk, world: World)
    ensures
        outcome(Command::Stats, disk, world) == Some(
            Outcome {
                disk,
                result: match disk.weights {
                    Some(weights) => Ok(
                        Some(
                            OutputView::Stats(
                                stats_of(
                                    disk.rows,
                                    Seq::new(
                                        disk.rows.len(),
                                        |i: int|
                                            (world.judge)(weights, disk.rows[i].scored.embedding),
                                    ),
                                ),
                            ),
                        ),
                    ),
                    None => Err(Failure::NoWeights),
                },
            },
        ),
{
    reveal_with_fuel(play, 7);
    if disk.weights is Some {
        let weights = disk.weights->0;
        let scores = embeddings_of(disk.rows).map_values(
            |e: Seq<Single>| (world.judge)(weights, e),
        );
        let wanted = Seq::new(
            disk.rows.len(),
            |i: int| (world.judge)(weights, disk.rows[i].scored.embedding),
        );
        assert(scores =~= wanted);
    }
}

/// What a command may do to the disk.
pub open spec fn allowed(command: Command, before: Disk, after: Disk, world: World) -> bool {
    ||| after == before
    ||| command is Setup && before.weights is None && after == Disk {
        weights: Some((world.drawn)(DIM)),
        ..before
    }
    ||| command is Hook && after == Disk { pending: None, ..before }
    ||| command is Hook && after.pending is Some && is_scored(after.pending->0.prompt) && after
        == Disk { pending: after.pending, ..before }
    ||| (command is Hook || command is Label) && before.pending is Some && (after == after_label(
        before,
        before.pending->0,
        true,
        world,
    ) || after == after_label(before, before.pending->0, false, world))
}

/// Every command ends in a way that is allowed, and one that fails changes
/// nothing.
proof fn lemma_allowed(command: Command, disk: Disk, world: World)
    ensures
        outcome(command, disk, world) is Some,
        allowed(command, disk, outcome(command, disk, world)->0.disk, world),
        outcome(command, disk, world)->0.result is Err ==> outcome(command, disk, world)->0.disk
            == disk,
{
    match command {
        Command::Setup => law_setup(disk, world),
        Command::Label(trivial) => law_label_by_hand(trivial, disk, world),
        Command::Stats => law_stats_change_nothing(disk, world),
        Command::Predict(text) => {
            if disk.weights is None || (world.embed)(text) is Err {
                law_failed_score(command, text, disk, world);
            } else {
                law_predict_changes_nothing(text, disk, world);
            }
        },
        Command::Hook(field) => {
            let prompt = prompt_in(field);
            law_replies_are_distinct(prompt);
            if passes(prompt) {
                law_untouched_prompt(field, disk, world);
            } else if says_cancel(prompt) || label_in(prompt) is Some {
                if disk.pending is None {
                    law_reply_with_nothing_pending(field, disk, world);
                } else if says_cancel(prompt) {
                    law_cancel(field, disk, world);
                } else {
                    law_label_reply(field, label_in(prompt)->0, disk, world);
                }
            } else if prompt.len() > LONG_PROMPT {
                law_long_prompt(field, disk, world);
            } else if disk.weights is None || (world.embed)(prompt) is Err {
                law_failed_score(command, prompt, disk, world);
            } else {
                law_scored_prompt(field, disk, world);
            }
        },
    }
}

/// Every command comes to an end, whatever is on disk and whatever the drawn or
/// fitted weights, the embedding model, the scores, the clock and the random
/// number are; and one that stops with a failure of the library leaves the disk
/// as it was. Reading and writing always succeed here. A caller for whom they do
/// not stops in between: an append that fails comes after the pending prompt was
/// cleared, and that prompt is then neither pending nor a row.
pub proof fn law_every_command_ends(command: Command, disk: Disk, world: World)
    ensures
        outcome(command, disk, world) is Some,
        outcome(command, disk, world)->0.result is Err ==> outcome(command, disk, world)->0.disk
            == disk,
{
    lemma_allowed(command, disk, world);
}

/// The rows only ever grow: a command keeps every row where it was, and adds at
/// most one, which is the prompt that was pending, with the probability that it
/// had; and that prompt is then pending no more.
pub proof fn law_rows_only_grow(command: Command, disk: Disk, world: World)
    ensures
        ({
            let after = outcome(command, disk, world)->0.disk;
            ||| after.rows == disk.rows
            ||| {
                &&& disk.pending is Some
                &&& after.pending is None
                &&& after.rows.len() == disk.rows.len() + 1
                &&& after.rows.drop_last() == disk.rows
                &&& after.rows.last().scored == disk.pending->0
            }
        }),
{
    lemma_allowed(command, disk, world);
    let after = outcome(command, disk, world)->0.disk;
    if after.rows != disk.rows {
        assert(after.rows.drop_last() =~= disk.rows);
    }
}

/// The weights change in two ways only: the setup writes random ones where
/// there were none, and a label fits them to all rows, itself included, once
/// both labels occur. Until then they stay as they were.
pub proof fn law_weights_change_only_by_a_fit(command: Command, disk: Disk, world: World)
    ensures
        ({
            let after = outcome(command, disk, world)->0.disk;
            after.weights != disk.weights ==> {
                ||| command is Setup && disk.weights is None && after.weights == Some((world.drawn)(DIM))
                ||| {
                    &&& both_classes(after.rows)
                    &&& after.rows != disk.rows
                    &&& after.weights == Some((world.fit)(examples_of(after.rows), DIM))
                }
            }
        }),
{
    lemma_allowed(command, disk, world);
}

/// The weights are the first ones while only one label, or none, occurs among
/// the rows, and the fit to exactly the rows from then on.
pub open spec fn first_or_fitted(disk: Disk, first: WeightsView, world: World) -> bool {
    disk.weights == Some(
        if both_classes(disk.rows) {
            (world.fit)(examples_of(disk.rows), DIM)
        } else {
            first
        },
    )
}

/// Every command keeps the weights the first ones until both labels were seen,
/// and the fit to all rows from then on; and labels that were seen stay seen.
pub proof fn law_weights_are_first_or_fitted(
    command: Command,
    disk: Disk,
    first: WeightsView,
    world: World,
)
    requires
        first_or_fitted(disk, first, world),
    ensures
        first_or_fitted(outcome(command, disk, world)->0.disk, first, world),
        both_classes(disk.rows) ==> both_classes(outcome(command, disk, world)->0.disk.rows),
{
    lemma_allowed(command, disk, world);
    let after = outcome(command, disk, world)->0.disk;
    if both_classes(disk.rows) {
        let i = choose|i: int| 0 <= i < disk.rows.len() && (#[trigger] disk.rows[i]).label;
        let j = choose|j: int| 0 <= j < disk.rows.len() && !(#[trigger] disk.rows[j]).label;
        assert(after.rows[i] == disk.rows[i]);
        assert(after.rows[j] == disk.rows[j]);
    }
}

/// Only prompts that are to be scored are ever kept: not an empty prompt, a
/// slash command, a reply or a long prompt.
pub open spec fn keeps_scored_prompts(disk: Disk) -> bool {
    &&& disk.pending is Some ==> is_scored(disk.pending->0.prompt)
    &&& forall|i: int| 0 <= i < disk.rows.len() ==> is_scored((#[trigger] disk.rows[i]).scored.prompt)
}

/// Every command keeps it so that only prompts that are to be scored are kept.
pub proof fn law_only_scored_prompts_are_kept(command: Command, disk: Disk, world: World)
    requires
        keeps_scored_prompts(disk),
    ensures
        keeps_scored_prompts(outcome(command, disk, world)->0.disk),
{
    lemma_allowed(command, disk, world);
    let after = outcome(command, disk, world)->0.disk;
    assert forall|i: int| 0 <= i < after.rows.len() implies is_scored(
        (#[trigger] after.rows[i]).scored.prompt,
    ) by {
        if i < disk.rows.len() {
            assert(after.rows[i] == disk.rows[i]);
        }
    }
}

/// A submitted prompt and a label reply to it make one row: the trimmed prompt,
/// the probability that it got from the weights of the time, and the label. The
/// reply hands the prompt back.
pub proof fn law_prompt_then_label(
    field: Option<Seq<char>>,
    reply: Option<Seq<char>>,
    trivial: bool,
    disk: Disk,
    world: World,
    later: World,
)
    requires
        is_scored(prompt_in(field)),
        disk.weights is Some,
        (world.embed)(prompt_in(field)) is Ok,
        label_in(prompt_in(reply)) == Some(trivial),
    ensures
        ({
            let middle = outcome(Command::Hook(field), disk, world)->0;
            let end = outcome(Command::Hook(reply), middle.disk, later)->0;
            let row = end.disk.rows.last();
            &&& middle.result matches Ok(Some(OutputView::Predicted(shown)))
            &&& end.result matches Ok(Some(OutputView::Labeled { label, report, prompt }))
            &&& end.disk.pending is None
            &&& end.disk.rows == disk.rows.push(row)
            &&& row.label == trivial
            &&& row.scored.prompt == prompt_in(field)
            &&& row.scored.p == score_of(prompt_in(field), disk.weights->0, world)
            &&& shown == prediction_of(row.scored.p, prompt_in(field).len() as usize)
            &&& label == name_of(trivial)
            &&& report == report_of(end.disk.rows)
            &&& prompt == prompt_in(field)
        }),
{
    law_scored_prompt(field, disk, world);
    let middle = outcome(Command::Hook(field), disk, world)->0;
    law_label_reply(reply, trivial, middle.disk, later);
}

/// A prompt is answered once: after a label or a cancel reply, a second reply
/// finds nothing pending, changes nothing and prints nothing.
pub proof fn law_answered_once(
    first: Option<Seq<char>>,
    second: Option<Seq<char>>,
    disk: Disk,
    world: World,
    later: World,
)
    requires
        says_cancel(prompt_in(first)) || label_in(prompt_in(first)) is Some,
        says_cancel(prompt_in(second)) || label_in(prompt_in(second)) is Some,
    ensures
        ({
            let middle = outcome(Command::Hook(first), disk, world)->0.disk;
            &&& middle.pending is None
            &&& outcome(Command::Hook(second), middle, later) == Some(
                Outcome { disk: middle, result: Ok(None) },
            )
        }),
{
    law_replies_are_distinct(prompt_in(first));
    if disk.pending is None {
        law_reply_with_nothing_pending(first, disk, world);
    } else if says_cancel(prompt_in(first)) {
        law_cancel(first, disk, world);
    } else {
        law_label_reply(first, label_in(prompt_in(first))->0, disk, world);
    }
    law_reply_with_nothing_pending(
        second,
        outcome(Command::Hook(first), disk, world)->0.disk,
        later,
    );
}

/// Each time a command loads the model on its way, in at most `steps` steps:
/// whether it shows the progress.
pub open spec fn loads(
    at: (StateView, ActionView),
    disk: Disk,
    world: World,
    steps: nat,
) -> Seq<bool>
    decreases steps,
{
    if steps == 0 || at.1 is Finish || at.1 is Fail {
        Seq::empty()
    } else {
        let (after, event) = perform(at.1, disk, world);
        let now = match at.1 {
            ActionView::LoadModel { show_progress } => seq![show_progress],
            _ => Seq::empty(),
        };
        match next(at.0, event, world.id) {
            Some(then) => now + loads(then, after, world, (steps - 1) as nat),
            None => now,
        }
    }
}

/// A command loads the model at most once, and only the setup shows the
/// progress of it. Labels and statistics do without the model.
#[verifier::rlimit(40)]
pub proof fn law_model_is_loaded_at_most_once(command: Command, disk: Disk, world: World)
    ensures
        ({
            let all = loads(begins(command), disk, world, 6);
            match command {
                Command::Setup => all == seq![true],
                Command::Hook(_) => all == Seq::<bool>::empty() || all == seq![false],
                Command::Label(_) => all == Seq::<bool>::empty(),
                Command::Predict(_) => all == Seq::<bool>::empty() || all == seq![false],
                Command::Stats => all == Seq::<bool>::empty(),
            }
        }),
{
    reveal_with_fuel(loads, 7);
    let all = loads(begins(command), disk, world, 6);
    match command {
        Command::Setup => {
            assert(all =~= seq![true]);
        },
        Command::Hook(field) => {
            let prompt = prompt_in(field);
            if is_scored(prompt) && disk.weights is Some {
                assert(all =~= seq![false]);
            } else {
                assert(all =~= Seq::<bool>::empty());
            }
        },
        Command::Label(_) => {
            assert(all =~= Seq::<bool>::empty());
        },
        Command::Predict(_) => {
            if disk.weights is Some {
                assert(all =~= seq![false]);
            } else {
                assert(all =~= Seq::<bool>::empty());
            }
        },
        Command::Stats => {
            assert(all =~= Seq::<bool>::empty());
        },
    }
}

/// What a command has done when it comes to load the model, in at most `steps`
/// steps: the actions before that, and what is then on disk. `None` if it does
/// not load the model.
pub open spec fn before_load(
    at: (StateView, ActionView),
    disk: Disk,
    world: World,
    steps: nat,
) -> Option<(Seq<ActionView>, Disk)>
    decreases steps,
{
    if at.1 is LoadModel {
        Some((Seq::empty(), disk))
    } else if steps == 0 || at.1 is Finish || at.1 is Fail {
        None
    } else {
        let (after, event) = perform(at.1, disk, world);
        match next(at.0, event, world.id) {
            Some(then) => match before_load(then, after, world, (steps - 1) as nat) {
                Some((actions, found)) => Some((seq![at.1] + actions, found)),
                None => None,
            },
            None => None,
        }
    }
}

/// A model that does not load leaves the disk as it was: the setup loads it
/// before anything else, and a prompt or a text that is scored has only read the
/// weights by then. No other command loads it.
pub proof fn law_failed_load_changes_nothing(command: Command, disk: Disk, world: World)
    ensures
        before_load(begins(command), disk, world, 6) == match command {
            Command::Setup => Some((Seq::<ActionView>::empty(), disk)),
            Command::Hook(field) => if is_scored(prompt_in(field)) && disk.weights is Some {
                Some((seq![ActionView::ReadWeights], disk))
            } else {
                None
            },
            Command::Predict(_) => if disk.weights is Some {
                Some((seq![ActionView::ReadWeights], disk))
            } else {
                None
            },
            Command::Label(_) => None,
            Command::Stats => None,
        },
{
    reveal_with_fuel(before_load, 7);
    let read = seq![ActionView::ReadWeights];
    assert(read + Seq::<ActionView>::empty() =~= read);
}

} // verus!
