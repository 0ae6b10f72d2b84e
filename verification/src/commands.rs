//! What the commands do, said of what the user gives, what is on disk before and
//! after, and what is printed.

use crate::error::Failure;
use crate::id::law_id_stands_for_its_number;
use crate::id::number_of;
use crate::laws::law_long_prompt;
use crate::laws::outcome;
use crate::laws::play;
use crate::laws::Command;
use crate::laws::Disk;
use crate::laws::Outcome;
use crate::laws::World;
use crate::model::WeightsView;
use crate::promises::are_rates;
use crate::promises::calls_not;
use crate::promises::calls_trivial;
use crate::promises::drops;
use crate::promises::half_or_more;
use crate::promises::is_prompt;
use crate::promises::is_request;
use crate::promises::label_from;
use crate::promises::lemma_prediction;
use crate::promises::lemma_prompt;
use crate::promises::lemma_rates;
use crate::promises::lemma_report;
use crate::promises::lemma_words;
use crate::promises::p_from;
use crate::promises::reports;
use crate::promises::tells_score;
use crate::promises::word_for;
use crate::protocol::embeddings_of;
use crate::protocol::examples_of;
use crate::protocol::ExampleView;
use crate::protocol::OutputView;
use crate::report::both_classes;
use crate::report::fit_pairs;
use crate::report::pairs_of;
use crate::single::law_half_by_its_bits;
use crate::single::Single;
use crate::store::RowView;
use crate::text::trimmed;
use vstd::prelude::*;

verus! {

/// Some row is labeled trivial, and some row is not.
pub open spec fn has_both_labels(rows: Seq<RowView>) -> bool {
    exists|i: int, j: int|
        0 <= i < rows.len() && 0 <= j < rows.len() && (#[trigger] rows[i]).label && !(
        #[trigger] rows[j]).label
}

/// One example for each row, in its place: its embedding and its label.
pub open spec fn rows_as_examples(rows: Seq<RowView>) -> Seq<ExampleView> {
    Seq::new(
        rows.len(),
        |i: int| ExampleView { embedding: rows[i].scored.embedding, label: rows[i].label },
    )
}

/// The pending prompt got the label `trivial`: it is pending no more and is the
/// one new row, behind those that were there. Where both labels occur among the
/// rows, the weights are the fit in 384 dimensions to all of them, one example
/// for each; where not, they are as they were.
pub open spec fn labels(before: Disk, after: Disk, trivial: bool, world: World) -> bool {
    let n = before.rows.len() as int;
    &&& before.pending is Some
    &&& after.pending is None
    &&& after.rows.len() == n + 1
    &&& forall|i: int| 0 <= i < n ==> #[trigger] after.rows[i] == before.rows[i]
    &&& after.rows[n].scored == before.pending->0
    &&& after.rows[n].label == trivial
    &&& after.weights == if has_both_labels(after.rows) {
        Some((world.fit)(rows_as_examples(after.rows), 384))
    } else {
        before.weights
    }
}

proof fn lemma_both_labels(rows: Seq<RowView>)
    ensures
        has_both_labels(rows) <==> both_classes(rows),
        rows_as_examples(rows) == examples_of(rows),
{
    if both_classes(rows) {
        let i = choose|i: int| 0 <= i < rows.len() && (#[trigger] rows[i]).label;
        let j = choose|j: int| 0 <= j < rows.len() && !(#[trigger] rows[j]).label;
        assert(rows[i].label && !rows[j].label);
    }
    assert(rows_as_examples(rows) =~= examples_of(rows));
}

/// An input of the hook without a prompt passes through untouched.
pub proof fn law_hook_without_a_prompt(disk: Disk, world: World)
    ensures
        outcome(Command::Hook(None), disk, world) == Some(Outcome { disk, result: Ok(None) }),
{
    reveal_with_fuel(play, 7);
}

/// A prompt that is empty or begins with a slash passes through untouched.
pub proof fn law_hook_passes(field: Seq<char>, prompt: Seq<char>, disk: Disk, world: World)
    requires
        is_prompt(field, prompt),
        prompt.len() == 0 || prompt[0] == '/',
    ensures
        outcome(Command::Hook(Some(field)), disk, world) == Some(
            Outcome { disk, result: Ok(None) },
        ),
{
    reveal_with_fuel(play, 7);
    lemma_prompt(field, prompt);
}

/// The word `c` or `cancel`, in any case, drops the pending prompt and tells so;
/// with nothing pending, nothing happens. The rows and the weights stay.
pub proof fn law_hook_drops(field: Seq<char>, prompt: Seq<char>, disk: Disk, world: World)
    requires
        is_prompt(field, prompt),
        drops(prompt),
    ensures
        outcome(Command::Hook(Some(field)), disk, world) == Some(
            Outcome {
                disk: Disk { pending: None, rows: disk.rows, weights: disk.weights },
                result: Ok(
                    if disk.pending is Some {
                        Some(OutputView::Cancelled)
                    } else {
                        None
                    },
                ),
            },
        ),
{
    reveal_with_fuel(play, 7);
    lemma_prompt(field, prompt);
    lemma_words(prompt);
}

/// The words `t` and `trivial`, or `n` and `not`, in any case, label the pending
/// prompt, report on all rows and hand the prompt back; with nothing pending,
/// nothing happens.
pub proof fn law_hook_labels(
    field: Seq<char>,
    prompt: Seq<char>,
    trivial: bool,
    disk: Disk,
    world: World,
)
    requires
        is_prompt(field, prompt),
        if trivial {
            calls_trivial(prompt)
        } else {
            calls_not(prompt)
        },
    ensures
        disk.pending is None ==> outcome(Command::Hook(Some(field)), disk, world) == Some(
            Outcome { disk, result: Ok(None) },
        ),
        disk.pending is Some ==> {
            &&& outcome(Command::Hook(Some(field)), disk, world) matches Some(end)
            &&& labels(disk, end.disk, trivial, world)
            &&& end.result matches Ok(Some(OutputView::Labeled { label, report, prompt: back }))
            &&& label == word_for(trivial)
            &&& reports(report, end.disk.rows)
            &&& back == disk.pending->0.prompt
        },
{
    reveal_with_fuel(play, 7);
    lemma_prompt(field, prompt);
    lemma_words(prompt);
    if disk.pending is Some {
        let rows = disk.rows.push(RowView { scored: disk.pending->0, label: trivial });
        lemma_both_labels(rows);
        lemma_report(rows);
    }
}

/// A label by hand does the same to the disk and reports the same; with nothing
/// pending it fails, and nothing changes.
pub proof fn law_label_command(trivial: bool, disk: Disk, world: World)
    ensures
        disk.pending is None ==> outcome(Command::Label(trivial), disk, world) == Some(
            Outcome { disk, result: Err(Failure::NoPending) },
        ),
        disk.pending is Some ==> {
            &&& outcome(Command::Label(trivial), disk, world) matches Some(end)
            &&& labels(disk, end.disk, trivial, world)
            &&& end.result matches Ok(Some(OutputView::LabeledByHand { label, report }))
            &&& label == word_for(trivial)
            &&& reports(report, end.disk.rows)
        },
{
    reveal_with_fuel(play, 7);
    if disk.pending is Some {
        let rows = disk.rows.push(RowView { scored: disk.pending->0, label: trivial });
        lemma_both_labels(rows);
        lemma_report(rows);
    }
}

/// Every other prompt of more than 300 characters is told to be long and not
/// trivial, at zero. Nothing on disk changes.
pub proof fn law_hook_finds_too_long(field: Seq<char>, prompt: Seq<char>, disk: Disk, world: World)
    requires
        is_prompt(field, prompt),
        is_request(prompt),
        300 < prompt.len() <= usize::MAX,
    ensures
        ({
            &&& outcome(Command::Hook(Some(field)), disk, world) matches Some(end)
            &&& end.disk == disk
            &&& end.result matches Ok(Some(OutputView::Predicted(told)))
            &&& told.verdict == "NOT"@
            &&& told.p.bits == 0
            &&& told.hundredths == Some(0int)
            &&& told.chars == prompt.len()
            &&& told.long
        }),
{
    reveal_with_fuel(play, 7);
    lemma_prompt(field, prompt);
    lemma_words(prompt);
}

/// Every other prompt of at most 300 characters is scored: with weights on disk
/// and a vector from the model, it is left pending with its score, the rows and
/// the weights stay, and what is told is the score, not that it is long. Without
/// weights, or without a vector, it fails for that reason and nothing changes.
pub proof fn law_hook_scores(field: Seq<char>, prompt: Seq<char>, disk: Disk, world: World)
    requires
        is_prompt(field, prompt),
        is_request(prompt),
        prompt.len() <= 300,
    ensures
        ({
            &&& outcome(Command::Hook(Some(field)), disk, world) matches Some(end)
            &&& end.disk.rows == disk.rows
            &&& end.disk.weights == disk.weights
            &&& match (disk.weights, (world.embed)(prompt)) {
                (Some(weights), Ok(vector)) => {
                    let p = (world.judge)(weights, vector);
                    &&& end.disk.pending matches Some(kept)
                    &&& number_of(kept.id) == world.id
                    &&& kept.ts == world.clock
                    &&& kept.prompt == prompt
                    &&& kept.embedding == vector
                    &&& kept.p == p
                    &&& end.result matches Ok(Some(OutputView::Predicted(told)))
                    &&& tells_score(told, p, prompt.len() as int)
                },
                (Some(_), Err(failure)) => {
                    &&& end.disk.pending == disk.pending
                    &&& end.result == Err::<Option<OutputView>, Failure>(failure)
                },
                (None, _) => {
                    &&& end.disk.pending == disk.pending
                    &&& end.result == Err::<Option<OutputView>, Failure>(Failure::NoWeights)
                },
            }
        }),
{
    reveal_with_fuel(play, 7);
    lemma_prompt(field, prompt);
    lemma_words(prompt);
    law_id_stands_for_its_number(world.id as nat);
    if disk.weights is Some && (world.embed)(prompt) is Ok {
        lemma_prediction(
            (world.judge)(disk.weights->0, (world.embed)(prompt)->Ok_0),
            prompt.len() as usize,
        );
    }
}

/// Whatever a command predicts, it tells that the prompt is long exactly where
/// the prompt has more than 300 characters, and no other command predicts.
pub proof fn law_only_long_prompts_are_told_long(command: Command, disk: Disk, world: World)
    ensures
        ({
            &&& outcome(command, disk, world) matches Some(end)
            &&& end.result matches Ok(Some(OutputView::Predicted(told))) ==> {
                &&& command matches Command::Hook(Some(field))
                &&& exists|prompt: Seq<char>| #[trigger]
                    is_prompt(field, prompt) && is_request(prompt) && (told.long
                        <==> prompt.len() > 300)
            }
        }),
{
    match command {
        Command::Setup => law_setup_command(disk, world),
        Command::Label(trivial) => law_label_command(trivial, disk, world),
        Command::Predict(text) => law_predict_command(text, disk, world),
        Command::Stats => law_stats_command(disk, world),
        Command::Hook(None) => law_hook_without_a_prompt(disk, world),
        Command::Hook(Some(field)) => {
            let prompt = trimmed(field);
            lemma_prompt(field, prompt);
            lemma_words(prompt);
            assert(is_prompt(field, prompt));
            if prompt.len() == 0 || prompt[0] == '/' {
                law_hook_passes(field, prompt, disk, world);
            } else if drops(prompt) {
                law_hook_drops(field, prompt, disk, world);
            } else if calls_trivial(prompt) || calls_not(prompt) {
                law_hook_labels(field, prompt, calls_trivial(prompt), disk, world);
            } else if prompt.len() <= 300 {
                law_hook_scores(field, prompt, disk, world);
            } else {
                law_long_prompt(Some(field), disk, world);
            }
        },
    }
}

/// Scoring a text by hand shows the verdict and the score of exactly that text,
/// and changes nothing on disk.
pub proof fn law_predict_command(text: Seq<char>, disk: Disk, world: World)
    ensures
        outcome(Command::Predict(text), disk, world) == Some(
            Outcome {
                disk,
                result: match (disk.weights, (world.embed)(text)) {
                    (Some(weights), Ok(vector)) => {
                        let p = (world.judge)(weights, vector);
                        Ok(
                            Some(OutputView::Judged { verdict: word_for(half_or_more(p)), p }),
                        )
                    },
                    (Some(_), Err(failure)) => Err(failure),
                    (None, _) => Err(Failure::NoWeights),
                },
            },
        ),
{
    reveal_with_fuel(play, 7);
    if disk.weights is Some && (world.embed)(text) is Ok {
        law_half_by_its_bits((world.judge)(disk.weights->0, (world.embed)(text)->Ok_0));
    }
}

/// The setup writes random weights of 384 dimensions where there are none.
pub proof fn law_setup_command(disk: Disk, world: World)
    ensures
        outcome(Command::Setup, disk, world) == Some(
            Outcome {
                disk: Disk {
                    pending: disk.pending,
                    rows: disk.rows,
                    weights: match disk.weights {
                        Some(weights) => Some(weights),
                        None => Some((world.drawn)(384)),
                    },
                },
                result: Ok(Some(OutputView::Ready)),
            },
        ),
{
    reveal_with_fuel(play, 7);
}

/// The score that `weights` give the row `i`.
pub open spec fn judged_at(
    rows: Seq<RowView>,
    world: World,
    weights: WeightsView,
) -> spec_fn(int) -> Single {
    |i: int| (world.judge)(weights, rows[i].scored.embedding)
}

/// The statistics change nothing and tell, of `n` rows: the report; the rates
/// over all `n`, by the probability of each when it arrived; and the rates over
/// all `n`, by the score that the current weights give each. Without weights they
/// fail.
pub proof fn law_stats_command(disk: Disk, world: World)
    ensures
        ({
            &&& outcome(Command::Stats, disk, world) matches Some(end)
            &&& end.disk == disk
            &&& match disk.weights {
                Some(weights) => {
                    &&& end.result matches Ok(Some(OutputView::Stats(told)))
                    &&& reports(told.report, disk.rows)
                    &&& are_rates(
                        told.overall,
                        disk.rows.len(),
                        p_from(disk.rows, 0),
                        label_from(disk.rows, 0),
                    )
                    &&& are_rates(
                        told.fit,
                        disk.rows.len(),
                        judged_at(disk.rows, world, weights),
                        label_from(disk.rows, 0),
                    )
                },
                None => end.result == Err::<Option<OutputView>, Failure>(Failure::NoWeights),
            }
        }),
{
    reveal_with_fuel(play, 7);
    if disk.weights is Some {
        let rows = disk.rows;
        let weights = disk.weights->0;
        let scores = embeddings_of(rows).map_values(|e: Seq<Single>| (world.judge)(weights, e));
        lemma_report(rows);
        lemma_rates(pairs_of(rows), p_from(rows, 0), label_from(rows, 0));
        lemma_rates(
            fit_pairs(rows, scores),
            judged_at(rows, world, weights),
            label_from(rows, 0),
        );
    }
}

} // verus!
