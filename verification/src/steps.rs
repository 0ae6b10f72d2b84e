//! What each step of a command hands on, field by field.

use crate::error::TriageError;
use crate::id::hex;
use crate::id::law_id_stands_for_its_number;
use crate::id::number_of;
use crate::json::parsed_members;
use crate::model::Weights;
use crate::promises::calls_not;
use crate::promises::calls_trivial;
use crate::promises::comes_nearest;
use crate::promises::drops;
use crate::promises::half_or_more;
use crate::promises::held_label;
use crate::promises::held_p;
use crate::promises::hold_rates;
use crate::promises::holds_report;
use crate::promises::is_prompt;
use crate::promises::is_request;
use crate::promises::lemma_both;
use crate::promises::lemma_holds_report;
use crate::promises::lemma_prediction;
use crate::promises::lemma_prompt;
use crate::promises::lemma_rates;
use crate::promises::lemma_words;
use crate::promises::score_at;
use crate::promises::word_for;
use crate::protocol::embeddings_of;
use crate::protocol::example_views;
use crate::protocol::examples_of;
use crate::protocol::next;
use crate::protocol::pair_view;
use crate::protocol::vector_views;
use crate::report::fit_pairs;
use crate::report::pairs_of;
use crate::report::report_of;
use crate::report::stats_of;
use crate::report::Report;
use crate::session::hook;
use crate::session::hook_prompt;
use crate::session::label_pending;
use crate::session::predict;
use crate::session::setup;
use crate::session::stats;
use crate::session::step;
use crate::session::step_with;
use crate::session::Action;
use crate::session::Event;
use crate::session::Example;
use crate::session::Output;
use crate::session::Purpose;
use crate::session::Source;
use crate::session::State;
use crate::single::law_half_by_its_bits;
use crate::store::row_views;
use crate::store::Row;
use crate::store::Scored;
use crate::text::trimmed;
use vstd::prelude::*;

verus! {

/// How the hook begins on a prompt field: see `law_hook_prompt`.
pub open spec fn hook_goes(field: Seq<char>, state: State, action: Action) -> bool {
    forall|prompt: Seq<char>| #[trigger]
        is_prompt(field, prompt) ==> {
            &&& prompt.len() == 0 || prompt[0] == '/' ==> state is Finished && action
                == Action::Finish(None)
            &&& drops(prompt) ==> state is CancelLooking && action is ReadPending
            &&& calls_trivial(prompt) ==> state == (State::LabelLooking {
                trivial: true,
                source: Source::Reply,
            }) && action is ReadPending
            &&& calls_not(prompt) ==> state == (State::LabelLooking {
                trivial: false,
                source: Source::Reply,
            }) && action is ReadPending
            &&& is_request(prompt) && 300 < prompt.len() <= usize::MAX ==> {
                &&& state is Finished
                &&& action matches Action::Finish(Some(Output::Predicted(told)))
                &&& told.verdict@ == "NOT"@
                &&& told.p.bits == 0
                &&& told.hundredths == Some(0u64)
                &&& told.chars == prompt.len()
                &&& told.long
            }
            &&& is_request(prompt) && prompt.len() <= 300 ==> {
                &&& state matches State::ScoreWeighing { purpose: Purpose::Keep { chars }, text }
                &&& chars == prompt.len()
                &&& text@ == prompt
                &&& action is ReadWeights
            }
        }
}

/// The hook looks at the prompt field between its outer whitespace. It stops on
/// an empty prompt and on a slash command, looks for the pending prompt on one of
/// the six words in any case, tells of a prompt of more than 300 characters that
/// it is long, and begins to score any other.
pub proof fn law_hook_prompt(field: Option<String>, r: (State, Action))
    requires
        call_ensures(hook_prompt, (field,), r),
    ensures
        field is None ==> r.0 is Finished && r.1 == Action::Finish(None),
        field matches Some(s) ==> hook_goes(s@, r.0, r.1),
{
    if let Some(s) = field {
        assert forall|prompt: Seq<char>| #[trigger] is_prompt(s@, prompt) implies prompt
            == trimmed(s@) by {
            lemma_prompt(s@, prompt);
        }
        lemma_words(trimmed(s@));
    }
}

/// The hook takes the string under `prompt` in its input, and fails with the
/// cause where the input is not JSON.
pub proof fn law_hook(input: &str, r: Result<(State, Action), TriageError>)
    requires
        call_ensures(hook, (input,), r),
    ensures
        match parsed_members(input@) {
            Ok(members) => {
                &&& r matches Ok(pair)
                &&& members.contains_key("prompt"@) ==> hook_goes(
                    members["prompt"@],
                    pair.0,
                    pair.1,
                )
                &&& !members.contains_key("prompt"@) ==> pair.0 is Finished && pair.1
                    == Action::Finish(None)
            },
            Err(cause) => r matches Err(TriageError::BadInput(e)) && e == cause,
        },
{
    if let Ok(members) = parsed_members(input@) {
        if members.contains_key("prompt"@) {
            let s = members["prompt"@];
            assert forall|prompt: Seq<char>| #[trigger] is_prompt(s, prompt) implies prompt
                == trimmed(s) by {
                lemma_prompt(s, prompt);
            }
            lemma_words(trimmed(s));
        }
    }
}

/// How the commands other than the hook begin.
pub proof fn law_beginnings(
    trivial: bool,
    text: &str,
    setting_up: (State, Action),
    labeling: (State, Action),
    scoring: (State, Action),
    counting: (State, Action),
)
    requires
        call_ensures(setup, (), setting_up),
        call_ensures(label_pending, (trivial,), labeling),
        call_ensures(predict, (text,), scoring),
        call_ensures(stats, (), counting),
    ensures
        setting_up.0 is SetupLoading,
        setting_up.1 == (Action::LoadModel { show_progress: true }),
        labeling.0 == (State::LabelLooking { trivial, source: Source::Hand }),
        labeling.1 is ReadPending,
        scoring.0 matches State::ScoreWeighing { purpose, text: asked } && purpose is Show
            && asked@ == text@,
        scoring.1 is ReadWeights,
        counting.0 is StatsReading,
        counting.1 is ReadDataset,
{
}

/// The same prompt, field by field.
pub open spec fn same_scored(a: Scored, b: Scored) -> bool {
    &&& a.id@ == b.id@
    &&& a.ts == b.ts
    &&& a.prompt@ == b.prompt@
    &&& a.embedding@ == b.embedding@
    &&& a.p == b.p
}

/// The same weights, field by field.
pub open spec fn same_weights(a: Weights, b: Weights) -> bool {
    a.w@ == b.w@ && a.b == b.b
}

/// The same rows, one by one.
pub open spec fn same_rows(a: Seq<Row>, b: Seq<Row>) -> bool {
    &&& a.len() == b.len()
    &&& forall|i: int|
        0 <= i < a.len() ==> same_scored((#[trigger] a[i]).scored, b[i].scored) && a[i].label
            == b[i].label
}

/// A step from `state` on `event` may give `r`, whatever number a prompt gets.
pub open spec fn steps_to(state: State, event: Event, r: Option<(State, Action)>) -> bool {
    ||| call_ensures(step, (state, event), r)
    ||| exists|id: u64| #[trigger] call_ensures(step_with, (state, event, id), r)
}

/// What each state waits for.
pub open spec fn expects(state: State, event: Event) -> bool {
    match state {
        State::SetupLoading => event is Loaded,
        State::SetupChecking => event is Weights,
        State::SetupDrawing => event is Drawn,
        State::SetupSaving => event is Done,
        State::CancelLooking => event is Pending,
        State::CancelClearing => event is Done,
        State::LabelLooking { .. } => event is Pending,
        State::LabelClearing { .. } => event is Done,
        State::LabelAppending { .. } => event is Done,
        State::LabelReading { .. } => event is Dataset,
        State::LabelFitting { .. } => event is Trained,
        State::LabelSaving { .. } => event is Done,
        State::ScoreWeighing { .. } => event is Weights,
        State::ScoreLoading { .. } => event is Loaded,
        State::ScoreEmbedding { .. } => event is Embedded,
        State::ScoreTiming { .. } => event is Clock,
        State::ScorePredicting { .. } => event is Probability,
        State::ScoreSaving { .. } => event is Done,
        State::StatsReading => event is Dataset,
        State::StatsWeighing { .. } => event is Weights,
        State::StatsRescoring { rows } => event matches Event::Rescored(scores) && scores@.len()
            == rows@.len(),
        State::Finished => false,
    }
}

/// A step is taken on exactly the events that the state waits for.
pub proof fn law_step_waits(state: State, event: Event, r: Option<(State, Action)>)
    requires
        steps_to(state, event, r),
    ensures
        r is Some <==> expects(state, event),
{
}

/// The steps of the setup: the model is loaded, and weights of 384 dimensions
/// are drawn and written where there are none.
pub proof fn law_setup_steps(state: State, event: Event, r: Option<(State, Action)>)
    requires
        steps_to(state, event, r),
    ensures
        state is SetupLoading && event is Loaded ==> {
            &&& r matches Some((then, action))
            &&& then is SetupChecking
            &&& action is ReadWeights
        },
        state is SetupChecking ==> (event matches Event::Weights(found) ==> {
            &&& r matches Some((then, action))
            &&& found is Some ==> then is Finished && action == Action::Finish(Some(Output::Ready))
            &&& found is None ==> then is SetupDrawing && action == (Action::DrawWeights {
                dim: 384,
            })
        }),
        state is SetupDrawing ==> (event matches Event::Drawn(weights) ==> {
            &&& r matches Some((then, Action::WriteWeights(written)))
            &&& then is SetupSaving
            &&& same_weights(written, weights)
        }),
        state is SetupSaving && event is Done ==> {
            &&& r matches Some((then, action))
            &&& then is Finished
            &&& action == Action::Finish(Some(Output::Ready))
        },
{
}

/// The steps of a cancel reply: the pending prompt is cleared where there is one.
pub proof fn law_cancel_steps(state: State, event: Event, r: Option<(State, Action)>)
    requires
        steps_to(state, event, r),
    ensures
        state is CancelLooking ==> (event matches Event::Pending(found) ==> {
            &&& r matches Some((then, action))
            &&& found is Some ==> then is CancelClearing && action is ClearPending
            &&& found is None ==> then is Finished && action == Action::Finish(None)
        }),
        state is CancelClearing && event is Done ==> {
            &&& r matches Some((then, action))
            &&& then is Finished
            &&& action == Action::Finish(Some(Output::Cancelled))
        },
{
}

/// The first steps of a label: the pending prompt is taken off, and is appended
/// with the label as it was. With nothing pending, a reply stops and a label by
/// hand fails.
pub proof fn law_label_steps(state: State, event: Event, r: Option<(State, Action)>)
    requires
        steps_to(state, event, r),
    ensures
        state matches State::LabelLooking { trivial, source } ==> (event matches Event::Pending(
            found,
        ) ==> {
            &&& r matches Some((then, action))
            &&& found matches Some(pending) ==> {
                &&& then matches State::LabelClearing { trivial: label, source: from, pending: kept }
                &&& label == trivial
                &&& from == source
                &&& same_scored(kept, pending)
                &&& action is ClearPending
            }
            &&& found is None && source is Reply ==> then is Finished && action == Action::Finish(
                None,
            )
            &&& found is None && source is Hand ==> then is Finished && action == Action::Fail(
                TriageError::NoPending,
            )
        }),
        state matches State::LabelClearing { trivial, source, pending } ==> (event is Done ==> {
            &&& r matches Some((then, Action::AppendRow(row)))
            &&& same_scored(row.scored, pending)
            &&& row.label == trivial
            &&& then matches State::LabelAppending { trivial: label, source: from, prompt }
            &&& label == trivial
            &&& from == source
            &&& prompt@ == pending.prompt@
        }),
        state matches State::LabelAppending { trivial, source, prompt } ==> (event is Done ==> {
            &&& r matches Some((then, action))
            &&& action is ReadDataset
            &&& then matches State::LabelReading { trivial: label, source: from, prompt: kept }
            &&& label == trivial
            &&& from == source
            &&& kept@ == prompt@
        }),
{
}

/// One example for each row, in its place: its embedding and its label.
pub open spec fn examples_match(examples: Seq<Example>, rows: Seq<Row>) -> bool {
    &&& examples.len() == rows.len()
    &&& forall|i: int|
        0 <= i < rows.len() ==> (#[trigger] examples[i]).embedding@ == rows[i].scored.embedding@
            && examples[i].label == rows[i].label
}

/// What is printed after a label.
pub open spec fn tells_label(
    output: Output,
    trivial: bool,
    source: Source,
    prompt: Seq<char>,
    report: Report,
) -> bool {
    match source {
        Source::Reply => {
            &&& output matches Output::Labeled { label, report: told, prompt: back }
            &&& label@ == word_for(trivial)
            &&& same_report(told, report)
            &&& back@ == prompt
        },
        Source::Hand => {
            &&& output matches Output::LabeledByHand { label, report: told }
            &&& label@ == word_for(trivial)
            &&& same_report(told, report)
        },
    }
}

/// The same report, number by number.
pub open spec fn same_report(a: Report, b: Report) -> bool {
    &&& a.rows == b.rows
    &&& a.trivial_rows == b.trivial_rows
    &&& a.recent == b.recent
    &&& a.rates.accuracy.num == b.rates.accuracy.num
    &&& a.rates.accuracy.den == b.rates.accuracy.den
    &&& a.rates.balanced_accuracy.num == b.rates.balanced_accuracy.num
    &&& a.rates.balanced_accuracy.den == b.rates.balanced_accuracy.den
}

/// The rows that a label read back are all reported on. Where both labels occur
/// among them, a fit in 384 dimensions is asked for, with one example for each
/// row; where not, the label is done. So both labels occur among the examples of
/// every fit.
pub proof fn law_label_reading(state: State, event: Event, r: Option<(State, Action)>)
    requires
        steps_to(state, event, r),
    ensures
        state matches State::LabelReading { trivial, source, prompt } ==> (event matches Event::Dataset(
            rows,
        ) ==> {
            let both = (exists|i: int| 0 <= i < rows@.len() && (#[trigger] rows@[i]).label) && (
            exists|i: int| 0 <= i < rows@.len() && !(#[trigger] rows@[i]).label);
            &&& r matches Some((then, action))
            &&& both ==> {
                &&& action matches Action::Train { examples, dim }
                &&& dim == 384
                &&& examples_match(examples@, rows@)
                &&& exists|i: int| 0 <= i < examples@.len() && (#[trigger] examples@[i]).label
                &&& exists|i: int| 0 <= i < examples@.len() && !(#[trigger] examples@[i]).label
                &&& then matches State::LabelFitting {
                    trivial: label,
                    source: from,
                    prompt: kept,
                    report,
                }
                &&& label == trivial
                &&& from == source
                &&& kept@ == prompt@
                &&& holds_report(report, rows@)
            }
            &&& !both ==> {
                &&& then is Finished
                &&& action matches Action::Finish(Some(output))
                &&& exists|report: Report| #[trigger]
                    holds_report(report, rows@) && tells_label(
                        output,
                        trivial,
                        source,
                        prompt@,
                        report,
                    )
            }
        }),
        r matches Some((_, Action::Train { examples, dim })) ==> {
            &&& state is LabelReading
            &&& event matches Event::Dataset(rows)
            &&& dim == 384
            &&& examples_match(examples@, rows@)
            &&& exists|i: int| 0 <= i < examples@.len() && (#[trigger] examples@[i]).label
            &&& exists|i: int| 0 <= i < examples@.len() && !(#[trigger] examples@[i]).label
        },
{
    if let State::LabelReading { trivial, source, prompt } = state {
        if let Event::Dataset(rows) = event {
            let views = row_views(rows@);
            lemma_both(rows@);
            let told: Report = match r->0 {
                (State::LabelFitting { report, .. }, _) => report,
                (_, Action::Finish(Some(Output::Labeled { report, .. }))) => report,
                (_, Action::Finish(Some(Output::LabeledByHand { report, .. }))) => report,
                _ => arbitrary(),
            };
            assert(told@ == report_of(views));
            lemma_holds_report(told, rows@);
            if let Action::Train { examples, dim } = (r->0).1 {
                let all = example_views(examples@);
                assert(all == examples_of(views));
                assert forall|i: int| 0 <= i < rows@.len() implies (
                #[trigger] examples@[i]).embedding@ == rows@[i].scored.embedding@
                    && examples@[i].label == rows@[i].label by {
                    assert(all[i] == examples@[i]@);
                    assert(all[i] == examples_of(views)[i]);
                }
                let i = choose|i: int| 0 <= i < rows@.len() && (#[trigger] rows@[i]).label;
                let j = choose|j: int| 0 <= j < rows@.len() && !(#[trigger] rows@[j]).label;
                assert(examples@[i].label && !examples@[j].label);
            }
        }
    }
}

/// The last steps of a label: the fitted weights are written as they came, and
/// the report that was made is told.
pub proof fn law_fit_steps(state: State, event: Event, r: Option<(State, Action)>)
    requires
        steps_to(state, event, r),
    ensures
        state matches State::LabelFitting { trivial, source, prompt, report } ==> (
        event matches Event::Trained(weights) ==> {
            &&& r matches Some((then, Action::WriteWeights(written)))
            &&& same_weights(written, weights)
            &&& then matches State::LabelSaving {
                trivial: label,
                source: from,
                prompt: kept,
                report: told,
            }
            &&& label == trivial
            &&& from == source
            &&& kept@ == prompt@
            &&& same_report(told, report)
        }),
        state matches State::LabelSaving { trivial, source, prompt, report } ==> (event is Done ==> {
            &&& r matches Some((then, Action::Finish(Some(output))))
            &&& then is Finished
            &&& tells_label(output, trivial, source, prompt@, report)
        }),
{
}

/// The steps of a score, up to the clock: the weights that were read and the text
/// are handed on as they are, and exactly that text is embedded. Without weights,
/// or where the model gives no vector, the command fails for that reason.
pub proof fn law_embedding_steps(state: State, event: Event, r: Option<(State, Action)>)
    requires
        steps_to(state, event, r),
    ensures
        state matches State::ScoreWeighing { purpose, text } ==> (event matches Event::Weights(
            found,
        ) ==> {
            &&& r matches Some((then, action))
            &&& found matches Some(weights) ==> {
                &&& then matches State::ScoreLoading { purpose: why, text: asked, weights: kept }
                &&& why == purpose
                &&& asked@ == text@
                &&& same_weights(kept, weights)
                &&& action == (Action::LoadModel { show_progress: false })
            }
            &&& found is None ==> then is Finished && action == Action::Fail(
                TriageError::NoWeights,
            )
        }),
        state matches State::ScoreLoading { purpose, text, weights } ==> (event is Loaded ==> {
            &&& r matches Some((then, Action::Embed(embedded)))
            &&& embedded@ == text@
            &&& then matches State::ScoreEmbedding { purpose: why, text: asked, weights: kept }
            &&& why == purpose
            &&& asked@ == text@
            &&& same_weights(kept, weights)
        }),
        state matches State::ScoreEmbedding { purpose, text, weights } ==> (
        event matches Event::Embedded(result) ==> {
            &&& r matches Some((then, action))
            &&& result matches Ok(vector) ==> {
                &&& then matches State::ScoreTiming {
                    purpose: why,
                    text: asked,
                    weights: kept,
                    embedding,
                }
                &&& why == purpose
                &&& asked@ == text@
                &&& same_weights(kept, weights)
                &&& embedding@ == vector@
                &&& action is ReadClock
            }
            &&& result matches Err(e) ==> {
                &&& then is Finished
                &&& action matches Action::Fail(told)
                &&& told == e
            }
        }),
{
}

/// The identifier, the time and the embedding of a scored prompt: the identifier
/// is that of the number that was drawn, in hexadecimal, and the score that is
/// asked for is that of the weights and the embedding.
pub proof fn law_timing_step(state: State, event: Event, id: u64, r: Option<(State, Action)>)
    requires
        call_ensures(step_with, (state, event, id), r),
    ensures
        state matches State::ScoreTiming { purpose, text, weights, embedding } ==> (
        event matches Event::Clock(now) ==> {
            &&& r matches Some((then, Action::Predict { weights: by, embedding: of }))
            &&& same_weights(by, weights)
            &&& of@ == embedding@
            &&& then matches State::ScorePredicting {
                purpose: why,
                text: asked,
                id: name,
                ts,
                embedding: kept,
            }
            &&& why == purpose
            &&& asked@ == text@
            &&& number_of(name@) == id
            &&& name@.len() > 0
            &&& name@[0] == '0' ==> name@.len() == 1
            &&& ts == now
            &&& kept@ == embedding@
        }),
{
    law_id_stands_for_its_number(id as nat);
}

/// The same step where the number is drawn: the identifier stands for a number of
/// 64 bits.
pub proof fn law_drawn_timing_step(state: State, event: Event, r: Option<(State, Action)>)
    requires
        call_ensures(step, (state, event), r),
    ensures
        state matches State::ScoreTiming { purpose, text, weights, embedding } ==> (
        event matches Event::Clock(now) ==> {
            &&& r matches Some((then, Action::Predict { weights: by, embedding: of }))
            &&& same_weights(by, weights)
            &&& of@ == embedding@
            &&& then matches State::ScorePredicting {
                purpose: why,
                text: asked,
                id: name,
                ts,
                embedding: kept,
            }
            &&& why == purpose
            &&& asked@ == text@
            &&& 0 <= number_of(name@) <= u64::MAX
            &&& name@ == hex(number_of(name@) as nat)
            &&& ts == now
            &&& kept@ == embedding@
        }),
{
    let id = choose|id: u64|
        match r {
            Some(pair) => #[trigger] next(state@, event@, id) == Some(pair_view(pair)),
            None => next(state@, event@, id) is None,
        };
    law_id_stands_for_its_number(id as nat);
}

/// The last steps of a score. A prompt that is to be kept is written as the
/// pending one, with its identifier, time, embedding and score, and what is told
/// is the score: the verdict, the nearest hundredths, the length, and not that it
/// is long. A text that is to be shown is judged and not kept.
pub proof fn law_scoring_steps(state: State, event: Event, r: Option<(State, Action)>)
    requires
        steps_to(state, event, r),
    ensures
        state matches State::ScorePredicting { purpose, text, id, ts, embedding } ==> (
        event matches Event::Probability(p) ==> {
            &&& r matches Some((then, action))
            &&& purpose matches Purpose::Keep { chars } ==> {
                &&& action matches Action::WritePending(kept)
                &&& kept.id@ == id@
                &&& kept.ts == ts
                &&& kept.prompt@ == text@
                &&& kept.embedding@ == embedding@
                &&& kept.p == p
                &&& then matches State::ScoreSaving { output: Output::Predicted(told) }
                &&& told.verdict@ == word_for(half_or_more(p))
                &&& told.p == p
                &&& told.hundredths is Some <==> p.bits <= 0x3f80_0000
                &&& told.hundredths matches Some(k) ==> {
                    &&& comes_nearest(p, k as int)
                    &&& half_or_more(p) ==> 50 <= k <= 100
                    &&& !half_or_more(p) ==> k <= 50
                }
                &&& told.chars == chars
                &&& !told.long
            }
            &&& purpose is Show ==> {
                &&& then is Finished
                &&& action matches Action::Finish(Some(Output::Judged { verdict, p: shown }))
                &&& verdict@ == word_for(half_or_more(p))
                &&& shown == p
            }
        }),
        state matches State::ScoreSaving { output } ==> (event is Done ==> {
            &&& r matches Some((then, Action::Finish(Some(told))))
            &&& then is Finished
            &&& told@ == output@
            &&& same_output(told, output)
        }),
{
    if let State::ScorePredicting { purpose, text, id, ts, embedding } = state {
        if let Event::Probability(p) = event {
            law_half_by_its_bits(p);
            if let Purpose::Keep { chars } = purpose {
                lemma_prediction(p, chars);
            }
        }
    }
}

/// The same output, where it tells of a prompt: field by field.
pub open spec fn same_output(a: Output, b: Output) -> bool {
    b matches Output::Predicted(old) ==> {
        &&& a matches Output::Predicted(new)
        &&& new.verdict@ == old.verdict@
        &&& new.p == old.p
        &&& new.hundredths == old.hundredths
        &&& new.chars == old.chars
        &&& new.long == old.long
    }
}

/// The steps of the statistics: the scores of all rows under the weights on disk
/// are asked for, one for each row in its place, and all rows are told of.
pub proof fn law_stats_steps(state: State, event: Event, r: Option<(State, Action)>)
    requires
        steps_to(state, event, r),
    ensures
        state is StatsReading ==> (event matches Event::Dataset(rows) ==> {
            &&& r matches Some((then, action))
            &&& action is ReadWeights
            &&& then matches State::StatsWeighing { rows: kept }
            &&& same_rows(kept@, rows@)
        }),
        state matches State::StatsWeighing { rows } ==> (event matches Event::Weights(found) ==> {
            &&& r matches Some((then, action))
            &&& found matches Some(weights) ==> {
                &&& action matches Action::Rescore { weights: by, embeddings }
                &&& same_weights(by, weights)
                &&& embeddings@.len() == rows@.len()
                &&& forall|i: int|
                    0 <= i < rows@.len() ==> (#[trigger] embeddings@[i])@
                        == rows@[i].scored.embedding@
                &&& then matches State::StatsRescoring { rows: kept }
                &&& same_rows(kept@, rows@)
            }
            &&& found is None ==> then is Finished && action == Action::Fail(
                TriageError::NoWeights,
            )
        }),
        state matches State::StatsRescoring { rows } ==> (event matches Event::Rescored(scores) ==> (
        scores@.len() == rows@.len() ==> {
            &&& r matches Some((then, Action::Finish(Some(Output::Stats(told)))))
            &&& then is Finished
            &&& holds_report(told.report, rows@)
            &&& hold_rates(told.overall, rows@.len(), held_p(rows@, 0), held_label(rows@, 0))
            &&& hold_rates(told.fit, rows@.len(), score_at(scores@), held_label(rows@, 0))
        })),
{
    match (state, event) {
        (State::StatsReading, Event::Dataset(rows)) => {
            if let Some((State::StatsWeighing { rows: kept }, _)) = r {
                lemma_same_rows(kept@, rows@);
            }
        },
        (State::StatsWeighing { rows }, Event::Weights(Some(weights))) => {
            if let Some((State::StatsRescoring { rows: kept }, Action::Rescore { embeddings, .. })) = r {
                lemma_same_rows(kept@, rows@);
                let all = vector_views(embeddings@);
                assert(all == embeddings_of(row_views(rows@)));
                assert forall|i: int| 0 <= i < rows@.len() implies (#[trigger] embeddings@[i])@
                    == rows@[i].scored.embedding@ by {
                    assert(all[i] == embeddings@[i]@);
                    assert(all[i] == embeddings_of(row_views(rows@))[i]);
                }
            }
        },
        (State::StatsRescoring { rows }, Event::Rescored(scores)) => {
            if let Some((_, Action::Finish(Some(Output::Stats(told))))) = r {
                let views = row_views(rows@);
                assert(told@ == stats_of(views, scores@));
                lemma_holds_report(told.report, rows@);
                lemma_rates(pairs_of(views), held_p(rows@, 0), held_label(rows@, 0));
                lemma_rates(fit_pairs(views, scores@), score_at(scores@), held_label(rows@, 0));
            }
        },
        _ => {},
    }
}

proof fn lemma_same_rows(a: Seq<Row>, b: Seq<Row>)
    requires
        row_views(a) == row_views(b),
    ensures
        same_rows(a, b),
{
    assert(row_views(a).len() == a.len());
    assert forall|i: int| 0 <= i < a.len() implies same_scored((#[trigger] a[i]).scored, b[i].scored)
        && a[i].label == b[i].label by {
        assert(row_views(a)[i] == a[i]@);
        assert(row_views(b)[i] == b[i]@);
    }
}

} // verus!
