use prompt_triage::embed::single_vector;
use prompt_triage::embed::DIM;
use prompt_triage::error::TriageError;
use prompt_triage::model::Ratio;
use prompt_triage::model::Weights;
use prompt_triage::session;
use prompt_triage::session::step;
use prompt_triage::session::step_with;
use prompt_triage::session::Action;
use prompt_triage::session::Event;
use prompt_triage::session::Output;
use prompt_triage::session::State;
use prompt_triage::single::Single;
use prompt_triage::store::Row;
use prompt_triage::store::Scored;

fn single(x: f32) -> Single {
    Single { bits: x.to_bits() }
}

/// A disk in memory, with a log of what was done to it.
struct Disk {
    pending: Option<Scored>,
    rows: Vec<Row>,
    weights: Option<Weights>,
    log: Vec<String>,
    p: f32,
    vectors: Option<usize>,
}

fn disk() -> Disk {
    Disk { pending: None, rows: Vec::new(), weights: None, log: Vec::new(), p: 0.67, vectors: Some(1) }
}

fn ready() -> Disk {
    let mut d = disk();
    d.weights = Some(Weights { w: vec![single(0.25)], b: single(1.0) });
    d
}

fn play(d: &mut Disk, start: (State, Action)) -> Result<Option<Output>, TriageError> {
    let (mut state, mut action) = start;
    loop {
        let event = match action {
            Action::LoadModel { show_progress } => {
                d.log.push(format!("load {show_progress}"));
                Event::Loaded
            }
            Action::ReadWeights => Event::Weights(d.weights.clone()),
            Action::DrawWeights { dim } => {
                d.log.push(format!("draw {dim}"));
                Event::Drawn(Weights { w: vec![single(-1.0); dim], b: single(0.0) })
            }
            Action::WriteWeights(weights) => {
                d.log.push("write weights".to_string());
                d.weights = Some(weights);
                Event::Done
            }
            Action::ReadPending => Event::Pending(d.pending.clone()),
            Action::ClearPending => {
                d.log.push("clear".to_string());
                d.pending = None;
                Event::Done
            }
            Action::WritePending(scored) => {
                d.log.push("write pending".to_string());
                d.pending = Some(scored);
                Event::Done
            }
            Action::AppendRow(row) => {
                d.log.push("append".to_string());
                d.rows.push(row);
                Event::Done
            }
            Action::ReadDataset => Event::Dataset(d.rows.clone()),
            Action::Train { examples, dim } => {
                assert_eq!(examples.len(), d.rows.len());
                for (example, row) in examples.iter().zip(&d.rows) {
                    assert_eq!(example.embedding, row.scored.embedding);
                    assert_eq!(example.label, row.label);
                }
                d.log.push(format!("train {} {dim}", examples.len()));
                Event::Trained(Weights { w: vec![single(examples.len() as f32)], b: single(0.0) })
            }
            Action::Embed(text) => {
                d.log.push(format!("embed {text}"));
                let batch = match d.vectors {
                    Some(n) => Ok((0..n).map(|i| vec![single(text.len() as f32), single(i as f32)]).collect()),
                    None => Err(anyhow::Error::msg("broken model")),
                };
                Event::Embedded(single_vector(batch))
            }
            Action::ReadClock => Event::Clock(1_700_000_000),
            Action::Predict { weights, embedding } => {
                assert_eq!(weights.w, d.weights.as_ref().unwrap().w);
                assert_eq!(embedding.len(), 2);
                Event::Probability(single(d.p))
            }
            Action::Rescore { weights, embeddings } => {
                assert_eq!(weights.w, d.weights.as_ref().unwrap().w);
                let wanted: Vec<Vec<Single>> = d.rows.iter().map(|r| r.scored.embedding.clone()).collect();
                assert_eq!(embeddings, wanted);
                Event::Rescored(d.rows.iter().map(|r| single(if r.label { 1.0 } else { 0.0 })).collect())
            }
            Action::Finish(output) => return Ok(output),
            Action::Fail(failure) => return Err(failure),
        };
        let next = step(state, event).expect("an event that the state waits for");
        state = next.0;
        action = next.1;
    }
}

fn submit(d: &mut Disk, prompt: &str) -> Result<Option<Output>, TriageError> {
    let input = format!("{{\"session\":\"s\",\"prompt\":{}}}", serde_json::Value::from(prompt));
    let start = session::hook(&input).unwrap();
    play(d, start)
}

#[test]
fn hook_scores_and_keeps_a_prompt() {
    let mut d = ready();
    match submit(&mut d, "  rename the \"file\"\n").unwrap() {
        Some(Output::Predicted(told)) => {
            assert_eq!(told.verdict, "TRIVIAL");
            assert_eq!(told.p, single(0.67));
            assert_eq!(told.hundredths, Some(67));
            assert_eq!(told.chars, 17);
            assert!(!told.long);
        }
        other => panic!("{other:?}"),
    }
    let kept = d.pending.unwrap();
    assert_eq!(kept.prompt, "rename the \"file\"");
    assert_eq!(kept.p, single(0.67));
    assert_eq!(kept.ts, 1_700_000_000);
    assert_eq!(kept.embedding, vec![single(17.0), single(0.0)]);
    assert!(u64::from_str_radix(&kept.id, 16).is_ok());
    assert_eq!(d.log, vec!["load false", "embed rename the \"file\"", "write pending"]);
    assert!(d.rows.is_empty());
}

#[test]
fn hook_replaces_the_pending_prompt() {
    let mut d = ready();
    submit(&mut d, "first").unwrap();
    let first = d.pending.clone().unwrap();
    d.p = 0.2;
    match submit(&mut d, "second").unwrap() {
        Some(Output::Predicted(told)) => assert_eq!(told.verdict, "NOT"),
        other => panic!("{other:?}"),
    }
    let second = d.pending.clone().unwrap();
    assert_eq!(second.prompt, "second");
    assert_ne!(first.id, second.id);
}

#[test]
fn hook_takes_the_last_vector_of_the_batch() {
    let mut d = ready();
    d.vectors = Some(3);
    submit(&mut d, "abc").unwrap();
    assert_eq!(d.pending.unwrap().embedding, vec![single(3.0), single(2.0)]);
}

#[test]
fn hook_passes_empty_prompts_and_slash_commands() {
    for prompt in ["", "   \n", "/help", "  /t", "\u{3000}"] {
        let mut d = ready();
        submit(&mut d, "kept").unwrap();
        d.log.clear();
        assert!(submit(&mut d, prompt).unwrap().is_none(), "{prompt:?}");
        assert!(d.log.is_empty());
        assert_eq!(d.pending.unwrap().prompt, "kept");
    }
}

#[test]
fn hook_without_a_prompt_field_passes() {
    for input in ["{}", "[]", "null", "3", "{\"prompt\":3}", "{\"prompt\":null}", "{\"Prompt\":\"t\"}"] {
        let mut d = ready();
        let start = session::hook(input).unwrap();
        assert!(play(&mut d, start).unwrap().is_none(), "{input}");
        assert!(d.log.is_empty());
    }
}

#[test]
fn hook_reads_the_prompt_field() {
    let mut d = ready();
    let start = session::hook("{\"prompt\":\"caf\\u00e9 \\ud83d\\ude00\",\"x\":{\"prompt\":\"no\"}}").unwrap();
    match play(&mut d, start).unwrap() {
        Some(Output::Predicted(told)) => assert_eq!(told.chars, 6),
        other => panic!("{other:?}"),
    }
    assert_eq!(d.pending.unwrap().prompt, "café 😀");
}

#[test]
fn hook_refuses_what_is_not_json() {
    for input in ["", "{", "{\"prompt\":\"t\"} x", "prompt"] {
        let failure = session::hook(input).unwrap_err();
        assert!(matches!(failure, TriageError::BadInput(_)), "{input}");
        assert_eq!(failure.message(), "parsing hook input");
    }
}

#[test]
fn refused_input_keeps_its_cause() {
    for input in ["", "{\"prompt\":\"t\"} x", "[1,\n2", "nul"] {
        let wanted = serde_json::from_str::<serde_json::Value>(input).unwrap_err();
        match session::hook(input).unwrap_err() {
            TriageError::BadInput(cause) => {
                assert_eq!(cause.to_string(), wanted.to_string());
                assert_eq!((cause.line(), cause.column()), (wanted.line(), wanted.column()));
            }
            other => panic!("{other:?}"),
        }
    }
}

#[test]
fn failed_embedding_keeps_its_failure() {
    let state = State::ScoreEmbedding {
        purpose: session::Purpose::Show,
        text: "x".to_string(),
        weights: Weights::zeros(1),
    };
    let failed = single_vector(Err(anyhow::Error::msg("out of memory")));
    match step(state, Event::Embedded(failed)).unwrap() {
        (State::Finished, Action::Fail(TriageError::Embedding(cause))) => {
            assert_eq!(cause.to_string(), "out of memory");
        }
        other => panic!("{other:?}"),
    }
}

#[test]
fn hook_prompt_takes_the_field() {
    let mut d = ready();
    let start = session::hook_prompt(Some(" x ".to_string()));
    play(&mut d, start).unwrap();
    assert_eq!(d.pending.as_ref().unwrap().prompt, "x");
    let start = session::hook_prompt(None);
    assert!(play(&mut d, start).unwrap().is_none());
}

#[test]
fn long_prompt_is_reported_and_not_kept() {
    let mut d = disk();
    match submit(&mut d, &"a".repeat(1830)).unwrap() {
        Some(Output::Predicted(told)) => {
            assert_eq!(told.verdict, "NOT");
            assert_eq!(told.p, single(0.0));
            assert_eq!(told.hundredths, Some(0));
            assert_eq!(told.chars, 1830);
            assert!(told.long);
        }
        other => panic!("{other:?}"),
    }
    assert!(d.pending.is_none());
    assert!(d.log.is_empty());
}

#[test]
fn length_is_that_of_the_trimmed_prompt() {
    let mut d = ready();
    let prompt = format!("  {}  ", "é".repeat(300));
    match submit(&mut d, &prompt).unwrap() {
        Some(Output::Predicted(told)) => {
            assert_eq!(told.chars, 300);
            assert!(!told.long);
        }
        other => panic!("{other:?}"),
    }
}

#[test]
fn label_reply_records_and_hands_the_prompt_back() {
    let mut d = ready();
    submit(&mut d, "fix the typo").unwrap();
    d.log.clear();
    d.p = 0.9;
    match submit(&mut d, " Trivial ").unwrap() {
        Some(Output::Labeled { label, report, prompt }) => {
            assert_eq!(label, "TRIVIAL");
            assert_eq!(prompt, "fix the typo");
            assert_eq!(report.rows, 1);
            assert_eq!(report.trivial_rows, 1);
            assert_eq!(report.recent, 1);
            assert_eq!(report.rates.accuracy, Ratio { num: 1, den: 1 });
            assert_eq!(report.rates.balanced_accuracy, Ratio { num: 1, den: 1 });
        }
        other => panic!("{other:?}"),
    }
    assert_eq!(d.log, vec!["clear", "append"]);
    assert!(d.pending.is_none());
    assert_eq!(d.rows.len(), 1);
    assert!(d.rows[0].label);
    assert_eq!(d.rows[0].scored.prompt, "fix the typo");
    assert_eq!(d.rows[0].scored.p, single(0.67));
}

#[test]
fn weights_stay_until_both_labels_are_seen() {
    let mut d = ready();
    for i in 0..3 {
        submit(&mut d, &format!("prompt {i}")).unwrap();
        submit(&mut d, "t").unwrap();
    }
    assert_eq!(d.weights.as_ref().unwrap().w, vec![single(0.25)]);
    submit(&mut d, "another").unwrap();
    d.log.clear();
    match submit(&mut d, "N").unwrap() {
        Some(Output::Labeled { label, report, .. }) => {
            assert_eq!(label, "NOT");
            assert_eq!(report.rows, 4);
            assert_eq!(report.trivial_rows, 3);
            assert_eq!(report.rates.accuracy, Ratio { num: 3, den: 4 });
            assert_eq!(report.rates.balanced_accuracy, Ratio { num: 3, den: 6 });
        }
        other => panic!("{other:?}"),
    }
    assert_eq!(d.log, vec!["clear", "append", "train 4 384", "write weights"]);
    assert_eq!(DIM, 384);
    assert_eq!(d.weights.unwrap().w, vec![single(4.0)]);
}

#[test]
fn replies_with_nothing_pending_pass() {
    for reply in ["t", "not", "c", "Cancel"] {
        let mut d = ready();
        assert!(submit(&mut d, reply).unwrap().is_none(), "{reply}");
        assert!(d.log.is_empty());
    }
}

#[test]
fn cancel_reply_drops_the_pending_prompt() {
    let mut d = ready();
    submit(&mut d, "never mind this").unwrap();
    d.log.clear();
    assert!(matches!(submit(&mut d, "C").unwrap(), Some(Output::Cancelled)));
    assert!(d.pending.is_none());
    assert!(d.rows.is_empty());
    assert_eq!(d.log, vec!["clear"]);
    assert!(submit(&mut d, "t").unwrap().is_none());
    assert!(d.rows.is_empty());
}

#[test]
fn label_by_hand_records() {
    let mut d = ready();
    submit(&mut d, "one").unwrap();
    submit(&mut d, "t").unwrap();
    submit(&mut d, "two").unwrap();
    d.log.clear();
    match play(&mut d, session::label_pending(false)).unwrap() {
        Some(Output::LabeledByHand { label, report }) => {
            assert_eq!(label, "NOT");
            assert_eq!(report.rows, 2);
            assert_eq!(report.trivial_rows, 1);
            assert_eq!(report.recent, 2);
        }
        other => panic!("{other:?}"),
    }
    assert_eq!(d.log, vec!["clear", "append", "train 2 384", "write weights"]);
}

#[test]
fn label_by_hand_needs_a_pending_prompt() {
    let mut d = ready();
    let failure = play(&mut d, session::label_pending(true)).unwrap_err();
    assert!(matches!(failure, TriageError::NoPending));
    assert_eq!(failure.message(), "no pending prompt to label");
    assert!(d.log.is_empty());
}

#[test]
fn scoring_needs_weights() {
    let mut d = disk();
    let failure = submit(&mut d, "do it").unwrap_err();
    assert!(matches!(failure, TriageError::NoWeights));
    assert_eq!(failure.message(), "no weights yet: run `triage setup` first");
    assert!(d.log.is_empty());
    assert!(matches!(play(&mut d, session::predict("x")).unwrap_err(), TriageError::NoWeights));
    assert!(matches!(play(&mut d, session::stats()).unwrap_err(), TriageError::NoWeights));
}

#[test]
fn scoring_needs_a_vector() {
    let mut d = ready();
    d.vectors = Some(0);
    let failure = submit(&mut d, "do it").unwrap_err();
    assert!(matches!(failure, TriageError::NoEmbedding));
    assert_eq!(failure.message(), "the embedding model returned nothing");
    assert!(d.pending.is_none());
}

#[test]
fn scoring_needs_a_working_model() {
    let mut d = ready();
    d.vectors = None;
    let failure = submit(&mut d, "do it").unwrap_err();
    assert_eq!(failure.message(), "embedding the prompt");
    match failure {
        TriageError::Embedding(cause) => assert_eq!(cause.to_string(), "broken model"),
        other => panic!("{other:?}"),
    }
    assert!(d.pending.is_none());
}

#[test]
fn predict_shows_and_keeps_nothing() {
    let mut d = ready();
    d.p = 0.31;
    match play(&mut d, session::predict(" t ")).unwrap() {
        Some(Output::Judged { verdict, p }) => {
            assert_eq!(verdict, "NOT");
            assert_eq!(p, single(0.31));
        }
        other => panic!("{other:?}"),
    }
    assert!(d.pending.is_none());
    assert_eq!(d.log, vec!["load false", "embed  t "]);
}

#[test]
fn setup_draws_weights_once() {
    let mut d = disk();
    assert!(matches!(play(&mut d, session::setup()).unwrap(), Some(Output::Ready)));
    assert_eq!(d.log, vec!["load true", "draw 384", "write weights"]);
    assert_eq!(d.weights.as_ref().unwrap().w.len(), 384);
    d.log.clear();
    assert!(matches!(play(&mut d, session::setup()).unwrap(), Some(Output::Ready)));
    assert_eq!(d.log, vec!["load true"]);
}

#[test]
fn stats_over_the_rows() {
    let mut d = ready();
    submit(&mut d, "one").unwrap();
    submit(&mut d, "t").unwrap();
    submit(&mut d, "two").unwrap();
    submit(&mut d, "n").unwrap();
    d.log.clear();
    match play(&mut d, session::stats()).unwrap() {
        Some(Output::Stats(told)) => {
            assert_eq!(told.report.rows, 2);
            assert_eq!(told.report.trivial_rows, 1);
            assert_eq!(told.report.recent, 2);
            assert_eq!(told.overall.accuracy, Ratio { num: 1, den: 2 });
            assert_eq!(told.report.rates, told.overall);
            assert_eq!(told.fit.accuracy, Ratio { num: 2, den: 2 });
        }
        other => panic!("{other:?}"),
    }
    assert!(d.log.is_empty());
}

#[test]
fn every_command_loads_the_model_at_most_once() {
    let loads = |d: &Disk| d.log.iter().filter(|l| l.starts_with("load")).count();
    let mut d = disk();
    play(&mut d, session::setup()).unwrap();
    assert_eq!(loads(&d), 1);
    d.log.clear();
    submit(&mut d, "one").unwrap();
    assert_eq!(loads(&d), 1);
    d.log.clear();
    submit(&mut d, "t").unwrap();
    play(&mut d, session::stats()).unwrap();
    assert_eq!(loads(&d), 0);
}

#[test]
fn nothing_is_written_before_the_model_is_loaded() {
    assert!(matches!(session::setup().1, Action::LoadModel { show_progress: true }));
    let starts = [
        session::predict("x"),
        session::hook_prompt(Some("x".to_string())),
    ];
    for (state, action) in starts {
        assert!(matches!(action, Action::ReadWeights));
        let (_, action) = step(state, Event::Weights(Some(Weights::zeros(1)))).unwrap();
        assert!(matches!(action, Action::LoadModel { show_progress: false }));
    }
}

#[test]
fn every_row_comes_from_a_pending_prompt() {
    let mut d = ready();
    let inputs = ["a", "t", "t", "b", "c", "n", "/x", "d", "", "e", "not", "T", &"z".repeat(301), "cancel"];
    for input in inputs {
        let before = d.rows.len();
        let pending = d.pending.clone();
        submit(&mut d, input).unwrap();
        if d.rows.len() > before {
            assert_eq!(d.rows.len(), before + 1);
            assert_eq!(d.rows[before].scored.prompt, pending.unwrap().prompt);
            assert!(d.pending.is_none());
        }
    }
    let prompts: Vec<&str> = d.rows.iter().map(|r| r.scored.prompt.as_str()).collect();
    assert_eq!(prompts, vec!["a", "e"]);
}

#[test]
fn unexpected_events_are_refused() {
    assert!(step(State::CancelLooking, Event::Done).is_none());
    assert!(step(State::Finished, Event::Done).is_none());
    assert!(step(State::StatsRescoring { rows: Vec::new() }, Event::Rescored(vec![single(0.5)])).is_none());
    assert!(step(State::SetupLoading, Event::Weights(None)).is_none());
}

#[test]
fn identifier_comes_from_the_number() {
    let state = State::ScoreTiming {
        purpose: session::Purpose::Show,
        text: "x".to_string(),
        weights: Weights::zeros(1),
        embedding: vec![single(1.0)],
    };
    match step_with(state, Event::Clock(5), 0xabc).unwrap() {
        (State::ScorePredicting { id, ts, text, .. }, Action::Predict { embedding, .. }) => {
            assert_eq!(id, "abc");
            assert_eq!(ts, 5);
            assert_eq!(text, "x");
            assert_eq!(embedding, vec![single(1.0)]);
        }
        other => panic!("{other:?}"),
    }
}

#[test]
fn told_about_a_score() {
    let told = session::prediction(single(0.5), 42);
    assert_eq!((told.verdict, told.hundredths, told.chars, told.long), ("TRIVIAL", Some(50), 42, false));
    let told = session::prediction(single(f32::NAN), 1);
    assert_eq!((told.verdict, told.hundredths), ("NOT", None));
    let told = session::too_long(301);
    assert_eq!((told.verdict, told.hundredths, told.chars, told.long), ("NOT", Some(0), 301, true));
}
