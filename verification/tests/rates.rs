use prompt_triage::model::accuracy;
use prompt_triage::model::balanced_accuracy;
use prompt_triage::model::Ratio;
use prompt_triage::model::Weights;
use prompt_triage::report::has_both_classes;
use prompt_triage::report::pairs;
use prompt_triage::report::rates;
use prompt_triage::report::report;
use prompt_triage::report::stats;
use prompt_triage::report::trivial_rows;
use prompt_triage::report::Rates;
use prompt_triage::report::RECENT;
use prompt_triage::single::Single;
use prompt_triage::store::Row;
use prompt_triage::store::Scored;

fn single(x: f32) -> Single {
    Single { bits: x.to_bits() }
}

fn row(p: f32, label: bool) -> Row {
    Row {
        scored: Scored {
            id: "a".to_string(),
            ts: 7,
            prompt: "do it".to_string(),
            embedding: vec![single(p), single(1.0)],
            p: single(p),
        },
        label,
    }
}

fn value(r: Ratio) -> f64 {
    r.num as f64 / r.den as f64
}

#[test]
fn accuracy_of_nothing_is_zero() {
    assert_eq!(accuracy(&[]), Ratio { num: 0, den: 1 });
    assert_eq!(balanced_accuracy(&[]), Ratio { num: 0, den: 1 });
}

#[test]
fn accuracy_counts_agreement_at_one_half() {
    let all = [
        (single(0.5), true),
        (single(0.9), true),
        (single(0.4), true),
        (single(0.1), false),
        (single(0.6), false),
        (single(f32::NAN), false),
        (single(f32::NAN), true),
    ];
    assert_eq!(accuracy(&all), Ratio { num: 4, den: 7 });
}

#[test]
fn balanced_accuracy_is_the_mean_over_the_classes() {
    // Two of five trivial rows and five of seven others are right.
    let mut all = Vec::new();
    for i in 0..5 {
        all.push((single(if i < 2 { 0.8 } else { 0.2 }), true));
    }
    for i in 0..7 {
        all.push((single(if i < 5 { 0.2 } else { 0.8 }), false));
    }
    assert_eq!(accuracy(&all), Ratio { num: 7, den: 12 });
    assert_eq!(balanced_accuracy(&all), Ratio { num: 2 * 7 + 5 * 5, den: 2 * 5 * 7 });
    assert!((value(balanced_accuracy(&all)) - (2.0 / 5.0 + 5.0 / 7.0) / 2.0).abs() < 1e-12);
}

#[test]
fn balanced_accuracy_of_one_class_is_its_accuracy() {
    let all = [(single(0.8), true), (single(0.2), true), (single(0.7), true)];
    assert_eq!(balanced_accuracy(&all), Ratio { num: 2, den: 3 });
    let all = [(single(0.8), false), (single(0.2), false)];
    assert_eq!(balanced_accuracy(&all), Ratio { num: 1, den: 2 });
}

#[test]
fn constant_guess_is_worth_half_when_balanced() {
    let mut all = vec![(single(0.1), true)];
    for _ in 0..99 {
        all.push((single(0.1), false));
    }
    assert_eq!(value(accuracy(&all)), 0.99);
    assert_eq!(value(balanced_accuracy(&all)), 0.5);
}

#[test]
fn rates_do_not_depend_on_the_order() {
    let mut all = vec![
        (single(0.9), true),
        (single(0.3), true),
        (single(0.2), false),
        (single(0.8), false),
        (single(0.1), false),
    ];
    let forward = rates(&all);
    all.reverse();
    assert_eq!(rates(&all), forward);
    all.swap(0, 2);
    assert_eq!(rates(&all), forward);
}

#[test]
fn rates_at_the_extremes() {
    let right = [(single(0.9), true), (single(0.1), false)];
    assert_eq!(value(accuracy(&right)), 1.0);
    assert_eq!(value(balanced_accuracy(&right)), 1.0);
    let wrong = [(single(0.1), true), (single(0.9), false)];
    assert_eq!(value(accuracy(&wrong)), 0.0);
    assert_eq!(value(balanced_accuracy(&wrong)), 0.0);
}

#[test]
fn zero_weights_are_zero() {
    let weights = Weights::zeros(4);
    assert_eq!(weights.w, vec![single(0.0); 4]);
    assert_eq!(weights.b, single(0.0));
    assert!(Weights::zeros(0).w.is_empty());
}

#[test]
fn report_on_few_rows() {
    let rows = vec![row(0.9, true), row(0.2, false), row(0.7, false)];
    assert_eq!(trivial_rows(&rows), 1);
    assert!(has_both_classes(&rows));
    let told = report(&rows);
    assert_eq!(told.rows, 3);
    assert_eq!(told.trivial_rows, 1);
    assert_eq!(told.recent, 3);
    assert_eq!(told.rates.accuracy, Ratio { num: 2, den: 3 });
    assert_eq!(told.rates.balanced_accuracy, Ratio { num: 3, den: 4 });
    assert_eq!(pairs(&rows), vec![(single(0.9), true), (single(0.2), false), (single(0.7), false)]);
}

#[test]
fn report_looks_at_the_last_fifty() {
    assert_eq!(RECENT, 50);
    let mut rows = Vec::new();
    for _ in 0..20 {
        rows.push(row(0.1, true));
    }
    for i in 0..50 {
        rows.push(row(if i < 10 { 0.9 } else { 0.1 }, false));
    }
    let told = report(&rows);
    assert_eq!(told.rows, 70);
    assert_eq!(told.trivial_rows, 20);
    assert_eq!(told.recent, 50);
    assert_eq!(told.rates.accuracy, Ratio { num: 40, den: 50 });
    assert_eq!(told.rates.balanced_accuracy, Ratio { num: 40, den: 50 });
}

#[test]
fn both_classes_need_both() {
    assert!(!has_both_classes(&Vec::new()));
    assert!(!has_both_classes(&vec![row(0.5, true)]));
    assert!(!has_both_classes(&vec![row(0.5, false), row(0.6, false)]));
    assert!(has_both_classes(&vec![row(0.5, false), row(0.6, true)]));
}

#[test]
fn stats_cover_all_recent_and_fit() {
    let mut rows = Vec::new();
    for _ in 0..10 {
        rows.push(row(0.9, false));
    }
    for _ in 0..50 {
        rows.push(row(0.9, true));
    }
    let scores: Vec<Single> = rows.iter().map(|r| single(if r.label { 0.8 } else { 0.3 })).collect();
    let told = stats(&rows, &scores);
    assert_eq!(told.report, report(&rows));
    assert_eq!(told.overall.accuracy, Ratio { num: 50, den: 60 });
    assert_eq!(value(told.overall.balanced_accuracy), 0.5);
    assert_eq!(told.report.rates.accuracy, Ratio { num: 50, den: 50 });
    assert_eq!(value(told.fit.accuracy), 1.0);
    assert_eq!(value(told.fit.balanced_accuracy), 1.0);
}

#[test]
fn stats_of_nothing() {
    let told = stats(&Vec::new(), &Vec::new());
    let zero = Rates {
        accuracy: Ratio { num: 0, den: 1 },
        balanced_accuracy: Ratio { num: 0, den: 1 },
    };
    assert_eq!(told.overall, zero);
    assert_eq!(told.fit, zero);
    assert_eq!(told.report.rates, zero);
    assert_eq!(told.report.rows, 0);
}
