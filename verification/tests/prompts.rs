use prompt_triage::prompt::is_cancel;
use prompt_triage::prompt::label_name;
use prompt_triage::prompt::parse_label;
use prompt_triage::prompt::request;
use prompt_triage::prompt::verdict;
use prompt_triage::prompt::Request;
use prompt_triage::prompt::LONG_PROMPT;
use prompt_triage::single::Single;

#[test]
fn label_replies_in_any_case() {
    for word in ["t", "T", "trivial", "Trivial", "TRIVIAL", "tRiViAl"] {
        assert_eq!(parse_label(word), Some(true), "{word}");
    }
    for word in ["n", "N", "not", "Not", "NOT", "nOt"] {
        assert_eq!(parse_label(word), Some(false), "{word}");
    }
}

#[test]
fn other_words_are_no_label() {
    for word in ["", "tr", "trivially", "nott", "no", "c", "cancel", " t", "t ", "\u{ff34}", "trıvial"] {
        assert_eq!(parse_label(word), None, "{word}");
    }
}

#[test]
fn cancel_replies_in_any_case() {
    for word in ["c", "C", "cancel", "Cancel", "CANCEL"] {
        assert!(is_cancel(word), "{word}");
    }
    for word in ["", "ca", "cancelled", "t", "not", "c "] {
        assert!(!is_cancel(word), "{word}");
    }
}

#[test]
fn names_of_the_labels() {
    assert_eq!(label_name(true), "TRIVIAL");
    assert_eq!(label_name(false), "NOT");
}

#[test]
fn verdict_at_the_threshold() {
    assert_eq!(verdict(Single { bits: 0.5f32.to_bits() }), "TRIVIAL");
    assert_eq!(verdict(Single { bits: 0.49999997f32.to_bits() }), "NOT");
    assert_eq!(verdict(Single { bits: f32::NAN.to_bits() }), "NOT");
}

#[test]
fn requests_by_prompt() {
    assert_eq!(request(""), Request::Pass);
    assert_eq!(request("/compact"), Request::Pass);
    assert_eq!(request("/"), Request::Pass);
    assert_eq!(request("CANCEL"), Request::Cancel);
    assert_eq!(request("T"), Request::Label { trivial: true });
    assert_eq!(request("not"), Request::Label { trivial: false });
    assert_eq!(request("fix the typo"), Request::Score { chars: 12 });
    assert_eq!(request("not now"), Request::Score { chars: 7 });
}

#[test]
fn length_counts_characters() {
    let edge = "é".repeat(LONG_PROMPT);
    assert_eq!(LONG_PROMPT, 300);
    assert_eq!(request(&edge), Request::Score { chars: 300 });
    assert_eq!(request(&format!("{edge}x")), Request::Long { chars: 301 });
    assert_eq!(request(&"a".repeat(1830)), Request::Long { chars: 1830 });
    assert_eq!(request(&format!("/{}", "a".repeat(400))), Request::Pass);
}
