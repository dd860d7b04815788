use serde_json::Value;
use typesafe_systemone::{Question, MAX_CHOICE_OPTIONS};

fn names(n: std::ops::Range<usize>) -> Vec<String> {
    n.map(|i| format!("o{i}")).collect()
}

#[test]
fn choice_over_the_option_limit_is_a_structural_problem() {
    let q = Question::choice_plain("?".into(), names(0..MAX_CHOICE_OPTIONS + 1));
    assert!(q.structural_problem().unwrap().contains("256 options"));
}

#[test]
fn choice_at_the_option_limit_is_well_formed() {
    let q = Question::choice_plain("?".into(), names(0..MAX_CHOICE_OPTIONS));
    assert_eq!(q.structural_problem(), None);
}

#[test]
fn empty_choice_and_short_score_are_structural_problems() {
    assert!(Question::choice_plain("?".into(), Vec::new()).structural_problem().is_some());
    assert!(Question::score("?".into(), vec!["one".to_string()]).structural_problem().is_some());
    assert_eq!(Question::noul("?".into()).structural_problem(), None);
}

#[test]
fn over_limit_message_names_both_counts() {
    let q = Question::choice_plain("?".into(), names(0..300));
    assert_eq!(
        q.structural_problem().as_deref(),
        Some("has 300 options; the API allows at most 255")
    );
}

#[test]
fn problem_messages_are_exact() {
    assert_eq!(
        Question::choice_plain("?".into(), Vec::new()).structural_problem().as_deref(),
        Some("has no options")
    );
    assert_eq!(
        Question::score("?".into(), vec!["one".to_string()]).structural_problem().as_deref(),
        Some("needs at least two levels")
    );
    assert_eq!(
        Question::score("?".into(), vec!["a".to_string(), "b".to_string()]).structural_problem(),
        None
    );
}

#[test]
fn choice_keeps_the_later_description_of_a_repeated_name() {
    let q = Question::choice(
        "Which team?".into(),
        vec![
            ("billing".to_string(), Some("Payments".to_string())),
            ("sales".to_string(), None),
            ("billing".to_string(), Some("Invoices".to_string())),
        ],
    );
    match q {
        Question::Choice { criteria, instructions, .. } => {
            assert_eq!(instructions, Value::from("Which team?"));
            assert_eq!(criteria.len(), 2);
            assert_eq!(criteria["billing"], Some("Invoices".to_string()));
            assert_eq!(criteria["sales"], None);
        }
        _ => panic!("not a choice"),
    }
}

#[test]
fn noul_with_criteria_keeps_both_descriptions() {
    let q = Question::noul_with_criteria("Urgent?".into(), "Explicitly time-sensitive", "No urgency expressed");
    match q {
        Question::Noul { criteria: Some(c), .. } => {
            assert_eq!(c.yes.as_deref(), Some("Explicitly time-sensitive"));
            assert_eq!(c.no.as_deref(), Some("No urgency expressed"));
        }
        _ => panic!("not a noul with criteria"),
    }
}

#[test]
fn score_keeps_levels_in_order() {
    let levels = vec!["Calm".to_string(), "Frustrated".to_string(), "Very angry".to_string()];
    match Question::score("How frustrated?".into(), levels.clone()) {
        Question::Score { criteria, .. } => assert_eq!(criteria, levels),
        _ => panic!("not a score"),
    }
}

fn json(text: &str) -> Value {
    serde_json::from_str(text).unwrap()
}

#[test]
fn noul_serializes_without_criteria_when_absent() {
    let q = Question::noul("Does this convey urgency?".into());
    assert_eq!(q.to_json(), json(r#"{"type": "noul", "instructions": "Does this convey urgency?"}"#));
}

#[test]
fn noul_criteria_use_true_false_keys() {
    let q = Question::noul_with_criteria("Urgent?".into(), "Explicitly time-sensitive", "No urgency expressed");
    assert_eq!(
        q.to_json(),
        json(
            r#"{"type": "noul", "instructions": "Urgent?",
                "criteria": {"true": "Explicitly time-sensitive", "false": "No urgency expressed"}}"#
        )
    );
}

#[test]
fn choice_serializes_null_for_undescribed_options() {
    let q = Question::choice(
        "Which team?".into(),
        vec![("billing".to_string(), Some("Payments".to_string())), ("sales".to_string(), None)],
    );
    assert_eq!(
        q.to_json(),
        json(r#"{"type": "choice", "instructions": "Which team?", "criteria": {"billing": "Payments", "sales": null}}"#)
    );
}

#[test]
fn score_serializes_levels_in_order() {
    let q = Question::score(
        json(r#"{"rate": "frustration"}"#),
        vec!["Calm".to_string(), "Frustrated".to_string(), "Very angry".to_string()],
    );
    assert_eq!(
        q.to_json(),
        json(r#"{"type": "score", "instructions": {"rate": "frustration"}, "criteria": ["Calm", "Frustrated", "Very angry"]}"#)
    );
}
