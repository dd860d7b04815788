use serde_json::Value;
use typesafe_systemone::{Client, Environment, Error, Prepared, Question, MAX_CHOICE_OPTIONS};

fn no_env() -> Environment {
    Environment { api_key: None, base_url: None, model: None }
}

fn client() -> Client {
    match Client::builder().api_key("test-key").model("jev-1.13.0").build(no_env()) {
        Ok(c) => c,
        Err(e) => panic!("{e:?}"),
    }
}

fn json(text: &str) -> Value {
    serde_json::from_str(text).unwrap()
}

fn err_of(r: Result<Prepared<'_>, Error>) -> Error {
    match r {
        Err(e) => e,
        Ok(_) => panic!("the request passed its checks"),
    }
}

fn ok_of(r: Result<Prepared<'_>, Error>) -> Prepared<'_> {
    match r {
        Ok(p) => p,
        Err(e) => panic!("{e:?}"),
    }
}

fn invalid_message(e: Error) -> String {
    match e {
        Error::InvalidRequest(m) => m,
        other => panic!("{other:?}"),
    }
}

#[test]
fn send_rejects_missing_state() {
    let c = client();
    let err = err_of(c.system_one().noul("q", "?".into()).prepare());
    assert!(invalid_message(err).contains("no state"));
}

#[test]
fn send_rejects_missing_questions() {
    let c = client();
    let err = err_of(c.system_one().field("a", serde_json::to_value(1)).prepare());
    assert!(invalid_message(err).contains("no questions"));
}

#[test]
fn send_rejects_field_on_non_object_state() {
    let c = client();
    let err = err_of(
        c.system_one()
            .state(serde_json::to_value("plain text"))
            .field("a", serde_json::to_value(1))
            .noul("q", "?".into())
            .prepare(),
    );
    assert!(invalid_message(err).contains("not an object"));
}

#[test]
fn send_rejects_duplicate_question_id() {
    let c = client();
    let err = err_of(
        c.system_one()
            .field("a", serde_json::to_value(1))
            .noul("q", "?".into())
            .noul("q", "again".into())
            .prepare(),
    );
    assert!(invalid_message(err).contains("duplicate"));
}

#[test]
fn send_rejects_choice_without_options() {
    let c = client();
    let err = err_of(c.system_one().field("a", serde_json::to_value(1)).choice("c", "?".into(), |b| b).prepare());
    assert!(invalid_message(err).contains("no options"));
}

#[test]
fn send_rejects_repeated_choice_option() {
    let c = client();
    let err = err_of(
        c.system_one()
            .field("a", serde_json::to_value(1))
            .choice("c", "?".into(), |b| b.option_plain("x").option("x", "again"))
            .prepare(),
    );
    assert!(invalid_message(err).contains("repeats option `x`"));
}

#[test]
fn send_rejects_choice_over_the_option_limit_from_a_prebuilt_question() {
    let c = client();
    let too_many = Question::choice_plain("?".into(), (0..=MAX_CHOICE_OPTIONS).map(|i| format!("o{i}")).collect());
    let err = err_of(c.system_one().field("a", serde_json::to_value(1)).question("c", too_many).prepare());
    assert!(invalid_message(err).contains("at most 255"));
}

#[test]
fn send_rejects_score_with_one_level() {
    let c = client();
    let err = err_of(
        c.system_one()
            .field("a", serde_json::to_value(1))
            .score("s", "?".into(), vec!["one".to_string()])
            .prepare(),
    );
    assert!(invalid_message(err).contains("two levels"));
}

#[test]
fn builder_merges_fields_into_an_object_state() {
    let c = client();
    let p = ok_of(
        c.system_one()
            .state(Ok(json(r#"{"a": 1}"#)))
            .field("b", serde_json::to_value(2))
            .noul("q", "?".into())
            .prepare(),
    );
    assert_eq!(p.state, json(r#"{"a": 1, "b": 2}"#));
}

#[test]
fn builder_sends_documented_body() {
    let c = client();
    let p = ok_of(
        c.system_one()
            .field("message", serde_json::to_value("Help! My payouts have been failing for 3 days."))
            .field("tier", serde_json::to_value("gold"))
            .noul("is_urgent", "Does `message` convey urgency?".into())
            .choice("department", "Which team?".into(), |b| {
                b.option("billing", "Payments").option_plain("technical").none_of_the_above("No listed team fits")
            })
            .score("frustration", "How frustrated?".into(), vec!["Calm".to_string(), "Angry".to_string()])
            .prepare(),
    );
    assert_eq!(
        p.state,
        json(r#"{"message": "Help! My payouts have been failing for 3 days.", "tier": "gold"}"#)
    );
    assert_eq!(p.model, "jev-1.13.0");
    assert_eq!(p.questions.len(), 3);
    match &p.questions["department"] {
        Question::Choice { criteria, .. } => {
            assert_eq!(criteria["billing"], Some("Payments".to_string()));
            assert_eq!(criteria["technical"], None);
            assert_eq!(criteria["none_of_the_above"], Some("No listed team fits".to_string()));
        }
        other => panic!("{other:?}"),
    }
    assert_eq!(p.questions["is_urgent"], Question::noul("Does `message` convey urgency?".into()));
}

#[test]
fn builder_accepts_a_typed_state_and_per_call_model() {
    let c = client();
    let state = json(r#"{"subject": "Duplicate charge", "messages": ["I was charged twice"]}"#);
    let p = ok_of(
        c.system_one()
            .model("jev-preview")
            .state(Ok(state.clone()))
            .noul("refund", "Refund requested?".into())
            .prepare(),
    );
    assert_eq!(p.model, "jev-preview");
    assert_eq!(p.state, state);
}

#[test]
fn later_state_replaces_fields() {
    let c = client();
    let p = ok_of(
        c.system_one()
            .field("a", serde_json::to_value(1))
            .state(serde_json::to_value("x"))
            .noul("q", "?".into())
            .prepare(),
    );
    assert_eq!(p.state, Value::from("x"));
}

#[test]
fn first_error_is_kept() {
    let c = client();
    let err = err_of(
        c.system_one()
            .noul("q", "?".into())
            .noul("q", "?".into())
            .state(serde_json::to_value("x"))
            .field("a", serde_json::to_value(1))
            .prepare(),
    );
    let m = invalid_message(err);
    assert_eq!(m, "duplicate question id `q`");
}

#[test]
fn exact_messages_of_request_errors() {
    let c = client();
    assert_eq!(
        invalid_message(err_of(c.system_one().noul("q", "?".into()).prepare())),
        "no state: call `.state(..)` or `.field(..)`"
    );
    assert_eq!(invalid_message(err_of(c.system_one().state(Ok(json("1"))).prepare())), "no questions");
    assert_eq!(
        invalid_message(err_of(
            c.system_one().state(Ok(json("1"))).field("name", Ok(json("2"))).prepare()
        )),
        "cannot add field `name`: state is not an object"
    );
    assert_eq!(
        invalid_message(err_of(
            c.system_one()
                .state(Ok(json("1")))
                .choice("team", "?".into(), |b| b.option_plain("a").option_plain("b").option_plain("a"))
                .prepare()
        )),
        "choice `team` repeats option `a`"
    );
}

#[test]
fn first_problem_by_id_is_reported() {
    let c = client();
    let m = invalid_message(err_of(
        c.system_one()
            .state(Ok(json("1")))
            .score("zeta", "?".into(), vec!["one".to_string()])
            .choice("alpha", "?".into(), |b| b)
            .noul("beta", "?".into())
            .prepare(),
    ));
    assert_eq!(m, "question `alpha` has no options");
}

#[test]
fn serialization_failure_is_reported() {
    let c = client();
    let bad: Result<Value, serde_json::Error> = serde_json::from_str("{");
    let err = err_of(c.system_one().field("a", bad).noul("q", "?".into()).prepare());
    assert!(matches!(err, Error::RequestSerialization(_)), "{err:?}");
}

#[test]
fn default_model_comes_from_the_client() {
    let c = client();
    let p = ok_of(c.system_one().state(Ok(json("1"))).noul("q", "?".into()).prepare());
    assert_eq!(p.model, c.default_model());
    assert!(std::ptr::eq(p.client, &c));
}

#[test]
fn system_one_sends_documented_body() {
    let c = client();
    let p = ok_of(
        c.system_one()
            .state(Ok(json(r#"{"message": "Help! My payouts have been failing for 3 days."}"#)))
            .noul("is_urgent", "Does `message` convey urgency?".into())
            .question(
                "department",
                Question::choice(
                    "Which team?".into(),
                    vec![
                        ("billing".to_string(), Some("Payments".to_string())),
                        ("sales".to_string(), None),
                        ("technical".to_string(), None),
                    ],
                ),
            )
            .prepare(),
    );
    assert_eq!(
        p.body(),
        json(
            r#"{
                "state": {"message": "Help! My payouts have been failing for 3 days."},
                "model": "jev-1.13.0",
                "questions": {
                    "is_urgent": {"type": "noul", "instructions": "Does `message` convey urgency?"},
                    "department": {"type": "choice", "instructions": "Which team?",
                                   "criteria": {"billing": "Payments", "sales": null, "technical": null}}
                }
            }"#
        )
    );
}

#[test]
fn explicit_model_goes_into_the_body() {
    let c = client();
    let p = Prepared::from_parts(&c, "jev-preview", Value::from("x"), vec![("q".to_string(), Question::noul("?".into()))]);
    assert_eq!(
        p.body(),
        json(r#"{"state": "x", "model": "jev-preview", "questions": {"q": {"type": "noul", "instructions": "?"}}}"#)
    );
}

#[test]
fn later_question_under_an_id_wins_in_a_prebuilt_call() {
    let c = client();
    let p = Prepared::from_parts(
        &c,
        "m",
        Value::from("x"),
        vec![
            ("q".to_string(), Question::noul("first".into())),
            ("r".to_string(), Question::noul("other".into())),
            ("q".to_string(), Question::noul("second".into())),
        ],
    );
    assert_eq!(p.questions.len(), 2);
    assert_eq!(p.questions["q"], Question::noul("second".into()));
}

#[test]
fn choice_options_added_in_batches_all_count() {
    let c = client();
    let p = ok_of(
        c.system_one()
            .field("a", serde_json::to_value(1))
            .choice("c", "?".into(), |b| {
                b.options_plain(vec!["x".to_string(), "y".to_string()])
                    .options(vec![("z".to_string(), "last".to_string())])
                    .none_of_the_above("nothing fits")
            })
            .prepare(),
    );
    match &p.questions["c"] {
        Question::Choice { criteria, .. } => {
            assert_eq!(criteria.len(), 4);
            assert_eq!(criteria["z"], Some("last".to_string()));
            assert_eq!(criteria["x"], None);
        }
        _ => panic!("not a choice"),
    }
}

#[test]
fn repeat_across_batches_is_reported() {
    let c = client();
    let err = err_of(
        c.system_one()
            .field("a", serde_json::to_value(1))
            .choice("c", "?".into(), |b| {
                b.options_plain(vec!["x".to_string(), "y".to_string()]).options(vec![("y".to_string(), "again".to_string())])
            })
            .prepare(),
    );
    assert_eq!(invalid_message(err), "choice `c` repeats option `y`");
}

#[test]
fn refused_requests_send_nothing_and_ready_ones_pass() {
    let c = client();
    assert!(matches!(c.system_one().noul("q", "?".into()).prepare(), Err(Error::InvalidRequest(_))));
    assert!(matches!(
        c.system_one().state(Ok(Value::from("plain"))).field("a", serde_json::to_value(1)).noul("q", "?".into()).prepare(),
        Err(Error::InvalidRequest(_))
    ));
    assert!(c.system_one().state(Ok(Value::from("plain"))).noul("q", "?".into()).prepare().is_ok());
}

#[test]
fn body_text_is_the_compact_json_of_the_body() {
    let c = client();
    let p = ok_of(c.system_one().state(Ok(json(r#"{"a": 1}"#))).model("m").noul("q", "?".into()).prepare());
    assert_eq!(p.body_text(), r#"{"model":"m","questions":{"q":{"instructions":"?","type":"noul"}},"state":{"a":1}}"#);
    assert_eq!(json(&p.body_text()), p.body());
}

#[test]
fn send_and_direct_call_give_the_same_body() {
    let c = client();
    let built = ok_of(
        c.system_one()
            .field("message", serde_json::to_value("hi"))
            .score("s", "?".into(), vec!["low".to_string(), "high".to_string()])
            .prepare(),
    );
    let direct = Prepared::from_parts(
        &c,
        c.default_model(),
        json(r#"{"message": "hi"}"#),
        vec![("s".to_string(), Question::score("?".into(), vec!["low".to_string(), "high".to_string()]))],
    );
    assert_eq!(built.body(), direct.body());
    assert_eq!(built.body_text(), direct.body_text());
}
