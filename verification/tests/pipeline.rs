use mediawiki_parser::{Document, Element, Span, TransformationError};
use mwlint_web::outcome::{PipelineError, ResultKind};
use mwlint_web::pipeline::{begin, lint, step, Action, Event, Phase, Run};

fn empty_tree() -> Element {
    Element::Document(Document { position: Span::any(), content: vec![] })
}

fn failure(cause: &str) -> TransformationError {
    TransformationError {
        cause: cause.to_string(),
        position: Span::any(),
        transformation_name: "normalize_math_formulas".to_string(),
        tree: empty_tree(),
    }
}

fn normalized(run: Run<String>) -> (Run<String>, Action<String>) {
    step(run, Event::Normalized(Ok(()))).expect("normalization was pending")
}

fn found(run: Run<String>, findings: &[&str]) -> (Run<String>, Action<String>) {
    let findings = findings.iter().map(|f| f.to_string()).collect();
    step(run, Event::RuleFinished(findings)).expect("a rule was pending")
}

#[test]
fn parsed_text_goes_on_to_normalization() {
    let (run, action) = lint::<String>("some text", 3).unwrap();
    assert_eq!(run.phase(), Phase::Normalizing);
    assert_eq!(run.rule_count(), 3);
    match action {
        Action::Normalize(Element::Document(document)) => assert_eq!(document.content.len(), 1),
        other => panic!("unexpected: {:?}", other),
    }
}

#[test]
fn empty_text_goes_on_to_normalization() {
    let (run, action) = lint::<String>("", 1).unwrap();
    assert_eq!(run.phase(), Phase::Normalizing);
    assert!(matches!(action, Action::Normalize(Element::Document(_))));
}

#[test]
fn malformed_text_ends_the_request_with_the_parse_error() {
    let (run, action) = lint::<String>("{{unterminated", 3).unwrap();
    assert_eq!(run.phase(), Phase::Finished);
    match action {
        Action::Respond(ResultKind::Error(PipelineError::ParseError(error))) => {
            assert_eq!(error.position.col, 15);
            assert_eq!(error.expected.first().map(String::as_str), Some("\t"));
            assert_eq!(error.expected.last().map(String::as_str), Some("}}"));
        }
        other => panic!("unexpected: {:?}", other),
    }
}

#[test]
fn text_that_the_parser_cannot_take_begins_no_request() {
    assert!(lint::<String>("<ß>", 3).is_none());
}

#[test]
fn rules_run_in_the_order_of_their_registration() {
    let (run, _) = lint::<String>("text", 3).unwrap();
    let (run, action) = normalized(run);
    assert_eq!(run.phase(), Phase::Linting);
    assert!(matches!(action, Action::RunRule(0)));
    let (run, action) = found(run, &["a1", "a2"]);
    assert!(matches!(action, Action::RunRule(1)));
    let (run, action) = found(run, &[]);
    assert!(matches!(action, Action::RunRule(2)));
    let (run, action) = found(run, &["c1"]);
    assert_eq!(run.phase(), Phase::Finished);
    match action {
        Action::Respond(ResultKind::Lints(findings)) => assert_eq!(findings, vec!["a1", "a2", "c1"]),
        other => panic!("unexpected: {:?}", other),
    }
}

#[test]
fn repeated_runs_give_the_findings_in_the_same_order() {
    let mut results = Vec::new();
    for _ in 0..3 {
        let (run, _) = lint::<String>("== h ==\ntext", 2).unwrap();
        let (run, _) = normalized(run);
        let (run, _) = found(run, &["first rule", "first rule again"]);
        let (_, action) = found(run, &["second rule"]);
        results.push(format!("{:?}", action));
    }
    assert_eq!(results[0], results[1]);
    assert_eq!(results[1], results[2]);
    assert_eq!(
        results[0],
        "Respond(Lints([\"first rule\", \"first rule again\", \"second rule\"]))"
    );
}

#[test]
fn battery_without_rules_reports_no_findings() {
    let (run, _) = lint::<String>("text", 0).unwrap();
    let (run, action) = normalized(run);
    assert_eq!(run.phase(), Phase::Finished);
    match action {
        Action::Respond(ResultKind::Lints(findings)) => assert!(findings.is_empty()),
        other => panic!("unexpected: {:?}", other),
    }
}

#[test]
fn failed_normalization_ends_the_request_with_its_error() {
    let (run, _) = lint::<String>("<math>\\frac{</math>", 3).unwrap();
    let next = step(run, Event::Normalized(Err(failure("formula refused"))));
    let (run, action) = next.unwrap();
    assert_eq!(run.phase(), Phase::Finished);
    match action {
        Action::Respond(ResultKind::Error(PipelineError::TransformationError(error))) => {
            assert_eq!(error.cause, "formula refused");
            assert_eq!(error.transformation_name, "normalize_math_formulas");
        }
        other => panic!("unexpected: {:?}", other),
    }
}

#[test]
fn event_that_answers_no_pending_action_is_refused() {
    let (run, _) = lint::<String>("text", 2).unwrap();
    assert!(step(run, Event::RuleFinished(vec![])).is_none());

    let (run, _) = lint::<String>("text", 2).unwrap();
    let (run, _) = normalized(run);
    assert!(step(run, Event::Normalized(Ok(()))).is_none());

    let (run, _) = lint::<String>("{{unterminated", 2).unwrap();
    assert!(step(run, Event::Normalized(Ok(()))).is_none());

    let (run, _) = lint::<String>("text", 0).unwrap();
    let (run, _) = normalized(run);
    assert!(step(run, Event::RuleFinished(vec!["late".to_string()])).is_none());
}

#[test]
fn request_begins_from_what_the_parser_made() {
    let (run, action) = begin::<String>(Ok(empty_tree()), 4);
    assert_eq!(run.phase(), Phase::Normalizing);
    assert_eq!(run.rule_count(), 4);
    assert!(matches!(action, Action::Normalize(Element::Document(_))));

    let error = PipelineError::TransformationError(failure("broken reference"));
    let (run, action) = begin::<String>(Err(error), 4);
    assert_eq!(run.phase(), Phase::Finished);
    match action {
        Action::Respond(ResultKind::Error(PipelineError::TransformationError(error))) => {
            assert_eq!(error.cause, "broken reference");
        }
        other => panic!("unexpected: {:?}", other),
    }
}

#[test]
fn result_never_holds_findings_beside_an_error() {
    let lints: ResultKind<String> = ResultKind::Lints(vec!["a".to_string(), "b".to_string()]);
    assert_eq!(lints.findings().len(), 2);
    assert!(lints.error().is_none());

    let none: ResultKind<String> = ResultKind::Lints(vec![]);
    assert!(none.findings().is_empty());
    assert!(none.error().is_none());

    let error: ResultKind<String> =
        ResultKind::Error(PipelineError::TransformationError(failure("no")));
    assert!(error.findings().is_empty());
    assert!(matches!(error.error(), Some(PipelineError::TransformationError(_))));
}
