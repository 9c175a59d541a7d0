use mediawiki_parser::MWError;
use mwlint_web::battery::examples;
use mwlint_web::http::{index, respond, Reply, STATUS_INTERNAL_SERVER_ERROR, STATUS_OK};
use mwlint_web::outcome::{PipelineError, ResultKind};
use mwlint_web::pipeline::{lint, Action};

#[test]
fn index_is_the_usage_text() {
    assert_eq!(
        index(),
        "no GET endpoints available. Use POST to send mediawiki source code. see https://github.com/vroland/mwlint."
    );
}

#[test]
fn serialized_body_is_sent_with_status_200_and_open_to_every_origin() {
    let reply = respond(Some("[]".to_string()));
    assert_eq!(reply.status(), 200);
    assert_eq!(STATUS_OK, 200);
    let headers = reply.headers();
    assert_eq!(headers.len(), 2);
    assert_eq!((headers[0].name, headers[0].value), ("Content-Type", "application/json"));
    assert_eq!((headers[1].name, headers[1].value), ("Access-Control-Allow-Origin", "*"));
    assert!(matches!(reply, Reply::Json(body) if body == "[]"));
}

#[test]
fn body_that_could_not_be_serialized_gives_status_500() {
    let reply = respond(None);
    assert_eq!(reply.status(), 500);
    assert_eq!(STATUS_INTERNAL_SERVER_ERROR, 500);
    assert!(reply.headers().is_empty());
    assert!(matches!(reply, Reply::ServerError));
}

#[test]
fn examples_of_no_rules_are_sent_as_an_empty_array() {
    let all: Vec<String> = examples(vec![]);
    let reply = respond(serde_json::to_string(&all).ok());
    assert_eq!(reply.status(), 200);
    assert!(matches!(reply, Reply::Json(body) if body == "[]"));
}

#[test]
fn parse_error_is_sent_with_status_200() {
    let (_, action) = lint::<String>("{{unterminated", 0).unwrap();
    let error = match action {
        Action::Respond(ResultKind::Error(PipelineError::ParseError(error))) => error,
        other => panic!("unexpected: {:?}", other),
    };
    let error = MWError::ParseError(mediawiki_parser::ParseError {
        position: mediawiki_parser::Position {
            offset: error.position.offset,
            line: error.position.line,
            col: error.position.col,
        },
        expected: error.expected,
        context: error.context,
        context_start: error.context_start,
        context_end: error.context_end,
    });
    let mut body = serde_json::Map::new();
    body.insert("Error".to_string(), serde_json::to_value(error).unwrap());
    let reply = respond(serde_json::to_string(&serde_json::Value::Object(body)).ok());
    assert_eq!(reply.status(), 200);
    match reply {
        Reply::Json(body) => {
            assert!(body.starts_with("{\"Error\":{\"parseerror\":{"), "{}", body);
            assert!(body.contains("\"expected\":[\"\\t\",\" \",\"''\","), "{}", body);
            assert!(body.contains("\"context\":[\"{{unterminated\"]"));
        }
        Reply::ServerError => panic!("the body was serialized"),
    }
}
