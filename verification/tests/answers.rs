use prolog_service::answer::{
    prolog_match_to_json_string, query_reply, query_result_to_json, Bindings, QueryResult,
};
use prolog_service::error::ServiceError;
use prolog_service::term::Term;

fn atom(name: &str) -> Term {
    Term::Atom(name.to_string())
}

fn solution(pairs: Vec<(&str, Term)>) -> Bindings {
    let mut bindings = Bindings::new();
    for (name, term) in pairs {
        bindings.bind(name.to_string(), term);
    }
    bindings
}

#[test]
fn solution_without_bindings_is_an_empty_object() {
    let bindings = Bindings::new();
    assert_eq!(bindings.len(), 0);
    assert_eq!(prolog_match_to_json_string(&bindings), "{}");
}

#[test]
fn solution_is_an_object_of_quoted_variables() {
    let bindings = solution(vec![("X", Term::String("b".to_string()))]);
    assert_eq!(prolog_match_to_json_string(&bindings), "{\"X\": \"b\"}");
}

#[test]
fn bindings_keep_the_order_in_which_they_came() {
    let bindings = solution(vec![
        ("Z", Term::Integer("1".to_string())),
        ("A", atom("a")),
        ("M", Term::List(vec![atom("x"), atom("y")])),
    ]);
    assert_eq!(bindings.len(), 3);
    assert_eq!(prolog_match_to_json_string(&bindings), "{\"Z\": 1, \"A\": a, \"M\": [x, y]}");
}

#[test]
fn binding_a_variable_again_replaces_its_term_in_place() {
    let bindings = solution(vec![("X", atom("a")), ("Y", atom("b")), ("X", atom("c"))]);
    assert_eq!(bindings.len(), 2);
    assert_eq!(prolog_match_to_json_string(&bindings), "{\"X\": c, \"Y\": b}");
}

#[test]
fn true_and_false_are_bare_words() {
    assert_eq!(query_result_to_json(&QueryResult::True), "true");
    assert_eq!(query_result_to_json(&QueryResult::False), "false");
}

#[test]
fn matches_are_an_array_in_solution_order() {
    let result = QueryResult::Matches(vec![
        solution(vec![("X", Term::String("b".to_string()))]),
        solution(vec![("X", Term::String("c".to_string()))]),
    ]);
    assert_eq!(query_result_to_json(&result), "[{\"X\": \"b\"}, {\"X\": \"c\"}]");
    let reversed = QueryResult::Matches(vec![
        solution(vec![("X", Term::String("c".to_string()))]),
        solution(vec![("X", Term::String("b".to_string()))]),
    ]);
    assert_eq!(query_result_to_json(&reversed), "[{\"X\": \"c\"}, {\"X\": \"b\"}]");
}

#[test]
fn no_match_at_all_is_an_empty_array() {
    assert_eq!(query_result_to_json(&QueryResult::Matches(vec![])), "[]");
    assert_eq!(query_result_to_json(&QueryResult::Matches(vec![Bindings::new()])), "[{}]");
}

#[test]
fn reply_to_an_outcome_is_its_text() {
    assert_eq!(query_reply(Ok(QueryResult::True)), Ok("true".to_string()));
    assert_eq!(query_reply(Ok(QueryResult::False)), Ok("false".to_string()));
    let result = QueryResult::Matches(vec![solution(vec![("X", atom("a"))])]);
    assert_eq!(query_reply(Ok(result)), Ok("[{\"X\": a}]".to_string()));
}

#[test]
fn evaluation_fault_fails_the_call() {
    let reply = query_reply(Err("syntax_error incomplete_reduction".to_string()));
    assert_eq!(
        reply,
        Err(ServiceError::EvaluationError("syntax_error incomplete_reduction".to_string()))
    );
    assert_ne!(reply, Ok("false".to_string()));
    let empty = query_reply(Err(String::new()));
    assert_eq!(empty, Err(ServiceError::EvaluationError(String::new())));
}

#[test]
fn messages_for_the_host() {
    assert_eq!(
        ServiceError::EngineNotFound("alice".to_string()).message(),
        "engine not found: alice"
    );
    assert_eq!(ServiceError::CompileError("bad clause".to_string()).message(), "bad clause");
    assert_eq!(ServiceError::EvaluationError("no such goal".to_string()).message(), "no such goal");
}
