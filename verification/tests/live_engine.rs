use prolog_service::answer::{query_reply, Bindings, QueryResult};
use prolog_service::engine::program_source;
use prolog_service::error::ServiceError;
use prolog_service::registry::EngineRegistry;
use prolog_service::term::Term;
use scryer_prolog::machine::parsed_results::{QueryResolution, Value};
use scryer_prolog::machine::Machine;

fn term(value: Value) -> Term {
    match value {
        Value::Integer(i) => Term::Integer(format!("{}", i)),
        Value::Float(f) => Term::Float(format!("{}", f)),
        Value::Rational(r) => Term::Rational(format!("{}", r)),
        Value::Atom(a) => Term::Atom(format!("{}", a.as_str())),
        Value::String(s) => Term::String(s),
        Value::List(items) => Term::List(items.into_iter().map(term).collect()),
        Value::Structure(name, args) => {
            Term::Structure(format!("{}", name.as_str()), args.into_iter().map(term).collect())
        }
        _ => Term::Other,
    }
}

fn outcome(resolution: QueryResolution) -> QueryResult {
    match resolution {
        QueryResolution::True => QueryResult::True,
        QueryResolution::False => QueryResult::False,
        QueryResolution::Matches(matches) => QueryResult::Matches(
            matches
                .into_iter()
                .map(|found| {
                    let mut bindings = Bindings::new();
                    for (name, value) in found.bindings {
                        bindings.bind(name, term(value));
                    }
                    bindings
                })
                .collect(),
        ),
    }
}

fn load(registry: &mut EngineRegistry<Machine>, engine: &str, module: &str, lines: &[&str]) {
    let lines: Vec<String> = lines.iter().map(|line| line.to_string()).collect();
    let program = program_source(&lines);
    let engine = registry.with_engine(engine).unwrap();
    engine.machine_mut().load_module_string(module, program.clone());
    engine.load_module(module.to_string(), program, Ok(())).unwrap();
}

fn query(registry: &mut EngineRegistry<Machine>, engine: &str, text: &str) -> Result<String, ServiceError> {
    let engine = registry.with_engine(engine)?;
    let answer = engine.machine_mut().run_query(text.to_string());
    query_reply(answer.map(outcome))
}

#[test]
fn query_without_solution_on_a_fresh_engine_is_false() {
    let mut registry: EngineRegistry<Machine> = EngineRegistry::new();
    assert_eq!(
        query(&mut registry, "p", "a = b."),
        Err(ServiceError::EngineNotFound("p".to_string()))
    );
    registry.spawn_engine("p".to_string(), Machine::new_lib());
    assert_eq!(query(&mut registry, "p", "a = b."), Ok("false".to_string()));
    assert_eq!(query(&mut registry, "p", "a = a."), Ok("true".to_string()));
}

#[test]
fn solutions_come_in_the_order_of_the_facts() {
    let mut registry: EngineRegistry<Machine> = EngineRegistry::new();
    registry.spawn_engine("p".to_string(), Machine::new_lib());
    load(&mut registry, "p", "facts", &["likes(a,b).", "likes(a,c)."]);
    assert_eq!(
        query(&mut registry, "p", "likes(a,X)."),
        Ok("[{\"X\": \"b\"}, {\"X\": \"c\"}]".to_string())
    );
    assert_eq!(query(&mut registry, "p", "likes(b,X)."), Ok("false".to_string()));
    assert_eq!(query(&mut registry, "p", "likes(a,b)."), Ok("true".to_string()));
}

#[test]
fn module_loaded_again_shows_only_its_new_clauses() {
    let mut registry: EngineRegistry<Machine> = EngineRegistry::new();
    registry.spawn_engine("p".to_string(), Machine::new_lib());
    load(&mut registry, "p", "facts", &["likes(a,b).", "likes(a,c)."]);
    load(&mut registry, "p", "facts", &["likes(a,d)."]);
    assert_eq!(query(&mut registry, "p", "likes(a,X)."), Ok("[{\"X\": \"d\"}]".to_string()));
    let engine = registry.engine("p").unwrap();
    assert_eq!(engine.module_count(), 1);
    assert_eq!(engine.source_of("facts"), Some(&"likes(a,d).".to_string()));
}

#[test]
fn facts_of_one_engine_are_unknown_to_another() {
    let mut registry: EngineRegistry<Machine> = EngineRegistry::new();
    registry.spawn_engine("a".to_string(), Machine::new_lib());
    registry.spawn_engine("b".to_string(), Machine::new_lib());
    load(&mut registry, "a", "facts", &["likes(a,b)."]);
    load(&mut registry, "b", "facts", &["hates(x,y)."]);
    assert_eq!(query(&mut registry, "a", "likes(a,X)."), Ok("[{\"X\": \"b\"}]".to_string()));
    assert_eq!(query(&mut registry, "b", "hates(x,Y)."), Ok("[{\"Y\": \"y\"}]".to_string()));
    let crossed = query(&mut registry, "b", "likes(a,X).");
    assert!(matches!(crossed, Err(ServiceError::EvaluationError(_))));
    let crossed = query(&mut registry, "a", "hates(x,Y).");
    assert!(matches!(crossed, Err(ServiceError::EvaluationError(_))));
}

#[test]
fn unknown_goal_is_an_evaluation_error_and_not_false() {
    let mut registry: EngineRegistry<Machine> = EngineRegistry::new();
    registry.spawn_engine("p".to_string(), Machine::new_lib());
    let reply = query(&mut registry, "p", "likes(a,X).");
    assert!(matches!(reply, Err(ServiceError::EvaluationError(_))));
    assert_ne!(reply, Ok("false".to_string()));
}

#[test]
fn answers_of_several_shapes() {
    let mut registry: EngineRegistry<Machine> = EngineRegistry::new();
    registry.spawn_engine("p".to_string(), Machine::new_lib());
    load(&mut registry, "p", "facts", &["shape(\"s\", 2.5, [a, \"b\"])."]);
    assert_eq!(
        query(&mut registry, "p", "shape(A, B, C)."),
        Ok("[{\"A\": \"s\", \"B\": 2.5, \"C\": [\"a\", \"b\"]}]".to_string())
    );
}
