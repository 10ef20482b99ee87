//! The ways in which a call to the service fails.
use vstd::prelude::*;

verus! {

/// Why a call failed.
#[derive(Debug, PartialEq, Eq)]
pub enum ServiceError {
    /// No engine goes by the name that the call gave.
    EngineNotFound(String),
    /// The source of a module did not compile; holds the diagnostic.
    CompileError(String),
    /// A query could not be read or evaluated; holds the diagnostic.
    EvaluationError(String),
}

/// The mathematical value of a [`ServiceError`].
pub enum ServiceErrorView {
    EngineNotFound(Seq<char>),
    CompileError(Seq<char>),
    EvaluationError(Seq<char>),
}

impl View for ServiceError {
    type V = ServiceErrorView;

    open spec fn view(&self) -> ServiceErrorView {
        match self {
            ServiceError::EngineNotFound(name) => ServiceErrorView::EngineNotFound(name@),
            ServiceError::CompileError(diagnostic) => ServiceErrorView::CompileError(diagnostic@),
            ServiceError::EvaluationError(diagnostic) => ServiceErrorView::EvaluationError(
                diagnostic@,
            ),
        }
    }
}

/// The message that a failure shows to the host: the missing engine's name
/// behind a fixed head, or the diagnostic as it came.
pub open spec fn error_message(error: ServiceErrorView) -> Seq<char> {
    match error {
        ServiceErrorView::EngineNotFound(name) => "engine not found: "@ + name,
        ServiceErrorView::CompileError(diagnostic) => diagnostic,
        ServiceErrorView::EvaluationError(diagnostic) => diagnostic,
    }
}

impl ServiceError {
    /// The message for the host.
    pub fn message(&self) -> (out: String)
        ensures
            out@ == error_message(self@),
    {
        match self {
            ServiceError::EngineNotFound(name) => {
                let mut out = String::new();
                out.append("engine not found: ");
                out.append(name.as_str());
                out
            },
            ServiceError::CompileError(diagnostic) => diagnostic.clone(),
            ServiceError::EvaluationError(diagnostic) => diagnostic.clone(),
        }
    }
}

} // verus!
