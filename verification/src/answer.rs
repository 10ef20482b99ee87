//! What a query gives back, and its interchange text.
use crate::error::{ServiceError, ServiceErrorView};
use crate::named::{
    distinct_names, lemma_map_values_names, lemma_map_values_with_entry, map_values, with_entry,
    NameMap,
};
use crate::term::{term_text, term_to_json, Term, TermView};
use crate::text::{join, joined, lemma_joined_push, texts};
use vstd::prelude::*;

verus! {

/// One solution of a query: the term that each variable stands for. No
/// variable occurs twice; the variables keep the order in which they came.
#[derive(Debug, PartialEq, Eq)]
pub struct Bindings {
    terms: NameMap<Term>,
}

impl View for Bindings {
    type V = Seq<(Seq<char>, TermView)>;

    closed spec fn view(&self) -> Seq<(Seq<char>, TermView)> {
        map_values(self.terms@, |term: Term| term@)
    }
}

impl Bindings {
    /// A solution that binds no variable.
    pub fn new() -> (out: Self)
        ensures
            out@ == Seq::<(Seq<char>, TermView)>::empty(),
    {
        let out = Bindings { terms: NameMap::new() };
        assert(out@ =~= Seq::<(Seq<char>, TermView)>::empty());
        out
    }

    /// The number of variables bound.
    pub fn len(&self) -> (n: usize)
        ensures
            n == self@.len(),
            distinct_names(self@),
    {
        let n = self.terms.len();
        proof {
            lemma_map_values_names(self.terms@, |term: Term| term@, Seq::empty());
        }
        n
    }

    /// Binds `name` to `term`. A variable bound before keeps its place and
    /// gets the new term; another one comes last.
    pub fn bind(&mut self, name: String, term: Term)
        ensures
            distinct_names(old(self)@),
            distinct_names(final(self)@),
            final(self)@ == with_entry(old(self)@, name@, term@),
    {
        let ghost before = self.terms@;
        let ghost value = term;
        self.terms.insert(name, term);
        proof {
            lemma_map_values_with_entry(before, |term: Term| term@, name@, value);
            lemma_map_values_names(before, |term: Term| term@, name@);
            lemma_map_values_names(self.terms@, |term: Term| term@, name@);
        }
    }
}

/// The outcome of a query that was evaluated.
#[derive(Debug, PartialEq, Eq)]
pub enum QueryResult {
    /// The query holds, with nothing to report.
    True,
    /// The query has no solution.
    False,
    /// The solutions, in the order in which the engine found them.
    Matches(Vec<Bindings>),
}

/// The mathematical value of a [`QueryResult`].
pub enum QueryResultView {
    True,
    False,
    Matches(Seq<Seq<(Seq<char>, TermView)>>),
}

impl View for QueryResult {
    type V = QueryResultView;

    open spec fn view(&self) -> QueryResultView {
        match self {
            QueryResult::True => QueryResultView::True,
            QueryResult::False => QueryResultView::False,
            QueryResult::Matches(matches) => QueryResultView::Matches(
                Seq::new(matches@.len(), |i: int| matches@[i]@),
            ),
        }
    }
}

/// One member of a solution's object: the quoted variable, a colon and a
/// space, and the term's text.
pub open spec fn binding_text(name: Seq<char>, term: TermView) -> Seq<char> {
    "\""@ + name + "\": "@ + term_text(term)
}

/// The text of each binding of a solution, in order.
pub open spec fn binding_texts(bindings: Seq<(Seq<char>, TermView)>) -> Seq<Seq<char>> {
    Seq::new(bindings.len(), |i: int| binding_text(bindings[i].0, bindings[i].1))
}

/// A solution as a JSON object.
pub open spec fn bindings_text(bindings: Seq<(Seq<char>, TermView)>) -> Seq<char> {
    "{"@ + joined(binding_texts(bindings), ", "@) + "}"@
}

/// The text of each solution, in order.
pub open spec fn match_texts(matches: Seq<Seq<(Seq<char>, TermView)>>) -> Seq<Seq<char>> {
    Seq::new(matches.len(), |i: int| bindings_text(matches[i]))
}

/// The interchange text of a query's outcome.
pub open spec fn query_result_text(result: QueryResultView) -> Seq<char> {
    match result {
        QueryResultView::True => "true"@,
        QueryResultView::False => "false"@,
        QueryResultView::Matches(matches) => "["@ + joined(match_texts(matches), ", "@) + "]"@,
    }
}

/// Writes one solution as a JSON object.
pub fn prolog_match_to_json_string(query_match: &Bindings) -> (out: String)
    ensures
        out@ == bindings_text(query_match@),
{
    let mut pieces: Vec<String> = Vec::new();
    let n = query_match.terms.len();
    let mut i: usize = 0;
    while i < n
        invariant
            n == query_match.terms@.len(),
            i <= n,
            pieces@.len() == i,
            forall|k: int|
                0 <= k < i ==> (#[trigger] pieces@[k])@ == binding_text(
                    query_match@[k].0,
                    query_match@[k].1,
                ),
        decreases n - i,
    {
        let mut piece = String::new();
        piece.append("\"");
        piece.append(query_match.terms.name_at(i).as_str());
        piece.append("\": ");
        let term = term_to_json(query_match.terms.value_at(i));
        piece.append(term.as_str());
        pieces.push(piece);
        i += 1;
    }
    proof {
        assert(texts(pieces@) =~= binding_texts(query_match@));
    }
    let inner = join(&pieces, ", ");
    let mut out = String::new();
    out.append("{");
    out.append(inner.as_str());
    out.append("}");
    out
}

/// Writes the interchange text of a query's outcome.
pub fn query_result_to_json(result: &QueryResult) -> (out: String)
    ensures
        out@ == query_result_text(result@),
{
    match result {
        QueryResult::True => {
            let mut out = String::new();
            out.append("true");
            out
        },
        QueryResult::False => {
            let mut out = String::new();
            out.append("false");
            out
        },
        QueryResult::Matches(matches) => {
            let mut pieces: Vec<String> = Vec::new();
            let mut i: usize = 0;
            while i < matches.len()
                invariant
                    i <= matches@.len(),
                    pieces@.len() == i,
                    forall|k: int|
                        0 <= k < i ==> (#[trigger] pieces@[k])@ == bindings_text(matches@[k]@),
                decreases matches@.len() - i,
            {
                let piece = prolog_match_to_json_string(&matches[i]);
                pieces.push(piece);
                i += 1;
            }
            proof {
                assert(texts(pieces@) =~= match_texts(result@->Matches_0));
            }
            let inner = join(&pieces, ", ");
            let mut out = String::new();
            out.append("[");
            out.append(inner.as_str());
            out.append("]");
            out
        },
    }
}

/// Turns what the engine gave for a query into what the host gets: the
/// outcome's text, or the engine's diagnostic as an evaluation error. A fault
/// of the engine fails the call; it never comes out as a result's text.
pub fn query_reply(answer: Result<QueryResult, String>) -> (reply: Result<String, ServiceError>)
    ensures
        answer matches Ok(result) ==> reply matches Ok(text) && text@ == query_result_text(
            result@,
        ),
        answer matches Err(diagnostic) ==> reply matches Err(error) && error@
            == ServiceErrorView::EvaluationError(diagnostic@),
{
    match answer {
        Ok(result) => Ok(query_result_to_json(&result)),
        Err(diagnostic) => Err(ServiceError::EvaluationError(diagnostic)),
    }
}

/// Solutions keep their order: a further solution is written behind the
/// solutions before it, and leaves their text as it was.
pub proof fn lemma_solutions_in_order(
    matches: Seq<Seq<(Seq<char>, TermView)>>,
    further: Seq<(Seq<char>, TermView)>,
)
    ensures
        query_result_text(QueryResultView::Matches(matches.push(further))) == if matches.len()
            == 0 {
            "["@ + bindings_text(further) + "]"@
        } else {
            "["@ + (joined(match_texts(matches), ", "@) + ", "@ + bindings_text(further)) + "]"@
        },
{
    assert(match_texts(matches.push(further)) =~= match_texts(matches).push(
        bindings_text(further),
    ));
    lemma_joined_push(match_texts(matches), ", "@, bindings_text(further));
}

} // verus!
