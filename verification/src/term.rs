//! Logic terms and their interchange text.
use crate::json::{is_json, parses_as_json};
use crate::number::{integer_text, integer_to_text, integer_value, lemma_integer_text_round_trip};
use crate::text::{join, joined, quote, quoted, texts};
use vstd::prelude::*;

verus! {

/// A term of the logic language, as far as the interchange format tells
/// terms apart. A number is held as its decimal text.
#[derive(Debug, PartialEq, Eq)]
pub enum Term {
    /// An integer, by its decimal text.
    Integer(String),
    /// A floating-point number, by its decimal text.
    Float(String),
    /// A rational number, by its decimal text.
    Rational(String),
    /// An atom, by its name.
    Atom(String),
    /// A string.
    String(String),
    /// A list of terms.
    List(Vec<Term>),
    /// A compound term: the functor's name and the arguments.
    Structure(String, Vec<Term>),
    /// Any term of another shape.
    Other,
}

/// The mathematical value of a [`Term`].
pub enum TermView {
    Integer(Seq<char>),
    Float(Seq<char>),
    Rational(Seq<char>),
    Atom(Seq<char>),
    String(Seq<char>),
    List(Seq<TermView>),
    Structure(Seq<char>, Seq<TermView>),
    Other,
}

/// The value of each term of `items`.
pub open spec fn term_views(items: Seq<Term>) -> Seq<TermView>
    decreases items,
{
    Seq::new(items.len(), |i: int| if 0 <= i < items.len() { items[i]@ } else { TermView::Other })
}

impl View for Term {
    type V = TermView;

    open spec fn view(&self) -> TermView
        decreases self,
    {
        match self {
            Term::Integer(digits) => TermView::Integer(digits@),
            Term::Float(digits) => TermView::Float(digits@),
            Term::Rational(digits) => TermView::Rational(digits@),
            Term::Atom(name) => TermView::Atom(name@),
            Term::String(text) => TermView::String(text@),
            Term::List(items) => TermView::List(term_views(items@)),
            Term::Structure(name, args) => TermView::Structure(name@, term_views(args@)),
            Term::Other => TermView::Other,
        }
    }
}

/// The text of a string term, given whether the string is a JSON document:
/// a document passes through unchanged, anything else becomes a string literal.
pub open spec fn string_text(text: Seq<char>, document: bool) -> Seq<char> {
    if document {
        text
    } else {
        quoted(text)
    }
}

/// The texts of `items`, in order.
pub open spec fn term_texts(items: Seq<TermView>) -> Seq<Seq<char>>
    decreases items,
{
    Seq::new(
        items.len(),
        |i: int| if 0 <= i < items.len() { term_text(items[i]) } else { Seq::empty() },
    )
}

/// The interchange text of a term.
pub open spec fn term_text(term: TermView) -> Seq<char>
    decreases term,
{
    match term {
        TermView::Integer(digits) => digits,
        TermView::Float(digits) => digits,
        TermView::Rational(digits) => digits,
        TermView::Atom(name) => name,
        TermView::String(text) => string_text(text, is_json(text)),
        TermView::List(items) => "["@ + joined(term_texts(items), ", "@) + "]"@,
        TermView::Structure(name, args) => "\""@ + name + "\": ["@ + joined(
            term_texts(args),
            ", "@,
        ) + "]"@,
        TermView::Other => "null"@,
    }
}

/// Writes a string term, given whether its text is a JSON document.
pub fn string_to_json(text: String, document: bool) -> (out: String)
    ensures
        out@ == string_text(text@, document),
{
    if document {
        text
    } else {
        quote(text.as_str())
    }
}

/// Writes each term of `items`.
fn terms_to_json(items: &Vec<Term>) -> (pieces: Vec<String>)
    ensures
        texts(pieces@) == term_texts(term_views(items@)),
    decreases items,
{
    let mut pieces: Vec<String> = Vec::new();
    let mut i: usize = 0;
    while i < items.len()
        invariant
            i <= items@.len(),
            pieces@.len() == i,
            forall|k: int| 0 <= k < i ==> (#[trigger] pieces@[k])@ == term_text(items@[k]@),
        decreases items@.len() - i,
    {
        let piece = term_to_json(&items[i]);
        pieces.push(piece);
        i += 1;
    }
    proof {
        assert(texts(pieces@) =~= term_texts(term_views(items@)));
    }
    pieces
}

/// Writes the interchange text of `term`.
pub fn term_to_json(term: &Term) -> (out: String)
    ensures
        out@ == term_text(term@),
    decreases term,
{
    match term {
        Term::Integer(digits) => digits.clone(),
        Term::Float(digits) => digits.clone(),
        Term::Rational(digits) => digits.clone(),
        Term::Atom(name) => name.clone(),
        Term::String(text) => {
            let document = parses_as_json(text.as_str());
            string_to_json(text.clone(), document)
        },
        Term::List(items) => {
            let pieces = terms_to_json(items);
            let inner = join(&pieces, ", ");
            let mut out = String::new();
            out.append("[");
            out.append(inner.as_str());
            out.append("]");
            out
        },
        Term::Structure(name, args) => {
            let pieces = terms_to_json(args);
            let inner = join(&pieces, ", ");
            let mut out = String::new();
            out.append("\"");
            out.append(name.as_str());
            out.append("\": [");
            out.append(inner.as_str());
            out.append("]");
            out
        },
        Term::Other => {
            let mut out = String::new();
            out.append("null");
            out
        },
    }
}

/// Writes the interchange text of `value`.
pub fn prolog_value_to_json_tring(value: Term) -> (out: String)
    ensures
        out@ == term_text(value@),
{
    term_to_json(&value)
}

/// A number comes out as its decimal text, digit for digit: whatever a reader
/// of numbers makes of the text of a number term, it makes of the number's
/// own text.
pub proof fn lemma_number_text_unchanged<N>(digits: Seq<char>, read: spec_fn(Seq<char>) -> N)
    ensures
        term_text(TermView::Integer(digits)) == digits,
        term_text(TermView::Float(digits)) == digits,
        term_text(TermView::Rational(digits)) == digits,
        read(term_text(TermView::Integer(digits))) == read(digits),
        read(term_text(TermView::Float(digits))) == read(digits),
        read(term_text(TermView::Rational(digits))) == read(digits),
{
}

impl Term {
    /// The integer term for `value`.
    pub fn integer(value: i64) -> (out: Term)
        ensures
            out@ == TermView::Integer(integer_text(value as int)),
    {
        Term::Integer(integer_to_text(value))
    }
}

/// An integer reads back from its text: the text of the integer term for
/// `n` stands for `n`.
pub proof fn lemma_integer_round_trip(n: int)
    ensures
        integer_value(term_text(TermView::Integer(integer_text(n)))) == n,
{
    lemma_integer_text_round_trip(n);
}

} // verus!
