//! The commands on an agent's languages, and what they show and send.
use crate::text::{split, split_on, texts, trim, trimmed};
use vstd::prelude::*;

verus! {

/// What the command line can ask about the languages installed on an agent.
#[derive(Debug, PartialEq, Eq)]
pub enum LanguageFunctions {
    /// List all languages.
    All,
    /// Show information about a language.
    ByAddress { address: String },
    /// List all languages that implement a given interface.
    ByFilter { filter: String },
    /// Set language settings (a JSON string).
    WriteSettings { address: String, settings: String },
    /// Clone a source language, set template parameters and publish the result.
    ApplyTemplateAndPublish { source: String, template_data: String },
    /// Publish a language from a local file path.
    Publish { path: String },
    /// Show meta information about a language.
    Meta { address: String },
    /// Show source code of a language.
    Source { address: String },
    /// Uninstall the given language.
    Remove { address: String },
}

/// The template parameters that a line of input names: none for an empty
/// line, else the pieces between the commas, each without the white space
/// around it.
pub open spec fn template_parameters_of(line: Seq<char>) -> Option<Seq<Seq<char>>> {
    if line.len() == 0 {
        None
    } else {
        Some(Seq::new(split(line, ',').len(), |i: int| trimmed(split(line, ',')[i])))
    }
}

/// The line that shows a language's settings: the settings themselves,
/// `<empty>` for the empty object `{}`, `<undefined>` where there are none.
pub open spec fn settings_line_of(settings: Option<Seq<char>>) -> Seq<char> {
    match settings {
        Some(text) => if text == "{}"@ {
            "\x1b[36mSettings: \x1b[90m<empty>"@
        } else {
            "\x1b[36mSettings: \x1b[97m"@ + text
        },
        None => "\x1b[36mSettings: \x1b[90m<undefined>"@,
    }
}

/// The lines that show one language: its name, its address, its settings.
pub open spec fn summary_of(name: Seq<char>, address: Seq<char>, settings: Option<Seq<char>>) -> Seq<
    Seq<char>,
> {
    seq![
        "\x1b[36mName: \x1b[97m"@ + name,
        "\x1b[36mAddress: \x1b[97m"@ + address,
        settings_line_of(settings),
    ]
}

/// Reads the template parameters off a line of input.
pub fn template_parameters(line: &str) -> (parameters: Option<Vec<String>>)
    ensures
        match parameters {
            Some(names) => template_parameters_of(line@) == Some(texts(names@)),
            None => template_parameters_of(line@) is None,
        },
{
    if line.is_empty() {
        return None;
    }
    let pieces = split_on(line, ',');
    let mut names: Vec<String> = Vec::new();
    let mut i: usize = 0;
    while i < pieces.len()
        invariant
            i <= pieces@.len(),
            names@.len() == i,
            forall|k: int| 0 <= k < i ==> (#[trigger] names@[k])@ == trimmed(pieces@[k]@),
        decreases pieces@.len() - i,
    {
        names.push(trim(pieces[i].as_str()));
        i += 1;
    }
    proof {
        let cut = split(line@, ',');
        assert(texts(pieces@) == cut);
        assert forall|k: int| 0 <= k < cut.len() implies (#[trigger] names@[k])@ == trimmed(
            cut[k],
        ) by {
            assert(texts(pieces@)[k] == pieces@[k]@);
        }
        assert(texts(names@) =~= template_parameters_of(line@)->Some_0);
    }
    Some(names)
}

/// An answer that may be left empty: nothing for the empty text, else the text.
pub fn optional_text(text: String) -> (given: Option<String>)
    ensures
        text@.len() == 0 ==> given is None,
        text@.len() != 0 ==> given == Some(text),
{
    if text.as_str().is_empty() {
        None
    } else {
        Some(text)
    }
}

/// Writes the line that shows a language's settings.
pub fn settings_line(settings: &Option<String>) -> (line: String)
    ensures
        line@ == settings_line_of(
            match settings {
                Some(text) => Some(text@),
                None => None,
            },
        ),
{
    let mut line = String::new();
    match settings {
        Some(text) => {
            if same_as_empty_object(text) {
                line.append("\x1b[36mSettings: \x1b[90m<empty>");
            } else {
                line.append("\x1b[36mSettings: \x1b[97m");
                line.append(text.as_str());
            }
        },
        None => {
            line.append("\x1b[36mSettings: \x1b[90m<undefined>");
        },
    }
    line
}

/// Whether `text` is the empty object `{}`.
fn same_as_empty_object(text: &String) -> (same: bool)
    ensures
        same == (text@ == "{}"@),
{
    let mut empty_object = String::new();
    empty_object.append("{}");
    *text == empty_object
}

/// Writes the lines that show one language.
pub fn summary(name: &str, address: &str, settings: &Option<String>) -> (lines: Vec<String>)
    ensures
        texts(lines@) == summary_of(
            name@,
            address@,
            match settings {
                Some(text) => Some(text@),
                None => None,
            },
        ),
{
    let mut name_line = String::new();
    name_line.append("\x1b[36mName: \x1b[97m");
    name_line.append(name);
    let mut address_line = String::new();
    address_line.append("\x1b[36mAddress: \x1b[97m");
    address_line.append(address);
    let mut lines: Vec<String> = Vec::new();
    lines.push(name_line);
    lines.push(address_line);
    lines.push(settings_line(settings));
    assert(texts(lines@) =~= summary_of(
        name@,
        address@,
        match settings {
            Some(text) => Some(text@),
            None => None,
        },
    ));
    lines
}

} // verus!
