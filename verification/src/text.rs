//! Building and cutting text: joining pieces with a separator, the escapes
//! of a quoted string, splitting at a separator and trimming white space.
use vstd::prelude::*;

verus! {

/// The pieces written one after another, with `sep` between neighbours.
pub open spec fn joined(parts: Seq<Seq<char>>, sep: Seq<char>) -> Seq<char>
    decreases parts.len(),
{
    if parts.len() == 0 {
        Seq::empty()
    } else if parts.len() == 1 {
        parts[0]
    } else {
        joined(parts.drop_last(), sep) + sep + parts.last()
    }
}

/// What one more piece adds to a joined text.
pub proof fn lemma_joined_push(parts: Seq<Seq<char>>, sep: Seq<char>, piece: Seq<char>)
    ensures
        joined(parts.push(piece), sep) == if parts.len() == 0 {
            piece
        } else {
            joined(parts, sep) + sep + piece
        },
{
    assert(parts.push(piece).drop_last() =~= parts);
}

/// The text of each string of `pieces`.
pub open spec fn texts(pieces: Seq<String>) -> Seq<Seq<char>> {
    Seq::new(pieces.len(), |i: int| pieces[i]@)
}

/// What stands for `c` between the quotes of a string literal: the double
/// quote, the line feed, the tab and the carriage return get a backslash
/// form, every other character stands for itself.
pub open spec fn escaped_char(c: char) -> Seq<char> {
    if c == '"' {
        "\\\""@
    } else if c == '\n' {
        "\\n"@
    } else if c == '\t' {
        "\\t"@
    } else if c == '\r' {
        "\\r"@
    } else {
        seq![c]
    }
}

/// `text` with each of its characters escaped.
pub open spec fn escaped(text: Seq<char>) -> Seq<char>
    decreases text.len(),
{
    if text.len() == 0 {
        Seq::empty()
    } else {
        escaped(text.drop_last()) + escaped_char(text.last())
    }
}

/// `text` as a string literal: escaped, between double quotes.
pub open spec fn quoted(text: Seq<char>) -> Seq<char> {
    "\""@ + escaped(text) + "\""@
}

/// `String::push` of std: the character is added at the end.
#[verifier::external_body]
pub(crate) fn push_char(out: &mut String, c: char)
    ensures
        final(out)@ == old(out)@.push(c),
{
    out.push(c)
}

/// Joins `pieces` with `sep` between neighbours.
pub fn join(pieces: &Vec<String>, sep: &str) -> (out: String)
    ensures
        out@ == joined(texts(pieces@), sep@),
{
    let mut out = String::new();
    let mut i: usize = 0;
    while i < pieces.len()
        invariant
            i <= pieces@.len(),
            out@ == joined(texts(pieces@).take(i as int), sep@),
        decreases pieces@.len() - i,
    {
        proof {
            let all = texts(pieces@);
            assert(all.take(i as int).push(all[i as int]) =~= all.take(i + 1));
            lemma_joined_push(all.take(i as int), sep@, all[i as int]);
        }
        if i > 0 {
            out.append(sep);
        }
        out.append(pieces[i].as_str());
        i += 1;
    }
    proof {
        assert(texts(pieces@).take(pieces@.len() as int) =~= texts(pieces@));
    }
    out
}

/// Escapes each character of `text`.
pub fn escape(text: &str) -> (out: String)
    ensures
        out@ == escaped(text@),
{
    let mut out = String::new();
    for c in it: text.chars()
        invariant
            it.seq() == text@,
            out@ == escaped(text@.take(it.index() as int)),
    {
        proof {
            assert(text@.take(it.index() + 1).drop_last() =~= text@.take(it.index() as int));
        }
        if c == '"' {
            out.append("\\\"");
        } else if c == '\n' {
            out.append("\\n");
        } else if c == '\t' {
            out.append("\\t");
        } else if c == '\r' {
            out.append("\\r");
        } else {
            push_char(&mut out, c);
        }
    }
    proof {
        assert(text@.take(text@.len() as int) =~= text@);
    }
    out
}

/// Writes `text` as a string literal.
pub fn quote(text: &str) -> (out: String)
    ensures
        out@ == quoted(text@),
{
    let mut out = String::new();
    out.append("\"");
    let inner = escape(text);
    out.append(inner.as_str());
    out.append("\"");
    out
}

/// Whether `c` is white space: one of the characters that Unicode marks
/// `White_Space`, given here by their code points.
pub open spec fn is_whitespace(c: char) -> bool {
    let code = c as u32;
    ||| 0x09 <= code <= 0x0d
    ||| code == 0x20
    ||| code == 0x85
    ||| code == 0xa0
    ||| code == 0x1680
    ||| 0x2000 <= code <= 0x200a
    ||| code == 0x2028
    ||| code == 0x2029
    ||| code == 0x202f
    ||| code == 0x205f
    ||| code == 0x3000
}

/// Tells whether `c` is white space.
pub fn whitespace(c: char) -> (white: bool)
    ensures
        white == is_whitespace(c),
{
    let code: u32 = c as u32;
    (0x09 <= code && code <= 0x0d) || code == 0x20 || code == 0x85 || code == 0xa0 || code
        == 0x1680 || (0x2000 <= code && code <= 0x200a) || code == 0x2028 || code == 0x2029
        || code == 0x202f || code == 0x205f || code == 0x3000
}

/// `text` without the white space in front of it.
pub open spec fn without_leading_space(text: Seq<char>) -> Seq<char>
    decreases text.len(),
{
    if text.len() > 0 && is_whitespace(text[0]) {
        without_leading_space(text.drop_first())
    } else {
        text
    }
}

/// `text` without the white space at its end.
pub open spec fn without_trailing_space(text: Seq<char>) -> Seq<char>
    decreases text.len(),
{
    if text.len() > 0 && is_whitespace(text.last()) {
        without_trailing_space(text.drop_last())
    } else {
        text
    }
}

/// `text` without the white space around it.
pub open spec fn trimmed(text: Seq<char>) -> Seq<char> {
    without_trailing_space(without_leading_space(text))
}

/// The pieces of `text` between the occurrences of `separator`: one piece
/// more than there are separators, some of them perhaps empty.
pub open spec fn split(text: Seq<char>, separator: char) -> Seq<Seq<char>>
    decreases text.len(),
{
    if text.len() == 0 {
        seq![Seq::empty()]
    } else {
        let before = split(text.drop_last(), separator);
        if text.last() == separator {
            before.push(Seq::empty())
        } else {
            before.update(before.len() - 1, before.last().push(text.last()))
        }
    }
}

/// The white space in front of a text ends where `start` says.
proof fn lemma_leading_space(text: Seq<char>, start: int)
    requires
        0 <= start <= text.len(),
        forall|k: int| 0 <= k < start ==> is_whitespace(#[trigger] text[k]),
        start < text.len() ==> !is_whitespace(text[start]),
    ensures
        without_leading_space(text) == text.skip(start),
    decreases start,
{
    if start == 0 {
        assert(text.skip(0) =~= text);
    } else {
        let rest = text.drop_first();
        assert forall|k: int| 0 <= k < start - 1 implies is_whitespace(#[trigger] rest[k]) by {
            assert(rest[k] == text[k + 1]);
        }
        lemma_leading_space(rest, start - 1);
        assert(rest.skip(start - 1) =~= text.skip(start));
    }
}

/// The white space at the end of a text begins where `end` says.
proof fn lemma_trailing_space(text: Seq<char>, end: int)
    requires
        0 <= end <= text.len(),
        forall|k: int| end <= k < text.len() ==> is_whitespace(#[trigger] text[k]),
        0 < end ==> !is_whitespace(text[end - 1]),
    ensures
        without_trailing_space(text) == text.take(end),
    decreases text.len() - end,
{
    if end == text.len() {
        assert(text.take(end) =~= text);
    } else {
        let rest = text.drop_last();
        lemma_trailing_space(rest, end);
        assert(rest.take(end) =~= text.take(end));
    }
}

/// The characters of `text`, one by one.
fn characters(text: &str) -> (out: Vec<char>)
    ensures
        out@ == text@,
{
    let mut out: Vec<char> = Vec::new();
    for c in it: text.chars()
        invariant
            it.seq() == text@,
            out@ == text@.take(it.index() as int),
    {
        out.push(c);
        assert(out@ =~= text@.take(it.index() + 1));
    }
    assert(text@.take(text@.len() as int) =~= text@);
    out
}

/// Takes the white space around `text` away.
pub fn trim(text: &str) -> (out: String)
    ensures
        out@ == trimmed(text@),
{
    let all = characters(text);
    let mut start: usize = 0;
    while start < all.len() && whitespace(all[start])
        invariant
            start <= all@.len(),
            forall|k: int| 0 <= k < start ==> is_whitespace(#[trigger] all@[k]),
        decreases all@.len() - start,
    {
        start += 1;
    }
    let mut end: usize = all.len();
    while end > start && whitespace(all[end - 1])
        invariant
            start <= end <= all@.len(),
            forall|k: int| end <= k < all@.len() ==> is_whitespace(#[trigger] all@[k]),
        decreases end,
    {
        end -= 1;
    }
    let mut out = String::new();
    let mut i: usize = start;
    while i < end
        invariant
            start <= i <= end <= all@.len(),
            out@ == all@.subrange(start as int, i as int),
        decreases end - i,
    {
        push_char(&mut out, all[i]);
        i += 1;
        assert(out@ =~= all@.subrange(start as int, i as int));
    }
    proof {
        let inner = all@.skip(start as int);
        lemma_leading_space(all@, start as int);
        assert forall|k: int| end - start <= k < inner.len() implies is_whitespace(
            #[trigger] inner[k],
        ) by {
            assert(inner[k] == all@[k + start]);
        }
        if end > start {
            assert(inner[end - start - 1] == all@[end - 1]);
        }
        lemma_trailing_space(inner, end - start);
        assert(inner.take(end - start) =~= all@.subrange(start as int, end as int));
    }
    out
}

/// Cuts `text` at each occurrence of `separator`.
pub fn split_on(text: &str, separator: char) -> (pieces: Vec<String>)
    ensures
        texts(pieces@) == split(text@, separator),
{
    let mut pieces: Vec<String> = Vec::new();
    let mut current = String::new();
    for c in it: text.chars()
        invariant
            it.seq() == text@,
            texts(pieces@).push(current@) == split(text@.take(it.index() as int), separator),
    {
        proof {
            assert(text@.take(it.index() + 1).drop_last() =~= text@.take(it.index() as int));
        }
        let ghost before = texts(pieces@).push(current@);
        if c == separator {
            pieces.push(current);
            current = String::new();
            assert(texts(pieces@).push(current@) =~= before.push(Seq::empty()));
        } else {
            push_char(&mut current, c);
            assert(texts(pieces@).push(current@) =~= before.update(
                before.len() - 1,
                before.last().push(c),
            ));
        }
    }
    proof {
        assert(text@.take(text@.len() as int) =~= text@);
    }
    let ghost before = texts(pieces@).push(current@);
    pieces.push(current);
    assert(texts(pieces@) =~= before);
    pieces
}

} // verus!
