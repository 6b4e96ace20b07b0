//! Declared elements and the text they render to.
use vstd::prelude::*;
use vstd::string::*;

verus! {

/// An immutable description of a leaf component to render.
#[derive(Debug)]
pub enum Element {
    /// A `Text` component showing its content on its own line.
    Text(String),
}

/// The characters an element paints on its line.
pub open spec fn line_of(e: Element) -> Seq<char> {
    match e {
        Element::Text(s) => s@,
    }
}

/// The line each element paints, in order.
pub open spec fn element_lines(es: Seq<Element>) -> Seq<Seq<char>> {
    es.map_values(|e: Element| line_of(e))
}

/// The characters of each string, in order.
pub open spec fn string_lines(v: Seq<String>) -> Seq<Seq<char>> {
    v.map_values(|s: String| s@)
}

/// A `Text` element for each string, in order.
pub open spec fn texts(items: Seq<String>) -> Seq<Element> {
    items.map_values(|s: String| Element::Text(s))
}

/// Lines stacked in a column: each line followed by a line break, in order.
pub open spec fn column(lines: Seq<Seq<char>>) -> Seq<char>
    decreases lines.len(),
{
    if lines.len() == 0 {
        Seq::empty()
    } else {
        column(lines.drop_last()) + lines.last() + seq!['\n']
    }
}

/// `Text` elements paint exactly their strings.
pub proof fn lemma_text_lines(items: Seq<String>)
    ensures
        element_lines(texts(items)) == string_lines(items),
{
    assert(element_lines(texts(items)) =~= string_lines(items));
}

impl Element {
    /// A `Text` element with the given content.
    pub fn text(content: String) -> (r: Element)
        ensures
            r == Element::Text(content),
    {
        Element::Text(content)
    }

    /// The content this element paints.
    pub fn line(&self) -> (r: &str)
        ensures
            r@ == line_of(*self),
    {
        match self {
            Element::Text(s) => s.as_str(),
        }
    }
}

/// Stacks lines in a column, each followed by a line break.
pub fn render_column(lines: &Vec<String>) -> (r: String)
    ensures
        r@ == column(string_lines(lines@)),
{
    let mut out = String::new();
    let mut i: usize = 0;
    while i < lines.len()
        invariant
            i <= lines.len(),
            out@ == column(string_lines(lines@.subrange(0, i as int))),
        decreases lines.len() - i,
    {
        out.append(lines[i].as_str());
        out.append("\n");
        proof {
            reveal_strlit("\n");
            let done = string_lines(lines@.subrange(0, i + 1));
            assert(done.drop_last() =~= string_lines(lines@.subrange(0, i as int)));
            assert(done.last() == lines@[i as int]@);
        }
        i = i + 1;
    }
    assert(lines@.subrange(0, lines.len() as int) =~= lines@);
    out
}

} // verus!
