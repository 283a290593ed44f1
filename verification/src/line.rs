//! A line of a block: a comment or a variable.

use crate::variable::{variable_text, Variable, VariableView};
use vstd::prelude::*;
use vstd::std_specs::cmp::PartialEqSpecImpl;
use vstd::string::*;

verus! {

/// A line of a block. Two lines are equal where both are variables of the
/// same key; a comment equals no line, not even itself, so that a block may
/// repeat a comment but not a key.
#[derive(Debug)]
pub enum Line {
    Comment(String),
    Variable(Variable),
}

/// What a line holds: the text of a comment, or a variable.
pub enum LineView {
    Comment(Seq<char>),
    Variable(VariableView),
}

impl View for Line {
    type V = LineView;

    open spec fn view(&self) -> LineView {
        match self {
            Line::Comment(text) => LineView::Comment(text@),
            Line::Variable(v) => LineView::Variable(v@),
        }
    }
}

/// A line as text: `# ` before a comment, `key=value` for a variable.
pub open spec fn line_text(l: LineView) -> Seq<char> {
    match l {
        LineView::Comment(text) => "# "@ + text,
        LineView::Variable(v) => variable_text(v),
    }
}

impl Line {
    /// Whether the line is a comment.
    pub fn is_comment(&self) -> (r: bool)
        ensures
            r == (self@ is Comment),
    {
        match self {
            Line::Comment(_) => true,
            Line::Variable(_) => false,
        }
    }

    /// Whether the line is a variable.
    pub fn is_variable(&self) -> (r: bool)
        ensures
            r == (self@ is Variable),
    {
        match self {
            Line::Comment(_) => false,
            Line::Variable(_) => true,
        }
    }

    /// The line as text.
    pub fn to_string(&self) -> (s: String)
        ensures
            s@ == line_text(self@),
    {
        match self {
            Line::Comment(text) => {
                let mut s = String::from_str("# ");
                s.append(text.as_str());
                s
            },
            Line::Variable(v) => v.to_string(),
        }
    }
}

impl Clone for Line {
    fn clone(&self) -> (l: Self)
        ensures
            l@ == self@,
    {
        match self {
            Line::Comment(text) => Line::Comment(text.clone()),
            Line::Variable(v) => Line::Variable(v.clone()),
        }
    }
}

impl PartialEq for Line {
    fn eq(&self, other: &Self) -> (r: bool) {
        match (self, other) {
            (Line::Variable(a), Line::Variable(b)) => a.key == b.key,
            _ => false,
        }
    }
}

impl PartialEqSpecImpl for Line {
    open spec fn obeys_eq_spec() -> bool {
        true
    }

    open spec fn eq_spec(&self, other: &Self) -> bool {
        match (self, other) {
            (Line::Variable(a), Line::Variable(b)) => a.key@ == b.key@,
            _ => false,
        }
    }
}

} // verus!
