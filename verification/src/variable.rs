//! A variable: a key and its value.

use vstd::prelude::*;
use vstd::std_specs::cmp::PartialEqSpecImpl;
use vstd::string::*;

verus! {

/// A key and its value. Two variables are the same variable where their
/// keys are equal, whatever their values.
#[derive(Debug)]
pub struct Variable {
    pub key: String,
    pub value: String,
}

/// What a variable holds: the text of its key and of its value.
pub struct VariableView {
    pub key: Seq<char>,
    pub value: Seq<char>,
}

impl View for Variable {
    type V = VariableView;

    open spec fn view(&self) -> VariableView {
        VariableView { key: self.key@, value: self.value@ }
    }
}

/// A variable as text: its key, `=`, its value.
pub open spec fn variable_text(v: VariableView) -> Seq<char> {
    v.key + "="@ + v.value
}

impl Variable {
    pub fn new(key: &str, value: &str) -> (v: Self)
        ensures
            v@ == (VariableView { key: key@, value: value@ }),
    {
        Variable { key: String::from_str(key), value: String::from_str(value) }
    }

    /// The variable as text.
    pub fn to_string(&self) -> (s: String)
        ensures
            s@ == variable_text(self@),
    {
        let mut s = self.key.clone();
        s.append("=");
        s.append(self.value.as_str());
        s
    }
}

impl Clone for Variable {
    fn clone(&self) -> (v: Self)
        ensures
            v@ == self@,
    {
        Variable { key: self.key.clone(), value: self.value.clone() }
    }
}

impl PartialEq for Variable {
    fn eq(&self, other: &Self) -> (r: bool) {
        self.key == other.key
    }
}

impl PartialEqSpecImpl for Variable {
    open spec fn obeys_eq_spec() -> bool {
        true
    }

    open spec fn eq_spec(&self, other: &Self) -> bool {
        self.key@ == other.key@
    }
}

} // verus!
