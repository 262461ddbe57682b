use vstd::prelude::*;

verus! {

/// The text shown before each input line.
pub struct Prompt(pub String);

/// The text shown once, when the shell starts.
pub struct PromptHeader(pub String);

impl Prompt {
    pub fn new(text: &str) -> (r: Self)
        ensures
            r.0@ == text@,
    {
        Prompt(text.to_owned())
    }

    pub fn text(&self) -> (r: &str)
        ensures
            r@ == self.0@,
    {
        self.0.as_str()
    }
}

impl PromptHeader {
    pub fn new(text: &str) -> (r: Self)
        ensures
            r.0@ == text@,
    {
        PromptHeader(text.to_owned())
    }

    pub fn text(&self) -> (r: &str)
        ensures
            r@ == self.0@,
    {
        self.0.as_str()
    }
}

impl<'a> From<&'a str> for Prompt {
    fn from(value: &'a str) -> (r: Self) {
        Prompt::new(value)
    }
}

impl<'a> vstd::std_specs::convert::FromSpecImpl<&'a str> for Prompt {
    open spec fn obeys_from_spec() -> bool {
        false
    }

    open spec fn from_spec(v: &'a str) -> Self {
        Prompt(arbitrary())
    }
}

impl<'a> From<&'a str> for PromptHeader {
    fn from(value: &'a str) -> (r: Self) {
        PromptHeader::new(value)
    }
}

impl<'a> vstd::std_specs::convert::FromSpecImpl<&'a str> for PromptHeader {
    open spec fn obeys_from_spec() -> bool {
        false
    }

    open spec fn from_spec(v: &'a str) -> Self {
        PromptHeader(arbitrary())
    }
}

} // verus!
