//! A named slot of optional free text within a question.
use vstd::prelude::*;

verus! {

/// Free text of one section. `None` means the section has no text yet,
/// which is distinct from text that is present but empty.
#[derive(Default)]
pub struct Section {
    pub text: Option<String>,
}

impl View for Section {
    type V = Option<Seq<char>>;

    open spec fn view(&self) -> Option<Seq<char>> {
        match self.text {
            Some(t) => Some(t@),
            None => None,
        }
    }
}

impl Section {
    /// A section without text.
    pub fn empty() -> (r: Section)
        ensures
            r@ == None::<Seq<char>>,
    {
        Section { text: None }
    }

    /// A section holding the given text.
    pub fn with_text(text: String) -> (r: Section)
        ensures
            r@ == Some(text@),
    {
        Section { text: Some(text) }
    }

    /// A copy of this section.
    pub fn duplicate(&self) -> (r: Section)
        ensures
            r@ == self@,
    {
        match &self.text {
            Some(t) => Section { text: Some(t.clone()) },
            None => Section { text: None },
        }
    }
}

} // verus!
