use vstd::prelude::*;

verus! {

/// A stored script template's body: the scripting-language tag (for the
/// templates this pipeline moves, `mustache`) and the template source
/// text. A fetch followed by an upload carries both fields unchanged.
#[derive(Debug, Clone, PartialEq, Eq)]
pub struct ScriptContent {
    pub lang: String,
    pub source: String,
}

impl ScriptContent {
    pub fn new(lang: String, source: String) -> (s: Self)
        ensures
            s.lang == lang,
            s.source == source,
    {
        ScriptContent { lang, source }
    }

    /// The scripting-language tag.
    pub fn lang(&self) -> (r: &String)
        ensures
            r == &self.lang,
    {
        &self.lang
    }

    /// The template source text.
    pub fn source(&self) -> (r: &String)
        ensures
            r == &self.source,
    {
        &self.source
    }
}

} // verus!
