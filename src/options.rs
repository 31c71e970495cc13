//! Which outputs to generate, and how to render page text.

use vstd::prelude::*;

verus! {

/// The selection of generated files.
#[derive(Debug, Clone, Copy, PartialEq, Eq)]
pub struct GeneratorOptions {
    /// Collect redirection articles in a file.
    pub redirects: bool,
    /// Collect article metadata.
    pub metadata: bool,
    /// Collect all words into a dictionary.
    pub dictionary: bool,
    /// Collect text content into a dump file.
    pub text: bool,
}

impl GeneratorOptions {
    /// Whether any output is selected.
    pub fn any(&self) -> (r: bool)
        ensures
            r == (self.redirects || self.metadata || self.dictionary || self.text),
    {
        self.redirects || self.metadata || self.dictionary || self.text
    }
}

/// Options for rendering page text.
#[derive(Debug, Clone, Copy, PartialEq, Eq)]
pub struct TextOptions {
    /// Include headings in the output.
    pub include_headings: bool,
    /// Include preformatted text in the output.
    pub include_preformatted: bool,
    /// Include table content in the output.
    pub include_tables: bool,
    /// Produce Markdown instead of raw text.
    pub include_formatting: bool,
    /// Keep only sentences where possible.
    pub only_sentences: bool,
}

} // verus!
