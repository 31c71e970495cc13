//! What the output stage makes of a drained page.

use vstd::prelude::*;

use crate::processing::{escaped_from, sanitize_escapes};
use crate::records::{Revision, WikiPage};
use crate::text::{owned, push_text};
use crate::value::ValueTag;

verus! {

/// What a page contributes to the generated files.
#[derive(Debug)]
pub enum PageContent {
    /// A redirect page: its title, where it was read, and its target.
    Redirect { title: Option<String>, target: String },
    /// The wikitext of the page's last revision.
    Wikitext(String),
    /// The last revision is in a model and format that cannot be rendered.
    Unsupported,
    /// Nothing to render: no revision, or a revision without text.
    Empty,
}

/// The text of a closed string field.
pub open spec fn text_of(tag: ValueTag<String>) -> Option<Seq<char>> {
    match tag {
        ValueTag::Closed { value, .. } => Some(value@),
        _ => None,
    }
}

/// Whether a revision holds wikitext: its model is `wikitext` or its format
/// is `text/x-wiki`.
pub open spec fn wikitext_spec(rev: Revision) -> bool {
    text_of(rev.model) == Some("wikitext"@) || text_of(rev.format) == Some("text/x-wiki"@)
}

fn closed_text_is(tag: &ValueTag<String>, expected: &str) -> (r: bool)
    ensures
        r == (text_of(*tag) == Some(expected@)),
{
    match tag.value() {
        Some(v) => *v == owned(expected),
        None => false,
    }
}

/// Whether the revision can be rendered as wikitext.
pub fn is_wikitext(rev: &Revision) -> (r: bool)
    ensures
        r == wikitext_spec(*rev),
{
    closed_text_is(&rev.model, "wikitext") || closed_text_is(&rev.format, "text/x-wiki")
}

/// What a page contributes: a redirect, where it has a target; else the text
/// of its last revision, if that revision holds wikitext and its text was read.
pub fn classify_page(page: WikiPage) -> (r: PageContent)
    ensures
        page.redirect matches Some(target) ==> r matches PageContent::Redirect { title, target: t }
            && t == target && (title matches Some(s) ==> text_of(page.title) == Some(s@))
            && (title is None ==> text_of(page.title) is None),
        page.redirect is None && page.revisions@.len() == 0 ==> r is Empty,
        page.redirect is None && page.revisions@.len() > 0 ==> {
            let last = page.revisions@.last();
            if !wikitext_spec(last) {
                r is Unsupported
            } else {
                match text_of(last.text) {
                    Some(t) => r matches PageContent::Wikitext(s) && s@ == t,
                    None => r is Empty,
                }
            }
        },
{
    let mut page = page;
    match page.redirect {
        Some(target) => {
            let title = page.title.take_value();
            PageContent::Redirect { title, target }
        },
        None => match page.revisions.pop() {
            None => PageContent::Empty,
            Some(mut rev) => {
                if !is_wikitext(&rev) {
                    PageContent::Unsupported
                } else {
                    match rev.text.take_value() {
                        Some(text) => PageContent::Wikitext(text),
                        None => PageContent::Empty,
                    }
                }
            },
        },
    }
}

/// The entry of the redirects file for one redirect: a separating `,` line
/// unless it is the first, then `  "title": "target"` with quotes escaped.
pub open spec fn redirect_entry_spec(
    first: bool,
    title: Seq<char>,
    target: Seq<char>,
) -> Seq<char> {
    (if first {
        Seq::<char>::empty()
    } else {
        ",\n"@
    }) + "  \""@ + escaped_from(title, '"', false) + "\": \""@ + escaped_from(target, '"', false)
        + "\""@
}

pub fn redirect_entry(first: bool, title: &str, target: &str) -> (r: String)
    ensures
        r@ == redirect_entry_spec(first, title@, target@),
{
    let mut out = String::new();
    if !first {
        push_text(&mut out, ",\n");
    }
    push_text(&mut out, "  \"");
    let t = sanitize_escapes(title, '"');
    push_text(&mut out, t.as_str());
    push_text(&mut out, "\": \"");
    let g = sanitize_escapes(target, '"');
    push_text(&mut out, g.as_str());
    push_text(&mut out, "\"");
    proof {
        if first {
            assert(Seq::<char>::empty() + "  \""@ =~= "  \""@);
        }
    }
    out
}

} // verus!
