//! Incremental reading of wiki export documents.
//!
//! A driving loop feeds the token events of an export document, one at a time,
//! to a [`DocumentContext`]. The context routes each event down the single path
//! of open nodes, builds scalar values, namespace lists, revisions and pages,
//! and closes every record as soon as its end tag arrives so that closed pages
//! can be drained while the rest of the document is still being read.
//!
//! Around that core sit the passes that turn page text into output: entity
//! decoding, white-space collapsing, word stripping, dictionary words, and the
//! bookkeeping of a download over several dump files.

mod document;
mod error;
mod event;
mod file_name;
mod format;
mod namespace;
mod options;
mod output;
mod processing;
mod records;
mod text;
mod tracker;
mod value;
mod words;

pub use document::{DocumentContext, EXPORT_NAMESPACE};
pub use error::{
    CloseableState, FieldResultMap, NotAFile, ParseError, ParseResult, ValueError, ValueErrorKind,
};
pub use event::{is_ignorable, name_is, Attribute, XmlEvent, XmlTag};
pub use file_name::FileName;
pub use format::{format_seconds, left_pad};
pub use namespace::{Namespace, XMLList};
pub use options::{GeneratorOptions, TextOptions};
pub use output::{classify_page, is_wikitext, redirect_entry, PageContent};
pub use processing::{
    sanitize_escapes, CollapseWhitespace, MapXMLEntities, ProcessingPass, StripWords,
};
pub use records::{Revision, SiteInfo, WikiPage};
pub use tracker::DownloadTracker;
pub use value::{ParseValue, ValueTag};
pub use words::dictionary_words;
