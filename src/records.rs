//! The records of an export document: site information, revisions and pages.

use vstd::prelude::*;
use vstd::utf8::{decode_utf8, valid_utf8};

use crate::error::{refused, CloseableState, ParseError, ParseResult, ValueError, ValueErrorKind};
use crate::event::{
    attribute_value, fallback, fallback_spec, find_attribute, is_empty, is_empty_of, is_end,
    is_end_of, is_start, is_start_of, key_bytes, opens, opens_tag, Attribute, XmlEvent,
};
use crate::namespace::XMLList;
use crate::text::{decode_bytes, owned, signed_decimal};
use crate::value::ValueTag;

verus! {

/// One for a node that is open, zero otherwise.
pub open spec fn open_flag(open: bool) -> int {
    if open {
        1
    } else {
        0
    }
}

/// The `siteinfo` record: names of the wiki and its list of namespaces.
#[derive(Debug)]
pub struct SiteInfo {
    pub site_name: ValueTag<String>,
    pub db_name: ValueTag<String>,
    pub base: ValueTag<String>,
    pub generator: ValueTag<String>,
    pub ns: XMLList,
    pub state: CloseableState,
}

impl SiteInfo {
    /// A site information record whose tag has not been seen yet.
    pub open spec fn blank(state: CloseableState) -> SiteInfo {
        SiteInfo {
            site_name: ValueTag::Unopened,
            db_name: ValueTag::Unopened,
            base: ValueTag::Unopened,
            generator: ValueTag::Unopened,
            ns: XMLList::Unopened,
            state,
        }
    }

    /// At most one child is open, none once the record is no longer open, and
    /// the namespace list keeps its own invariant.
    pub open spec fn wf(&self) -> bool {
        &&& open_flag(self.site_name is Open)
            + open_flag(self.db_name is Open)
            + open_flag(self.base is Open)
            + open_flag(self.generator is Open)
            + open_flag(self.ns is Open) <= 1
        &&& self.state != CloseableState::Open ==> self.children_idle()
        &&& self.ns.wf()
    }

    /// No child is open.
    pub open spec fn children_idle(&self) -> bool {
        !(self.site_name is Open)
            && !(self.db_name is Open)
            && !(self.base is Open)
            && !(self.generator is Open)
            && !(self.ns is Open)
    }

    /// Whether `new` and `r` are what handing `e` to `old` gives: an open child
    /// takes the event; else a child tag opens its slot; else the own end tag
    /// closes the record.
    pub open spec fn step_spec(old: Self, e: XmlEvent, new: Self, r: ParseResult<()>) -> bool {
        if old.state != CloseableState::Open {
            r == Err::<(), ParseError>(ParseError::BadCloseableState(old.state)) && new == old
        } else if old.site_name is Open {
            &&& ValueTag::step_spec(old.site_name, "sitename", e, new.site_name, r)
            &&& new == (SiteInfo { site_name: new.site_name, ..old })
        } else if old.db_name is Open {
            &&& ValueTag::step_spec(old.db_name, "dbname", e, new.db_name, r)
            &&& new == (SiteInfo { db_name: new.db_name, ..old })
        } else if old.base is Open {
            &&& ValueTag::step_spec(old.base, "base", e, new.base, r)
            &&& new == (SiteInfo { base: new.base, ..old })
        } else if old.generator is Open {
            &&& ValueTag::step_spec(old.generator, "generator", e, new.generator, r)
            &&& new == (SiteInfo { generator: new.generator, ..old })
        } else if old.ns is Open {
            &&& XMLList::step_spec(old.ns, e, new.ns, r)
            &&& new == (SiteInfo { ns: new.ns, ..old })
        } else if opens(e, "sitename") {
            &&& ValueTag::begin_spec(old.site_name, "sitename", e, new.site_name, r)
            &&& new == (SiteInfo { site_name: new.site_name, ..old })
        } else if opens(e, "dbname") {
            &&& ValueTag::begin_spec(old.db_name, "dbname", e, new.db_name, r)
            &&& new == (SiteInfo { db_name: new.db_name, ..old })
        } else if opens(e, "base") {
            &&& ValueTag::begin_spec(old.base, "base", e, new.base, r)
            &&& new == (SiteInfo { base: new.base, ..old })
        } else if opens(e, "generator") {
            &&& ValueTag::begin_spec(old.generator, "generator", e, new.generator, r)
            &&& new == (SiteInfo { generator: new.generator, ..old })
        } else if is_start_of(e, "namespaces") {
            &&& r is Ok
            &&& new.ns is Open
            &&& new.ns->Open_0@.len() == 0
            &&& new == (SiteInfo { ns: new.ns, ..old })
        } else if is_empty_of(e, "namespaces") {
            &&& r is Ok
            &&& new.ns is Closed
            &&& new.ns->Closed_0@.len() == 0
            &&& new == (SiteInfo { ns: new.ns, ..old })
        } else if is_end_of(e, "siteinfo") {
            r is Ok && new == (SiteInfo { state: CloseableState::Closed, ..old })
        } else {
            new == old && fallback_spec(e, r)
        }
    }

    /// A record that is open and has no children yet.
    pub fn new_open() -> (r: SiteInfo)
        ensures
            r == SiteInfo::blank(CloseableState::Open),
    {
        SiteInfo {
            site_name: ValueTag::Unopened,
            db_name: ValueTag::Unopened,
            base: ValueTag::Unopened,
            generator: ValueTag::Unopened,
            ns: XMLList::Unopened,
            state: CloseableState::Open,
        }
    }

    /// A record whose tag has not been seen yet.
    pub fn new_unopened() -> (r: SiteInfo)
        ensures
            r == SiteInfo::blank(CloseableState::Unopened),
    {
        SiteInfo {
            site_name: ValueTag::Unopened,
            db_name: ValueTag::Unopened,
            base: ValueTag::Unopened,
            generator: ValueTag::Unopened,
            ns: XMLList::Unopened,
            state: CloseableState::Unopened,
        }
    }

    /// The record is open and `name` is its end tag or one that an open node below it takes.
    pub open spec fn takes_end(self, name: Seq<u8>) -> bool {
        self.state == CloseableState::Open && (name == key_bytes("siteinfo")
            || self.site_name.takes_end("sitename", name)
            || self.db_name.takes_end("dbname", name)
            || self.base.takes_end("base", name)
            || self.generator.takes_end("generator", name)
            || self.ns.takes_end(name))
    }

    /// An end tag that no open node of the record takes is refused.
    pub proof fn lemma_unmatched_end(old: Self, e: XmlEvent, new: Self, r: ParseResult<()>)
        requires
            e matches XmlEvent::End(n) && !old.takes_end(n@),
            Self::step_spec(old, e, new, r),
        ensures
            refused(r),
    {
        if old.state == CloseableState::Open {
            if old.site_name is Open {
                ValueTag::lemma_unmatched_end(old.site_name, "sitename", e, new.site_name, r);
            } else if old.db_name is Open {
                ValueTag::lemma_unmatched_end(old.db_name, "dbname", e, new.db_name, r);
            } else if old.base is Open {
                ValueTag::lemma_unmatched_end(old.base, "base", e, new.base, r);
            } else if old.generator is Open {
                ValueTag::lemma_unmatched_end(old.generator, "generator", e, new.generator, r);
            } else if old.ns is Open {
                XMLList::lemma_unmatched_end(old.ns, e, new.ns, r);
            }
        }
    }

    /// Every step keeps the invariant.
    pub proof fn lemma_step_wf(old: Self, e: XmlEvent, new: Self, r: ParseResult<()>)
        requires
            old.wf(),
            Self::step_spec(old, e, new, r),
        ensures
            new.wf(),
    {
        if old.state == CloseableState::Open && old.ns is Open {
            XMLList::lemma_step_wf(old.ns, e, new.ns, r);
        }
    }

    pub fn close_state(&self) -> (r: CloseableState)
        ensures
            r == self.state,
    {
        self.state
    }

    pub fn is_open(&self) -> (r: bool)
        ensures
            r == (self.state == CloseableState::Open),
    {
        self.state == CloseableState::Open
    }

    /// The error that closing the record gives: that of its first open
    /// field whose text does not parse.
    pub open spec fn close_error(self) -> Option<ParseError> {
        if ValueTag::close_error(self.site_name, "sitename") is Some {
            ValueTag::close_error(self.site_name, "sitename")
        } else if ValueTag::close_error(self.db_name, "dbname") is Some {
            ValueTag::close_error(self.db_name, "dbname")
        } else if ValueTag::close_error(self.base, "base") is Some {
            ValueTag::close_error(self.base, "base")
        } else if ValueTag::close_error(self.generator, "generator") is Some {
            ValueTag::close_error(self.generator, "generator")
        } else {
            None
        }
    }

    /// Closes the record, closing each open field with its parsed text; fails,
    /// changing nothing, unless the record is open and every open field parses.
    pub fn close(&mut self) -> (r: ParseResult<()>)
        ensures
            old(self).state != CloseableState::Open ==> {
                &&& r == Err::<(), ParseError>(ParseError::BadCloseableState(old(self).state))
                &&& *final(self) == *old(self)
            },
            old(self).state == CloseableState::Open && old(self).close_error() is Some ==> {
                &&& r == Err::<(), ParseError>(old(self).close_error()->0)
                &&& *final(self) == *old(self)
            },
            old(self).state == CloseableState::Open && old(self).close_error() is None ==> {
                &&& r is Ok
                &&& final(self).state == CloseableState::Closed
                &&& ValueTag::finished_spec(old(self).site_name, final(self).site_name)
                &&& ValueTag::finished_spec(old(self).db_name, final(self).db_name)
                &&& ValueTag::finished_spec(old(self).base, final(self).base)
                &&& ValueTag::finished_spec(old(self).generator, final(self).generator)
                &&& XMLList::finished_spec(old(self).ns, final(self).ns)
            },
            old(self).wf() ==> final(self).wf(),
    {
        if self.state != CloseableState::Open {
            return Err(ParseError::BadCloseableState(self.state));
        }
        match self.site_name.check_close("sitename") {
            Ok(()) => {},
            Err(e) => {
                return Err(e);
            },
        }
        match self.db_name.check_close("dbname") {
            Ok(()) => {},
            Err(e) => {
                return Err(e);
            },
        }
        match self.base.check_close("base") {
            Ok(()) => {},
            Err(e) => {
                return Err(e);
            },
        }
        match self.generator.check_close("generator") {
            Ok(()) => {},
            Err(e) => {
                return Err(e);
            },
        }
        self.site_name.finish("sitename");
        self.db_name.finish("dbname");
        self.base.finish("base");
        self.generator.finish("generator");
        self.ns.finish();
        self.state = CloseableState::Closed;
        Ok(())
    }

    /// Hands one event to the record.
    pub fn handle_event(&mut self, event: &XmlEvent) -> (r: ParseResult<()>)
        ensures
            Self::step_spec(*old(self), *event, *final(self), r),
            old(self).wf() ==> final(self).wf(),
    {
        let r = self.dispatch(event);
        proof {
            if old(self).wf() {
                Self::lemma_step_wf(*old(self), *event, *self, r);
            }
        }
        r
    }

    fn dispatch(&mut self, event: &XmlEvent) -> (r: ParseResult<()>)
        ensures
            Self::step_spec(*old(self), *event, *final(self), r),
    {
        if self.state != CloseableState::Open {
            return Err(ParseError::BadCloseableState(self.state));
        }
        if self.site_name.is_open() {
            return self.site_name.handle_event("sitename", event);
        }
        if self.db_name.is_open() {
            return self.db_name.handle_event("dbname", event);
        }
        if self.base.is_open() {
            return self.base.handle_event("base", event);
        }
        if self.generator.is_open() {
            return self.generator.handle_event("generator", event);
        }
        if self.ns.is_open() {
            return self.ns.handle_event(event);
        }
        if opens_tag(event, "sitename") {
            return self.site_name.begin("sitename", event);
        }
        if opens_tag(event, "dbname") {
            return self.db_name.begin("dbname", event);
        }
        if opens_tag(event, "base") {
            return self.base.begin("base", event);
        }
        if opens_tag(event, "generator") {
            return self.generator.begin("generator", event);
        }
        if is_start(event, "namespaces") {
            self.ns = XMLList::new_open();
            return Ok(());
        }
        if is_empty(event, "namespaces") {
            self.ns = XMLList::Closed(Vec::new());
            return Ok(());
        }
        if is_end(event, "siteinfo") {
            self.state = CloseableState::Closed;
            return Ok(());
        }
        fallback(event, "unexpected event in siteinfo")
    }
}

/// One `revision` of a page.
#[derive(Debug)]
pub struct Revision {
    pub id: ValueTag<usize>,
    pub parent_id: ValueTag<usize>,
    pub timestamp: ValueTag<String>,
    pub comment: ValueTag<String>,
    pub model: ValueTag<String>,
    pub format: ValueTag<String>,
    pub text: ValueTag<String>,
    pub sha1: ValueTag<String>,
    pub state: CloseableState,
}

impl Revision {
    /// A revision just begun: no field seen yet.
    pub open spec fn blank(state: CloseableState) -> Revision {
        Revision {
            id: ValueTag::Unopened,
            parent_id: ValueTag::Unopened,
            timestamp: ValueTag::Unopened,
            comment: ValueTag::Unopened,
            model: ValueTag::Unopened,
            format: ValueTag::Unopened,
            text: ValueTag::Unopened,
            sha1: ValueTag::Unopened,
            state,
        }
    }

    /// At most one field is open, none once the revision is no longer open.
    pub open spec fn wf(&self) -> bool {
        &&& open_flag(self.id is Open)
            + open_flag(self.parent_id is Open)
            + open_flag(self.timestamp is Open)
            + open_flag(self.comment is Open)
            + open_flag(self.model is Open)
            + open_flag(self.format is Open)
            + open_flag(self.text is Open)
            + open_flag(self.sha1 is Open) <= 1
        &&& self.state != CloseableState::Open ==> self.children_idle()
    }

    /// No field is open.
    pub open spec fn children_idle(&self) -> bool {
        !(self.id is Open)
            && !(self.parent_id is Open)
            && !(self.timestamp is Open)
            && !(self.comment is Open)
            && !(self.model is Open)
            && !(self.format is Open)
            && !(self.text is Open)
            && !(self.sha1 is Open)
    }

    /// Whether `new` and `r` are what handing `e` to `old` gives: an open field
    /// takes the event; else a field tag opens its slot; else the own end tag
    /// closes the revision.
    pub open spec fn step_spec(old: Self, e: XmlEvent, new: Self, r: ParseResult<()>) -> bool {
        if old.state != CloseableState::Open {
            r == Err::<(), ParseError>(ParseError::BadCloseableState(old.state)) && new == old
        } else if old.id is Open {
            &&& ValueTag::step_spec(old.id, "id", e, new.id, r)
            &&& new == (Revision { id: new.id, ..old })
        } else if old.parent_id is Open {
            &&& ValueTag::step_spec(old.parent_id, "parentid", e, new.parent_id, r)
            &&& new == (Revision { parent_id: new.parent_id, ..old })
        } else if old.timestamp is Open {
            &&& ValueTag::step_spec(old.timestamp, "timestamp", e, new.timestamp, r)
            &&& new == (Revision { timestamp: new.timestamp, ..old })
        } else if old.comment is Open {
            &&& ValueTag::step_spec(old.comment, "comment", e, new.comment, r)
            &&& new == (Revision { comment: new.comment, ..old })
        } else if old.model is Open {
            &&& ValueTag::step_spec(old.model, "model", e, new.model, r)
            &&& new == (Revision { model: new.model, ..old })
        } else if old.format is Open {
            &&& ValueTag::step_spec(old.format, "format", e, new.format, r)
            &&& new == (Revision { format: new.format, ..old })
        } else if old.text is Open {
            &&& ValueTag::step_spec(old.text, "text", e, new.text, r)
            &&& new == (Revision { text: new.text, ..old })
        } else if old.sha1 is Open {
            &&& ValueTag::step_spec(old.sha1, "sha1", e, new.sha1, r)
            &&& new == (Revision { sha1: new.sha1, ..old })
        } else if opens(e, "id") {
            &&& ValueTag::begin_spec(old.id, "id", e, new.id, r)
            &&& new == (Revision { id: new.id, ..old })
        } else if opens(e, "parentid") {
            &&& ValueTag::begin_spec(old.parent_id, "parentid", e, new.parent_id, r)
            &&& new == (Revision { parent_id: new.parent_id, ..old })
        } else if opens(e, "timestamp") {
            &&& ValueTag::begin_spec(old.timestamp, "timestamp", e, new.timestamp, r)
            &&& new == (Revision { timestamp: new.timestamp, ..old })
        } else if opens(e, "comment") {
            &&& ValueTag::begin_spec(old.comment, "comment", e, new.comment, r)
            &&& new == (Revision { comment: new.comment, ..old })
        } else if opens(e, "model") {
            &&& ValueTag::begin_spec(old.model, "model", e, new.model, r)
            &&& new == (Revision { model: new.model, ..old })
        } else if opens(e, "format") {
            &&& ValueTag::begin_spec(old.format, "format", e, new.format, r)
            &&& new == (Revision { format: new.format, ..old })
        } else if opens(e, "text") {
            &&& ValueTag::begin_spec(old.text, "text", e, new.text, r)
            &&& new == (Revision { text: new.text, ..old })
        } else if opens(e, "sha1") {
            &&& ValueTag::begin_spec(old.sha1, "sha1", e, new.sha1, r)
            &&& new == (Revision { sha1: new.sha1, ..old })
        } else if is_end_of(e, "revision") {
            r is Ok && new == (Revision { state: CloseableState::Closed, ..old })
        } else {
            new == old && fallback_spec(e, r)
        }
    }

    /// A revision in the given state with no field seen yet.
    pub fn new_blank(state: CloseableState) -> (r: Revision)
        ensures
            r == Revision::blank(state),
    {
        Revision {
            id: ValueTag::Unopened,
            parent_id: ValueTag::Unopened,
            timestamp: ValueTag::Unopened,
            comment: ValueTag::Unopened,
            model: ValueTag::Unopened,
            format: ValueTag::Unopened,
            text: ValueTag::Unopened,
            sha1: ValueTag::Unopened,
            state,
        }
    }

    /// The revision is open and `name` is its end tag or one that an open node below it takes.
    pub open spec fn takes_end(self, name: Seq<u8>) -> bool {
        self.state == CloseableState::Open && (name == key_bytes("revision")
            || self.id.takes_end("id", name)
            || self.parent_id.takes_end("parentid", name)
            || self.timestamp.takes_end("timestamp", name)
            || self.comment.takes_end("comment", name)
            || self.model.takes_end("model", name)
            || self.format.takes_end("format", name)
            || self.text.takes_end("text", name)
            || self.sha1.takes_end("sha1", name))
    }

    /// An end tag that no open node of the revision takes is refused.
    pub proof fn lemma_unmatched_end(old: Self, e: XmlEvent, new: Self, r: ParseResult<()>)
        requires
            e matches XmlEvent::End(n) && !old.takes_end(n@),
            Self::step_spec(old, e, new, r),
        ensures
            refused(r),
    {
        if old.state == CloseableState::Open {
            if old.id is Open {
                ValueTag::lemma_unmatched_end(old.id, "id", e, new.id, r);
            } else if old.parent_id is Open {
                ValueTag::lemma_unmatched_end(old.parent_id, "parentid", e, new.parent_id, r);
            } else if old.timestamp is Open {
                ValueTag::lemma_unmatched_end(old.timestamp, "timestamp", e, new.timestamp, r);
            } else if old.comment is Open {
                ValueTag::lemma_unmatched_end(old.comment, "comment", e, new.comment, r);
            } else if old.model is Open {
                ValueTag::lemma_unmatched_end(old.model, "model", e, new.model, r);
            } else if old.format is Open {
                ValueTag::lemma_unmatched_end(old.format, "format", e, new.format, r);
            } else if old.text is Open {
                ValueTag::lemma_unmatched_end(old.text, "text", e, new.text, r);
            } else if old.sha1 is Open {
                ValueTag::lemma_unmatched_end(old.sha1, "sha1", e, new.sha1, r);
            }
        }
    }

    /// Every step keeps the invariant.
    pub proof fn lemma_step_wf(old: Self, e: XmlEvent, new: Self, r: ParseResult<()>)
        requires
            old.wf(),
            Self::step_spec(old, e, new, r),
        ensures
            new.wf(),
    {

    }

    pub fn close_state(&self) -> (r: CloseableState)
        ensures
            r == self.state,
    {
        self.state
    }

    pub fn is_open(&self) -> (r: bool)
        ensures
            r == (self.state == CloseableState::Open),
    {
        self.state == CloseableState::Open
    }

    /// The error that closing the revision gives: that of its first open
    /// field whose text does not parse.
    pub open spec fn close_error(self) -> Option<ParseError> {
        if ValueTag::close_error(self.id, "id") is Some {
            ValueTag::close_error(self.id, "id")
        } else if ValueTag::close_error(self.parent_id, "parentid") is Some {
            ValueTag::close_error(self.parent_id, "parentid")
        } else if ValueTag::close_error(self.timestamp, "timestamp") is Some {
            ValueTag::close_error(self.timestamp, "timestamp")
        } else if ValueTag::close_error(self.comment, "comment") is Some {
            ValueTag::close_error(self.comment, "comment")
        } else if ValueTag::close_error(self.model, "model") is Some {
            ValueTag::close_error(self.model, "model")
        } else if ValueTag::close_error(self.format, "format") is Some {
            ValueTag::close_error(self.format, "format")
        } else if ValueTag::close_error(self.text, "text") is Some {
            ValueTag::close_error(self.text, "text")
        } else if ValueTag::close_error(self.sha1, "sha1") is Some {
            ValueTag::close_error(self.sha1, "sha1")
        } else {
            None
        }
    }

    /// Closes the revision, closing each open field with its parsed text; fails,
    /// changing nothing, unless the revision is open and every open field parses.
    pub fn close(&mut self) -> (r: ParseResult<()>)
        ensures
            old(self).state != CloseableState::Open ==> {
                &&& r == Err::<(), ParseError>(ParseError::BadCloseableState(old(self).state))
                &&& *final(self) == *old(self)
            },
            old(self).state == CloseableState::Open && old(self).close_error() is Some ==> {
                &&& r == Err::<(), ParseError>(old(self).close_error()->0)
                &&& *final(self) == *old(self)
            },
            old(self).state == CloseableState::Open && old(self).close_error() is None ==> {
                &&& r is Ok
                &&& final(self).state == CloseableState::Closed
                &&& ValueTag::finished_spec(old(self).id, final(self).id)
                &&& ValueTag::finished_spec(old(self).parent_id, final(self).parent_id)
                &&& ValueTag::finished_spec(old(self).timestamp, final(self).timestamp)
                &&& ValueTag::finished_spec(old(self).comment, final(self).comment)
                &&& ValueTag::finished_spec(old(self).model, final(self).model)
                &&& ValueTag::finished_spec(old(self).format, final(self).format)
                &&& ValueTag::finished_spec(old(self).text, final(self).text)
                &&& ValueTag::finished_spec(old(self).sha1, final(self).sha1)
            },
            old(self).wf() ==> final(self).wf(),
    {
        if self.state != CloseableState::Open {
            return Err(ParseError::BadCloseableState(self.state));
        }
        match self.id.check_close("id") {
            Ok(()) => {},
            Err(e) => {
                return Err(e);
            },
        }
        match self.parent_id.check_close("parentid") {
            Ok(()) => {},
            Err(e) => {
                return Err(e);
            },
        }
        match self.timestamp.check_close("timestamp") {
            Ok(()) => {},
            Err(e) => {
                return Err(e);
            },
        }
        match self.comment.check_close("comment") {
            Ok(()) => {},
            Err(e) => {
                return Err(e);
            },
        }
        match self.model.check_close("model") {
            Ok(()) => {},
            Err(e) => {
                return Err(e);
            },
        }
        match self.format.check_close("format") {
            Ok(()) => {},
            Err(e) => {
                return Err(e);
            },
        }
        match self.text.check_close("text") {
            Ok(()) => {},
            Err(e) => {
                return Err(e);
            },
        }
        match self.sha1.check_close("sha1") {
            Ok(()) => {},
            Err(e) => {
                return Err(e);
            },
        }
        self.id.finish("id");
        self.parent_id.finish("parentid");
        self.timestamp.finish("timestamp");
        self.comment.finish("comment");
        self.model.finish("model");
        self.format.finish("format");
        self.text.finish("text");
        self.sha1.finish("sha1");
        self.state = CloseableState::Closed;
        Ok(())
    }

    /// Hands one event to the record.
    pub fn handle_event(&mut self, event: &XmlEvent) -> (r: ParseResult<()>)
        ensures
            Self::step_spec(*old(self), *event, *final(self), r),
            old(self).wf() ==> final(self).wf(),
    {
        let r = self.dispatch(event);
        proof {
            if old(self).wf() {
                Self::lemma_step_wf(*old(self), *event, *self, r);
            }
        }
        r
    }

    fn dispatch(&mut self, event: &XmlEvent) -> (r: ParseResult<()>)
        ensures
            Self::step_spec(*old(self), *event, *final(self), r),
    {
        if self.state != CloseableState::Open {
            return Err(ParseError::BadCloseableState(self.state));
        }
        if self.id.is_open() {
            return self.id.handle_event("id", event);
        }
        if self.parent_id.is_open() {
            return self.parent_id.handle_event("parentid", event);
        }
        if self.timestamp.is_open() {
            return self.timestamp.handle_event("timestamp", event);
        }
        if self.comment.is_open() {
            return self.comment.handle_event("comment", event);
        }
        if self.model.is_open() {
            return self.model.handle_event("model", event);
        }
        if self.format.is_open() {
            return self.format.handle_event("format", event);
        }
        if self.text.is_open() {
            return self.text.handle_event("text", event);
        }
        if self.sha1.is_open() {
            return self.sha1.handle_event("sha1", event);
        }
        if opens_tag(event, "id") {
            return self.id.begin("id", event);
        }
        if opens_tag(event, "parentid") {
            return self.parent_id.begin("parentid", event);
        }
        if opens_tag(event, "timestamp") {
            return self.timestamp.begin("timestamp", event);
        }
        if opens_tag(event, "comment") {
            return self.comment.begin("comment", event);
        }
        if opens_tag(event, "model") {
            return self.model.begin("model", event);
        }
        if opens_tag(event, "format") {
            return self.format.begin("format", event);
        }
        if opens_tag(event, "text") {
            return self.text.begin("text", event);
        }
        if opens_tag(event, "sha1") {
            return self.sha1.begin("sha1", event);
        }
        if is_end(event, "revision") {
            self.state = CloseableState::Closed;
            return Ok(());
        }
        fallback(event, "unexpected event in revision")
    }
}

/// The target that a self-closing `redirect` tag names: its `title`
/// attribute, or `unknown` where that is missing or not UTF-8.
pub open spec fn redirect_target_spec(attrs: Seq<Attribute>) -> Seq<char> {
    match attribute_value(attrs, "title") {
        Some(v) => if valid_utf8(v) {
            decode_utf8(v)
        } else {
            "unknown"@
        },
        None => "unknown"@,
    }
}

fn redirect_target(attrs: &Vec<Attribute>) -> (r: String)
    ensures
        r@ == redirect_target_spec(attrs@),
{
    match find_attribute(attrs, "title") {
        Some(i) => match decode_bytes(attrs[i].value.as_slice()) {
            Some(text) => text,
            None => owned("unknown"),
        },
        None => owned("unknown"),
    }
}

/// One `page` of the document. It keeps a `closed` flag instead of a
/// lifecycle state so that it stays in place, readable, once its end tag has
/// been seen.
#[derive(Debug)]
pub struct WikiPage {
    pub title: ValueTag<String>,
    pub ns: ValueTag<isize>,
    pub id: ValueTag<usize>,
    pub redirect: Option<String>,
    pub revisions: Vec<Revision>,
    pub closed: bool,
}

impl WikiPage {
    /// A page just begun: nothing read yet.
    pub open spec fn is_blank(&self) -> bool {
        &&& self.title is Unopened
        &&& self.ns is Unopened
        &&& self.id is Unopened
        &&& self.redirect is None
        &&& self.revisions@.len() == 0
        &&& !self.closed
    }

    /// At most one of the fields and the last revision is open; every revision
    /// but the last is closed, none is unopened, each keeps its invariant; a
    /// closed page has nothing open.
    pub open spec fn wf(&self) -> bool {
        &&& open_flag(self.title is Open) + open_flag(self.ns is Open) + open_flag(self.id is Open)
            + open_flag(self.revision_open()) <= 1
        &&& forall|i: int|
            0 <= i < self.revisions@.len() ==> (#[trigger] self.revisions@[i]).wf()
                && self.revisions@[i].state != CloseableState::Unopened
                && (i < self.revisions@.len() - 1 ==> self.revisions@[i].state
                == CloseableState::Closed)
        &&& self.closed ==> !(self.title is Open) && !(self.ns is Open) && !(self.id is Open)
            && !self.revision_open()
    }

    /// The last revision is open.
    pub open spec fn revision_open(&self) -> bool {
        self.revisions@.len() > 0 && self.revisions@.last().state == CloseableState::Open
    }

    /// Whether `new` and `r` are what handing `e` to `old` gives: an open field
    /// or the open last revision takes the event; else a field tag opens its
    /// slot, a `revision` tag adds a revision, a `redirect` tag before any
    /// revision records the target, and the own end tag closes the page.
    pub open spec fn step_spec(old: Self, e: XmlEvent, new: Self, r: ParseResult<()>) -> bool {
        if old.closed {
            r == Err::<(), ParseError>(ParseError::BadCloseableState(CloseableState::Closed))
                && new == old
        } else if old.title is Open {
            &&& ValueTag::step_spec(old.title, "title", e, new.title, r)
            &&& new == (WikiPage { title: new.title, ..old })
        } else if old.ns is Open {
            &&& ValueTag::step_spec(old.ns, "ns", e, new.ns, r)
            &&& new == (WikiPage { ns: new.ns, ..old })
        } else if old.id is Open {
            &&& ValueTag::step_spec(old.id, "id", e, new.id, r)
            &&& new == (WikiPage { id: new.id, ..old })
        } else if old.revision_open() {
            &&& new == (WikiPage { revisions: new.revisions, ..old })
            &&& new.revisions@.len() == old.revisions@.len()
            &&& new.revisions@.drop_last() == old.revisions@.drop_last()
            &&& Revision::step_spec(old.revisions@.last(), e, new.revisions@.last(), r)
        } else if opens(e, "title") {
            &&& ValueTag::begin_spec(old.title, "title", e, new.title, r)
            &&& new == (WikiPage { title: new.title, ..old })
        } else if opens(e, "ns") {
            &&& ValueTag::begin_spec(old.ns, "ns", e, new.ns, r)
            &&& new == (WikiPage { ns: new.ns, ..old })
        } else if opens(e, "id") {
            &&& ValueTag::begin_spec(old.id, "id", e, new.id, r)
            &&& new == (WikiPage { id: new.id, ..old })
        } else if is_start_of(e, "revision") {
            &&& r is Ok
            &&& new == (WikiPage { revisions: new.revisions, ..old })
            &&& new.revisions@ == old.revisions@.push(Revision::blank(CloseableState::Open))
        } else if is_empty_of(e, "revision") {
            &&& r is Ok
            &&& new == (WikiPage { revisions: new.revisions, ..old })
            &&& new.revisions@ == old.revisions@.push(Revision::blank(CloseableState::Closed))
        } else if is_empty_of(e, "redirect") && old.revisions@.len() == 0 {
            &&& r is Ok
            &&& new == (WikiPage { redirect: new.redirect, ..old })
            &&& new.redirect matches Some(target)
            &&& target@ == redirect_target_spec(e->Empty_0.attributes@)
        } else if is_end_of(e, "page") {
            r is Ok && new == (WikiPage { closed: true, ..old })
        } else {
            new == old && fallback_spec(e, r)
        }
    }

    /// Closing the integer `ns` field on text that is not a decimal integer
    /// fails with an invalid-integer error naming the field, and leaves the
    /// page as it was: the other fields keep their values.
    pub proof fn lemma_bad_integer_field(old: Self, e: XmlEvent, new: Self, r: ParseResult<()>)
        requires
            old.wf(),
            !old.closed,
            old.ns is Open,
            signed_decimal(old.ns->Open_buffer@) is None,
            is_end_of(e, "ns"),
            Self::step_spec(old, e, new, r),
        ensures
            r == Err::<(), ParseError>(
                ParseError::ValueError(
                    ValueError { field: "ns", reason: ValueErrorKind::InvalidInt },
                ),
            ),
            new == old,
    {
    }

    /// A page that is open and has nothing read yet.
    pub fn new_blank() -> (r: WikiPage)
        ensures
            r.is_blank(),
    {
        WikiPage {
            title: ValueTag::Unopened,
            ns: ValueTag::Unopened,
            id: ValueTag::Unopened,
            redirect: None,
            revisions: Vec::new(),
            closed: false,
        }
    }

    /// The page is open and `name` is its end tag or one that an open node below it takes.
    pub open spec fn takes_end(self, name: Seq<u8>) -> bool {
        !self.closed && (name == key_bytes("page")
            || self.title.takes_end("title", name)
            || self.ns.takes_end("ns", name)
            || self.id.takes_end("id", name)
            || (self.revision_open() && self.revisions@.last().takes_end(name)))
    }

    /// An end tag that no open node of the page takes is refused.
    pub proof fn lemma_unmatched_end(old: Self, e: XmlEvent, new: Self, r: ParseResult<()>)
        requires
            e matches XmlEvent::End(n) && !old.takes_end(n@),
            Self::step_spec(old, e, new, r),
        ensures
            refused(r),
    {
        if !old.closed {
            if old.title is Open {
                ValueTag::lemma_unmatched_end(old.title, "title", e, new.title, r);
            } else if old.ns is Open {
                ValueTag::lemma_unmatched_end(old.ns, "ns", e, new.ns, r);
            } else if old.id is Open {
                ValueTag::lemma_unmatched_end(old.id, "id", e, new.id, r);
            } else if old.revision_open() {
                Revision::lemma_unmatched_end(
                    old.revisions@.last(),
                    e,
                    new.revisions@.last(),
                    r,
                );
            }
        }
    }

    /// Every step keeps the invariant.
    pub proof fn lemma_step_wf(old: Self, e: XmlEvent, new: Self, r: ParseResult<()>)
        requires
            old.wf(),
            Self::step_spec(old, e, new, r),
        ensures
            new.wf(),
    {
        if !old.closed && !(old.title is Open) && !(old.ns is Open) && !(old.id is Open)
            && old.revision_open() {
            let last = old.revisions@.last();
            assert(old.revisions@[old.revisions@.len() - 1] == last);
            Revision::lemma_step_wf(last, e, new.revisions@.last(), r);
            assert forall|i: int| 0 <= i < new.revisions@.len() - 1 implies new.revisions@[i]
                == old.revisions@[i] by {
                assert(new.revisions@.drop_last()[i] == old.revisions@.drop_last()[i]);
            }
        }
        if !old.closed && !(old.title is Open) && !(old.ns is Open) && !(old.id is Open)
            && !old.revision_open() && (is_start_of(e, "revision") || is_empty_of(e, "revision")) {
            assert forall|i: int| 0 <= i < old.revisions@.len() implies new.revisions@[i]
                == old.revisions@[i] by {}
        }
    }

    pub fn close_state(&self) -> (r: CloseableState)
        ensures
            r == (if self.closed {
                CloseableState::Closed
            } else {
                CloseableState::Open
            }),
    {
        if self.closed {
            CloseableState::Closed
        } else {
            CloseableState::Open
        }
    }

    /// Marks the page closed, where it is; fails once it is closed.
    pub fn close(&mut self) -> (r: ParseResult<()>)
        ensures
            old(self).closed ==> {
                &&& r == Err::<(), ParseError>(ParseError::BadCloseableState(CloseableState::Closed))
                &&& *final(self) == *old(self)
            },
            !old(self).closed ==> r is Ok && *final(self) == (WikiPage { closed: true, ..*old(self) }),
    {
        if self.closed {
            return Err(ParseError::BadCloseableState(CloseableState::Closed));
        }
        self.closed = true;
        Ok(())
    }

    /// Hands one event to the record.
    pub fn handle_event(&mut self, event: &XmlEvent) -> (r: ParseResult<()>)
        ensures
            Self::step_spec(*old(self), *event, *final(self), r),
            old(self).wf() ==> final(self).wf(),
    {
        let r = self.dispatch(event);
        proof {
            if old(self).wf() {
                Self::lemma_step_wf(*old(self), *event, *self, r);
            }
        }
        r
    }

    fn dispatch(&mut self, event: &XmlEvent) -> (r: ParseResult<()>)
        ensures
            Self::step_spec(*old(self), *event, *final(self), r),
    {
        if self.closed {
            return Err(ParseError::BadCloseableState(CloseableState::Closed));
        }
        if self.title.is_open() {
            return self.title.handle_event("title", event);
        }
        if self.ns.is_open() {
            return self.ns.handle_event("ns", event);
        }
        if self.id.is_open() {
            return self.id.handle_event("id", event);
        }
        let n = self.revisions.len();
        if n > 0 && self.revisions[n - 1].is_open() {
            let ghost before = self.revisions@;
            let mut last = self.revisions.pop().unwrap();
            let r = last.handle_event(event);
            self.revisions.push(last);
            assert(self.revisions@.drop_last() =~= before.drop_last());
            return r;
        }
        if opens_tag(event, "title") {
            return self.title.begin("title", event);
        }
        if opens_tag(event, "ns") {
            return self.ns.begin("ns", event);
        }
        if opens_tag(event, "id") {
            return self.id.begin("id", event);
        }
        if is_start(event, "revision") {
            self.revisions.push(Revision::new_blank(CloseableState::Open));
            return Ok(());
        }
        if is_empty(event, "revision") {
            self.revisions.push(Revision::new_blank(CloseableState::Closed));
            return Ok(());
        }
        if n == 0 && is_empty(event, "redirect") {
            match event {
                XmlEvent::Empty(t) => {
                    self.redirect = Some(redirect_target(&t.attributes));
                },
                _ => {},
            }
            return Ok(());
        }
        if is_end(event, "page") {
            self.closed = true;
            return Ok(());
        }
        fallback(event, "unexpected event in page")
    }
}

} // verus!
