//! The document root: one-time validation of the export document and the
//! routing of every event to the single open path below it.

use vstd::prelude::*;
use vstd::utf8::{decode_utf8, valid_utf8};

use crate::error::{refused, CloseableState, ParseError, ParseResult};
use crate::event::{
    attribute_value, fallback, fallback_spec, find_attribute, ignorable, is_end, is_end_of, is_ignorable, is_start,
    is_start_of, key_bytes, name_is, XmlEvent, XmlTag,
};
use crate::records::{SiteInfo, WikiPage};
use crate::text::decode_bytes;

verus! {

/// What the namespace of an export document starts with.
pub const EXPORT_NAMESPACE: &'static str = "http://www.mediawiki.org/xml/export";

/// Whether `p` is a prefix of `v`.
pub open spec fn has_prefix(v: Seq<u8>, p: Seq<u8>) -> bool {
    v.len() >= p.len() && v.subrange(0, p.len() as int) == p
}

/// A root tag that is not `mediawiki`, or whose namespace is not an export one.
pub open spec fn wrong_root(t: XmlTag) -> bool {
    ||| t.name@ != key_bytes("mediawiki")
    ||| (attribute_value(t.attributes@, "xmlns") matches Some(v) && !has_prefix(
        v,
        key_bytes(EXPORT_NAMESPACE),
    ))
}

fn starts_with(v: &Vec<u8>, prefix: &str) -> (r: bool)
    ensures
        r == has_prefix(v@, key_bytes(prefix)),
{
    let p = prefix.as_bytes();
    if v.len() < p.len() {
        return false;
    }
    let mut i: usize = 0;
    while i < p.len()
        invariant
            p@ == key_bytes(prefix),
            v@.len() >= p@.len(),
            0 <= i <= p@.len(),
            forall|j: int| 0 <= j < i ==> v@[j] == p@[j],
        decreases p@.len() - i,
    {
        if v[i] != p[i] {
            assert(v@.subrange(0, p@.len() as int)[i as int] != p@[i as int]);
            return false;
        }
        i = i + 1;
    }
    assert(v@.subrange(0, p@.len() as int) =~= p@);
    true
}

/// The root of one export document: its validated namespace, its site
/// information, and the pages read and not yet drained, in document order.
/// `failed` latches a failed validation of the root element; `closed` records
/// that the root's end tag has been read.
#[derive(Debug)]
pub struct DocumentContext {
    pub file_name: String,
    pub namespace: Option<String>,
    pub site_info: SiteInfo,
    pub pages: Vec<WikiPage>,
    pub failed: bool,
    pub closed: bool,
}

impl DocumentContext {
    /// Before validation nothing has been read, and a failed validation leaves
    /// the document unvalidated; a closed root has nothing open below it; the
    /// site information and the last page are never open together; every page
    /// but the last is closed; every record keeps its own invariant.
    pub open spec fn wf(&self) -> bool {
        &&& self.namespace is None ==> self.pages@.len() == 0 && self.site_info == SiteInfo::blank(
            CloseableState::Unopened,
        )
        &&& self.failed ==> self.namespace is None
        &&& self.closed ==> self.namespace is Some && self.site_info.state != CloseableState::Open
            && !self.last_page_open()
        &&& self.site_info.wf()
        &&& !(self.site_info.state == CloseableState::Open && self.last_page_open())
        &&& forall|i: int|
            0 <= i < self.pages@.len() ==> (#[trigger] self.pages@[i]).wf() && (i
                < self.pages@.len() - 1 ==> self.pages@[i].closed)
    }

    /// Every step keeps the invariant.
    pub proof fn lemma_step_wf(old: Self, e: XmlEvent, new: Self, r: ParseResult<()>)
        requires
            old.wf(),
            Self::step_spec(old, e, new, r),
        ensures
            new.wf(),
    {
        let routed = !old.failed && old.namespace is Some && !old.closed;
        if routed && old.site_info.state == CloseableState::Open {
            SiteInfo::lemma_step_wf(old.site_info, e, new.site_info, r);
        } else if routed && old.last_page_open() {
            let last = old.pages@.last();
            assert(old.pages@[old.pages@.len() - 1] == last);
            WikiPage::lemma_step_wf(last, e, new.pages@.last(), r);
            assert forall|i: int| 0 <= i < new.pages@.len() - 1 implies new.pages@[i]
                == old.pages@[i] by {
                assert(new.pages@.drop_last()[i] == old.pages@.drop_last()[i]);
            }
        } else if routed && is_start_of(e, "page") && !(is_start_of(e, "siteinfo")
            && old.site_info.state == CloseableState::Unopened) && !(old.site_info.state
            == CloseableState::Open) && !old.last_page_open() {
            assert forall|i: int| 0 <= i < old.pages@.len() implies new.pages@[i]
                == old.pages@[i] by {
                assert(new.pages@.drop_last()[i] == old.pages@[i]);
            }
        }
    }

    /// The document is validated and `name` is its root end tag or one that an
    /// open node below the root takes.
    pub open spec fn takes_end(self, name: Seq<u8>) -> bool {
        &&& !self.failed
        &&& !self.closed
        &&& self.namespace is Some
        &&& name == key_bytes("mediawiki") || (self.site_info.state == CloseableState::Open
            && self.site_info.takes_end(name)) || (self.last_page_open()
            && self.pages@.last().takes_end(name))
    }

    /// In a document that has not failed validation, an end tag that matches
    /// no open node is refused, never skipped.
    pub proof fn lemma_unmatched_end(old: Self, e: XmlEvent, new: Self, r: ParseResult<()>)
        requires
            !old.failed,
            e matches XmlEvent::End(n) && !old.takes_end(n@),
            Self::step_spec(old, e, new, r),
        ensures
            refused(r),
    {
        if old.namespace is Some && !old.closed {
            if old.site_info.state == CloseableState::Open {
                SiteInfo::lemma_unmatched_end(old.site_info, e, new.site_info, r);
            } else if old.last_page_open() {
                WikiPage::lemma_unmatched_end(old.pages@.last(), e, new.pages@.last(), r);
            }
        }
    }

    /// A document whose first start tag is not the `mediawiki` root, or whose
    /// namespace does not start with the export prefix, fails at that tag with
    /// an invalid-format error, is marked failed, stays unvalidated and holds
    /// no page.
    pub proof fn lemma_invalid_document(old: Self, e: XmlEvent, new: Self, r: ParseResult<()>)
        requires
            old.wf(),
            old.namespace is None,
            e matches XmlEvent::Start(t) && wrong_root(t),
            Self::step_spec(old, e, new, r),
        ensures
            r matches Err(ParseError::InvalidFormat { .. }),
            new.failed,
            new.namespace is None,
            new.pages@.len() == 0,
            new.wf(),
    {
    }

    /// Once validation has failed, every event is refused with an
    /// invalid-format error and leaves the document as it is: no page is
    /// ever appended to it.
    pub proof fn lemma_failed_stays_failed(old: Self, e: XmlEvent, new: Self, r: ParseResult<()>)
        requires
            old.wf(),
            old.failed,
            Self::step_spec(old, e, new, r),
        ensures
            r matches Err(ParseError::InvalidFormat { .. }),
            new == old,
            new.failed,
            new.pages@.len() == 0,
    {
    }

    /// No event appends a page before the document is validated.
    pub proof fn lemma_no_page_before_validation(
        old: Self,
        e: XmlEvent,
        new: Self,
        r: ParseResult<()>,
    )
        requires
            old.wf(),
            old.namespace is None,
            Self::step_spec(old, e, new, r),
        ensures
            new.pages@.len() == 0,
    {
    }

    /// A drained page is gone from the list, and a second drain with no new
    /// event in between finds nothing.
    pub proof fn lemma_drain_twice(
        first: Self,
        second: Self,
        third: Self,
        out1: Seq<WikiPage>,
        out2: Seq<WikiPage>,
    )
        requires
            Self::drained(first, second, out1),
            Self::drained(second, third, out2),
        ensures
            second.pages@ == first.pages@.skip(out1.len() as int),
            out2.len() == 0,
            third.pages@ == second.pages@,
            third == (DocumentContext { pages: third.pages, ..second }),
    {
        if out2.len() > 0 {
            assert(out2[0] == second.pages@[0]);
        }
        assert(third.pages@ =~= second.pages@);
    }

    /// Pages only grow at the end: one step adds at most one blank page after
    /// the others, every page but the last keeps its value, and a closed page
    /// never changes. So pages come out of the list in document order.
    pub proof fn lemma_pages_in_order(old: Self, e: XmlEvent, new: Self, r: ParseResult<()>)
        requires
            old.wf(),
            Self::step_spec(old, e, new, r),
        ensures
            new.pages@.len() == old.pages@.len() || new.pages@.len() == old.pages@.len() + 1,
            new.pages@.len() == old.pages@.len() + 1 ==> new.pages@.drop_last() == old.pages@
                && new.pages@.last().is_blank(),
            forall|i: int|
                0 <= i < old.pages@.len() - 1 ==> #[trigger] new.pages@[i] == old.pages@[i],
            forall|i: int|
                0 <= i < old.pages@.len() && (#[trigger] old.pages@[i]).closed ==> new.pages@[i]
                    == old.pages@[i],
    {
        if !old.failed && old.namespace is Some && !old.closed && !(old.site_info.state
            == CloseableState::Open) && old.last_page_open() {
            assert forall|i: int| 0 <= i < old.pages@.len() - 1 implies #[trigger] new.pages@[i]
                == old.pages@[i] by {
                assert(new.pages@.drop_last()[i] == old.pages@.drop_last()[i]);
            }
        }
        if new.pages@.len() == old.pages@.len() + 1 {
            assert forall|i: int| 0 <= i < old.pages@.len() implies #[trigger] new.pages@[i]
                == old.pages@[i] by {
                assert(new.pages@.drop_last()[i] == new.pages@[i]);
            }
        }
    }

    /// The last page is still being read.
    pub open spec fn last_page_open(&self) -> bool {
        self.pages@.len() > 0 && !self.pages@.last().closed
    }

    /// Whether `new` and `r` are what the first start tag `t` of the document
    /// gives: it must be the `mediawiki` root with an `xmlns` attribute that
    /// names an export namespace, which is then recorded. Any other start tag
    /// fails the document for good.
    pub open spec fn validate_spec(old: Self, t: XmlTag, new: Self, r: ParseResult<()>) -> bool {
        if t.name@ != key_bytes("mediawiki") {
            r == Err::<(), ParseError>(
                ParseError::InvalidFormat { reason: "not a mediawiki XML document" },
            ) && new == (DocumentContext { failed: true, ..old })
        } else {
            match attribute_value(t.attributes@, "xmlns") {
                None => r == Err::<(), ParseError>(
                    ParseError::InvalidFormat { reason: "missing XML namespace attribute" },
                ) && new == (DocumentContext { failed: true, ..old }),
                Some(v) => if !has_prefix(v, key_bytes(EXPORT_NAMESPACE)) {
                    r == Err::<(), ParseError>(
                        ParseError::InvalidFormat { reason: "not an mediawiki XML export" },
                    ) && new == (DocumentContext { failed: true, ..old })
                } else if !valid_utf8(v) {
                    r == Err::<(), ParseError>(
                        ParseError::InvalidFormat { reason: "not a UTF-8 namespace" },
                    ) && new == (DocumentContext { failed: true, ..old })
                } else {
                    &&& r is Ok
                    &&& new == (DocumentContext { namespace: new.namespace, ..old })
                    &&& new.namespace matches Some(ns)
                    &&& ns@ == decode_utf8(v)
                },
            }
        }
    }

    /// Whether `new` and `r` are what handing `e` to `old` gives. A document
    /// that failed validation refuses every event. Before validation only the
    /// first start tag counts. After that the open site information, else the
    /// open last page, takes the event; else a `siteinfo` tag opens the site
    /// information once, a `page` tag adds a blank page, and the root's end tag
    /// closes the root, after which only events without content pass. The end
    /// of the stream while the root is open is an error.
    pub open spec fn step_spec(old: Self, e: XmlEvent, new: Self, r: ParseResult<()>) -> bool {
        if old.failed {
            r == Err::<(), ParseError>(
                ParseError::InvalidFormat { reason: "document failed validation" },
            ) && new == old
        } else if old.namespace is None {
            match e {
                XmlEvent::Start(t) => Self::validate_spec(old, t, new, r),
                _ => new == old && if ignorable(e) || e is Eof {
                    r is Ok
                } else {
                    r matches Err(ParseError::UnhandledEvent { .. })
                },
            }
        } else if old.closed {
            new == old && if ignorable(e) || e is Eof {
                r is Ok
            } else {
                r == Err::<(), ParseError>(ParseError::BadCloseableState(CloseableState::Closed))
            }
        } else if old.site_info.state == CloseableState::Open {
            &&& SiteInfo::step_spec(old.site_info, e, new.site_info, r)
            &&& new == (DocumentContext { site_info: new.site_info, ..old })
        } else if old.last_page_open() {
            &&& new == (DocumentContext { pages: new.pages, ..old })
            &&& new.pages@.len() == old.pages@.len()
            &&& new.pages@.drop_last() == old.pages@.drop_last()
            &&& WikiPage::step_spec(old.pages@.last(), e, new.pages@.last(), r)
        } else if is_start_of(e, "siteinfo") && old.site_info.state == CloseableState::Unopened {
            r is Ok && new == (DocumentContext {
                site_info: SiteInfo::blank(CloseableState::Open),
                ..old
            })
        } else if is_start_of(e, "page") {
            &&& r is Ok
            &&& new == (DocumentContext { pages: new.pages, ..old })
            &&& new.pages@.len() == old.pages@.len() + 1
            &&& new.pages@.drop_last() == old.pages@
            &&& new.pages@.last().is_blank()
        } else if is_end_of(e, "mediawiki") {
            r is Ok && new == (DocumentContext { closed: true, ..old })
        } else {
            new == old && fallback_spec(e, r)
        }
    }

    /// A root for the named source, before any event.
    pub fn new(file_name: String) -> (r: DocumentContext)
        ensures
            r.wf(),
            r.file_name == file_name,
            r.namespace is None,
            r.site_info == SiteInfo::blank(CloseableState::Unopened),
            r.pages@.len() == 0,
            !r.failed && !r.closed,
    {
        DocumentContext {
            file_name,
            namespace: None,
            site_info: SiteInfo::new_unopened(),
            pages: Vec::new(),
            failed: false,
            closed: false,
        }
    }

    /// Fails the document for good.
    fn reject(&mut self, reason: &'static str) -> (r: ParseResult<()>)
        ensures
            r == Err::<(), ParseError>(ParseError::InvalidFormat { reason }),
            *final(self) == (DocumentContext { failed: true, ..*old(self) }),
    {
        self.failed = true;
        Err(ParseError::InvalidFormat { reason })
    }

    fn validate(&mut self, tag: &XmlTag) -> (r: ParseResult<()>)
        ensures
            Self::validate_spec(*old(self), *tag, *final(self), r),
    {
        if !name_is(&tag.name, "mediawiki") {
            return self.reject("not a mediawiki XML document");
        }
        let i = match find_attribute(&tag.attributes, "xmlns") {
            Some(i) => i,
            None => {
                return self.reject("missing XML namespace attribute");
            },
        };
        let value = &tag.attributes[i].value;
        if !starts_with(value, EXPORT_NAMESPACE) {
            return self.reject("not an mediawiki XML export");
        }
        match decode_bytes(value.as_slice()) {
            Some(ns) => {
                self.namespace = Some(ns);
                Ok(())
            },
            None => self.reject("not a UTF-8 namespace"),
        }
    }

    /// Hands one event of the document to the root.
    pub fn handle_event(&mut self, event: &XmlEvent) -> (r: ParseResult<()>)
        ensures
            Self::step_spec(*old(self), *event, *final(self), r),
            old(self).wf() ==> final(self).wf(),
    {
        let r = self.dispatch(event);
        proof {
            if old(self).wf() {
                Self::lemma_step_wf(*old(self), *event, *self, r);
            }
        }
        r
    }

    fn dispatch(&mut self, event: &XmlEvent) -> (r: ParseResult<()>)
        ensures
            Self::step_spec(*old(self), *event, *final(self), r),
    {
        if self.failed {
            return Err(ParseError::InvalidFormat { reason: "document failed validation" });
        }
        if self.namespace.is_none() {
            return match event {
                XmlEvent::Start(tag) => self.validate(tag),
                _ => {
                    if is_ignorable(event) || matches!(event, XmlEvent::Eof) {
                        Ok(())
                    } else {
                        Err(
                            ParseError::UnhandledEvent { reason: "event before the document element" },
                        )
                    }
                },
            };
        }
        if self.closed {
            if is_ignorable(event) || matches!(event, XmlEvent::Eof) {
                return Ok(());
            }
            return Err(ParseError::BadCloseableState(CloseableState::Closed));
        }
        if self.site_info.is_open() {
            return self.site_info.handle_event(event);
        }
        let n = self.pages.len();
        if n > 0 && !self.pages[n - 1].closed {
            let ghost before = self.pages@;
            let mut last = self.pages.pop().unwrap();
            let r = last.handle_event(event);
            self.pages.push(last);
            assert(self.pages@.drop_last() =~= before.drop_last());
            return r;
        }
        if is_start(event, "siteinfo") && self.site_info.state == CloseableState::Unopened {
            self.site_info = SiteInfo::new_open();
            return Ok(());
        }
        if is_start(event, "page") {
            let ghost before = self.pages@;
            self.pages.push(WikiPage::new_blank());
            assert(self.pages@.drop_last() =~= before);
            return Ok(());
        }
        if is_end(event, "mediawiki") {
            self.closed = true;
            return Ok(());
        }
        fallback(event, "unexpected event at the top of the document")
    }

    /// Whether `new` is `old` with the run of closed pages at the front of its
    /// list removed, and `out` holds those pages in order.
    pub open spec fn drained(old: Self, new: Self, out: Seq<WikiPage>) -> bool {
        &&& out.len() <= old.pages@.len()
        &&& out == old.pages@.take(out.len() as int)
        &&& new.pages@ == old.pages@.skip(out.len() as int)
        &&& new == (DocumentContext { pages: new.pages, ..old })
        &&& forall|i: int| 0 <= i < out.len() ==> (#[trigger] out[i]).closed
        &&& new.pages@.len() == 0 || !new.pages@[0].closed
    }

    /// Removes and returns the closed pages at the front of the list.
    pub fn drain_closed_pages(&mut self) -> (r: Vec<WikiPage>)
        ensures
            Self::drained(*old(self), *final(self), r@),
            old(self).wf() ==> final(self).wf(),
    {
        let ghost start = self.pages@;
        let mut out: Vec<WikiPage> = Vec::new();
        while self.pages.len() > 0 && self.pages[0].closed
            invariant
                out@.len() <= start.len(),
                out@ == start.take(out@.len() as int),
                self.pages@ == start.skip(out@.len() as int),
                *self == (DocumentContext { pages: self.pages, ..*old(self) }),
                forall|i: int| 0 <= i < out@.len() ==> (#[trigger] out@[i]).closed,
            decreases self.pages@.len(),
        {
            let page = self.pages.remove(0);
            out.push(page);
            assert(out@ =~= start.take(out@.len() as int));
            assert(self.pages@ =~= start.skip(out@.len() as int));
        }
        proof {
            if old(self).wf() {
                let k = out@.len() as int;
                assert forall|i: int| 0 <= i < self.pages@.len() implies self.pages@[i]
                    == start[i + k] by {}
                if k > 0 {
                    assert(start[k - 1] == out@[k - 1]);
                }
            }
        }
        out
    }
}

} // verus!
