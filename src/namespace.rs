//! Namespace entries of the site information and the list that holds them.

use vstd::prelude::*;
use vstd::utf8::{decode_utf8, valid_utf8};

use crate::error::{refused, CloseableState, ParseError, ParseResult, ValueError, ValueErrorKind};
use crate::event::{
    attribute_value, find_attribute, ignorable, key_bytes, is_empty, is_empty_of, is_end, is_end_of,
    is_ignorable, is_start, is_start_of, Attribute, XmlEvent,
};
use crate::text::{decode_bytes, parse_signed, push_text, signed_decimal};
use crate::value::{event_text, lemma_joined_step, texts_joined, utf8_texts};

verus! {

/// One `namespace` entry: its integer `key` attribute and its text.
#[derive(Debug)]
pub struct Namespace {
    pub key: isize,
    pub name: String,
    pub state: CloseableState,
}

/// The `key` attribute of a `namespace` tag, or the error that reading it gives.
pub open spec fn namespace_key(attrs: Seq<Attribute>) -> Result<isize, ParseError> {
    match attribute_value(attrs, "key") {
        None => Err(ParseError::MissingAttribute { parent: "namespace", attribute: "key" }),
        Some(v) => if !valid_utf8(v) {
            Err(
                ParseError::ValueError(
                    ValueError { field: "key", reason: ValueErrorKind::NonUTF8 },
                ),
            )
        } else {
            match signed_decimal(decode_utf8(v)) {
                None => Err(
                    ParseError::ValueError(
                        ValueError { field: "key", reason: ValueErrorKind::InvalidInt },
                    ),
                ),
                Some(k) => Ok(k),
            }
        },
    }
}

impl Namespace {
    /// A namespace just built from its tag: the given key, no text yet.
    pub open spec fn fresh(self, key: isize, state: CloseableState) -> bool {
        self.key == key && self.name@ == Seq::<char>::empty() && self.state == state
    }

    pub open spec fn close_spec(old: Self, new: Self, r: ParseResult<()>) -> bool {
        if old.state == CloseableState::Open {
            r is Ok && new == Namespace { state: CloseableState::Closed, ..old }
        } else {
            r == Err::<(), ParseError>(ParseError::BadCloseableState(old.state)) && new == old
        }
    }

    /// Whether `new` and `r` are what handing `e` to `old` gives.
    pub open spec fn step_spec(old: Self, e: XmlEvent, new: Self, r: ParseResult<()>) -> bool {
        if old.state != CloseableState::Open {
            r == Err::<(), ParseError>(ParseError::BadCloseableState(old.state)) && new == old
        } else if is_end_of(e, "namespace") {
            Self::close_spec(old, new, r)
        } else if let Some(bytes) = event_text(e) {
            if valid_utf8(bytes) {
                &&& r is Ok
                &&& new == Namespace { name: new.name, ..old }
                &&& new.name@ == old.name@ + decode_utf8(bytes)
            } else {
                &&& r == Err::<(), ParseError>(
                    ParseError::ValueError(
                        ValueError { field: "namespace", reason: ValueErrorKind::NonUTF8 },
                    ),
                )
                &&& new == old
            }
        } else {
            &&& new == old
            &&& match e {
                XmlEvent::Comment | XmlEvent::Decl | XmlEvent::PI | XmlEvent::DocType => r is Ok,
                XmlEvent::Eof => r == Err::<(), ParseError>(
                    ParseError::BadCloseableState(CloseableState::Open),
                ),
                _ => r matches Err(ParseError::UnhandledEvent { .. }),
            }
        }
    }

    /// The namespace is open and `name` is its end tag.
    pub open spec fn takes_end(self, name: Seq<u8>) -> bool {
        self.state == CloseableState::Open && name == key_bytes("namespace")
    }

    /// An end tag that does not close this namespace is refused.
    pub proof fn lemma_unmatched_end(old: Self, e: XmlEvent, new: Self, r: ParseResult<()>)
        requires
            e matches XmlEvent::End(n) && !old.takes_end(n@),
            Self::step_spec(old, e, new, r),
        ensures
            refused(r),
    {
    }

    proof fn lemma_pieces(
        states: Seq<Self>,
        events: Seq<XmlEvent>,
        results: Seq<ParseResult<()>>,
        n: int,
    )
        requires
            0 <= n <= events.len(),
            states.len() == events.len() + 1,
            results.len() == events.len(),
            states[0].state == CloseableState::Open,
            utf8_texts(events),
            forall|i: int|
                0 <= i < events.len() ==> Self::step_spec(
                    #[trigger] states[i],
                    events[i],
                    states[i + 1],
                    results[i],
                ),
        ensures
            states[n] == (Namespace { name: states[n].name, ..states[0] }),
            valid_utf8(texts_joined(events.take(n))),
            states[n].name@ == states[0].name@ + decode_utf8(texts_joined(events.take(n))),
            forall|i: int| 0 <= i < n ==> (#[trigger] results[i]) is Ok,
        decreases n,
    {
        if n == 0 {
            assert(events.take(0) =~= Seq::<XmlEvent>::empty());
            assert(states[0].name@ + decode_utf8(Seq::<u8>::empty()) =~= states[0].name@);
        } else {
            Self::lemma_pieces(states, events, results, n - 1);
            lemma_joined_step(events, n - 1);
            let b = event_text(events[n - 1])->0;
            assert(Self::step_spec(states[n - 1], events[n - 1], states[n], results[n - 1]));
            assert(states[0].name@ + decode_utf8(texts_joined(events.take(n - 1))) + decode_utf8(
                b,
            ) =~= states[0].name@ + decode_utf8(texts_joined(events.take(n))));
        }
    }

    /// A name split over any number of text events gives the same name, and
    /// the same closed namespace, as the whole text in one event, wherever
    /// the splits fall between characters.
    pub proof fn lemma_split_name(
        states: Seq<Self>,
        events: Seq<XmlEvent>,
        results: Seq<ParseResult<()>>,
        whole: XmlEvent,
        joined: Self,
        r: ParseResult<()>,
        end: XmlEvent,
        split_closed: Self,
        joined_closed: Self,
        r_split: ParseResult<()>,
        r_joined: ParseResult<()>,
    )
        requires
            states.len() == events.len() + 1,
            results.len() == events.len(),
            states[0].state == CloseableState::Open,
            utf8_texts(events),
            forall|i: int|
                0 <= i < events.len() ==> Self::step_spec(
                    #[trigger] states[i],
                    events[i],
                    states[i + 1],
                    results[i],
                ),
            event_text(whole) == Some(texts_joined(events)),
            Self::step_spec(states[0], whole, joined, r),
            is_end_of(end, "namespace"),
            Self::step_spec(states.last(), end, split_closed, r_split),
            Self::step_spec(joined, end, joined_closed, r_joined),
        ensures
            forall|i: int| 0 <= i < events.len() ==> (#[trigger] results[i]) is Ok,
            r is Ok && r_split is Ok && r_joined is Ok,
            split_closed.state == CloseableState::Closed,
            joined_closed.state == CloseableState::Closed,
            split_closed.key == joined_closed.key,
            split_closed.name@ == joined_closed.name@,
            split_closed.name@ == states[0].name@ + decode_utf8(texts_joined(events)),
    {
        let k = events.len() as int;
        Self::lemma_pieces(states, events, results, k);
        assert(events.take(k) =~= events);
        assert(states.last() == states[k]);
    }

    /// An open namespace read from the attributes of its start tag.
    pub fn from_attributes(attrs: &Vec<Attribute>) -> (r: ParseResult<Namespace>)
        ensures
            match namespace_key(attrs@) {
                Ok(k) => r matches Ok(ns) && ns.fresh(k, CloseableState::Open),
                Err(e) => r == Err::<Namespace, ParseError>(e),
            },
    {
        match find_attribute(attrs, "key") {
            None => Err(ParseError::MissingAttribute { parent: "namespace", attribute: "key" }),
            Some(i) => match decode_bytes(attrs[i].value.as_slice()) {
                None => Err(
                    ParseError::ValueError(
                        ValueError { field: "key", reason: ValueErrorKind::NonUTF8 },
                    ),
                ),
                Some(text) => match parse_signed(text.as_str()) {
                    None => Err(
                        ParseError::ValueError(
                            ValueError { field: "key", reason: ValueErrorKind::InvalidInt },
                        ),
                    ),
                    Some(key) => Ok(
                        Namespace { key, name: String::new(), state: CloseableState::Open },
                    ),
                },
            },
        }
    }

    pub fn close_state(&self) -> (r: CloseableState)
        ensures
            r == self.state,
    {
        self.state
    }

    pub fn is_open(&self) -> (r: bool)
        ensures
            r == (self.state == CloseableState::Open),
    {
        self.state == CloseableState::Open
    }

    pub fn close(&mut self) -> (r: ParseResult<()>)
        ensures
            Self::close_spec(*old(self), *final(self), r),
    {
        if self.state != CloseableState::Open {
            return Err(ParseError::BadCloseableState(self.state));
        }
        self.state = CloseableState::Closed;
        Ok(())
    }

    pub fn handle_event(&mut self, event: &XmlEvent) -> (r: ParseResult<()>)
        ensures
            Self::step_spec(*old(self), *event, *final(self), r),
    {
        if self.state != CloseableState::Open {
            return Err(ParseError::BadCloseableState(self.state));
        }
        match event {
            XmlEvent::End(_) => {
                if is_end(event, "namespace") {
                    self.close()
                } else {
                    Err(
                        ParseError::UnhandledEvent {
                            reason: "end tag does not close this namespace",
                        },
                    )
                }
            },
            XmlEvent::Text(bytes) => self.append(bytes),
            XmlEvent::CData(bytes) => self.append(bytes),
            XmlEvent::Comment | XmlEvent::Decl | XmlEvent::PI | XmlEvent::DocType => Ok(()),
            XmlEvent::Eof => Err(ParseError::BadCloseableState(CloseableState::Open)),
            _ => Err(ParseError::UnhandledEvent { reason: "a namespace holds no nested tags" }),
        }
    }

    fn append(&mut self, bytes: &Vec<u8>) -> (r: ParseResult<()>)
        ensures
            valid_utf8(bytes@) ==> {
                &&& r is Ok
                &&& *final(self) == (Namespace { name: final(self).name, ..*old(self) })
                &&& final(self).name@ == old(self).name@ + decode_utf8(bytes@)
            },
            !valid_utf8(bytes@) ==> r == Err::<(), ParseError>(
                ParseError::ValueError(
                    ValueError { field: "namespace", reason: ValueErrorKind::NonUTF8 },
                ),
            ) && *final(self) == *old(self),
    {
        match decode_bytes(bytes.as_slice()) {
            Some(text) => {
                push_text(&mut self.name, text.as_str());
                Ok(())
            },
            None => Err(
                ParseError::ValueError(
                    ValueError { field: "namespace", reason: ValueErrorKind::NonUTF8 },
                ),
            ),
        }
    }
}

/// The `namespaces` list: entries in document order, only the last of which
/// may still be open.
#[derive(Debug)]
pub enum XMLList {
    Unopened,
    Open(Vec<Namespace>),
    Closed(Vec<Namespace>),
}

impl XMLList {
    pub open spec fn state(&self) -> CloseableState {
        match self {
            XMLList::Unopened => CloseableState::Unopened,
            XMLList::Open(_) => CloseableState::Open,
            XMLList::Closed(_) => CloseableState::Closed,
        }
    }

    /// Every entry but the last is closed, and none is unopened; a closed
    /// list holds closed entries only.
    pub open spec fn wf(&self) -> bool {
        match self {
            XMLList::Unopened => true,
            XMLList::Open(v) => forall|i: int|
                0 <= i < v@.len() ==> (#[trigger] v@[i]).state != CloseableState::Unopened && (i
                    < v@.len() - 1 ==> v@[i].state == CloseableState::Closed),
            XMLList::Closed(v) => forall|i: int|
                0 <= i < v@.len() ==> (#[trigger] v@[i]).state == CloseableState::Closed,
        }
    }

    /// Whether `new` and `r` are what handing `e` to `old` gives.
    pub open spec fn step_spec(old: Self, e: XmlEvent, new: Self, r: ParseResult<()>) -> bool {
        match old {
            XMLList::Open(items) => {
                let v = items@;
                if v.len() > 0 && v.last().state == CloseableState::Open {
                    &&& new is Open
                    &&& new->Open_0@.len() == v.len()
                    &&& new->Open_0@.drop_last() == v.drop_last()
                    &&& Namespace::step_spec(v.last(), e, new->Open_0@.last(), r)
                } else if is_end_of(e, "namespaces") {
                    r is Ok && new is Closed && new->Closed_0@ == v
                } else if is_start_of(e, "namespace") || is_empty_of(e, "namespace") {
                    let attrs = if e is Start {
                        e->Start_0.attributes@
                    } else {
                        e->Empty_0.attributes@
                    };
                    let state = if e is Start {
                        CloseableState::Open
                    } else {
                        CloseableState::Closed
                    };
                    match namespace_key(attrs) {
                        Ok(k) => {
                            &&& r is Ok
                            &&& new is Open
                            &&& new->Open_0@.len() == v.len() + 1
                            &&& new->Open_0@.drop_last() == v
                            &&& new->Open_0@.last().fresh(k, state)
                        },
                        Err(err) => r == Err::<(), ParseError>(err) && new == old,
                    }
                } else if ignorable(e) {
                    r is Ok && new == old
                } else {
                    r matches Err(ParseError::UnhandledEvent { .. }) && new == old
                }
            },
            _ => r == Err::<(), ParseError>(ParseError::BadCloseableState(old.state())) && new
                == old,
        }
    }

    /// An empty open list.
    pub fn new_open() -> (r: XMLList)
        ensures
            r is Open && r->Open_0@.len() == 0,
    {
        XMLList::Open(Vec::new())
    }

    pub fn close_state(&self) -> (r: CloseableState)
        ensures
            r == self.state(),
    {
        match self {
            XMLList::Unopened => CloseableState::Unopened,
            XMLList::Open(_) => CloseableState::Open,
            XMLList::Closed(_) => CloseableState::Closed,
        }
    }

    pub fn is_open(&self) -> (r: bool)
        ensures
            r == (self.state() == CloseableState::Open),
    {
        matches!(self, XMLList::Open(_))
    }

    /// Freezes the list; fails unless it is open.
    pub fn close(&mut self) -> (r: ParseResult<()>)
        ensures
            match *old(self) {
                XMLList::Open(v) => {
                    &&& r is Ok
                    &&& *final(self) is Closed
                    &&& final(self)->Closed_0@ == v@
                },
                _ => r == Err::<(), ParseError>(ParseError::BadCloseableState(old(self).state()))
                    && *final(self) == *old(self),
            },
    {
        let mut current = XMLList::Unopened;
        std::mem::swap(self, &mut current);
        match current {
            XMLList::Open(items) => {
                *self = XMLList::Closed(items);
                Ok(())
            },
            other => {
                let state = other.close_state();
                *self = other;
                Err(ParseError::BadCloseableState(state))
            },
        }
    }

    /// `new` is `old` frozen, with its open last entry closed, where `old`
    /// is open; `old` itself otherwise.
    pub open spec fn finished_spec(old: Self, new: Self) -> bool {
        match old {
            XMLList::Open(items) => {
                let v = items@;
                &&& new is Closed
                &&& new->Closed_0@.len() == v.len()
                &&& forall|i: int| 0 <= i < v.len() - 1 ==> #[trigger] new->Closed_0@[i] == v[i]
                &&& v.len() > 0 ==> new->Closed_0@.last() == if v.last().state
                    == CloseableState::Open {
                    Namespace { state: CloseableState::Closed, ..v.last() }
                } else {
                    v.last()
                }
            },
            _ => new == old,
        }
    }

    /// Freezes an open list, closing its open last entry.
    pub fn finish(&mut self)
        ensures
            Self::finished_spec(*old(self), *final(self)),
            old(self).wf() ==> final(self).wf(),
    {
        let mut current = XMLList::Unopened;
        std::mem::swap(self, &mut current);
        match current {
            XMLList::Open(items) => {
                let ghost before = items@;
                let mut items = items;
                let n = items.len();
                if n > 0 && items[n - 1].is_open() {
                    let mut last = items.pop().unwrap();
                    let _ = last.close();
                    items.push(last);
                    assert forall|i: int| 0 <= i < before.len() - 1 implies #[trigger] items@[i]
                        == before[i] by {
                        assert(items@.drop_last()[i] == before.drop_last()[i]);
                    }
                }
                *self = XMLList::Closed(items);
            },
            other => {
                *self = other;
            },
        }
    }

    /// The entries, once the list is closed.
    pub fn value(&self) -> (r: Option<&Vec<Namespace>>)
        ensures
            r is Some <==> self is Closed,
            r matches Some(v) ==> *v == self->Closed_0,
    {
        match self {
            XMLList::Closed(items) => Some(items),
            _ => None,
        }
    }

    /// The entries read so far, once the list is opened.
    pub fn partial_value(&self) -> (r: Option<&Vec<Namespace>>)
        ensures
            r is Some <==> !(self is Unopened),
            r matches Some(v) ==> (self is Open ==> *v == self->Open_0) && (self is Closed ==> *v
                == self->Closed_0),
    {
        match self {
            XMLList::Open(items) => Some(items),
            XMLList::Closed(items) => Some(items),
            XMLList::Unopened => None,
        }
    }

    /// The list is open and `name` is its end tag or one that its open last
    /// entry takes.
    pub open spec fn takes_end(self, name: Seq<u8>) -> bool {
        self is Open && (name == key_bytes("namespaces") || (self->Open_0@.len() > 0
            && self->Open_0@.last().takes_end(name)))
    }

    /// An end tag that no open node of the list takes is refused.
    pub proof fn lemma_unmatched_end(old: Self, e: XmlEvent, new: Self, r: ParseResult<()>)
        requires
            e matches XmlEvent::End(n) && !old.takes_end(n@),
            Self::step_spec(old, e, new, r),
        ensures
            refused(r),
    {
        if old is Open {
            let v = old->Open_0@;
            if v.len() > 0 && v.last().state == CloseableState::Open {
                Namespace::lemma_unmatched_end(v.last(), e, new->Open_0@.last(), r);
            }
        }
    }

    /// Every step keeps the invariant.
    pub proof fn lemma_step_wf(old: Self, e: XmlEvent, new: Self, r: ParseResult<()>)
        requires
            old.wf(),
            Self::step_spec(old, e, new, r),
        ensures
            new.wf(),
    {
        if old is Open {
            let v = old->Open_0@;
            if new is Open {
                let w = new->Open_0@;
                assert forall|i: int| 0 <= i < w.len() - 1 implies w[i] == v[i] by {
                    assert(w.drop_last()[i] == w[i]);
                }
            }
        }
    }

    /// Hands one event to the list.
    pub fn handle_event(&mut self, event: &XmlEvent) -> (r: ParseResult<()>)
        ensures
            Self::step_spec(*old(self), *event, *final(self), r),
            old(self).wf() ==> final(self).wf(),
    {
        let mut current = XMLList::Unopened;
        std::mem::swap(self, &mut current);
        match current {
            XMLList::Open(items) => {
                let (next, r) = Self::step_open(items, event);
                *self = next;
                proof {
                    if old(self).wf() {
                        Self::lemma_step_wf(*old(self), *event, *self, r);
                    }
                }
                r
            },
            other => {
                let state = other.close_state();
                *self = other;
                Err(ParseError::BadCloseableState(state))
            },
        }
    }

    fn step_open(items: Vec<Namespace>, event: &XmlEvent) -> (out: (XMLList, ParseResult<()>))
        ensures
            Self::step_spec(XMLList::Open(items), *event, out.0, out.1),
    {
        let ghost before = items@;
        let mut items = items;
        let n = items.len();
        if n > 0 && items[n - 1].is_open() {
            let mut last = items.pop().unwrap();
            let r = last.handle_event(event);
            items.push(last);
            assert(items@.drop_last() =~= before.drop_last());
            return (XMLList::Open(items), r);
        }
        if is_end(event, "namespaces") {
            return (XMLList::Closed(items), Ok(()));
        }
        let start = is_start(event, "namespace");
        if start || is_empty(event, "namespace") {
            let attrs = match event {
                XmlEvent::Start(t) => &t.attributes,
                XmlEvent::Empty(t) => &t.attributes,
                _ => {
                    return (XMLList::Open(items), Err(ParseError::UnhandledEvent { reason: "" }));
                },
            };
            match Namespace::from_attributes(attrs) {
                Ok(mut ns) => {
                    if !start {
                        ns.state = CloseableState::Closed;
                    }
                    items.push(ns);
                    assert(items@.drop_last() =~= before);
                    return (XMLList::Open(items), Ok(()));
                },
                Err(e) => {
                    return (XMLList::Open(items), Err(e));
                },
            }
        }
        if is_ignorable(event) {
            (XMLList::Open(items), Ok(()))
        } else {
            (
                XMLList::Open(items),
                Err(ParseError::UnhandledEvent { reason: "no entry of the list takes this event" }),
            )
        }
    }
}

} // verus!
