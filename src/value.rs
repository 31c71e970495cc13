//! Scalar leaf tags: text accumulated between a start and an end tag, parsed
//! into a typed value when the tag closes.

use vstd::prelude::*;
use vstd::utf8::{
    decode_utf8, decode_utf8_encode_utf8, encode_utf8, encode_utf8_decode_utf8,
    encode_utf8_valid_utf8, valid_utf8,
};

use crate::error::{
    refused, CloseableState, FieldResultMap, ParseError, ParseResult, ValueError, ValueErrorKind,
};
use crate::event::{is_end_of, key_bytes, name_is, Attribute, XmlEvent};
use crate::text::{
    decode_bytes, owned, parse_signed, parse_unsigned, push_text, signed_decimal, unsigned_decimal,
};

verus! {

/// A type that the text of a leaf tag can be parsed into.
pub trait ParseValue: Sized + View {
    /// The value that `raw` parses to, if it parses.
    spec fn parse_spec(raw: Seq<char>) -> Option<Self::V>;

    /// The kind of error reported when parsing fails.
    spec fn failure_kind() -> ValueErrorKind;

    fn parse(field: &'static str, raw: &str) -> (r: Result<Self, ValueError>)
        ensures
            match r {
                Ok(v) => Self::parse_spec(raw@) == Some(v@),
                Err(e) => Self::parse_spec(raw@) is None && e == (ValueError {
                    field,
                    reason: Self::failure_kind(),
                }),
            },
    ;
}

impl ParseValue for String {
    open spec fn parse_spec(raw: Seq<char>) -> Option<Seq<char>> {
        Some(raw)
    }

    open spec fn failure_kind() -> ValueErrorKind {
        ValueErrorKind::NonUTF8
    }

    fn parse(field: &'static str, raw: &str) -> (r: Result<String, ValueError>) {
        Ok(owned(raw))
    }
}

impl ParseValue for usize {
    open spec fn parse_spec(raw: Seq<char>) -> Option<usize> {
        unsigned_decimal(raw)
    }

    open spec fn failure_kind() -> ValueErrorKind {
        ValueErrorKind::InvalidInt
    }

    fn parse(field: &'static str, raw: &str) -> (r: Result<usize, ValueError>) {
        let read: Result<usize, ValueErrorKind> = match parse_unsigned(raw) {
            Some(v) => Ok(v),
            None => Err(ValueErrorKind::InvalidInt),
        };
        read.map_field_err(field)
    }
}

impl ParseValue for isize {
    open spec fn parse_spec(raw: Seq<char>) -> Option<isize> {
        signed_decimal(raw)
    }

    open spec fn failure_kind() -> ValueErrorKind {
        ValueErrorKind::InvalidInt
    }

    fn parse(field: &'static str, raw: &str) -> (r: Result<isize, ValueError>) {
        let read: Result<isize, ValueErrorKind> = match parse_signed(raw) {
            Some(v) => Ok(v),
            None => Err(ValueErrorKind::InvalidInt),
        };
        read.map_field_err(field)
    }
}

/// Whether every attribute name and value is valid UTF-8.
pub open spec fn attributes_utf8(attrs: Seq<Attribute>) -> bool {
    forall|i: int| 0 <= i < attrs.len() ==> attribute_utf8(#[trigger] attrs[i])
}

pub open spec fn attribute_utf8(a: Attribute) -> bool {
    valid_utf8(a.key@) && valid_utf8(a.value@)
}

/// Whether `pairs` holds the decoded text of `attrs`, in the same order.
pub open spec fn decoded_attributes(pairs: Seq<(String, String)>, attrs: Seq<Attribute>) -> bool {
    &&& pairs.len() == attrs.len()
    &&& forall|i: int|
        0 <= i < attrs.len() ==> (#[trigger] pairs[i]).0@ == decode_utf8(attrs[i].key@)
            && pairs[i].1@ == decode_utf8(attrs[i].value@)
}

/// The attributes of a tag as text, in document order.
pub fn decode_attributes(attrs: &Vec<Attribute>) -> (r: ParseResult<Vec<(String, String)>>)
    ensures
        r is Ok <==> attributes_utf8(attrs@),
        r matches Ok(pairs) ==> decoded_attributes(pairs@, attrs@),
        r is Err ==> r == Err::<Vec<(String, String)>, ParseError>(ParseError::EncodingError),
{
    let mut pairs: Vec<(String, String)> = Vec::new();
    let mut i: usize = 0;
    while i < attrs.len()
        invariant
            0 <= i <= attrs@.len(),
            pairs@.len() == i,
            forall|j: int| 0 <= j < i ==> attribute_utf8(#[trigger] attrs@[j]),
            forall|j: int|
                0 <= j < i ==> (#[trigger] pairs@[j]).0@ == decode_utf8(attrs@[j].key@)
                    && pairs@[j].1@ == decode_utf8(attrs@[j].value@),
        decreases attrs@.len() - i,
    {
        let attr = &attrs[i];
        let key = decode_bytes(attr.key.as_slice());
        let value = decode_bytes(attr.value.as_slice());
        match (key, value) {
            (Some(k), Some(v)) => {
                pairs.push((k, v));
                assert(attribute_utf8(attrs@[i as int]));
            },
            _ => {
                assert(!attribute_utf8(attrs@[i as int]));
                assert(!attributes_utf8(attrs@));
                return Err(ParseError::EncodingError);
            },
        }
        i = i + 1;
    }
    assert(attributes_utf8(attrs@));
    Ok(pairs)
}

/// A scalar leaf tag whose text becomes a value of type `D` when it closes.
#[derive(Debug)]
pub enum ValueTag<D> {
    Unopened,
    Open { attributes: Vec<(String, String)>, buffer: String },
    Closed { attributes: Vec<(String, String)>, value: D },
}

proof fn lemma_encode_concat(c1: Seq<char>, c2: Seq<char>)
    ensures
        encode_utf8(c1 + c2) == encode_utf8(c1) + encode_utf8(c2),
    decreases c1.len(),
{
    if c1.len() == 0 {
        assert(c1 + c2 =~= c2);
    } else {
        lemma_encode_concat(c1.drop_first(), c2);
        assert((c1 + c2).drop_first() =~= c1.drop_first() + c2);
        assert((c1 + c2)[0] == c1[0]);
    }
}

/// Valid UTF-8 decodes piecewise.
pub(crate) proof fn lemma_decode_concat(a: Seq<u8>, b: Seq<u8>)
    requires
        valid_utf8(a),
        valid_utf8(b),
    ensures
        valid_utf8(a + b),
        decode_utf8(a + b) == decode_utf8(a) + decode_utf8(b),
{
    decode_utf8_encode_utf8(a);
    decode_utf8_encode_utf8(b);
    lemma_encode_concat(decode_utf8(a), decode_utf8(b));
    encode_utf8_decode_utf8(decode_utf8(a) + decode_utf8(b));
    encode_utf8_valid_utf8(decode_utf8(a) + decode_utf8(b));
}

/// The bytes of the text events, one after another.
pub open spec fn texts_joined(events: Seq<XmlEvent>) -> Seq<u8>
    decreases events.len(),
{
    if events.len() == 0 {
        Seq::empty()
    } else {
        texts_joined(events.drop_last()) + event_text(events.last())->0
    }
}

/// Every event is a text or CDATA event whose bytes are UTF-8.
pub open spec fn utf8_texts(events: Seq<XmlEvent>) -> bool {
    forall|i: int|
        0 <= i < events.len() ==> (#[trigger] event_text(events[i])) is Some && valid_utf8(
            event_text(events[i])->0,
        )
}

/// The text of the first `n + 1` events is that of the first `n` and then
/// that of event `n`, and decodes piece by piece.
pub(crate) proof fn lemma_joined_step(events: Seq<XmlEvent>, n: int)
    requires
        0 <= n < events.len(),
        utf8_texts(events),
        valid_utf8(texts_joined(events.take(n))),
    ensures
        texts_joined(events.take(n + 1)) == texts_joined(events.take(n)) + event_text(
            events[n],
        )->0,
        valid_utf8(texts_joined(events.take(n + 1))),
        decode_utf8(texts_joined(events.take(n + 1))) == decode_utf8(texts_joined(events.take(n)))
            + decode_utf8(event_text(events[n])->0),
{
    assert(events.take(n + 1).drop_last() =~= events.take(n));
    assert(events.take(n + 1).last() == events[n]);
    assert(event_text(events[n]) is Some);
    lemma_decode_concat(texts_joined(events.take(n)), event_text(events[n])->0);
}

/// The bytes of a text or CDATA event.
pub open spec fn event_text(e: XmlEvent) -> Option<Seq<u8>> {
    match e {
        XmlEvent::Text(b) => Some(b@),
        XmlEvent::CData(b) => Some(b@),
        _ => None,
    }
}

impl<D: ParseValue> ValueTag<D> {
    pub open spec fn state(&self) -> CloseableState {
        match self {
            ValueTag::Unopened => CloseableState::Unopened,
            ValueTag::Open { .. } => CloseableState::Open,
            ValueTag::Closed { .. } => CloseableState::Closed,
        }
    }

    /// Whether `new` and `r` are what closing `old`, the tag `key`, gives: an
    /// open tag parses its buffer into its value, keeping its attributes.
    pub open spec fn close_spec(
        old: Self,
        key: &'static str,
        new: Self,
        r: ParseResult<()>,
    ) -> bool {
        match old {
            ValueTag::Open { attributes, buffer } => match D::parse_spec(buffer@) {
                Some(v) => {
                    &&& r is Ok
                    &&& new matches ValueTag::Closed { attributes: a, value }
                    &&& a == attributes
                    &&& value@ == v
                },
                None => {
                    &&& r == Err::<(), ParseError>(
                        ParseError::ValueError(ValueError { field: key, reason: D::failure_kind() }),
                    )
                    &&& new == old
                },
            },
            _ => r == Err::<(), ParseError>(ParseError::BadCloseableState(old.state())) && new
                == old,
        }
    }

    /// Whether `new` and `r` are what handing `e` to `old`, the tag `key`, gives.
    pub open spec fn step_spec(
        old: Self,
        key: &'static str,
        e: XmlEvent,
        new: Self,
        r: ParseResult<()>,
    ) -> bool {
        if !(old is Open) {
            r == Err::<(), ParseError>(ParseError::BadCloseableState(old.state())) && new == old
        } else if is_end_of(e, key) {
            Self::close_spec(old, key, new, r)
        } else if let Some(bytes) = event_text(e) {
            if valid_utf8(bytes) {
                &&& r is Ok
                &&& new matches ValueTag::Open { attributes, buffer }
                &&& attributes == old->Open_attributes
                &&& buffer@ == old->Open_buffer@ + decode_utf8(bytes)
            } else {
                &&& r == Err::<(), ParseError>(
                    ParseError::ValueError(
                        ValueError { field: key, reason: ValueErrorKind::NonUTF8 },
                    ),
                )
                &&& new == old
            }
        } else {
            &&& new == old
            &&& match e {
                XmlEvent::Comment | XmlEvent::Decl | XmlEvent::PI | XmlEvent::DocType => r is Ok,
                XmlEvent::Eof => r == Err::<(), ParseError>(
                    ParseError::BadCloseableState(CloseableState::Open),
                ),
                _ => r matches Err(ParseError::UnhandledEvent { .. }),
            }
        }
    }

    /// Whether `new` and `r` are what the start or self-closing tag `e`, named
    /// `key`, makes of the slot `old`: a start tag opens it afresh, a
    /// self-closing tag gives it the value of empty text at once.
    pub open spec fn begin_spec(
        old: Self,
        key: &'static str,
        e: XmlEvent,
        new: Self,
        r: ParseResult<()>,
    ) -> bool {
        match e {
            XmlEvent::Start(t) => if attributes_utf8(t.attributes@) {
                &&& r is Ok
                &&& new is Open
                &&& decoded_attributes(new->Open_attributes@, t.attributes@)
                &&& new->Open_buffer@ == Seq::<char>::empty()
            } else {
                r == Err::<(), ParseError>(ParseError::EncodingError) && new == old
            },
            XmlEvent::Empty(t) => if !attributes_utf8(t.attributes@) {
                r == Err::<(), ParseError>(ParseError::EncodingError) && new == old
            } else {
                match D::parse_spec(Seq::empty()) {
                    Some(v) => {
                        &&& r is Ok
                        &&& new is Closed
                        &&& decoded_attributes(new->Closed_attributes@, t.attributes@)
                        &&& new->Closed_value@ == v
                    },
                    None => {
                        &&& r == Err::<(), ParseError>(
                            ParseError::ValueError(
                                ValueError { field: key, reason: D::failure_kind() },
                            ),
                        )
                        &&& new == old
                    },
                }
            },
            _ => false,
        }
    }

    /// The error that closing `old`, the tag `key`, gives: a value error where
    /// it is open and its buffer does not parse.
    pub open spec fn close_error(old: Self, key: &'static str) -> Option<ParseError> {
        if old is Open && D::parse_spec(old->Open_buffer@) is None {
            Some(ParseError::ValueError(ValueError { field: key, reason: D::failure_kind() }))
        } else {
            None
        }
    }

    /// `new` is `old` closed with its parsed buffer where it was open, and
    /// `old` itself otherwise.
    pub open spec fn finished_spec(old: Self, new: Self) -> bool {
        if old is Open {
            &&& new is Closed
            &&& new->Closed_attributes == old->Open_attributes
            &&& Some(new->Closed_value@) == D::parse_spec(old->Open_buffer@)
        } else {
            new == old
        }
    }

    /// Whether closing the tag, if it is open, would succeed.
    pub fn check_close(&self, key: &'static str) -> (r: ParseResult<()>)
        ensures
            match Self::close_error(*self, key) {
                Some(e) => r == Err::<(), ParseError>(e),
                None => r is Ok,
            },
    {
        match self {
            ValueTag::Open { buffer, .. } => match D::parse(key, buffer.as_str()) {
                Ok(_) => Ok(()),
                Err(e) => Err(ParseError::ValueError(e)),
            },
            _ => Ok(()),
        }
    }

    /// Closes the tag if it is open, where that is known to succeed.
    pub fn finish(&mut self, key: &'static str)
        requires
            Self::close_error(*old(self), key) is None,
        ensures
            Self::finished_spec(*old(self), *final(self)),
    {
        if self.is_open() {
            let _ = self.close(key);
        }
    }

    /// Replaces the slot with a tag built from the start or self-closing tag `event`.
    pub fn begin(&mut self, key: &'static str, event: &XmlEvent) -> (r: ParseResult<()>)
        requires
            *event is Start || *event is Empty,
        ensures
            Self::begin_spec(*old(self), key, *event, *final(self), r),
    {
        let made = match event {
            XmlEvent::Start(t) => Self::new_open(&t.attributes),
            XmlEvent::Empty(t) => Self::new_closed(key, &t.attributes),
            _ => Err(ParseError::EncodingError),
        };
        match made {
            Ok(tag) => {
                *self = tag;
                Ok(())
            },
            Err(e) => Err(e),
        }
    }

    /// The tag is open and `name` is its own end tag.
    pub open spec fn takes_end(self, key: &str, name: Seq<u8>) -> bool {
        self is Open && name == key_bytes(key)
    }

    /// An end tag that does not close this tag is refused.
    pub proof fn lemma_unmatched_end(
        old: Self,
        key: &'static str,
        e: XmlEvent,
        new: Self,
        r: ParseResult<()>,
    )
        requires
            e matches XmlEvent::End(n) && !old.takes_end(key, n@),
            Self::step_spec(old, key, e, new, r),
        ensures
            refused(r),
    {
    }

    proof fn lemma_pieces(
        states: Seq<Self>,
        key: &'static str,
        events: Seq<XmlEvent>,
        results: Seq<ParseResult<()>>,
        n: int,
    )
        requires
            0 <= n <= events.len(),
            states.len() == events.len() + 1,
            results.len() == events.len(),
            states[0] is Open,
            utf8_texts(events),
            forall|i: int|
                0 <= i < events.len() ==> Self::step_spec(
                    #[trigger] states[i],
                    key,
                    events[i],
                    states[i + 1],
                    results[i],
                ),
        ensures
            states[n] is Open,
            states[n]->Open_attributes == states[0]->Open_attributes,
            valid_utf8(texts_joined(events.take(n))),
            states[n]->Open_buffer@ == states[0]->Open_buffer@ + decode_utf8(
                texts_joined(events.take(n)),
            ),
            forall|i: int| 0 <= i < n ==> (#[trigger] results[i]) is Ok,
        decreases n,
    {
        if n == 0 {
            assert(events.take(0) =~= Seq::<XmlEvent>::empty());
            assert(states[0]->Open_buffer@ + decode_utf8(Seq::<u8>::empty()) =~= states[0]->Open_buffer@);
        } else {
            Self::lemma_pieces(states, key, events, results, n - 1);
            lemma_joined_step(events, n - 1);
            let b = event_text(events[n - 1])->0;
            assert(Self::step_spec(states[n - 1], key, events[n - 1], states[n], results[n - 1]));
            assert(states[0]->Open_buffer@ + decode_utf8(texts_joined(events.take(n - 1)))
                + decode_utf8(b) =~= states[0]->Open_buffer@ + decode_utf8(
                texts_joined(events.take(n)),
            ));
        }
    }

    /// Text split over any number of events gives the same buffer, and so the
    /// same result and value once the tag closes, as the whole text in one
    /// event, wherever the splits fall between characters.
    pub proof fn lemma_split_text(
        states: Seq<Self>,
        key: &'static str,
        events: Seq<XmlEvent>,
        results: Seq<ParseResult<()>>,
        whole: XmlEvent,
        joined: Self,
        r: ParseResult<()>,
        end: XmlEvent,
        split_closed: Self,
        joined_closed: Self,
        r_split: ParseResult<()>,
        r_joined: ParseResult<()>,
    )
        requires
            states.len() == events.len() + 1,
            results.len() == events.len(),
            states[0] is Open,
            utf8_texts(events),
            forall|i: int|
                0 <= i < events.len() ==> Self::step_spec(
                    #[trigger] states[i],
                    key,
                    events[i],
                    states[i + 1],
                    results[i],
                ),
            event_text(whole) == Some(texts_joined(events)),
            Self::step_spec(states[0], key, whole, joined, r),
            is_end_of(end, key),
            Self::step_spec(states.last(), key, end, split_closed, r_split),
            Self::step_spec(joined, key, end, joined_closed, r_joined),
        ensures
            forall|i: int| 0 <= i < events.len() ==> (#[trigger] results[i]) is Ok,
            r is Ok,
            states.last() is Open && joined is Open,
            states.last()->Open_buffer@ == joined->Open_buffer@,
            states.last()->Open_attributes == joined->Open_attributes,
            r_split == r_joined,
            split_closed is Closed <==> joined_closed is Closed,
            split_closed is Closed ==> split_closed->Closed_value@ == joined_closed->Closed_value@,
    {
        let k = events.len() as int;
        Self::lemma_pieces(states, key, events, results, k);
        assert(events.take(k) =~= events);
        assert(states.last() == states[k]);
        let last = states[k];
        assert(D::parse_spec(last->Open_buffer@) == D::parse_spec(joined->Open_buffer@));
        if r_split is Ok {
            assert(r_split->Ok_0 == r_joined->Ok_0);
        }
    }

    /// A leaf read whole: its start tag, one text event and its end tag leave
    /// it closed with the value of the text, when that text is UTF-8 and parses.
    pub proof fn lemma_leaf(
        old: Self,
        key: &'static str,
        open_tag: XmlEvent,
        content: XmlEvent,
        end: XmlEvent,
        opened: Self,
        filled: Self,
        closed: Self,
        r1: ParseResult<()>,
        r2: ParseResult<()>,
        r3: ParseResult<()>,
    )
        requires
            open_tag matches XmlEvent::Start(t) && attributes_utf8(t.attributes@),
            event_text(content) matches Some(b) && valid_utf8(b),
            D::parse_spec(decode_utf8(event_text(content)->0)) is Some,
            is_end_of(end, key),
            !is_end_of(content, key),
            Self::begin_spec(old, key, open_tag, opened, r1),
            Self::step_spec(opened, key, content, filled, r2),
            Self::step_spec(filled, key, end, closed, r3),
        ensures
            r1 is Ok && r2 is Ok && r3 is Ok,
            closed is Closed,
            Some(closed->Closed_value@) == D::parse_spec(decode_utf8(event_text(content)->0)),
    {
        let b = event_text(content)->0;
        assert(filled->Open_buffer@ =~= decode_utf8(b));
    }

    pub fn close_state(&self) -> (r: CloseableState)
        ensures
            r == self.state(),
    {
        match self {
            ValueTag::Unopened => CloseableState::Unopened,
            ValueTag::Open { .. } => CloseableState::Open,
            ValueTag::Closed { .. } => CloseableState::Closed,
        }
    }

    pub fn is_open(&self) -> (r: bool)
        ensures
            r == (self.state() == CloseableState::Open),
    {
        matches!(self, ValueTag::Open { .. })
    }

    /// An open tag with the given attributes and an empty buffer.
    pub fn new_open(attrs: &Vec<Attribute>) -> (r: ParseResult<Self>)
        ensures
            r is Ok <==> attributes_utf8(attrs@),
            r matches Ok(t) ==> t matches ValueTag::Open { attributes, buffer }
                && decoded_attributes(attributes@, attrs@) && buffer@ == Seq::<char>::empty(),
            r is Err ==> r == Err::<Self, ParseError>(ParseError::EncodingError),
    {
        let attributes = decode_attributes(attrs)?;
        Ok(ValueTag::Open { attributes, buffer: String::new() })
    }

    /// A tag written self-closing: opened and closed at once, with empty text.
    pub fn new_closed(key: &'static str, attrs: &Vec<Attribute>) -> (r: ParseResult<Self>)
        ensures
            !attributes_utf8(attrs@) ==> r == Err::<Self, ParseError>(ParseError::EncodingError),
            attributes_utf8(attrs@) ==> match D::parse_spec(Seq::empty()) {
                Some(v) => r matches Ok(t) && t matches ValueTag::Closed { attributes, value }
                    && decoded_attributes(attributes@, attrs@) && value@ == v,
                None => r == Err::<Self, ParseError>(
                    ParseError::ValueError(ValueError { field: key, reason: D::failure_kind() }),
                ),
            },
    {
        match Self::new_open(attrs) {
            Ok(mut tag) => {
                match tag.close(key) {
                    Ok(()) => Ok(tag),
                    Err(e) => Err(e),
                }
            },
            Err(e) => Err(e),
        }
    }

    /// Parses the buffer into the value; fails unless the tag is open.
    pub fn close(&mut self, key: &'static str) -> (r: ParseResult<()>)
        ensures
            Self::close_spec(*old(self), key, *final(self), r),
    {
        let mut current = ValueTag::Unopened;
        std::mem::swap(self, &mut current);
        match current {
            ValueTag::Open { attributes, buffer } => {
                match D::parse(key, buffer.as_str()) {
                    Ok(value) => {
                        *self = ValueTag::Closed { attributes, value };
                        Ok(())
                    },
                    Err(e) => {
                        *self = ValueTag::Open { attributes, buffer };
                        Err(ParseError::ValueError(e))
                    },
                }
            },
            other => {
                let state = other.close_state();
                *self = other;
                Err(ParseError::BadCloseableState(state))
            },
        }
    }

    /// Hands one event to the tag named `key`.
    pub fn handle_event(&mut self, key: &'static str, event: &XmlEvent) -> (r: ParseResult<()>)
        ensures
            Self::step_spec(*old(self), key, *event, *final(self), r),
    {
        if !self.is_open() {
            return Err(ParseError::BadCloseableState(self.close_state()));
        }
        match event {
            XmlEvent::End(name) => {
                if name_is(name, key) {
                    self.close(key)
                } else {
                    Err(ParseError::UnhandledEvent { reason: "end tag does not close this value" })
                }
            },
            XmlEvent::Text(bytes) => self.append(key, bytes),
            XmlEvent::CData(bytes) => self.append(key, bytes),
            XmlEvent::Comment | XmlEvent::Decl | XmlEvent::PI | XmlEvent::DocType => Ok(()),
            XmlEvent::Eof => Err(ParseError::BadCloseableState(CloseableState::Open)),
            _ => Err(ParseError::UnhandledEvent { reason: "a value tag holds no nested tags" }),
        }
    }

    fn append(&mut self, key: &'static str, bytes: &Vec<u8>) -> (r: ParseResult<()>)
        requires
            *old(self) is Open,
        ensures
            valid_utf8(bytes@) ==> {
                &&& r is Ok
                &&& *final(self) is Open
                &&& final(self)->Open_attributes == old(self)->Open_attributes
                &&& final(self)->Open_buffer@ == old(self)->Open_buffer@ + decode_utf8(bytes@)
            },
            !valid_utf8(bytes@) ==> r == Err::<(), ParseError>(
                ParseError::ValueError(ValueError { field: key, reason: ValueErrorKind::NonUTF8 }),
            ) && *final(self) == *old(self),
    {
        match decode_bytes(bytes.as_slice()) {
            Some(text) => {
                match self {
                    ValueTag::Open { buffer, .. } => {
                        push_text(buffer, text.as_str());
                    },
                    _ => {},
                }
                Ok(())
            },
            None => Err(
                ParseError::ValueError(ValueError { field: key, reason: ValueErrorKind::NonUTF8 }),
            ),
        }
    }

    /// The value, once the tag is closed.
    pub fn value(&self) -> (r: Option<&D>)
        ensures
            r is Some <==> self is Closed,
            r matches Some(v) ==> *v == self->Closed_value,
    {
        match self {
            ValueTag::Closed { value, .. } => Some(value),
            _ => None,
        }
    }

    /// Moves the value out of a closed tag, leaving it unopened.
    pub fn take_value(&mut self) -> (r: Option<D>)
        ensures
            r is Some <==> *old(self) is Closed,
            r matches Some(v) ==> v == old(self)->Closed_value,
            *final(self) is Unopened,
    {
        let mut current = ValueTag::Unopened;
        std::mem::swap(self, &mut current);
        match current {
            ValueTag::Closed { value, .. } => Some(value),
            _ => None,
        }
    }

    /// The text gathered so far, while the tag is open.
    pub fn buffer(&self) -> (r: Option<&String>)
        ensures
            r is Some <==> self is Open,
            r matches Some(b) ==> *b == self->Open_buffer,
    {
        match self {
            ValueTag::Open { buffer, .. } => Some(buffer),
            _ => None,
        }
    }

    /// The text gathered so far, for changes in place, while the tag is open.
    pub fn buffer_mut(&mut self) -> (r: Option<&mut String>)
        ensures
            r is Some <==> *old(self) is Open,
            *old(self) is Open ==> *r->0 == old(self)->Open_buffer && *final(self) == (ValueTag::<
                D,
            >::Open { attributes: old(self)->Open_attributes, buffer: *final(r->0) }),
            !(*old(self) is Open) ==> *final(self) == *old(self),
    {
        match self {
            ValueTag::Open { buffer, .. } => Some(buffer),
            _ => None,
        }
    }

    /// The attributes the tag was opened with, once it is opened.
    pub fn attributes(&self) -> (r: Option<&Vec<(String, String)>>)
        ensures
            r is Some <==> !(self is Unopened),
            r matches Some(a) ==> (self is Open ==> *a == self->Open_attributes) && (self is Closed
                ==> *a == self->Closed_attributes),
    {
        match self {
            ValueTag::Open { attributes, .. } => Some(attributes),
            ValueTag::Closed { attributes, .. } => Some(attributes),
            ValueTag::Unopened => None,
        }
    }
}

} // verus!
