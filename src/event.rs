//! The token events that drive the document model, and helpers to match them.

use vstd::prelude::*;
use vstd::string::StringSliceAdditionalSpecFns;

use crate::error::{CloseableState, ParseError, ParseResult};

verus! {

/// One attribute of a tag, as raw bytes.
#[derive(Debug, Clone)]
pub struct Attribute {
    pub key: Vec<u8>,
    pub value: Vec<u8>,
}

/// The name and attributes of a start or self-closing tag.
#[derive(Debug, Clone)]
pub struct XmlTag {
    pub name: Vec<u8>,
    pub attributes: Vec<Attribute>,
}

/// A structural token of the document.
#[derive(Debug, Clone)]
pub enum XmlEvent {
    Start(XmlTag),
    Empty(XmlTag),
    End(Vec<u8>),
    Text(Vec<u8>),
    CData(Vec<u8>),
    Comment,
    Decl,
    PI,
    DocType,
    Eof,
}

/// The bytes of a tag or attribute name given as text.
pub open spec fn key_bytes(key: &str) -> Seq<u8> {
    key.spec_bytes()
}

pub open spec fn is_start_of(e: XmlEvent, key: &str) -> bool {
    e matches XmlEvent::Start(t) && t.name@ == key_bytes(key)
}

pub open spec fn is_empty_of(e: XmlEvent, key: &str) -> bool {
    e matches XmlEvent::Empty(t) && t.name@ == key_bytes(key)
}

pub open spec fn is_end_of(e: XmlEvent, key: &str) -> bool {
    e matches XmlEvent::End(n) && n@ == key_bytes(key)
}

/// A start tag or a self-closing tag named `key`.
pub open spec fn opens(e: XmlEvent, key: &str) -> bool {
    is_start_of(e, key) || is_empty_of(e, key)
}

/// Whether `i` is the position of the first attribute named `name`.
pub open spec fn first_attribute(attrs: Seq<Attribute>, name: &str, i: int) -> bool {
    &&& 0 <= i < attrs.len()
    &&& attrs[i].key@ == key_bytes(name)
    &&& forall|j: int| 0 <= j < i ==> (#[trigger] attrs[j]).key@ != key_bytes(name)
}

/// The raw value of the first attribute named `name`, if there is one.
pub open spec fn attribute_value(attrs: Seq<Attribute>, name: &str) -> Option<Seq<u8>> {
    if exists|i: int| first_attribute(attrs, name, i) {
        Some(attrs[choose|i: int| first_attribute(attrs, name, i)].value@)
    } else {
        None
    }
}

/// XML white space: space, tab, carriage return, line feed.
pub open spec fn is_space(b: u8) -> bool {
    b == 0x20 || b == 0x09 || b == 0x0d || b == 0x0a
}

pub open spec fn blank(b: Seq<u8>) -> bool {
    forall|i: int| 0 <= i < b.len() ==> is_space(#[trigger] b[i])
}

/// Events that carry nothing for the document model: white space between tags,
/// comments, declarations and processing instructions.
pub open spec fn ignorable(e: XmlEvent) -> bool {
    match e {
        XmlEvent::Text(b) => blank(b@),
        XmlEvent::CData(b) => blank(b@),
        XmlEvent::Comment | XmlEvent::Decl | XmlEvent::PI | XmlEvent::DocType => true,
        _ => false,
    }
}

/// Whether `name` spells `key`.
pub fn name_is(name: &Vec<u8>, key: &str) -> (r: bool)
    ensures
        r == (name@ == key_bytes(key)),
{
    let k = key.as_bytes();
    if name.len() != k.len() {
        return false;
    }
    let mut i: usize = 0;
    while i < k.len()
        invariant
            name@.len() == k@.len(),
            k@ == key_bytes(key),
            0 <= i <= k@.len(),
            forall|j: int| 0 <= j < i ==> name@[j] == k@[j],
        decreases k@.len() - i,
    {
        if name[i] != k[i] {
            return false;
        }
        i = i + 1;
    }
    assert(name@ =~= k@);
    true
}

pub fn is_start(event: &XmlEvent, key: &str) -> (r: bool)
    ensures
        r == is_start_of(*event, key),
{
    match event {
        XmlEvent::Start(t) => name_is(&t.name, key),
        _ => false,
    }
}

pub fn is_empty(event: &XmlEvent, key: &str) -> (r: bool)
    ensures
        r == is_empty_of(*event, key),
{
    match event {
        XmlEvent::Empty(t) => name_is(&t.name, key),
        _ => false,
    }
}

pub fn is_end(event: &XmlEvent, key: &str) -> (r: bool)
    ensures
        r == is_end_of(*event, key),
{
    match event {
        XmlEvent::End(n) => name_is(n, key),
        _ => false,
    }
}

/// The position of the first attribute named `name`.
pub fn find_attribute(attrs: &Vec<Attribute>, name: &str) -> (r: Option<usize>)
    ensures
        r matches Some(i) ==> first_attribute(attrs@, name, i as int),
        r matches Some(i) ==> attribute_value(attrs@, name) == Some(attrs@[i as int].value@),
        r is None ==> attribute_value(attrs@, name) is None,
{
    let mut i: usize = 0;
    while i < attrs.len()
        invariant
            0 <= i <= attrs@.len(),
            forall|j: int| 0 <= j < i ==> (#[trigger] attrs@[j]).key@ != key_bytes(name),
        decreases attrs@.len() - i,
    {
        if name_is(&attrs[i].key, name) {
            proof {
                assert(first_attribute(attrs@, name, i as int));
                let k = choose|k: int| first_attribute(attrs@, name, k);
                assert(k == i) by {
                    if k < i {
                        assert(attrs@[k].key@ != key_bytes(name));
                    } else if k > i {
                        assert(attrs@[i as int].key@ != key_bytes(name));
                    }
                }
            }
            return Some(i);
        }
        i = i + 1;
    }
    assert(!exists|k: int| first_attribute(attrs@, name, k));
    None
}

fn is_blank(bytes: &Vec<u8>) -> (r: bool)
    ensures
        r == blank(bytes@),
{
    let mut i: usize = 0;
    while i < bytes.len()
        invariant
            0 <= i <= bytes@.len(),
            forall|j: int| 0 <= j < i ==> is_space(#[trigger] bytes@[j]),
        decreases bytes@.len() - i,
    {
        let b = bytes[i];
        if !(b == 0x20 || b == 0x09 || b == 0x0d || b == 0x0a) {
            return false;
        }
        i = i + 1;
    }
    true
}

/// What a node that is open, has no open child and matched no rule of its own
/// answers: events without content pass, the end of the stream finds it still
/// open, anything else is unexpected.
pub open spec fn fallback_spec(e: XmlEvent, r: ParseResult<()>) -> bool {
    if ignorable(e) {
        r is Ok
    } else if e is Eof {
        r == Err::<(), ParseError>(ParseError::BadCloseableState(CloseableState::Open))
    } else {
        r matches Err(ParseError::UnhandledEvent { .. })
    }
}

/// The answer of an open node to an event that no rule of its own takes.
pub fn fallback(event: &XmlEvent, reason: &'static str) -> (r: ParseResult<()>)
    ensures
        fallback_spec(*event, r),
{
    if is_ignorable(event) {
        Ok(())
    } else if matches!(event, XmlEvent::Eof) {
        Err(ParseError::BadCloseableState(CloseableState::Open))
    } else {
        Err(ParseError::UnhandledEvent { reason })
    }
}

pub fn opens_tag(event: &XmlEvent, key: &str) -> (r: bool)
    ensures
        r == opens(*event, key),
{
    is_start(event, key) || is_empty(event, key)
}

/// Whether the event may be skipped wherever no rule takes it.
pub fn is_ignorable(event: &XmlEvent) -> (r: bool)
    ensures
        r == ignorable(*event),
{
    match event {
        XmlEvent::Text(b) => is_blank(b),
        XmlEvent::CData(b) => is_blank(b),
        XmlEvent::Comment | XmlEvent::Decl | XmlEvent::PI | XmlEvent::DocType => true,
        _ => false,
    }
}

} // verus!
