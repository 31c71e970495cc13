use wiki_extractor::{
    Attribute, CloseableState, DocumentContext, FieldResultMap, ParseError, ValueError,
    ValueErrorKind, WikiPage, XmlEvent, XmlTag,
};

const NS: &str = "http://www.mediawiki.org/xml/export-0.10/";

fn tag(name: &str, attrs: &[(&str, &str)]) -> XmlTag {
    XmlTag {
        name: name.as_bytes().to_vec(),
        attributes: attrs
            .iter()
            .map(|(k, v)| Attribute { key: k.as_bytes().to_vec(), value: v.as_bytes().to_vec() })
            .collect(),
    }
}

fn start(name: &str) -> XmlEvent {
    XmlEvent::Start(tag(name, &[]))
}

fn start_with(name: &str, attrs: &[(&str, &str)]) -> XmlEvent {
    XmlEvent::Start(tag(name, attrs))
}

fn empty_with(name: &str, attrs: &[(&str, &str)]) -> XmlEvent {
    XmlEvent::Empty(tag(name, attrs))
}

fn end(name: &str) -> XmlEvent {
    XmlEvent::End(name.as_bytes().to_vec())
}

fn text(s: &str) -> XmlEvent {
    XmlEvent::Text(s.as_bytes().to_vec())
}

fn leaf(name: &str, value: &str) -> Vec<XmlEvent> {
    vec![start(name), text(value), end(name)]
}

fn root() -> XmlEvent {
    start_with("mediawiki", &[("xmlns", NS), ("version", "0.10")])
}

fn siteinfo() -> Vec<XmlEvent> {
    let mut ev = vec![start("siteinfo"), text("\n    ")];
    ev.extend(leaf("sitename", "Wikipedia"));
    ev.extend(leaf("dbname", "enwiki"));
    ev.extend(leaf("base", "https://en.wikipedia.org/wiki/Main_Page"));
    ev.extend(leaf("generator", "MediaWiki 1.41"));
    ev.push(start("namespaces"));
    ev.push(start_with("namespace", &[("key", "-2"), ("case", "first-letter")]));
    ev.push(text("Media"));
    ev.push(end("namespace"));
    ev.push(empty_with("namespace", &[("key", "0")]));
    ev.push(start_with("namespace", &[("key", "14")]));
    ev.push(text("Category"));
    ev.push(end("namespace"));
    ev.push(end("namespaces"));
    ev.push(end("siteinfo"));
    ev
}

fn page(title: &str, ns: &str, id: &str, rev_id: &str, body: &str) -> Vec<XmlEvent> {
    let mut ev = vec![start("page")];
    ev.extend(leaf("title", title));
    ev.extend(leaf("ns", ns));
    ev.extend(leaf("id", id));
    ev.push(start("revision"));
    ev.extend(leaf("id", rev_id));
    ev.extend(leaf("parentid", "1"));
    ev.extend(leaf("timestamp", "2024-01-01T00:00:00Z"));
    ev.extend(leaf("comment", "edit"));
    ev.extend(leaf("model", "wikitext"));
    ev.extend(leaf("format", "text/x-wiki"));
    ev.push(start_with("text", &[("bytes", "11"), ("xml:space", "preserve")]));
    ev.push(text(body));
    ev.push(end("text"));
    ev.extend(leaf("sha1", "abc123"));
    ev.push(end("revision"));
    ev.push(end("page"));
    ev
}

fn feed(doc: &mut DocumentContext, events: &[XmlEvent]) -> Result<(), ParseError> {
    for e in events {
        doc.handle_event(e)?;
    }
    Ok(())
}

fn string_value(v: &wiki_extractor::ValueTag<String>) -> String {
    v.value().cloned().expect("closed string value")
}

#[test]
fn pages_drained_in_document_order() {
    let inputs = [
        ("Alpha", "0", "10", "100", "first body"),
        ("Beta", "1", "20", "200", "second body"),
        ("Gamma", "-1", "30", "300", "third body"),
    ];
    let mut events = vec![XmlEvent::Decl, root()];
    events.extend(siteinfo());
    for (t, n, i, r, b) in inputs.iter() {
        events.extend(page(t, n, i, r, b));
    }
    events.push(end("mediawiki"));
    events.push(XmlEvent::Eof);

    let mut doc = DocumentContext::new("dump.xml".to_string());
    let mut drained: Vec<WikiPage> = Vec::new();
    for e in &events {
        doc.handle_event(e).expect("event accepted");
        drained.extend(doc.drain_closed_pages());
    }
    assert_eq!(drained.len(), 3);
    assert!(doc.pages.is_empty());
    assert_eq!(doc.namespace.as_deref(), Some(NS));
    for (p, (t, n, i, r, b)) in drained.iter().zip(inputs.iter()) {
        assert!(p.closed);
        assert_eq!(string_value(&p.title), *t);
        assert_eq!(*p.ns.value().unwrap(), n.parse::<isize>().unwrap());
        assert_eq!(*p.id.value().unwrap(), i.parse::<usize>().unwrap());
        assert_eq!(p.revisions.len(), 1);
        let rev = &p.revisions[0];
        assert_eq!(rev.state, CloseableState::Closed);
        assert_eq!(*rev.id.value().unwrap(), r.parse::<usize>().unwrap());
        assert_eq!(*rev.parent_id.value().unwrap(), 1);
        assert_eq!(string_value(&rev.timestamp), "2024-01-01T00:00:00Z");
        assert_eq!(string_value(&rev.comment), "edit");
        assert_eq!(string_value(&rev.model), "wikitext");
        assert_eq!(string_value(&rev.format), "text/x-wiki");
        assert_eq!(string_value(&rev.text), *b);
        assert_eq!(string_value(&rev.sha1), "abc123");
        let attrs = rev.text.attributes().unwrap();
        assert_eq!(attrs[0], ("bytes".to_string(), "11".to_string()));
        assert_eq!(attrs[1], ("xml:space".to_string(), "preserve".to_string()));
    }
    let info = &doc.site_info;
    assert_eq!(info.state, CloseableState::Closed);
    assert_eq!(string_value(&info.site_name), "Wikipedia");
    assert_eq!(string_value(&info.db_name), "enwiki");
    let ns = info.ns.value().unwrap();
    assert_eq!(ns.len(), 3);
    assert_eq!((ns[0].key, ns[0].name.as_str()), (-2, "Media"));
    assert_eq!((ns[1].key, ns[1].name.as_str()), (0, ""));
    assert_eq!((ns[2].key, ns[2].name.as_str()), (14, "Category"));
}

#[test]
fn split_text_gives_same_value() {
    let whole = page("Split", "0", "7", "70", "héllo wörld");
    let mut split = vec![start("page")];
    split.extend(leaf("title", "Split"));
    split.extend(leaf("ns", "0"));
    split.extend(leaf("id", "7"));
    split.push(start("revision"));
    split.push(start("id"));
    split.push(text("7"));
    split.push(XmlEvent::CData(b"0".to_vec()));
    split.push(end("id"));
    split.push(start("text"));
    split.push(text("hé"));
    split.push(XmlEvent::Comment);
    split.push(text("llo w"));
    split.push(text("örld"));
    split.push(end("text"));
    split.push(end("revision"));
    split.push(end("page"));

    let mut a = DocumentContext::new("a".to_string());
    feed(&mut a, &[root()]).unwrap();
    feed(&mut a, &whole).unwrap();
    let mut b = DocumentContext::new("b".to_string());
    feed(&mut b, &[root()]).unwrap();
    feed(&mut b, &split).unwrap();
    let ra = &a.pages[0].revisions[0];
    let rb = &b.pages[0].revisions[0];
    assert_eq!(string_value(&ra.text), string_value(&rb.text));
    assert_eq!(string_value(&rb.text), "héllo wörld");
    assert_eq!(ra.id.value(), rb.id.value());
    assert_eq!(*rb.id.value().unwrap(), 70);
}

#[test]
fn non_numeric_integer_field_fails() {
    let mut doc = DocumentContext::new("d".to_string());
    feed(&mut doc, &[root(), start("page")]).unwrap();
    feed(&mut doc, &leaf("title", "Kept")).unwrap();
    feed(&mut doc, &[start("ns"), text("12x")]).unwrap();
    let err = doc.handle_event(&end("ns")).unwrap_err();
    match err {
        ParseError::ValueError(v) => {
            assert_eq!(v.field, "ns");
            assert_eq!(v.reason, ValueErrorKind::InvalidInt);
        }
        other => panic!("unexpected error {:?}", other),
    }
    let p = &doc.pages[0];
    assert_eq!(string_value(&p.title), "Kept");
    assert!(p.id.value().is_none());
    assert_eq!(p.ns.buffer().map(|b| b.as_str()), Some("12x"));
}

#[test]
fn revision_id_overflow_is_invalid_int() {
    let mut doc = DocumentContext::new("d".to_string());
    feed(&mut doc, &[root(), start("page"), start("revision")]).unwrap();
    feed(&mut doc, &leaf("sha1", "s")).unwrap();
    feed(&mut doc, &[start("id"), text("99999999999999999999999")]).unwrap();
    match doc.handle_event(&end("id")) {
        Err(ParseError::ValueError(v)) => {
            assert_eq!(v.field, "id");
            assert_eq!(v.reason, ValueErrorKind::InvalidInt);
        }
        other => panic!("unexpected result {:?}", other),
    }
    assert_eq!(string_value(&doc.pages[0].revisions[0].sha1), "s");
}

#[test]
fn redirect_page_has_target_and_no_revisions() {
    let mut doc = DocumentContext::new("d".to_string());
    feed(&mut doc, &[root(), start("page")]).unwrap();
    feed(&mut doc, &leaf("title", "Old name")).unwrap();
    feed(&mut doc, &[empty_with("redirect", &[("title", "X")]), end("page")]).unwrap();
    let pages = doc.drain_closed_pages();
    assert_eq!(pages.len(), 1);
    assert_eq!(pages[0].redirect.as_deref(), Some("X"));
    assert!(pages[0].revisions.is_empty());
}

#[test]
fn redirect_without_title_is_unknown() {
    let mut doc = DocumentContext::new("d".to_string());
    feed(&mut doc, &[root(), start("page"), empty_with("redirect", &[])]).unwrap();
    assert_eq!(doc.pages[0].redirect.as_deref(), Some("unknown"));
}

#[test]
fn redirect_after_revision_is_unhandled() {
    let mut doc = DocumentContext::new("d".to_string());
    feed(&mut doc, &[root(), start("page"), start("revision"), end("revision")]).unwrap();
    let r = doc.handle_event(&empty_with("redirect", &[("title", "X")]));
    assert!(matches!(r, Err(ParseError::UnhandledEvent { .. })));
}

#[test]
fn unmatched_end_tag_is_refused() {
    let mut doc = DocumentContext::new("d".to_string());
    assert!(matches!(doc.handle_event(&end("page")), Err(ParseError::UnhandledEvent { .. })));
    feed(&mut doc, &[root()]).unwrap();
    assert!(matches!(doc.handle_event(&end("revision")), Err(ParseError::UnhandledEvent { .. })));
    feed(&mut doc, &[start("page"), start("title"), text("T")]).unwrap();
    assert!(matches!(doc.handle_event(&end("page")), Err(ParseError::UnhandledEvent { .. })));
    feed(&mut doc, &[end("title")]).unwrap();
    assert!(matches!(doc.handle_event(&end("title")), Err(ParseError::UnhandledEvent { .. })));
    feed(&mut doc, &[end("page")]).unwrap();
    let mut closed = doc.drain_closed_pages().remove(0);
    assert!(matches!(
        closed.handle_event(&end("page")),
        Err(ParseError::BadCloseableState(CloseableState::Closed))
    ));
}

#[test]
fn wrong_root_name_is_invalid_format() {
    let mut doc = DocumentContext::new("d".to_string());
    let r = doc.handle_event(&start_with("html", &[("xmlns", NS)]));
    assert!(matches!(r, Err(ParseError::InvalidFormat { .. })));
    assert!(doc.namespace.is_none());
    let _ = doc.handle_event(&start("page"));
    let _ = doc.handle_event(&end("page"));
    assert!(doc.pages.is_empty());
    assert!(doc.drain_closed_pages().is_empty());
}

#[test]
fn wrong_namespace_is_invalid_format() {
    let mut doc = DocumentContext::new("d".to_string());
    let r = doc.handle_event(&start_with("mediawiki", &[("xmlns", "http://example.org/")]));
    assert!(matches!(r, Err(ParseError::InvalidFormat { reason: "not an mediawiki XML export" })));
    assert!(doc.failed);
    assert!(doc.pages.is_empty());
    let mut other = DocumentContext::new("e".to_string());
    let r = other.handle_event(&start("mediawiki"));
    assert!(matches!(
        r,
        Err(ParseError::InvalidFormat { reason: "missing XML namespace attribute" })
    ));
    assert!(other.pages.is_empty());
}

#[test]
fn non_utf8_namespace_is_invalid_format() {
    let mut doc = DocumentContext::new("d".to_string());
    let mut value = NS.as_bytes().to_vec();
    value.push(0xff);
    let ev = XmlEvent::Start(XmlTag {
        name: b"mediawiki".to_vec(),
        attributes: vec![Attribute { key: b"xmlns".to_vec(), value }],
    });
    assert!(matches!(
        doc.handle_event(&ev),
        Err(ParseError::InvalidFormat { reason: "not a UTF-8 namespace" })
    ));
}

#[test]
fn drained_page_is_gone_and_second_drain_is_empty() {
    let mut doc = DocumentContext::new("d".to_string());
    feed(&mut doc, &[root()]).unwrap();
    feed(&mut doc, &page("One", "0", "1", "11", "a")).unwrap();
    feed(&mut doc, &page("Two", "0", "2", "22", "b")).unwrap();
    feed(&mut doc, &[start("page")]).unwrap();
    let first = doc.drain_closed_pages();
    assert_eq!(first.len(), 2);
    assert_eq!(string_value(&first[0].title), "One");
    assert_eq!(string_value(&first[1].title), "Two");
    assert_eq!(doc.pages.len(), 1);
    assert!(!doc.pages[0].closed);
    assert!(doc.drain_closed_pages().is_empty());
    assert_eq!(doc.pages.len(), 1);
}

#[test]
fn eof_while_open_is_bad_state() {
    let mut doc = DocumentContext::new("d".to_string());
    feed(&mut doc, &[root(), start("page"), start("title")]).unwrap();
    assert!(matches!(
        doc.handle_event(&XmlEvent::Eof),
        Err(ParseError::BadCloseableState(CloseableState::Open))
    ));
}

#[test]
fn eof_with_nothing_open_is_accepted() {
    let mut doc = DocumentContext::new("d".to_string());
    assert!(doc.handle_event(&XmlEvent::Eof).is_ok());
    feed(&mut doc, &[root()]).unwrap();
    feed(&mut doc, &page("One", "0", "1", "11", "a")).unwrap();
    feed(&mut doc, &[end("mediawiki")]).unwrap();
    assert!(doc.closed);
    assert!(doc.handle_event(&text("\n")).is_ok());
    assert!(doc.handle_event(&XmlEvent::Eof).is_ok());
}

#[test]
fn eof_before_root_end_is_bad_state() {
    let mut doc = DocumentContext::new("d".to_string());
    feed(&mut doc, &[root()]).unwrap();
    feed(&mut doc, &page("One", "0", "1", "11", "a")).unwrap();
    assert!(matches!(
        doc.handle_event(&XmlEvent::Eof),
        Err(ParseError::BadCloseableState(CloseableState::Open))
    ));
}

#[test]
fn events_after_root_end_are_refused() {
    let mut doc = DocumentContext::new("d".to_string());
    feed(&mut doc, &[root(), end("mediawiki")]).unwrap();
    assert!(matches!(
        doc.handle_event(&start("page")),
        Err(ParseError::BadCloseableState(CloseableState::Closed))
    ));
    assert!(doc.pages.is_empty());
}

#[test]
fn failed_validation_is_latched() {
    let mut doc = DocumentContext::new("d".to_string());
    let r = doc.handle_event(&start_with("html", &[("xmlns", NS)]));
    assert!(matches!(r, Err(ParseError::InvalidFormat { .. })));
    assert!(matches!(doc.handle_event(&root()), Err(ParseError::InvalidFormat { .. })));
    assert!(matches!(doc.handle_event(&start("page")), Err(ParseError::InvalidFormat { .. })));
    assert!(doc.namespace.is_none());
    assert!(doc.pages.is_empty());
}

#[test]
fn second_siteinfo_is_refused() {
    let mut doc = DocumentContext::new("d".to_string());
    feed(&mut doc, &[root()]).unwrap();
    feed(&mut doc, &siteinfo()).unwrap();
    let r = doc.handle_event(&start("siteinfo"));
    assert!(matches!(r, Err(ParseError::UnhandledEvent { .. })));
    assert_eq!(doc.site_info.state, CloseableState::Closed);
    assert_eq!(string_value(&doc.site_info.site_name), "Wikipedia");
}

#[test]
fn closing_revision_closes_open_field() {
    let mut doc = DocumentContext::new("d".to_string());
    feed(&mut doc, &[root(), start("page"), start("revision")]).unwrap();
    feed(&mut doc, &leaf("sha1", "s")).unwrap();
    feed(&mut doc, &[start("parentid"), text("17")]).unwrap();
    let rev = &mut doc.pages[0].revisions[0];
    assert!(rev.close().is_ok());
    assert_eq!(rev.state, CloseableState::Closed);
    assert_eq!(*rev.parent_id.value().unwrap(), 17);
    assert_eq!(string_value(&rev.sha1), "s");
    assert!(matches!(rev.close(), Err(ParseError::BadCloseableState(CloseableState::Closed))));
}

#[test]
fn closing_revision_with_bad_field_changes_nothing() {
    let mut doc = DocumentContext::new("d".to_string());
    feed(&mut doc, &[root(), start("page"), start("revision"), start("id"), text("x1")]).unwrap();
    let rev = &mut doc.pages[0].revisions[0];
    match rev.close() {
        Err(ParseError::ValueError(v)) => {
            assert_eq!(v.field, "id");
            assert_eq!(v.reason, ValueErrorKind::InvalidInt);
        }
        other => panic!("unexpected result {:?}", other),
    }
    assert_eq!(rev.state, CloseableState::Open);
    assert_eq!(rev.id.buffer().map(|b| b.as_str()), Some("x1"));
}

#[test]
fn closing_siteinfo_closes_open_namespace() {
    let mut doc = DocumentContext::new("d".to_string());
    feed(&mut doc, &[root(), start("siteinfo"), start("namespaces")]).unwrap();
    feed(&mut doc, &[start_with("namespace", &[("key", "4")]), text("Proj"), text("ect")]).unwrap();
    let info = &mut doc.site_info;
    assert!(info.close().is_ok());
    assert_eq!(info.state, CloseableState::Closed);
    let ns = info.ns.value().unwrap();
    assert_eq!(ns.len(), 1);
    assert_eq!(ns[0].name, "Project");
    assert_eq!(ns[0].state, CloseableState::Closed);
}

#[test]
fn unknown_child_tag_is_unhandled() {
    let mut doc = DocumentContext::new("d".to_string());
    feed(&mut doc, &[root(), start("page"), start("revision")]).unwrap();
    let r = doc.handle_event(&start("contributor"));
    assert!(matches!(r, Err(ParseError::UnhandledEvent { .. })));
    let r = doc.handle_event(&text("stray words"));
    assert!(matches!(r, Err(ParseError::UnhandledEvent { .. })));
}

#[test]
fn nested_tag_in_value_is_unhandled() {
    let mut doc = DocumentContext::new("d".to_string());
    feed(&mut doc, &[root(), start("page"), start("title")]).unwrap();
    let r = doc.handle_event(&start("b"));
    assert!(matches!(r, Err(ParseError::UnhandledEvent { .. })));
}

#[test]
fn namespace_without_key_is_missing_attribute() {
    let mut doc = DocumentContext::new("d".to_string());
    feed(&mut doc, &[root(), start("siteinfo"), start("namespaces")]).unwrap();
    let r = doc.handle_event(&start_with("namespace", &[("case", "first-letter")]));
    assert!(matches!(
        r,
        Err(ParseError::MissingAttribute { parent: "namespace", attribute: "key" })
    ));
    let r = doc.handle_event(&start_with("namespace", &[("key", "x")]));
    match r {
        Err(ParseError::ValueError(v)) => {
            assert_eq!(v.field, "key");
            assert_eq!(v.reason, ValueErrorKind::InvalidInt);
        }
        other => panic!("unexpected result {:?}", other),
    }
}

#[test]
fn non_utf8_text_is_value_error() {
    let mut doc = DocumentContext::new("d".to_string());
    feed(&mut doc, &[root(), start("page"), start("title")]).unwrap();
    let r = doc.handle_event(&XmlEvent::Text(vec![0x66, 0xc3]));
    match r {
        Err(ParseError::ValueError(v)) => {
            assert_eq!(v.field, "title");
            assert_eq!(v.reason, ValueErrorKind::NonUTF8);
        }
        other => panic!("unexpected result {:?}", other),
    }
}

#[test]
fn non_utf8_attribute_is_encoding_error() {
    let mut doc = DocumentContext::new("d".to_string());
    feed(&mut doc, &[root(), start("page"), start("revision")]).unwrap();
    let ev = XmlEvent::Start(XmlTag {
        name: b"text".to_vec(),
        attributes: vec![Attribute { key: b"bytes".to_vec(), value: vec![0xfe] }],
    });
    assert!(matches!(doc.handle_event(&ev), Err(ParseError::EncodingError)));
}

#[test]
fn self_closing_fields() {
    let mut doc = DocumentContext::new("d".to_string());
    feed(&mut doc, &[root(), start("page"), start("revision")]).unwrap();
    feed(&mut doc, &[empty_with("comment", &[("deleted", "deleted")])]).unwrap();
    let rev = &doc.pages[0].revisions[0];
    assert_eq!(string_value(&rev.comment), "");
    let r = doc.handle_event(&empty_with("parentid", &[]));
    match r {
        Err(ParseError::ValueError(v)) => assert_eq!(v.field, "parentid"),
        other => panic!("unexpected result {:?}", other),
    }
}

#[test]
fn second_revision_is_appended() {
    let mut doc = DocumentContext::new("d".to_string());
    feed(&mut doc, &[root(), start("page"), start("revision")]).unwrap();
    feed(&mut doc, &leaf("id", "1")).unwrap();
    feed(&mut doc, &[end("revision"), start("revision")]).unwrap();
    feed(&mut doc, &leaf("id", "2")).unwrap();
    feed(&mut doc, &[end("revision"), end("page")]).unwrap();
    let p = &doc.pages[0];
    assert_eq!(p.revisions.len(), 2);
    assert_eq!(*p.revisions[1].id.value().unwrap(), 2);
}

#[test]
fn whitespace_between_tags_is_ignored() {
    let mut doc = DocumentContext::new("d".to_string());
    feed(&mut doc, &[text("\n"), root(), text("\n  \t\r\n"), XmlEvent::Comment]).unwrap();
    feed(&mut doc, &[start("page"), text("  "), XmlEvent::PI, end("page")]).unwrap();
    assert_eq!(doc.pages.len(), 1);
}

#[test]
fn field_errors_name_their_field() {
    let bad: Result<usize, ValueErrorKind> = Err(ValueErrorKind::InvalidInt);
    let mapped: Result<usize, ValueError> = bad.map_field_err("parentid");
    let err = mapped.unwrap_err();
    assert_eq!(err.field, "parentid");
    assert_eq!(err.reason, ValueErrorKind::InvalidInt);
    let good: Result<usize, ValueErrorKind> = Ok(5);
    assert_eq!(good.map_field_err("id").unwrap(), 5);
}

#[test]
fn messages_of_states_and_kinds() {
    assert_eq!(CloseableState::Open.name(), "open");
    assert_eq!(CloseableState::Unopened.name(), "unopened");
    assert_eq!(ValueErrorKind::InvalidInt.message(), "invalid integer value");
    assert_eq!(ValueErrorKind::NonUTF8.message(), "not a UTF-8 value");
}

#[test]
fn value_tag_buffer_can_be_edited_in_place() {
    let mut doc = DocumentContext::new("d".to_string());
    feed(&mut doc, &[root(), start("page"), start("title"), text("draft")]).unwrap();
    {
        let title = &mut doc.pages[0].title;
        let buffer = title.buffer_mut().expect("open title");
        buffer.push_str(" two");
    }
    feed(&mut doc, &[end("title")]).unwrap();
    assert_eq!(string_value(&doc.pages[0].title), "draft two");
    assert!(doc.pages[0].title.buffer().is_none());
    let taken = doc.pages[0].title.take_value();
    assert_eq!(taken.as_deref(), Some("draft two"));
    assert!(doc.pages[0].title.value().is_none());
}

#[test]
fn integer_fields_take_signs() {
    let mut doc = DocumentContext::new("d".to_string());
    feed(&mut doc, &[root(), start("page")]).unwrap();
    feed(&mut doc, &leaf("ns", "-14")).unwrap();
    feed(&mut doc, &leaf("id", "+42")).unwrap();
    assert_eq!(*doc.pages[0].ns.value().unwrap(), -14);
    assert_eq!(*doc.pages[0].id.value().unwrap(), 42);
    feed(&mut doc, &[start("revision"), start("id"), text("-1")]).unwrap();
    assert!(matches!(doc.handle_event(&end("id")), Err(ParseError::ValueError(_))));
}

#[test]
fn closing_twice_is_bad_state() {
    let mut page = WikiPage {
        title: wiki_extractor::ValueTag::Unopened,
        ns: wiki_extractor::ValueTag::Unopened,
        id: wiki_extractor::ValueTag::Unopened,
        redirect: None,
        revisions: Vec::new(),
        closed: false,
    };
    assert!(page.close().is_ok());
    assert!(page.closed);
    assert!(matches!(page.close(), Err(ParseError::BadCloseableState(CloseableState::Closed))));
}
