use wiki_extractor::{
    classify_page, dictionary_words, is_wikitext, redirect_entry, Attribute, DocumentContext,
    DownloadTracker, FileName, PageContent, WikiPage, XmlEvent, XmlTag,
};

fn ev_start(name: &str, attrs: &[(&str, &str)]) -> XmlEvent {
    XmlEvent::Start(XmlTag {
        name: name.as_bytes().to_vec(),
        attributes: attrs
            .iter()
            .map(|(k, v)| Attribute { key: k.as_bytes().to_vec(), value: v.as_bytes().to_vec() })
            .collect(),
    })
}

fn ev_leaf(name: &str, value: &str) -> Vec<XmlEvent> {
    vec![
        ev_start(name, &[]),
        XmlEvent::Text(value.as_bytes().to_vec()),
        XmlEvent::End(name.as_bytes().to_vec()),
    ]
}

fn read_page(fields: &[(&str, &str)], redirect: Option<&str>) -> WikiPage {
    let mut doc = DocumentContext::new("d".to_string());
    let mut events = vec![
        ev_start("mediawiki", &[("xmlns", "http://www.mediawiki.org/xml/export-0.11/")]),
        ev_start("page", &[]),
    ];
    events.extend(ev_leaf("title", "Some page"));
    if let Some(target) = redirect {
        events.push(XmlEvent::Empty(XmlTag {
            name: b"redirect".to_vec(),
            attributes: vec![Attribute { key: b"title".to_vec(), value: target.as_bytes().to_vec() }],
        }));
    }
    if !fields.is_empty() {
        events.push(ev_start("revision", &[]));
        for (k, v) in fields {
            events.extend(ev_leaf(k, v));
        }
        events.push(XmlEvent::End(b"revision".to_vec()));
    }
    events.push(XmlEvent::End(b"page".to_vec()));
    for e in &events {
        doc.handle_event(e).unwrap();
    }
    doc.drain_closed_pages().remove(0)
}

#[test]
fn wikitext_page_gives_its_text() {
    let page = read_page(&[("model", "wikitext"), ("format", "text/x-wiki"), ("text", "''Hi''")], None);
    assert!(is_wikitext(&page.revisions[0]));
    match classify_page(page) {
        PageContent::Wikitext(t) => assert_eq!(t, "''Hi''"),
        other => panic!("unexpected {:?}", other),
    }
}

#[test]
fn other_model_is_unsupported() {
    let page = read_page(&[("model", "css"), ("format", "text/css"), ("text", "a{}")], None);
    assert!(!is_wikitext(&page.revisions[0]));
    assert!(matches!(classify_page(page), PageContent::Unsupported));
}

#[test]
fn wikitext_format_alone_is_enough() {
    let page = read_page(&[("model", "other"), ("format", "text/x-wiki"), ("text", "x")], None);
    assert!(is_wikitext(&page.revisions[0]));
}

#[test]
fn page_without_revision_or_text_is_empty() {
    let page = read_page(&[], None);
    assert!(matches!(classify_page(page), PageContent::Empty));
    let page = read_page(&[("model", "wikitext")], None);
    assert!(matches!(classify_page(page), PageContent::Empty));
}

#[test]
fn redirect_page_gives_title_and_target() {
    let page = read_page(&[], Some("Target page"));
    match classify_page(page) {
        PageContent::Redirect { title, target } => {
            assert_eq!(title.as_deref(), Some("Some page"));
            assert_eq!(target, "Target page");
        }
        other => panic!("unexpected {:?}", other),
    }
}

#[test]
fn redirect_entries() {
    assert_eq!(redirect_entry(true, "A", "B"), "  \"A\": \"B\"");
    assert_eq!(redirect_entry(false, "Say \"x\"", "C"), ",\n  \"Say \\\"x\\\"\": \"C\"");
}

#[test]
fn dictionary_words_follow_sentences() {
    let words = dictionary_words("The cat sat. Then it ran. A. B. e.g. more end.");
    assert_eq!(
        words,
        vec!["The", "cat", "sat", "Then", "it", "ran", "e.g.", "more", "end"]
    );
    assert_eq!(dictionary_words(""), vec![""]);
    assert_eq!(dictionary_words(" x\t"), vec!["", "x"]);
}

#[test]
fn tracker_walks_the_files() {
    let files = vec![
        (FileName::new("a.xml".to_string()), 100usize),
        (FileName::new("b.xml".to_string()), 50usize),
    ];
    let mut t = DownloadTracker::new(&files, 1_700_000_000);
    assert_eq!(t.total_size(), 150);
    assert_eq!(t.current_file().map(|n| n.as_str()), Some("a.xml"));
    t.set_current_position(40);
    assert_eq!(t.downloaded(), 40);
    t.advance_file();
    assert_eq!(t.downloaded(), 100);
    assert_eq!(t.current_file().map(|n| n.as_str()), Some("b.xml"));
    t.set_current_position(10);
    assert_eq!(t.downloaded(), 110);
    t.advance_file();
    assert_eq!(t.downloaded(), 150);
    assert!(t.current_file().is_none());
}
