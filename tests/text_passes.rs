use std::cmp::Ordering;

use wiki_extractor::{
    format_seconds, left_pad, sanitize_escapes, CollapseWhitespace, FileName, GeneratorOptions,
    MapXMLEntities, ProcessingPass, StripWords,
};

#[test]
fn seconds_up_to_a_minute() {
    assert_eq!(format_seconds(0), "0s");
    assert_eq!(format_seconds(45), "45s");
    assert_eq!(format_seconds(60), "60s");
}

#[test]
fn seconds_as_minutes() {
    assert_eq!(format_seconds(61), "1min");
    assert_eq!(format_seconds(62), "1min");
    assert_eq!(format_seconds(63), "1min 3s");
    assert_eq!(format_seconds(3600), "60min");
    assert_eq!(format_seconds(3659), "60min 59s");
}

#[test]
fn seconds_as_hours_and_days() {
    assert_eq!(format_seconds(3660), "1h");
    assert_eq!(format_seconds(3600 + 6 * 60), "1h 6min");
    assert_eq!(format_seconds(24 * 3600 + 59 * 60 + 59), "24h 59min");
    assert_eq!(format_seconds(25 * 3600), "1d 1h");
    assert_eq!(format_seconds(50 * 3600 + 1), "2d 2h");
}

#[test]
fn left_pad_fills_with_spaces() {
    assert_eq!(left_pad("12", 5), "   12");
    assert_eq!(left_pad("abc", 3), "abc");
    assert_eq!(left_pad("", 2), "  ");
}

#[test]
fn file_name_extensions() {
    let name = FileName::new("enwiki-latest-pages-articles.xml.bz2".to_string());
    assert_eq!(name.full_ext(), Some("xml.bz2"));
    assert_eq!(name.ext(), Some("bz2"));
    assert!(name.is_compressed());
    let plain = FileName::new("dump.xml".to_string());
    assert!(!plain.is_compressed());
    let none = FileName::new("README".to_string());
    assert_eq!(none.full_ext(), None);
    assert_eq!(none.ext(), None);
    assert!(!none.is_compressed());
}

#[test]
fn file_name_from_url() {
    let name = FileName::from_url("/enwiki/20240101/enwiki-20240101-pages-articles1.xml.bz2");
    assert_eq!(name.as_str(), "enwiki-20240101-pages-articles1.xml.bz2");
    assert_eq!(FileName::from_url("plain.xml").as_str(), "plain.xml");
    assert_eq!(FileName::from_url("dir/").as_str(), "");
}

#[test]
fn file_names_in_human_order() {
    let a = FileName::new("articles2.xml".to_string());
    let b = FileName::new("articles10.xml".to_string());
    assert!(a.comparable() && b.comparable());
    assert_eq!(a.compare(&b), Ordering::Less);
    assert_eq!(b.compare(&a), Ordering::Greater);
    assert_eq!(a.compare(&a), Ordering::Equal);
    assert!(!FileName::new("p1234567890".to_string()).comparable());
    assert!(FileName::new("p123456789".to_string()).comparable());
}

#[test]
fn entities_are_mapped() {
    assert_eq!(
        MapXMLEntities::process("&lt;b&gt; Tom &amp;amp; Jerry&apos;s &quot;show&quot;"),
        "<b> Tom &amp; Jerry's \"show\""
    );
    assert_eq!(MapXMLEntities::process("no entities & here;"), "no entities & here;");
}

#[test]
fn whitespace_is_collapsed() {
    assert_eq!(CollapseWhitespace::process("a   b"), "a b");
    assert_eq!(CollapseWhitespace::process("a\n\n\n\nb"), "a\n\nb");
    assert_eq!(CollapseWhitespace::process("a\n   b"), "a\nb");
    assert_eq!(CollapseWhitespace::process("a\u{00A0} b"), "a b");
    assert_eq!(CollapseWhitespace::process(""), "");
}

#[test]
fn words_are_stripped() {
    assert_eq!(StripWords::process("  Hello, world! 42 times"), "Hello world times");
    assert_eq!(StripWords::process("well\u{2014}known"), "well-known");
    assert_eq!(StripWords::process("Ünïcode\tword"), "Ünïcode word");
}

#[test]
fn quotes_are_escaped() {
    assert_eq!(sanitize_escapes("say \"hi\"", '"'), "say \\\"hi\\\"");
    assert_eq!(sanitize_escapes("a\\\"b", '"'), "a\"b");
    assert_eq!(sanitize_escapes("plain", '"'), "plain");
}

#[test]
fn any_generator_selected() {
    let none = GeneratorOptions { redirects: false, metadata: false, dictionary: false, text: false };
    assert!(!none.any());
    let one = GeneratorOptions { redirects: false, metadata: false, dictionary: true, text: false };
    assert!(one.any());
}
