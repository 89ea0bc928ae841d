use sitegen::document::parse_front_matter;
use sitegen::Document;

#[test]
fn plain_text_passes_through() {
    let (meta, body) = parse_front_matter("just a body\nwith two lines");
    assert!(meta.get("title").is_none());
    assert_eq!(body, "just a body\nwith two lines");
}

#[test]
fn empty_input_passes_through() {
    let (meta, body) = parse_front_matter("");
    assert!(meta.get("anything").is_none());
    assert_eq!(body, "");
}

#[test]
fn header_is_split_off() {
    let (meta, body) = parse_front_matter("---\ntitle: Hello\n---\nBody text");
    assert_eq!(
        meta.get("title"),
        Some(&serde_yaml::Value::String("Hello".to_string()))
    );
    assert_eq!(body, "Body text");
}

#[test]
fn unclosed_header_is_all_body() {
    let input = "---\ntitle: [unclosed";
    let (meta, body) = parse_front_matter(input);
    assert!(meta.get("title").is_none());
    assert_eq!(body, input);
}

#[test]
fn malformed_header_falls_back_to_empty_metadata() {
    let (meta, body) = parse_front_matter("---\n[not: a mapping\n---\nBody");
    assert!(meta.get("not").is_none());
    assert_eq!(body, "Body");
}

#[test]
fn several_keys_parse() {
    let (meta, body) = parse_front_matter("---\ntitle: T\ndraft: true\n---\n  padded body\t\n");
    assert_eq!(
        meta.get("title"),
        Some(&serde_yaml::Value::String("T".to_string()))
    );
    assert_eq!(meta.get("draft"), Some(&serde_yaml::Value::Bool(true)));
    assert_eq!(body, "padded body");
}

#[test]
fn unicode_whitespace_is_trimmed_from_the_body() {
    let (_, body) = parse_front_matter("---\nk: v\n---\n\u{a0}\u{2003}padded\u{a0}\n");
    assert_eq!(body, "padded");
}

#[test]
fn from_text_splits_when_asked() {
    let d = Document::from_text(true, "a.md".to_string(), "---\ntitle: T\n---\nB");
    assert_eq!(d.path, "a.md");
    assert_eq!(d.content, "B");
    assert_eq!(
        d.metadata.get("title"),
        Some(&serde_yaml::Value::String("T".to_string()))
    );
}

#[test]
fn from_text_keeps_raw_when_not_asked() {
    let raw = "---\ntitle: T\n---\nB";
    let d = Document::from_text(false, "a.md".to_string(), raw);
    assert_eq!(d.content, raw);
    assert!(d.metadata.get("title").is_none());
}
