use sitegen::context::{Mine, Miner, Variables};
use sitegen::Document;

fn doc() -> Document {
    Document::from_text(
        true,
        "content/posts/a.md".to_string(),
        "---\ntitle: First Post\ndate: 2020-01-02\n---\nthe body",
    )
}

#[test]
fn miners_extract_metadata_path_and_body() {
    let mine = Mine::new()
        .pattern(&["*.md"])
        .miner(Miner::Field("title".to_string()))
        .miner(Miner::PathVar("path".to_string()))
        .miner(Miner::BodyVar("body".to_string()));
    let data = mine.execute(vec![doc()]);
    assert_eq!(data.len(), 1);
    assert_eq!(data[0].0, "content/posts/a.md");
    let vars = &data[0].1;
    assert_eq!(
        vars.get("title"),
        Some(&serde_yaml::Value::String("First Post".to_string()))
    );
    assert_eq!(
        vars.get("path"),
        Some(&serde_yaml::Value::String("content/posts/a.md".to_string()))
    );
    assert_eq!(
        vars.get("body"),
        Some(&serde_yaml::Value::String("the body".to_string()))
    );
}

#[test]
fn absent_metadata_extracts_nothing() {
    let mine = Mine::new().miner(Miner::Field("missing".to_string()));
    let data = mine.execute(vec![doc()]);
    assert!(data[0].1.get("missing").is_none());
}

#[test]
fn later_miners_override_earlier_ones() {
    let mine = Mine::new()
        .miner(Miner::PathVar("x".to_string()))
        .miner(Miner::BodyVar("x".to_string()));
    let data = mine.execute(vec![doc()]);
    assert_eq!(
        data[0].1.get("x"),
        Some(&serde_yaml::Value::String("the body".to_string()))
    );
}

#[test]
fn one_entry_per_document_in_order() {
    let d1 = Document::from_text(true, "content/a.md".to_string(), "A");
    let d2 = Document::from_text(true, "content/b.md".to_string(), "B");
    let mine = Mine::new().miner(Miner::BodyVar("body".to_string()));
    let data = mine.execute(vec![d1, d2]);
    assert_eq!(data.len(), 2);
    assert_eq!(data[0].0, "content/a.md");
    assert_eq!(data[1].0, "content/b.md");
}

#[test]
fn variables_later_insert_wins() {
    let v = Variables::new()
        .var("k", serde_yaml::Value::String("one".to_string()))
        .var("k", serde_yaml::Value::String("two".to_string()));
    assert_eq!(
        v.get("k"),
        Some(&serde_yaml::Value::String("two".to_string()))
    );
}

#[test]
fn variables_extend_prefers_the_right_side() {
    let mut a = Variables::new()
        .var("only_a", serde_yaml::Value::Bool(true))
        .var("both", serde_yaml::Value::String("a".to_string()));
    let b = Variables::new().var("both", serde_yaml::Value::String("b".to_string()));
    a.extend(&b);
    assert_eq!(a.get("only_a"), Some(&serde_yaml::Value::Bool(true)));
    assert_eq!(
        a.get("both"),
        Some(&serde_yaml::Value::String("b".to_string()))
    );
}

#[test]
fn variables_merged_leaves_the_inputs_alone() {
    let a = Variables::new().var("x", serde_yaml::Value::String("a".to_string()));
    let b = Variables::new().var("x", serde_yaml::Value::String("b".to_string()));
    let m = a.merged(&b);
    assert_eq!(
        m.get("x"),
        Some(&serde_yaml::Value::String("b".to_string()))
    );
    assert_eq!(
        a.get("x"),
        Some(&serde_yaml::Value::String("a".to_string()))
    );
}
