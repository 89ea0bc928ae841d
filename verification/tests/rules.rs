use sitegen::context::Variables;
use sitegen::route::Route;
use sitegen::rule::{
    expand_shortcodes_compiler, pandoc_markdown_compiler, CopyAction, Filter, SourceFile,
};
use sitegen::shortcodes::{RenderFn, Shortcode};
use sitegen::{BuildError, Rule, Site};

fn site() -> Site {
    Site::new("content", "public")
}

fn file(path: &str, text: &str) -> SourceFile {
    SourceFile {
        path: path.to_string(),
        text: text.to_string(),
    }
}

#[test]
fn uppercase_rule_end_to_end() {
    let mut s = site();
    let rule = Rule::load(&["*.md"]).compiler(Filter::Uppercase);
    let outs = rule
        .execute("content", "public", &mut s.tera, vec![file("content/a.md", "hi")])
        .unwrap();
    assert_eq!(outs.len(), 1);
    assert_eq!(outs[0].path, "public/a.md");
    assert_eq!(outs[0].content, "HI");
}

#[test]
fn body_is_prerendered_against_the_context() {
    let mut s = site();
    let ctx = Variables::new().var(
        "site_name",
        serde_yaml::Value::String("My Site".to_string()),
    );
    let rule = Rule::load(&["*.md"]).context(ctx);
    let outs = rule
        .execute(
            "content",
            "public",
            &mut s.tera,
            vec![file("content/a.md", "welcome to {{ site_name }}")],
        )
        .unwrap();
    assert_eq!(outs[0].content, "welcome to My Site");
}

#[test]
fn metadata_overrides_the_static_context() {
    let mut s = site();
    let ctx = Variables::new().var("name", serde_yaml::Value::String("A".to_string()));
    let rule = Rule::load(&["*.md"]).context(ctx);
    let outs = rule
        .execute(
            "content",
            "public",
            &mut s.tera,
            vec![file("content/a.md", "---\nname: B\n---\n{{ name }}")],
        )
        .unwrap();
    assert_eq!(outs[0].content, "B");
}

#[test]
fn wrapping_template_receives_the_content_key() {
    let mut s = site();
    s.add_template("page.html", "X{{ content }}Y").unwrap();
    let rule = Rule::load(&["*.md"]).template("page.html");
    let outs = rule
        .execute("content", "public", &mut s.tera, vec![file("content/a.md", "hi")])
        .unwrap();
    assert_eq!(outs[0].content, "XhiY");
}

#[test]
fn content_key_overrides_metadata_of_the_same_name() {
    let mut s = site();
    s.add_template("page.html", "{{ content }}").unwrap();
    let rule = Rule::load(&["*.md"]).template("page.html");
    let outs = rule
        .execute(
            "content",
            "public",
            &mut s.tera,
            vec![file("content/a.md", "---\ncontent: stale\n---\nfresh")],
        )
        .unwrap();
    assert_eq!(outs[0].content, "fresh");
}

#[test]
fn missing_template_aborts_the_rule() {
    let mut s = site();
    let rule = Rule::load(&["*.md"]).template("nope.html");
    let r = rule.execute("content", "public", &mut s.tera, vec![file("content/a.md", "hi")]);
    assert!(matches!(r, Err(BuildError::Template(_))));
}

#[test]
fn path_outside_root_aborts_the_rule() {
    let mut s = site();
    let rule = Rule::load(&["*.md"]);
    let r = rule.execute("content", "public", &mut s.tera, vec![file("other/a.md", "hi")]);
    assert!(matches!(r, Err(BuildError::Route(_))));
}

#[test]
fn no_files_build_no_outputs() {
    let mut s = site();
    let rule = Rule::load(&["*.md"]);
    let outs = rule.execute("content", "public", &mut s.tera, vec![]).unwrap();
    assert!(outs.is_empty());
}

#[test]
fn shortcode_filter_runs_in_the_chain() {
    let mut s = site();
    let handlers = vec![Shortcode {
        tag: "em".to_string(),
        render: RenderFn::Wrap("<em>".to_string(), "</em>".to_string()),
    }];
    let rule = Rule::load(&["*.md"]).compiler(expand_shortcodes_compiler(handlers));
    let outs = rule
        .execute(
            "content",
            "public",
            &mut s.tera,
            vec![file("content/a.md", "so \\em{very} nice")],
        )
        .unwrap();
    assert_eq!(outs[0].content, "so <em>very</em> nice");
}

#[test]
fn filters_apply_in_registration_order() {
    let mut s = site();
    let handlers = vec![Shortcode {
        tag: "up".to_string(),
        render: RenderFn::Wrap("<".to_string(), ">".to_string()),
    }];
    let rule = Rule::load(&["*.md"])
        .compiler(expand_shortcodes_compiler(handlers))
        .compiler(Filter::Uppercase);
    let outs = rule
        .execute("content", "public", &mut s.tera, vec![file("content/a.md", "\\up{x}")])
        .unwrap();
    assert_eq!(outs[0].content, "<X>");
}

#[test]
fn uppercase_filter_is_idempotent_on_converted_text() {
    let mut s = site();
    let rule = Rule::load(&["*.md"]).compiler(Filter::Uppercase);
    let once = rule
        .execute("content", "public", &mut s.tera, vec![file("content/a.md", "Mixed Case 7")])
        .unwrap();
    let twice = rule
        .execute(
            "content",
            "public",
            &mut s.tera,
            vec![file("content/a.md", once[0].content.as_str())],
        )
        .unwrap();
    assert_eq!(once[0].content, twice[0].content);
}

#[test]
fn nice_route_on_a_rule() {
    let mut s = site();
    let rule = Rule::load(&["*.md"]).route(Route::Nice);
    let outs = rule
        .execute(
            "content",
            "public",
            &mut s.tera,
            vec![file("content/posts/hello.md", "hi")],
        )
        .unwrap();
    assert_eq!(outs[0].path, "public/posts/hello/index.html");
}

#[test]
fn pandoc_compiler_is_the_converter_filter() {
    assert!(matches!(pandoc_markdown_compiler(), Filter::PandocMarkdown));
}

#[test]
fn copies_are_planned_per_file() {
    let c = sitegen::rule::Copy::source(&["img/*"]);
    let acts: Vec<CopyAction> = c
        .execute(
            "content",
            "public",
            vec!["content/img/a.png".to_string(), "content/img/b.png".to_string()],
        )
        .unwrap();
    assert_eq!(acts.len(), 2);
    assert_eq!(acts[0].source, "content/img/a.png");
    assert_eq!(acts[0].dest, "public/img/a.png");
    assert_eq!(acts[1].dest, "public/img/b.png");
}

#[test]
fn copy_stops_at_a_path_outside_the_root() {
    let c = sitegen::rule::Copy::source(&["img/*"]);
    let r = c.execute("content", "public", vec!["nope/a.png".to_string()]);
    assert!(matches!(r, Err(BuildError::Route(_))));
}

#[test]
fn registering_a_broken_template_fails() {
    let mut s = site();
    let r = s.add_template("bad.html", "{{ unclosed");
    assert!(matches!(r, Err(BuildError::Template(_))));
}

#[test]
fn registering_the_same_name_twice_succeeds() {
    let mut s = site();
    s.add_template("page.html", "one").unwrap();
    s.add_template("page.html", "two").unwrap();
    let rule = Rule::load(&["*.md"]).template("page.html");
    let outs = rule
        .execute("content", "public", &mut s.tera, vec![file("content/a.md", "hi")])
        .unwrap();
    assert_eq!(outs[0].content, "two");
}

#[test]
fn resetting_forgets_registered_templates() {
    let mut s = site();
    s.add_template("page.html", "X{{ content }}Y").unwrap();
    s.reset_templates();
    let rule = Rule::load(&["*.md"]).template("page.html");
    let r = rule.execute("content", "public", &mut s.tera, vec![file("content/a.md", "hi")]);
    assert!(matches!(r, Err(BuildError::Template(_))));
}

#[test]
fn sites_collect_rules_and_copies() {
    let s = site()
        .rule(Rule::load(&["*.md"]))
        .copy(sitegen::rule::Copy::source(&["img/*"]));
    assert_eq!(s.rules.len(), 1);
    assert_eq!(s.copies.len(), 1);
    assert_eq!(s.site_dir, "content");
    assert_eq!(s.public_dir, "public");
}
