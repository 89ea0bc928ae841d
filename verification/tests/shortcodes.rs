use sitegen::expand_shortcodes;
use sitegen::shortcodes::{parse_braced, RenderFn, Shortcode};

fn bold() -> Shortcode {
    Shortcode {
        tag: "bold".to_string(),
        render: RenderFn::Wrap("<b>".to_string(), "</b>".to_string()),
    }
}

fn verbatim(tag: &str) -> Shortcode {
    Shortcode {
        tag: tag.to_string(),
        render: RenderFn::Wrap(String::new(), String::new()),
    }
}

#[test]
fn bold_argument_is_wrapped() {
    let handlers = vec![bold()];
    let out = expand_shortcodes("Hello \\bold{World}!", &handlers);
    assert_eq!(out, "Hello <b>World</b>!");
}

#[test]
fn nested_braces_stay_literal() {
    let handlers = vec![verbatim("note")];
    let out = expand_shortcodes("\\note{a{b}c}", &handlers);
    assert_eq!(out, "a{b}c");
}

#[test]
fn unmatched_escape_passes_through() {
    let handlers: Vec<Shortcode> = vec![];
    let out = expand_shortcodes("a \\unknown{x} b", &handlers);
    assert_eq!(out, "a \\unknown{x} b");
}

#[test]
fn tag_without_arguments_renders_empty_list() {
    let handlers = vec![Shortcode {
        tag: "x".to_string(),
        render: RenderFn::Wrap("A".to_string(), "B".to_string()),
    }];
    assert_eq!(expand_shortcodes("-\\x-", &handlers), "-AB-");
}

#[test]
fn extra_arguments_are_consumed() {
    let handlers = vec![Shortcode {
        tag: "pair".to_string(),
        render: RenderFn::Wrap("[".to_string(), "]".to_string()),
    }];
    assert_eq!(expand_shortcodes("\\pair{a}{b}!", &handlers), "[a]!");
}

#[test]
fn unterminated_group_degrades_to_literal() {
    let handlers = vec![bold()];
    assert_eq!(expand_shortcodes("\\bold{open", &handlers), "\\bold{open");
}

#[test]
fn first_registered_tag_wins() {
    let handlers = vec![
        Shortcode {
            tag: "a".to_string(),
            render: RenderFn::Const("1".to_string()),
        },
        Shortcode {
            tag: "ab".to_string(),
            render: RenderFn::Const("2".to_string()),
        },
    ];
    assert_eq!(expand_shortcodes("\\ab", &handlers), "1b");
}

#[test]
fn const_handler_discards_arguments() {
    let handlers = vec![Shortcode {
        tag: "mark".to_string(),
        render: RenderFn::Const("*".to_string()),
    }];
    assert_eq!(expand_shortcodes("x\\mark{ignored}y", &handlers), "x*y");
}

#[test]
fn multibyte_text_is_scanned_by_character() {
    let handlers = vec![bold()];
    let out = expand_shortcodes("héllo \\bold{wörld}", &handlers);
    assert_eq!(out, "héllo <b>wörld</b>");
}

#[test]
fn empty_input_expands_to_empty() {
    let handlers = vec![bold()];
    assert_eq!(expand_shortcodes("", &handlers), "");
}

#[test]
fn parse_braced_reads_one_group() {
    let chars: Vec<char> = "{a}rest".chars().collect();
    let (content, next) = parse_braced(&chars, 0).unwrap();
    assert_eq!(content, "a");
    assert_eq!(next, 3);
}

#[test]
fn parse_braced_tracks_depth() {
    let chars: Vec<char> = "{a{b}c}".chars().collect();
    let (content, next) = parse_braced(&chars, 0).unwrap();
    assert_eq!(content, "a{b}c");
    assert_eq!(next, 7);
}

#[test]
fn parse_braced_rejects_unbalanced() {
    let chars: Vec<char> = "{a{b}".chars().collect();
    assert!(parse_braced(&chars, 0).is_none());
}

#[test]
fn parse_braced_needs_opening_brace() {
    let chars: Vec<char> = "abc".chars().collect();
    assert!(parse_braced(&chars, 0).is_none());
    assert!(parse_braced(&chars, 3).is_none());
}
