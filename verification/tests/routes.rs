use sitegen::route::{id_route, nice_route, set_extension, Route};
use sitegen::BuildError;

#[test]
fn identity_mirrors_the_source_path() {
    let out = id_route("content/img/a.png", "content", "public").unwrap();
    assert_eq!(out, "public/img/a.png");
}

#[test]
fn nice_builds_a_slug_folder() {
    let out = nice_route("content/posts/hello.md", "content", "public").unwrap();
    assert_eq!(out, "public/posts/hello/index.html");
}

#[test]
fn nice_at_the_root_has_no_parent_segment() {
    let out = nice_route("content/hello.md", "content", "public").unwrap();
    assert_eq!(out, "public/hello/index.html");
}

#[test]
fn nice_keeps_inner_dots() {
    let out = nice_route("content/p/a.b.md", "content", "public").unwrap();
    assert_eq!(out, "public/p/a.b/index.html");
}

#[test]
fn extension_is_remapped() {
    let r = set_extension("html");
    let out = r.apply("content/posts/a.md", "content", "public").unwrap();
    assert_eq!(out, "public/posts/a.html");
}

#[test]
fn extension_is_appended_when_missing() {
    let r = set_extension("html");
    let out = r.apply("content/LICENSE", "content", "public").unwrap();
    assert_eq!(out, "public/LICENSE.html");
}

#[test]
fn leading_dot_does_not_begin_an_extension() {
    let r = set_extension("html");
    let out = r.apply("content/.hidden", "content", "public").unwrap();
    assert_eq!(out, "public/.hidden.html");
}

#[test]
fn empty_extension_removes_the_old_one() {
    let r = set_extension("");
    let out = r.apply("content/a.md", "content", "public").unwrap();
    assert_eq!(out, "public/a");
}

#[test]
fn path_outside_the_root_is_rejected() {
    let r = id_route("elsewhere/a.md", "content", "public");
    assert!(matches!(r, Err(BuildError::Route(p)) if p == "elsewhere/a.md"));
}

#[test]
fn the_root_itself_is_rejected() {
    assert!(nice_route("content", "content", "public").is_err());
}

#[test]
fn route_apply_matches_the_free_functions() {
    let id = Route::Identity
        .apply("content/x/y.css", "content", "public")
        .unwrap();
    assert_eq!(id, id_route("content/x/y.css", "content", "public").unwrap());
    let nice = Route::Nice
        .apply("content/x/y.md", "content", "public")
        .unwrap();
    assert_eq!(
        nice,
        nice_route("content/x/y.md", "content", "public").unwrap()
    );
}

#[test]
fn request_paths_default_to_index() {
    assert_eq!(sitegen::request_rel_path(""), "index.html");
    assert_eq!(sitegen::request_rel_path("/"), "index.html");
    assert_eq!(sitegen::request_rel_path("/css/site.css"), "css/site.css");
    assert_eq!(sitegen::request_rel_path("about"), "about");
}
