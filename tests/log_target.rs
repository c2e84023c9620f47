use gpui_web::log_target::{first_part, log_target};

fn text(s: &str) -> Vec<char> {
    s.chars().collect()
}

#[test]
fn crate_and_module_from_path() {
    let t = log_target("/home/me/zed/crates/gpui/src/platform/web/window.rs").unwrap();
    assert_eq!(t.krate, text("gpui"));
    assert_eq!(t.module_name, text("gpui::platform::web::window"));
}

#[test]
fn repeated_rs_endings_are_trimmed() {
    let t = log_target("crates/util/src/a.rs.rs").unwrap();
    assert_eq!(t.module_name, text("util::a"));
}

#[test]
fn paths_without_markers_have_no_target() {
    assert_eq!(log_target("src/main.rs"), None);
    assert_eq!(log_target("crates/gpui/lib.rs"), None);
}

#[test]
fn first_occurrence_is_used() {
    let t = log_target("crates/a/src/crates/b/src/c.rs").unwrap();
    assert_eq!(t.krate, text("a"));
    assert_eq!(t.module_name, text("a::crates::b::src::c"));
    assert_eq!(first_part(&text("abcabc"), &text("ca")), Some(2));
    assert_eq!(first_part(&text("ab"), &text("abc")), None);
}
