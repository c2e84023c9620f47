use gpui_web::dispatcher::WebDispatcher;
use gpui_web::shell::{parse_u32, pwsh_dir_version};
use gpui_web::util::post_inc;
use std::cell::Cell;
use std::time::Duration;

#[test]
fn post_inc_returns_previous() {
    let mut v: usize = 41;
    assert_eq!(post_inc(&mut v), 41);
    assert_eq!(v, 42);
}

#[test]
fn dispatcher_runs_work_at_once() {
    let d = WebDispatcher::new();
    assert!(d.is_main_thread());
    let hits = Cell::new(0);
    d.dispatch(|| hits.set(hits.get() + 1));
    d.dispatch_on_main_thread(|| hits.set(hits.get() + 1));
    d.dispatch_after(Duration::from_secs(5), || hits.set(hits.get() + 1));
    assert_eq!(hits.get(), 3);
}

#[test]
fn release_directory_versions() {
    assert_eq!(pwsh_dir_version("7", false), Some(7));
    assert_eq!(pwsh_dir_version("+12", false), Some(12));
    assert_eq!(pwsh_dir_version("4294967295", false), Some(u32::MAX));
    assert_eq!(pwsh_dir_version("4294967296", false), None);
    assert_eq!(pwsh_dir_version("7-preview", false), None);
    assert_eq!(pwsh_dir_version("", false), None);
    assert_eq!(pwsh_dir_version("+", false), None);
}

#[test]
fn preview_directory_versions() {
    assert_eq!(pwsh_dir_version("7-preview", true), Some(7));
    assert_eq!(pwsh_dir_version("7-preview-2", true), None);
    assert_eq!(pwsh_dir_version("7-rc", true), None);
    assert_eq!(pwsh_dir_version("7", true), None);
    assert_eq!(pwsh_dir_version("x-preview", true), None);
}

#[test]
fn decimal_parse_matches_std() {
    for s in ["0", "007", "+5", "-5", "12a", " 1", "99999999999", "4294967295"] {
        let chars: Vec<char> = s.chars().collect();
        assert_eq!(parse_u32(&chars), s.parse::<u32>().ok(), "{s}");
    }
}
