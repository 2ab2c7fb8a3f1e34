use std::path::PathBuf;

use pdf_tui::pdf::PageImage;
use pdf_tui::render_store::{RenderFinish, RenderJobInput, RenderKind, RenderStore};

fn input(page_index: usize, width: u16, height: u16) -> RenderJobInput {
    RenderJobInput {
        page: PageImage {
            page_index,
            path: PathBuf::from(format!("/tmp/cache/pages/p{page_index}.png")),
            width: 800,
            height: 1000,
            size_bytes: 4096,
            modified_nanos: 1,
            slice: None,
        },
        width,
        height,
        kind: RenderKind::Fit,
    }
}

fn key(text: &str) -> String {
    text.to_string()
}

#[test]
fn visible_renders_start_and_keep_their_input() {
    let mut store = RenderStore::new(2);
    let started = store.request(key("a"), input(0, 80, 40), false);
    assert_eq!(started, vec![(key("a"), false)]);
    assert_eq!(store.input(&key("a")).map(|i| i.page.page_index), Some(0));
    // A preload may take the second slot.
    assert_eq!(store.preload(key("b"), input(1, 80, 40), false), vec![(key("b"), true)]);
    // Both slots are busy.
    assert!(store.request(key("c"), input(2, 80, 40), false).is_empty());
    let (finish, started) = store.finish(&key("a"), false, Ok(()));
    assert_eq!(finish, RenderFinish { message: None, needs_draw: true });
    assert_eq!(started, vec![(key("c"), false)]);
    assert!(store.input(&key("a")).is_none());
}

#[test]
fn nothing_is_rendered_for_empty_areas_or_images_in_memory() {
    let mut store = RenderStore::new(3);
    assert!(store.request(key("a"), input(0, 0, 40), false).is_empty());
    assert!(store.request(key("a"), input(0, 80, 0), false).is_empty());
    assert!(store.request(key("a"), input(0, 80, 40), true).is_empty());
    assert!(store.input(&key("a")).is_none());
}

#[test]
fn a_failed_visible_render_is_reported_and_not_retried() {
    let mut store = RenderStore::new(3);
    store.request(key("a"), input(0, 80, 40), false);
    let (finish, _) = store.finish(&key("a"), false, Err("no image".to_string()));
    assert_eq!(
        finish,
        RenderFinish { message: Some("render failed: no image".to_string()), needs_draw: true }
    );
    assert_eq!(store.failure(&key("a")).map(String::as_str), Some("no image"));
    assert!(store.request(key("a"), input(0, 80, 40), false).is_empty());
    // A preload of the failed key may still run, and success clears it.
    assert_eq!(store.preload(key("a"), input(0, 80, 40), false), vec![(key("a"), true)]);
    let (finish, _) = store.finish(&key("a"), true, Ok(()));
    assert_eq!(finish, RenderFinish { message: None, needs_draw: false });
    assert!(store.failure(&key("a")).is_none());
    store.clear_state();
    assert_eq!(store.request(key("a"), input(0, 80, 40), false).len(), 1);
}

#[test]
fn a_failed_preload_is_quiet_and_retried_on_screen() {
    let mut store = RenderStore::new(3);
    assert_eq!(store.preload(key("p"), input(4, 80, 40), false).len(), 1);
    let (finish, _) = store.finish(&key("p"), true, Err("busy".to_string()));
    assert_eq!(finish, RenderFinish { message: None, needs_draw: false });
    assert!(store.failure(&key("p")).is_none());
    assert_eq!(store.request(key("p"), input(4, 80, 40), false), vec![(key("p"), false)]);
}

#[test]
fn a_visible_render_request_waits_on_its_running_preload() {
    let mut store = RenderStore::new(3);
    assert_eq!(store.preload(key("p"), input(4, 80, 40), false).len(), 1);
    assert!(store.request(key("p"), input(4, 80, 40), false).is_empty());
    let (finish, _) = store.finish(&key("p"), true, Ok(()));
    assert!(finish.needs_draw);
    // Without a waiting request, a failed preload draws nothing.
    assert_eq!(store.preload(key("q"), input(5, 80, 40), false).len(), 1);
    let (finish, _) = store.finish(&key("q"), true, Err("x".to_string()));
    assert!(!finish.needs_draw);
}

#[test]
fn cancelled_preloads_drop_their_inputs() {
    let mut store = RenderStore::new(2);
    assert_eq!(store.preload(key("a"), input(0, 80, 40), false).len(), 1);
    assert!(store.preload(key("b"), input(1, 80, 40), false).is_empty());
    assert!(store.input(&key("b")).is_some());
    store.cancel_preloads();
    assert!(store.input(&key("b")).is_none());
    // The running preload keeps its input until it finishes.
    assert!(store.input(&key("a")).is_some());
    let mut single = RenderStore::new(1);
    assert!(single.preload(key("a"), input(0, 80, 40), false).is_empty());
}
