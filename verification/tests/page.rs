use servo::dom::{Compartment, Document, JSContext, JSObject, NodeId, Window, WrapperCache};
use servo::geometry::Size2D;
use servo::layout::LayoutChan;
use servo::navigation::NavigationContext;
use servo::page::{Frame, JSFrameInfo, Page};
use servo::url::Url;

fn compartment() -> Compartment {
    Compartment { cx: JSContext { address: 1 }, global_obj: JSObject { address: 2 } }
}

fn window(id: usize) -> Window {
    Window { id, wrapper: WrapperCache { wrapper: None } }
}

fn frame(root: usize, text: &str) -> Frame {
    Frame::new(
        9,
        Document { root: NodeId { id: root }, window: Some(window(root)) },
        window(root),
        Url { text: text.to_string(), path: "/".to_string() },
        NavigationContext::new(),
        compartment(),
    )
}

fn empty_page() -> Page {
    Page::new(3, LayoutChan { id: 4 }, Size2D { width: 800, height: 600 })
}

fn roots(page: &Page) -> Vec<usize> {
    page.frames.iter().map(|frame| frame.document.root.id).collect()
}

#[test]
fn frame_information_starts_without_bindings() {
    let info = JSFrameInfo::new(compartment());
    assert!(!info.bindings_initialized);
    assert_eq!(info.js_compartment, compartment());
}

#[test]
fn a_frame_holds_what_it_is_given() {
    let frame = frame(5, "http://a/");
    assert_eq!(frame.page, 9);
    assert_eq!(frame.document.root, NodeId { id: 5 });
    assert_eq!(frame.window, window(5));
    assert_eq!(frame.url.text, "http://a/");
    assert_eq!(frame.navigation_context.current(), None);
    assert!(!frame.js_info.bindings_initialized);
}

#[test]
fn a_new_page_is_empty() {
    let page = empty_page();
    assert_eq!(page.script_task, 3);
    assert_eq!(page.layout_chan, LayoutChan { id: 4 });
    assert!(page.root_frame().is_none());
    assert!(!page.layout_join_port);
    assert!(page.damage.is_none());
    assert_eq!(page.window_size, Size2D { width: 800, height: 600 });
}

#[test]
fn the_first_frame_is_the_outermost() {
    let mut page = empty_page();
    page.insert_frame(frame(1, "http://a/"));
    page.insert_frame(frame(2, "http://b/"));
    assert_eq!(roots(&page), vec![1, 2]);
    assert_eq!(page.root_frame().unwrap().document.root, NodeId { id: 1 });
}

#[test]
fn a_frame_with_the_same_locator_is_replaced() {
    let mut page = empty_page();
    page.insert_frame(frame(1, "http://a/"));
    page.insert_frame(frame(2, "http://b/"));
    page.insert_frame(frame(3, "http://a/"));
    assert_eq!(roots(&page), vec![3, 2]);
    page.insert_frame(frame(4, "http://b/"));
    assert_eq!(roots(&page), vec![3, 4]);
}
