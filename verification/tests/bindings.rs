use servo::bindings::clientrectlist::ClientRectList;
use servo::bindings::event::Event_;
use servo::bindings::WrapRequest;
use servo::dom::{
    Compartment, Document, JSContext, JSObject, JSVal, NodeId, Window, WrapperCache,
};
use servo::geometry::Size2D;
use servo::layout::LayoutChan;
use servo::navigation::NavigationContext;
use servo::page::{Frame, Page};
use servo::script_task::ScriptTask;
use servo::url::Url;

const NO_WRAPPER: WrapperCache = WrapperCache { wrapper: None };

fn compartment() -> Compartment {
    Compartment { cx: JSContext { address: 11 }, global_obj: JSObject { address: 12 } }
}

fn window(wrapper: Option<JSObject>) -> Window {
    Window { id: 5, wrapper: WrapperCache { wrapper } }
}

fn page() -> Page {
    let mut page = Page::new(0, LayoutChan { id: 0 }, Size2D { width: 1, height: 1 });
    page.insert_frame(Frame::new(
        0,
        Document { root: NodeId { id: 0 }, window: None },
        window(Some(JSObject { address: 13 })),
        Url { text: String::new(), path: String::new() },
        NavigationContext::new(),
        compartment(),
    ));
    page
}

#[test]
fn wrapping_uses_the_scope_of_the_owner() {
    let task = ScriptTask::new(0, compartment());
    let scope = Some(JSObject { address: 13 });
    let expected = WrapRequest { cx: JSContext { address: 11 }, scope };
    let list = ClientRectList { wrapper: NO_WRAPPER };
    let event = Event_ { wrapper: NO_WRAPPER };
    assert_eq!(list.init_wrapper(&window(scope), &task), expected);
    assert_eq!(event.init_wrapper(&window(scope), &task), expected);
    assert_eq!(list.init_wrapper(&window(None), &task).scope, None);
    assert_eq!(event.init_wrapper(&window(None), &task).scope, None);
    assert_eq!(list.wrap_object_shared(JSContext { address: 11 }, scope), expected);
    assert_eq!(event.wrap_object_shared(JSContext { address: 11 }, scope), expected);
}

#[test]
fn the_wrapper_cache_can_be_filled() {
    let wrapper = Some(JSObject { address: 21 });
    let mut list = ClientRectList { wrapper: NO_WRAPPER };
    list.get_wrappercache().wrapper = wrapper;
    assert_eq!(list.wrapper.get_wrapper(), wrapper);
    let mut event = Event_ { wrapper: NO_WRAPPER };
    event.get_wrappercache().wrapper = wrapper;
    assert_eq!(event.wrapper.get_wrapper(), wrapper);
}

#[test]
fn the_parent_is_the_window_of_the_outermost_frame() {
    let page = page();
    let expected = window(Some(JSObject { address: 13 }));
    assert_eq!(*ClientRectList { wrapper: NO_WRAPPER }.GetParentObject(&page), expected);
    assert_eq!(*Event_ { wrapper: NO_WRAPPER }.GetParentObject(&page), expected);
}

#[test]
fn a_wrapped_event_is_handed_over() {
    let event = Event_ { wrapper: NO_WRAPPER };
    let mut vp = JSVal { bits: 1 };
    assert_eq!(event.wrap_shared(None, &mut vp), 0);
    assert_eq!(vp, JSVal { bits: 1 });
    assert_eq!(event.wrap_shared(Some(JSVal { bits: 2 }), &mut vp), 1);
    assert_eq!(vp, JSVal { bits: 2 });
}
