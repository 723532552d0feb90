//! The bindings of events.

use vstd::prelude::*;

use crate::bindings::WrapRequest;
use crate::dom::{JSContext, JSObject, JSVal, Window, WrapperCache};
use crate::page::Page;
use crate::script_task::ScriptTask;

verus! {

/// An event object, as far as its bindings read it.
#[derive(Clone, Copy, Debug)]
#[allow(non_camel_case_types)]
pub struct Event_ {
    pub wrapper: WrapperCache,
}

impl Event_ {
    /// Has the event wrapped in the context of the script task, in the scope of the window that
    /// owns it.
    pub fn init_wrapper(&self, owner: &Window, script_context: &ScriptTask) -> (request: WrapRequest)
        ensures
            request.cx == script_context@.js_compartment.cx,
            request.scope == owner.wrapper.wrapper,
    {
        let cx = script_context.js_compartment().cx;
        let cache = owner.get_wrappercache();
        let scope = cache.get_wrapper();
        self.wrap_object_shared(cx, scope)
    }

    /// The object that stands for the event, which the caller may replace.
    pub fn get_wrappercache(&mut self) -> (cache: &mut WrapperCache)
        ensures
            *cache == old(self).wrapper,
            *final(self) == (Event_ { wrapper: *final(cache), ..*old(self) }),
    {
        &mut self.wrapper
    }

    /// Has the event wrapped.
    pub fn wrap_object_shared(&self, cx: JSContext, scope: Option<JSObject>) -> (request:
        WrapRequest)
        ensures
            request == (WrapRequest { cx, scope }),
    {
        WrapRequest { cx, scope }
    }

    /// The window of a page's outermost frame, which owns the event.
    #[allow(non_snake_case)]
    pub fn GetParentObject<'a>(&self, page: &'a Page) -> (parent: &'a Window)
        requires
            page.frames@.len() > 0,
        ensures
            *parent == page.root().window,
    {
        &page.frames[0].window
    }

    /// Hands a script the object that stands for the event, as a value, when the event has been
    /// wrapped. Returns 1, or 0 if there is no such object.
    pub fn wrap_shared(&self, wrapped: Option<JSVal>, vp: &mut JSVal) -> (status: i32)
        ensures
            match wrapped {
                Some(value) => *final(vp) == value && status == 1,
                None => *final(vp) == *old(vp) && status == 0,
            },
    {
        match wrapped {
            None => 0,
            Some(value) => {
                *vp = value;
                1
            },
        }
    }
}

/// A native object is wrapped in the context of the script task, and in the scope of the object
/// that stands for its owner, if there is one.
pub proof fn law_wrapping_an_object(
    object: Event_,
    owner: Window,
    task: ScriptTask,
    request: WrapRequest,
    cx: JSContext,
    scope: Option<JSObject>,
    shared: WrapRequest,
)
    requires
        call_ensures(Event_::init_wrapper, (&object, &owner, &task), request),
        call_ensures(Event_::wrap_object_shared, (&object, cx, scope), shared),
    ensures
        request.cx == task@.js_compartment.cx,
        request.scope is Some <==> owner.wrapper.wrapper is Some,
        request.scope is Some ==> request.scope->0 == owner.wrapper.wrapper->0,
        shared.cx == cx,
        shared.scope == scope,
{
}

/// The parent of a native object is the window of the outermost frame of its page.
pub proof fn law_parent_is_the_outermost_window(object: Event_, page: Page, parent: &Window)
    requires
        page.frames@.len() > 0,
        call_ensures(Event_::GetParentObject, (&object, &page), parent),
    ensures
        call_requires(Event_::GetParentObject, (&object, &page)),
        *parent == page.frames@[0].window,
{
}

/// The cache of a native object starts as it is, and what is put there stays there.
pub proof fn law_cache_is_the_objects_own(object: &mut Event_, cache: &mut WrapperCache)
    requires
        call_ensures(Event_::get_wrappercache, (object,), cache),
    ensures
        *old(cache) == old(object).wrapper,
        final(object).wrapper == *final(cache),
{
}

/// An event that has been wrapped is handed over with status 1; one that has not leaves what is
/// there, with status 0.
pub proof fn law_handing_an_event_over(
    event: Event_,
    wrapped: Option<JSVal>,
    vp: &mut JSVal,
    status: i32,
)
    requires
        call_ensures(Event_::wrap_shared, (&event, wrapped, vp), status),
    ensures
        wrapped is Some ==> *final(vp) == wrapped->0 && status == 1,
        wrapped is None ==> *final(vp) == *old(vp) && status == 0,
{
}

} // verus!
