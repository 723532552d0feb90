//! The bindings of lists of client rectangles.

use vstd::prelude::*;

use crate::bindings::WrapRequest;
use crate::dom::{JSContext, JSObject, Window, WrapperCache};
use crate::page::Page;
use crate::script_task::ScriptTask;

verus! {

/// A list of client rectangles, as far as its bindings read it.
#[derive(Clone, Copy, Debug)]
pub struct ClientRectList {
    pub wrapper: WrapperCache,
}

impl ClientRectList {
    /// Has the list wrapped in the context of the script task, in the scope of the window that
    /// owns it.
    pub fn init_wrapper(&self, owner: &Window, script_context: &ScriptTask) -> (request: WrapRequest)
        ensures
            request.cx == script_context@.js_compartment.cx,
            request.scope == owner.wrapper.wrapper,
    {
        let cx = script_context.js_compartment().cx;
        let cache = owner.get_wrappercache();
        let scope = cache.get_wrapper();
        self.wrap_object_shared(cx, scope)
    }

    /// The object that stands for the list, which the caller may replace.
    pub fn get_wrappercache(&mut self) -> (cache: &mut WrapperCache)
        ensures
            *cache == old(self).wrapper,
            *final(self) == (ClientRectList { wrapper: *final(cache), ..*old(self) }),
    {
        &mut self.wrapper
    }

    /// Has the list wrapped.
    pub fn wrap_object_shared(&self, cx: JSContext, scope: Option<JSObject>) -> (request:
        WrapRequest)
        ensures
            request == (WrapRequest { cx, scope }),
    {
        WrapRequest { cx, scope }
    }

    /// The window of a page's outermost frame, which owns the list.
    #[allow(non_snake_case)]
    pub fn GetParentObject<'a>(&self, page: &'a Page) -> (parent: &'a Window)
        requires
            page.frames@.len() > 0,
        ensures
            *parent == page.root().window,
    {
        &page.frames[0].window
    }
}

/// A native object is wrapped in the context of the script task, and in the scope of the object
/// that stands for its owner, if there is one.
pub proof fn law_wrapping_an_object(
    object: ClientRectList,
    owner: Window,
    task: ScriptTask,
    request: WrapRequest,
    cx: JSContext,
    scope: Option<JSObject>,
    shared: WrapRequest,
)
    requires
        call_ensures(ClientRectList::init_wrapper, (&object, &owner, &task), request),
        call_ensures(ClientRectList::wrap_object_shared, (&object, cx, scope), shared),
    ensures
        request.cx == task@.js_compartment.cx,
        request.scope is Some <==> owner.wrapper.wrapper is Some,
        request.scope is Some ==> request.scope->0 == owner.wrapper.wrapper->0,
        shared.cx == cx,
        shared.scope == scope,
{
}

/// The parent of a native object is the window of the outermost frame of its page.
pub proof fn law_parent_is_the_outermost_window(object: ClientRectList, page: Page, parent: &Window)
    requires
        page.frames@.len() > 0,
        call_ensures(ClientRectList::GetParentObject, (&object, &page), parent),
    ensures
        call_requires(ClientRectList::GetParentObject, (&object, &page)),
        *parent == page.frames@[0].window,
{
}

/// The cache of a native object starts as it is, and what is put there stays there.
pub proof fn law_cache_is_the_objects_own(object: &mut ClientRectList, cache: &mut WrapperCache)
    requires
        call_ensures(ClientRectList::get_wrappercache, (object,), cache),
    ensures
        *old(cache) == old(object).wrapper,
        final(object).wrapper == *final(cache),
{
}

} // verus!
