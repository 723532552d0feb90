//! The parts of the document and of the JavaScript engine that the script task reads.
//!
//! Objects that live elsewhere are named by handles.

use vstd::prelude::*;

verus! {

/// A node of a document tree.
#[derive(Clone, Copy, Debug, PartialEq, Eq, Structural)]
pub struct NodeId {
    pub id: usize,
}

/// A JavaScript object.
#[derive(Clone, Copy, Debug, PartialEq, Eq, Structural)]
pub struct JSObject {
    pub address: usize,
}

/// A JavaScript context.
#[derive(Clone, Copy, Debug, PartialEq, Eq, Structural)]
pub struct JSContext {
    pub address: usize,
}

/// A JavaScript value.
#[derive(Clone, Copy, Debug, PartialEq, Eq, Structural)]
pub struct JSVal {
    pub bits: u64,
}

/// A JavaScript compartment.
#[derive(Clone, Copy, Debug, PartialEq, Eq, Structural)]
pub struct Compartment {
    pub cx: JSContext,
    pub global_obj: JSObject,
}

/// The JavaScript object that stands for a native object, once there is one.
#[derive(Clone, Copy, Debug, PartialEq, Eq)]
pub struct WrapperCache {
    pub wrapper: Option<JSObject>,
}

impl WrapperCache {
    /// The object that stands for the native object.
    pub fn get_wrapper(&self) -> (wrapper: Option<JSObject>)
        ensures
            wrapper == self.wrapper,
    {
        self.wrapper
    }
}

/// A window object.
#[derive(Clone, Copy, Debug, PartialEq, Eq)]
pub struct Window {
    pub id: usize,
    pub wrapper: WrapperCache,
}

impl Window {
    /// The object that stands for the window.
    pub fn get_wrappercache(&self) -> (cache: &WrapperCache)
        ensures
            *cache == self.wrapper,
    {
        &self.wrapper
    }
}

/// A document object.
#[derive(Clone, Copy, Debug, PartialEq, Eq)]
pub struct Document {
    pub root: NodeId,
    pub window: Option<Window>,
}

/// An attribute of an element.
pub struct Attr {
    pub name: String,
    pub value: String,
}

/// An element.
pub struct Element {
    pub tag_name: String,
    pub attrs: Vec<Attr>,
}

impl Element {
    /// Whether the element is a hyperlink anchor.
    pub open spec fn is_anchor(self) -> bool {
        self.tag_name@ == seq!['a']
    }

    /// Decides whether the element's tag is `a`.
    pub fn has_anchor_tag(&self) -> (res: bool)
        ensures
            res == self.is_anchor(),
    {
        proof {
            reveal_strlit("a");
            assert("a"@ =~= seq!['a']);
        }
        self.tag_name == "a".to_owned()
    }
}

impl Attr {
    /// Whether the attribute names the target of a hyperlink.
    pub open spec fn is_href(self) -> bool {
        self.name@ == seq!['h', 'r', 'e', 'f']
    }

    /// Decides whether the attribute's name is `href`.
    pub fn has_href_name(&self) -> (res: bool)
        ensures
            res == self.is_href(),
    {
        proof {
            reveal_strlit("href");
            assert("href"@ =~= seq!['h', 'r', 'e', 'f']);
        }
        self.name == "href".to_owned()
    }
}

/// A node with its ancestors.
pub struct Node {
    /// The element that the node is, if it is one.
    pub element: Option<Element>,
    pub parent: Option<Box<Node>>,
}

impl Node {
    /// The node itself, if it is an element, or else its nearest ancestor that is one.
    pub open spec fn closest(self) -> Option<Element>
        decreases self,
    {
        match (self.element, self.parent) {
            (Some(element), _) => Some(element),
            (None, Some(parent)) => parent.closest(),
            (None, None) => None,
        }
    }

    /// Whether the node is an element.
    pub fn is_element(&self) -> (res: bool)
        ensures
            res == self.element is Some,
    {
        self.element.is_some()
    }

    /// Walks up the tree until an element is found.
    pub fn closest_element(&self) -> (res: Option<&Element>)
        ensures
            match res {
                Some(element) => self.closest() == Some(*element),
                None => self.closest() is None,
            },
    {
        let mut node: &Node = self;
        while !node.is_element()
            invariant
                node.closest() == self.closest(),
            decreases node,
        {
            match &node.parent {
                Some(parent) => {
                    node = &**parent;
                },
                None => {
                    return None;
                },
            }
        }
        node.element.as_ref()
    }
}

/// A point on the screen. Coordinates are the bit patterns of single-precision numbers.
#[derive(Clone, Copy, Debug, PartialEq, Eq, Structural)]
pub struct ScreenPoint {
    pub x_bits: u32,
    pub y_bits: u32,
}

/// Events that a window receives.
#[derive(Clone, Copy, Debug, PartialEq, Eq, Structural)]
pub enum Event {
    /// The window has a new width and height.
    ResizeEvent(usize, usize),
    /// The document is to be laid out again.
    ReflowEvent,
    /// A button was clicked at a point.
    ClickEvent(usize, ScreenPoint),
    /// A button was pressed at a point.
    MouseDownEvent(usize, ScreenPoint),
    /// A button was released at a point.
    MouseUpEvent(usize, ScreenPoint),
}

/// A JavaScript timeout.
pub struct TimerData {
    /// The function to call.
    pub funval: JSVal,
    /// The arguments that were given for it.
    pub args: Vec<JSVal>,
}

/// The wrapper of a native object is the one that its cache holds.
pub proof fn law_wrappers_are_cached(
    cache: WrapperCache,
    wrapper: Option<JSObject>,
    window: Window,
    of_window: &WrapperCache,
)
    requires
        call_ensures(WrapperCache::get_wrapper, (&cache,), wrapper),
        call_ensures(Window::get_wrappercache, (&window,), of_window),
    ensures
        wrapper == cache.wrapper,
        *of_window == window.wrapper,
{
}

/// Tags and attributes are told by their whole names.
pub proof fn law_names_decide(element: Element, anchor: bool, attr: Attr, href: bool)
    requires
        call_ensures(Element::has_anchor_tag, (&element,), anchor),
        call_ensures(Attr::has_href_name, (&attr,), href),
    ensures
        anchor <==> element.tag_name@.len() == 1 && element.tag_name@[0] == 'a',
        href <==> {
            &&& attr.name@.len() == 4
            &&& attr.name@[0] == 'h'
            &&& attr.name@[1] == 'r'
            &&& attr.name@[2] == 'e'
            &&& attr.name@[3] == 'f'
        },
{
    assert(element.tag_name@ =~= seq!['a'] <==> element.tag_name@.len() == 1
        && element.tag_name@[0] == 'a');
    assert(attr.name@ =~= seq!['h', 'r', 'e', 'f'] <==> {
        &&& attr.name@.len() == 4
        &&& attr.name@[0] == 'h'
        &&& attr.name@[1] == 'r'
        &&& attr.name@[2] == 'e'
        &&& attr.name@[3] == 'f'
    });
}

/// The nearest element of a node is the node itself, if it is one, and else that of its parent.
pub proof fn law_closest_element(node: Node, element: bool, found: Option<&Element>)
    requires
        call_ensures(Node::is_element, (&node,), element),
        call_ensures(Node::closest_element, (&node,), found),
    ensures
        element <==> node.element is Some,
        node.element is Some ==> found is Some && Some(*found->0) == node.element,
        node.element is None && node.parent is None ==> found is None,
        node.element is None && node.parent is Some ==> ({
            let parent = *(node.parent->0);
            forall|of_parent: Option<&Element>| #[trigger]
                call_ensures(Node::closest_element, (&parent,), of_parent) ==> of_parent == found
        }),
{
}

} // verus!
