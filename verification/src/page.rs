//! Pages and their frames.

use vstd::prelude::*;

use crate::dom::{Compartment, Document, Window};
use crate::geometry::Size2D;
use crate::layout::{with_damage, DocumentDamage, DocumentDamageLevel, LayoutChan};
use crate::navigation::NavigationContext;
use crate::url::Url;

verus! {

/// The JavaScript information of a frame.
pub struct JSFrameInfo {
    /// Whether the JS bindings have been initialized.
    pub bindings_initialized: bool,
    /// The JavaScript compartment of the frame.
    pub js_compartment: Compartment,
}

impl JSFrameInfo {
    /// Creates the information for a compartment that has no bindings yet.
    pub fn new(js_compartment: Compartment) -> (info: JSFrameInfo)
        ensures
            info == (JSFrameInfo { bindings_initialized: false, js_compartment }),
    {
        JSFrameInfo { bindings_initialized: false, js_compartment }
    }
}

/// One frame in the browsing context.
pub struct Frame {
    /// The id of the page on which this frame resides.
    pub page: usize,
    pub document: Document,
    pub window: Window,
    pub url: Url,
    pub navigation_context: NavigationContext,
    pub js_info: JSFrameInfo,
}

impl Frame {
    /// Creates a frame.
    pub fn new(
        page: usize,
        document: Document,
        window: Window,
        url: Url,
        navigation_context: NavigationContext,
        js_compartment: Compartment,
    ) -> (frame: Frame)
        ensures
            frame == (Frame {
                page,
                document,
                window,
                url,
                navigation_context,
                js_info: JSFrameInfo { bindings_initialized: false, js_compartment },
            }),
    {
        Frame {
            page,
            document,
            window,
            url,
            navigation_context,
            js_info: JSFrameInfo::new(js_compartment),
        }
    }
}

/// A set of frames and the layout task that they share.
pub struct Page {
    /// The id of the script task of this page.
    pub script_task: usize,
    /// The channel to the layout task.
    pub layout_chan: LayoutChan,
    /// The frames, no two of them with the same locator. The first is the outermost one: it
    /// contains the document, the window and the locator of the page.
    pub frames: Vec<Frame>,
    /// Whether there is a port on which to join layout. If there is none, then layout is not
    /// currently running.
    pub layout_join_port: bool,
    /// What parts of the document are dirty, if any.
    pub damage: Option<DocumentDamage>,
    /// The current size of the window, in pixels.
    pub window_size: Size2D,
}

impl Page {
    /// Whether the page has an outermost frame, and no two frames have the same locator.
    pub open spec fn wf(self) -> bool {
        &&& self.frames@.len() > 0
        &&& self.distinct_frames()
    }

    /// Whether no two frames have the same locator.
    pub open spec fn distinct_frames(self) -> bool {
        forall|i: int, j: int|
            0 <= i < j < self.frames@.len() ==> !(#[trigger] self.frames@[i]).url.same(
                (#[trigger] self.frames@[j]).url,
            )
    }

    /// The outermost frame.
    pub open spec fn root(self) -> Frame
        recommends
            self.frames@.len() > 0,
    {
        self.frames@[0]
    }

    /// The page with more damage to its document.
    pub open spec fn damaged(self, level: DocumentDamageLevel) -> Page {
        Page { damage: Some(with_damage(self.damage, self.root().document.root, level)), ..self }
    }

    /// The page when layout has been joined.
    pub open spec fn joined(self) -> Page {
        Page { layout_join_port: false, ..self }
    }

    /// The page when a new layout has been requested.
    pub open spec fn forked(self) -> Page {
        Page { layout_join_port: true, damage: None, ..self }
    }

    /// The page in a window of another size.
    pub open spec fn resized(self, window_size: Size2D) -> Page {
        Page { window_size, ..self }
    }

    /// Creates a page without frames.
    pub fn new(script_task: usize, layout_chan: LayoutChan, window_size: Size2D) -> (page: Page)
        ensures
            page.script_task == script_task,
            page.layout_chan == layout_chan,
            page.frames@ == Seq::<Frame>::empty(),
            !page.layout_join_port,
            page.damage is None,
            page.window_size == window_size,
    {
        Page {
            script_task,
            layout_chan,
            frames: Vec::new(),
            layout_join_port: false,
            damage: None,
            window_size,
        }
    }

    /// Adds a frame. A frame that has the same locator gives way to it.
    pub fn insert_frame(&mut self, frame: Frame)
        requires
            old(self).distinct_frames(),
        ensures
            final(self).wf(),
            match position(old(self).frames@, frame.url) {
                Some(i) => final(self).frames@ == old(self).frames@.update(i, frame),
                None => final(self).frames@ == old(self).frames@.push(frame),
            },
            *final(self) == (Page { frames: final(self).frames, ..*old(self) }),
    {
        let mut i: usize = 0;
        while i < self.frames.len()
            invariant
                0 <= i <= self.frames@.len(),
                *self == *old(self),
                old(self).distinct_frames(),
                forall|j: int| 0 <= j < i ==> !(#[trigger] self.frames@[j]).url.same(frame.url),
            decreases self.frames@.len() - i,
        {
            if self.frames[i].url.is_same(&frame.url) {
                assert(position(old(self).frames@, frame.url) == Some(i as int)) by {
                    lemma_position(old(self).frames@, frame.url, i as int);
                }
                self.frames[i] = frame;
                return;
            }
            i = i + 1;
        }
        self.frames.push(frame);
    }

    /// The outermost frame.
    pub fn root_frame(&self) -> (frame: Option<&Frame>)
        ensures
            match frame {
                Some(root) => self.frames@.len() > 0 && *root == self.root(),
                None => self.frames@.len() == 0,
            },
    {
        if self.frames.len() > 0 {
            Some(&self.frames[0])
        } else {
            None
        }
    }
}

/// The place of the frame with the given locator.
pub open spec fn position(frames: Seq<Frame>, url: Url) -> Option<int> {
    if exists|i: int| 0 <= i < frames.len() && (#[trigger] frames[i]).url.same(url) {
        Some(choose|i: int| 0 <= i < frames.len() && (#[trigger] frames[i]).url.same(url))
    } else {
        None
    }
}

proof fn lemma_position(frames: Seq<Frame>, url: Url, i: int)
    requires
        0 <= i < frames.len(),
        frames[i].url.same(url),
        forall|j: int, k: int|
            0 <= j < k < frames.len() ==> !(#[trigger] frames[j]).url.same(
                (#[trigger] frames[k]).url,
            ),
    ensures
        position(frames, url) == Some(i),
{
}

/// A new page has no frames, is not being laid out, and has no damage; the rest is as given.
pub proof fn law_new_page(script_task: usize, layout_chan: LayoutChan, size: Size2D, page: Page)
    requires
        call_ensures(Page::new, (script_task, layout_chan, size), page),
    ensures
        page.script_task == script_task,
        page.layout_chan == layout_chan,
        page.frames@.len() == 0,
        !page.layout_join_port,
        page.damage is None,
        page.window_size == size,
{
}

/// A new frame is made of what is given, without bindings.
pub proof fn law_new_frame(
    page: usize,
    document: Document,
    window: Window,
    url: Url,
    navigation_context: NavigationContext,
    js_compartment: Compartment,
    frame: Frame,
    info: JSFrameInfo,
)
    requires
        call_ensures(
            Frame::new,
            (page, document, window, url, navigation_context, js_compartment),
            frame,
        ),
        call_ensures(JSFrameInfo::new, (js_compartment,), info),
    ensures
        frame.page == page,
        frame.document == document,
        frame.window == window,
        frame.url == url,
        frame.navigation_context == navigation_context,
        frame.js_info == info,
        info.js_compartment == js_compartment,
        !info.bindings_initialized,
{
}

/// The outermost frame is the first one.
pub proof fn law_root_frame(page: Page, frame: Option<&Frame>)
    requires
        call_ensures(Page::root_frame, (&page,), frame),
    ensures
        frame is None <==> page.frames@.len() == 0,
        frame is Some ==> *frame->0 == page.frames@[0],
{
}

/// A frame that is added takes the place of the frame with its locator, or else comes last. All
/// other frames stay in their places, and the rest of the page as it is.
pub proof fn law_adding_a_frame(page: &mut Page, frame: Frame)
    requires
        old(page).distinct_frames(),
        call_ensures(Page::insert_frame, (page, frame), ()),
    ensures
        call_requires(Page::insert_frame, (page, frame)),
        final(page).wf(),
        final(page).script_task == old(page).script_task,
        final(page).layout_chan == old(page).layout_chan,
        final(page).layout_join_port == old(page).layout_join_port,
        final(page).damage == old(page).damage,
        final(page).window_size == old(page).window_size,
        forall|i: int|
            0 <= i < old(page).frames@.len() ==> {
                let present = #[trigger] old(page).frames@[i];
                let replaced = present.url.text@ == frame.url.text@ && present.url.path@
                    == frame.url.path@;
                &&& replaced ==> {
                    &&& final(page).frames@[i] == frame
                    &&& final(page).frames@.len() == old(page).frames@.len()
                }
                &&& !replaced ==> final(page).frames@[i] == present
            },
        (forall|i: int|
            0 <= i < old(page).frames@.len() ==> {
                let present = #[trigger] old(page).frames@[i];
                present.url.text@ != frame.url.text@ || present.url.path@ != frame.url.path@
            }) ==> {
            &&& final(page).frames@.len() == old(page).frames@.len() + 1
            &&& final(page).frames@[old(page).frames@.len() as int] == frame
        },
{
    let frames = old(page).frames@;
    assert forall|i: int| 0 <= i < frames.len() implies {
        let present = #[trigger] frames[i];
        let replaced = present.url.text@ == frame.url.text@ && present.url.path@
            == frame.url.path@;
        &&& replaced ==> {
            &&& final(page).frames@[i] == frame
            &&& final(page).frames@.len() == frames.len()
        }
        &&& !replaced ==> final(page).frames@[i] == present
    } by {
        if frames[i].url.same(frame.url) {
            lemma_position(frames, frame.url, i);
        }
    }
}

} // verus!
