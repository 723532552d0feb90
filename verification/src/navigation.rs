//! The session history of a frame.

use vstd::prelude::*;

verus! {

/// The pages of a session: those gone by, and the present one with those that follow it. A page
/// is named by its id.
pub struct NavigationContext {
    previous: Vec<usize>,
    current_and_next: Vec<usize>,
}

/// The pages of a [`NavigationContext`].
#[verifier::ext_equal]
pub ghost struct NavigationContextView {
    pub previous: Seq<usize>,
    pub current_and_next: Seq<usize>,
}

impl NavigationContextView {
    /// The history after a new page has been gone to: it is the present one, nothing follows it,
    /// and all others have gone by.
    pub open spec fn navigated(self, page: usize) -> NavigationContextView {
        NavigationContextView {
            previous: self.previous + self.current_and_next,
            current_and_next: seq![page],
        }
    }

    /// The page before the present one.
    pub open spec fn previous_page(self) -> Option<usize> {
        if self.previous.len() > 0 {
            Some(self.previous.last())
        } else {
            None
        }
    }

    /// The present page.
    pub open spec fn current_page(self) -> Option<usize> {
        if self.current_and_next.len() > 0 {
            Some(self.current_and_next[0])
        } else {
            None
        }
    }

    /// All pages of the session, in order.
    pub open spec fn pages(self) -> Seq<usize> {
        self.previous + self.current_and_next
    }
}

impl View for NavigationContext {
    type V = NavigationContextView;

    closed spec fn view(&self) -> NavigationContextView {
        NavigationContextView {
            previous: self.previous@,
            current_and_next: self.current_and_next@,
        }
    }
}

impl NavigationContext {
    /// Creates a history without pages.
    pub fn new() -> (context: NavigationContext)
        ensures
            context@ == (NavigationContextView {
                previous: Seq::empty(),
                current_and_next: Seq::empty(),
            }),
    {
        NavigationContext { previous: Vec::new(), current_and_next: Vec::new() }
    }

    /// Goes to a new page.
    pub fn navigate(&mut self, page: usize)
        ensures
            final(self)@ == old(self)@.navigated(page),
    {
        self.previous.append(&mut self.current_and_next);
        self.current_and_next.clear();
        self.current_and_next.push(page);
        assert(self.current_and_next@ =~= seq![page]);
    }

    /// The page before the present one.
    pub fn previous(&self) -> (page: Option<usize>)
        ensures
            page == self@.previous_page(),
    {
        if self.previous.len() > 0 {
            Some(self.previous[self.previous.len() - 1])
        } else {
            None
        }
    }

    /// The present page.
    pub fn current(&self) -> (page: Option<usize>)
        ensures
            page == self@.current_page(),
    {
        if self.current_and_next.len() > 0 {
            Some(self.current_and_next[0])
        } else {
            None
        }
    }
}

/// The page gone to is the present one.
pub proof fn law_navigated_page_is_current(context: NavigationContextView, page: usize)
    ensures
        context.navigated(page).current_page() == Some(page),
{
}

/// When nothing follows the present page, it is the one before the page gone to.
pub proof fn law_left_page_is_previous(context: NavigationContextView, page: usize)
    requires
        context.current_and_next.len() == 1,
    ensures
        context.navigated(page).previous_page() == context.current_page(),
{
}

/// Going to a page keeps all pages of the session in order and adds the new one at the end.
pub proof fn law_navigation_keeps_history(context: NavigationContextView, page: usize)
    ensures
        context.navigated(page).pages() == context.pages().push(page),
{
    assert(context.navigated(page).pages() =~= context.pages().push(page));
}

/// A new history has no pages.
pub proof fn law_new_history_is_empty(context: NavigationContext)
    requires
        call_ensures(NavigationContext::new, (), context),
    ensures
        context@.previous.len() == 0,
        context@.current_and_next.len() == 0,
{
}

/// Going to a page leaves it alone as the present one; the present page and those that followed
/// have gone by, in their order, after those that had gone by before.
pub proof fn law_navigating(context: &mut NavigationContext, page: usize)
    requires
        call_ensures(NavigationContext::navigate, (context, page), ()),
    ensures
        final(context)@.current_and_next.len() == 1,
        final(context)@.current_and_next[0] == page,
        ({
            let gone = old(context)@.previous.len() as int;
            let left = old(context)@.current_and_next.len() as int;
            &&& final(context)@.previous.len() == gone + left
            &&& forall|i: int|
                0 <= i < gone ==> #[trigger] final(context)@.previous[i] == old(
                    context,
                )@.previous[i]
            &&& forall|i: int|
                0 <= i < left ==> #[trigger] final(context)@.previous[gone + i] == old(
                    context,
                )@.current_and_next[i]
        }),
{
}

/// The previous page is the last one that has gone by, and the current page is the first of the
/// others; there is none exactly if no page has gone by, or no other is there.
pub proof fn law_previous_and_current(
    context: NavigationContext,
    previous: Option<usize>,
    current: Option<usize>,
)
    requires
        call_ensures(NavigationContext::previous, (&context,), previous),
        call_ensures(NavigationContext::current, (&context,), current),
    ensures
        previous is None <==> context@.previous.len() == 0,
        previous matches Some(page) ==> page == context@.previous[context@.previous.len() - 1],
        current is None <==> context@.current_and_next.len() == 0,
        current matches Some(page) ==> page == context@.current_and_next[0],
{
}

/// After two steps the first page is the previous one and the second the current one.
pub proof fn law_two_steps(
    first: &mut NavigationContext,
    a: usize,
    second: &mut NavigationContext,
    b: usize,
    previous: Option<usize>,
    current: Option<usize>,
)
    requires
        call_ensures(NavigationContext::navigate, (first, a), ()),
        old(second)@ == final(first)@,
        call_ensures(NavigationContext::navigate, (second, b), ()),
        call_ensures(NavigationContext::previous, (&*final(second),), previous),
        call_ensures(NavigationContext::current, (&*final(second),), current),
    ensures
        previous == Some(a),
        current == Some(b),
{
}

} // verus!
