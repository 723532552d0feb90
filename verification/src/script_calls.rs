//! What each call of the script task does, message by message.

use vstd::prelude::*;

use crate::dom::{
    Attr, Compartment, Document, Element, Event, JSVal, Node, NodeId, ScreenPoint, TimerData,
    Window,
};
use crate::geometry::Size2D;
use crate::ids::{ascending, is_ascending, lemma_ascending_lists};
use crate::layout::{
    DocumentDamage, DocumentDamageLevel, LayoutChan, LayoutQuery, ReadyState, Reflow, ReflowGoal,
    StyleSheetId,
};
use crate::page::Page;
use crate::script_task::{
    evaluates, exit_step, for_each, link_actions, parsed_actions, reflow_step, ParsedDocument,
    ScriptAction, ScriptMsg, ScriptTask, ScriptTaskView, ThisValue,
};
use crate::url::Url;

verus! {

/// Whether two states differ in the pages alone, and have pages under the same ids.
pub open spec fn same_but_for_pages(before: ScriptTaskView, after: ScriptTaskView) -> bool {
    &&& after.id == before.id
    &&& after.window_size == before.window_size
    &&& after.bindings_initialized == before.bindings_initialized
    &&& after.js_compartment == before.js_compartment
    &&& forall|id: usize| #[trigger]
        after.layout_map.contains_key(id) <==> before.layout_map.contains_key(id)
}

/// Whether two states differ in one page alone.
pub open spec fn same_but_for_page(
    before: ScriptTaskView,
    after: ScriptTaskView,
    id: usize,
) -> bool {
    &&& same_but_for_pages(before, after)
    &&& forall|other: usize| #[trigger]
        before.layout_map.contains_key(other) && other != id ==> after.layout_map[other]
            == before.layout_map[other]
}

/// Whether two pages are the same, but for their layout and for the size of the window.
pub open spec fn same_content(before: Page, after: Page) -> bool {
    &&& after.script_task == before.script_task
    &&& after.layout_chan == before.layout_chan
    &&& after.frames == before.frames
}

/// The damage left when damage of one level is added: at the root of the page's document, and with
/// selectors to be matched if either asks for that.
pub open spec fn worsened(page: Page, level: DocumentDamageLevel) -> DocumentDamage {
    DocumentDamage {
        root: page.frames@[0].document.root,
        level: if level is MatchSelectorsDocumentDamage || (page.damage matches Some(damage)
            && damage.level is MatchSelectorsDocumentDamage) {
            DocumentDamageLevel::MatchSelectorsDocumentDamage
        } else {
            DocumentDamageLevel::ReflowDocumentDamage
        },
    }
}

/// A ping and a wait, if layout of the page is running.
pub open spec fn joining(id: usize, page: Page) -> Seq<ScriptAction> {
    if page.layout_join_port {
        seq![ScriptAction::PingLayout(page.layout_chan), ScriptAction::JoinLayout(id)]
    } else {
        seq![]
    }
}

/// The announcement and the request of a layout of a page, after joining the one before.
pub open spec fn laying_out(
    id: usize,
    page: Page,
    goal: ReflowGoal,
    window_size: Size2D,
    damage: DocumentDamage,
) -> Seq<ScriptAction> {
    joining(id, page) + seq![
        ScriptAction::SetReadyState(ReadyState::PerformingLayout),
        ScriptAction::ForkLayout {
            page: id,
            layout_chan: page.layout_chan,
            reflow: Reflow {
                document_root: page.frames@[0].document.root,
                url: page.frames@[0].url,
                goal,
                window_size,
                damage,
            },
        },
    ]
}

/// Whether a list is made up of one block for each id, in ascending order, at the given places.
pub open spec fn made_up_at(
    actions: Seq<ScriptAction>,
    ids: Set<usize>,
    blocks: spec_fn(usize) -> Seq<ScriptAction>,
    places: spec_fn(usize) -> int,
) -> bool {
    &&& forall|id: usize| #[trigger]
        ids.contains(id) ==> {
            &&& 0 <= places(id)
            &&& places(id) + blocks(id).len() <= actions.len()
            &&& forall|i: int|
                0 <= i < blocks(id).len() ==> actions[places(id) + i] == #[trigger] blocks(id)[i]
        }
    &&& forall|a: usize, b: usize| #[trigger]
        ids.contains(a) && #[trigger] ids.contains(b) && a < b ==> places(a) + blocks(a).len()
            <= places(b)
    &&& forall|i: int|
        0 <= i < actions.len() ==> #[trigger] lies_in_a_block(i, ids, blocks, places)
}

/// Whether an index lies in the block of one of the ids.
pub open spec fn lies_in_a_block(
    i: int,
    ids: Set<usize>,
    blocks: spec_fn(usize) -> Seq<ScriptAction>,
    places: spec_fn(usize) -> int,
) -> bool {
    exists|id: usize| #[trigger]
        ids.contains(id) && places(id) <= i < places(id) + blocks(id).len()
}

/// Whether a list is made up of one block for each id, in ascending order, and nothing else.
pub open spec fn made_up_of(
    actions: Seq<ScriptAction>,
    ids: Set<usize>,
    blocks: spec_fn(usize) -> Seq<ScriptAction>,
) -> bool {
    exists|places: spec_fn(usize) -> int| #[trigger] made_up_at(actions, ids, blocks, places)
}

/// The first members of a list of ids.
spec fn first_of(ids: Seq<usize>) -> Set<usize> {
    Set::new(|id: usize| ids.contains(id))
}

#[verifier::rlimit(40)]
proof fn lemma_made_up(
    ids: Seq<usize>,
    step: spec_fn(usize) -> Seq<ScriptAction>,
    blocks: spec_fn(usize) -> Seq<ScriptAction>,
) -> (places: spec_fn(usize) -> int)
    requires
        is_ascending(ids),
        forall|i: int| 0 <= i < ids.len() ==> #[trigger] step(ids[i]) == blocks(ids[i]),
    ensures
        made_up_at(for_each(ids, step), first_of(ids), blocks, places),
    decreases ids.len(),
{
    let all = for_each(ids, step);
    if ids.len() == 0 {
        |id: usize| 0int
    } else {
        let rest = ids.drop_last();
        let last = ids.last();
        let earlier = for_each(rest, step);
        assert forall|i: int| 0 <= i < rest.len() implies #[trigger] step(rest[i]) == blocks(
            rest[i],
        ) by {
            assert(rest[i] == ids[i]);
        }
        let before = lemma_made_up(rest, step, blocks);
        let places = |id: usize|
            if id == last {
                earlier.len() as int
            } else {
                before(id)
            };
        assert(step(ids[ids.len() - 1]) == blocks(last));
        assert(all == earlier + blocks(last));
        assert forall|id: usize| #[trigger] ids.contains(id) <==> rest.contains(id) || id == last by {
            if rest.contains(id) {
                let j = choose|j: int| 0 <= j < rest.len() && rest[j] == id;
                assert(ids[j] == id);
            }
            assert(ids[ids.len() - 1] == last);
            if ids.contains(id) && id != last {
                let j = choose|j: int| 0 <= j < ids.len() && ids[j] == id;
                assert(rest[j] == id);
            }
        }
        assert forall|id: usize| #[trigger] rest.contains(id) implies id < last by {
            let j = choose|j: int| 0 <= j < rest.len() && rest[j] == id;
            assert(ids[j] < ids[ids.len() - 1]);
        }
        assert forall|id: usize| #[trigger] first_of(ids).contains(id) implies {
            &&& 0 <= places(id)
            &&& places(id) + blocks(id).len() <= all.len()
            &&& forall|i: int|
                0 <= i < blocks(id).len() ==> all[places(id) + i] == #[trigger] blocks(id)[i]
        } by {
            if id != last {
                assert(first_of(rest).contains(id));
                assert forall|i: int| 0 <= i < blocks(id).len() implies all[places(id) + i]
                    == #[trigger] blocks(id)[i] by {
                    assert(earlier[before(id) + i] == blocks(id)[i]);
                }
            }
        }
        assert forall|a: usize, b: usize| #[trigger]
            first_of(ids).contains(a) && #[trigger] first_of(ids).contains(b) && a < b implies
            places(a) + blocks(a).len() <= places(b) by {
            assert(rest.contains(a));
            assert(first_of(rest).contains(a));
            if b != last {
                assert(first_of(rest).contains(b));
            }
        }
        assert forall|i: int| 0 <= i < all.len() implies #[trigger] lies_in_a_block(
            i,
            first_of(ids),
            blocks,
            places,
        ) by {
            if i < earlier.len() {
                assert(lies_in_a_block(i, first_of(rest), blocks, before));
                let id = choose|id: usize| #[trigger]
                    first_of(rest).contains(id) && before(id) <= i < before(id) + blocks(id).len();
                assert(rest.contains(id));
                assert(first_of(ids).contains(id));
            } else {
                assert(ids.contains(last));
                assert(first_of(ids).contains(last));
            }
        }
        places
    }
}

proof fn lemma_made_up_of_pages(
    pages: Map<usize, Page>,
    step: spec_fn(usize) -> Seq<ScriptAction>,
    blocks: spec_fn(usize) -> Seq<ScriptAction>,
)
    requires
        forall|id: usize| #[trigger] pages.contains_key(id) ==> step(id) == blocks(id),
    ensures
        made_up_of(for_each(ascending(pages.dom()), step), pages.dom(), blocks),
{
    let ids = ascending(pages.dom());
    lemma_ascending_lists(pages.dom());
    assert forall|i: int| 0 <= i < ids.len() implies #[trigger] step(ids[i]) == blocks(ids[i]) by {
        assert(ids.contains(ids[i]));
        assert(pages.contains_key(ids[i]));
    }
    let places = lemma_made_up(ids, step, blocks);
    assert(first_of(ids) =~= pages.dom()) by {
        assert forall|id: usize| first_of(ids).contains(id) <==> pages.dom().contains(id) by {
            assert(ids.contains(id) <==> pages.dom().contains(id));
        }
    }
    assert(made_up_at(for_each(ids, step), pages.dom(), blocks, places));
}

/// A script task starts without pages and without bindings, for a window of 800 by 600 pixels.
pub proof fn law_new_script_task(id: usize, js_compartment: Compartment, task: ScriptTask)
    requires
        call_ensures(ScriptTask::new, (id, js_compartment), task),
    ensures
        task@.wf(),
        task@.id == id,
        task@.js_compartment == js_compartment,
        !task@.bindings_initialized,
        task@.window_size.width == 800,
        task@.window_size.height == 600,
        forall|page: usize| !(#[trigger] task@.layout_map.contains_key(page)),
{
}

/// Every message can be handled in every state, but that a click and the notice of a reflow need
/// the page that they are about. The task goes on after every message but the one to end.
pub proof fn law_script_messages_can_be_handled(
    task: &mut ScriptTask,
    msg: ScriptMsg,
    answer: bool,
    res: (Vec<ScriptAction>, bool),
)
    requires
        old(task)@.wf(),
        call_ensures(ScriptTask::accepts, (&*old(task), &msg), answer),
        call_ensures(ScriptTask::handle_msg, (task, msg), res),
    ensures
        answer ==> call_requires(ScriptTask::handle_msg, (task, msg)),
        answer <==> match msg {
            ScriptMsg::SendEventMsg(id, Event::ClickEvent(_, _)) => old(
                task,
            )@.layout_map.contains_key(id),
            ScriptMsg::ReflowCompleteMsg(id) => old(task)@.layout_map.contains_key(id),
            _ => true,
        },
        res.1 <==> !(msg is ExitMsg),
        final(task)@.wf(),
{
}

/// To load a page, the bindings are defined first, unless they have been; then the compositor is
/// told that loading has begun; then the page is to be parsed. Nothing else changes.
pub proof fn law_loading_a_page(
    task: &mut ScriptTask,
    id: usize,
    layout_chan: LayoutChan,
    url: Url,
    res: (Vec<ScriptAction>, bool),
    direct: Vec<ScriptAction>,
)
    requires
        call_ensures(
            ScriptTask::handle_msg,
            (task, ScriptMsg::LoadMsg(id, layout_chan, url)),
            res,
        ),
        call_ensures(ScriptTask::load, (task, id, layout_chan, url), direct),
    ensures
        direct@ == res.0@,
        ({
            let first: int = if old(task)@.bindings_initialized {
                0
            } else {
                1
            };
            &&& res.0@.len() == first + 2
            &&& !old(task)@.bindings_initialized ==> res.0@[0] == ScriptAction::DefineBindings(
                old(task)@.js_compartment,
            )
            &&& res.0@[first] == ScriptAction::SetReadyState(ReadyState::Loading)
            &&& res.0@[first + 1] == (ScriptAction::ParseHtml { page: id, layout_chan, url })
        }),
        final(task)@.bindings_initialized,
        final(task)@.id == old(task)@.id,
        final(task)@.js_compartment == old(task)@.js_compartment,
        final(task)@.window_size == old(task)@.window_size,
        final(task)@.layout_map == old(task)@.layout_map,
{
}

/// A style sheet goes to the layout task of its page, once; the end of them brings nothing.
pub proof fn law_style_sheets_are_forwarded(
    task: ScriptTask,
    layout_chan: LayoutChan,
    sheet: Option<StyleSheetId>,
    actions: Vec<ScriptAction>,
)
    requires
        call_ensures(ScriptTask::style_sheet_received, (&task, layout_chan, sheet), actions),
    ensures
        sheet is None ==> actions@.len() == 0,
        sheet matches Some(s) ==> {
            &&& actions@.len() == 1
            &&& actions@[0] == (ScriptAction::AddStylesheet { layout_chan, sheet: s })
        },
{
}

/// A script that is to be executed is read first. Then the debug functions are defined and what
/// was read is evaluated, from its first line, under its path, in the task's compartment. If it
/// could not be opened, one line says so.
pub proof fn law_executing_a_script(
    task: &mut ScriptTask,
    url: Url,
    res: (Vec<ScriptAction>, bool),
    file: Result<Vec<u8>, String>,
    actions: Vec<ScriptAction>,
)
    requires
        call_ensures(ScriptTask::handle_msg, (task, ScriptMsg::ExecuteMsg(url)), res),
        call_ensures(ScriptTask::script_read, (&*final(task), url, file), actions),
    ensures
        final(task)@ == old(task)@,
        res.0@.len() == 1,
        res.0@[0] == ScriptAction::ReadScript(url),
        file matches Ok(bytes) ==> {
            &&& actions@.len() == 2
            &&& actions@[0] == ScriptAction::DefineDebugFunctions(old(task)@.js_compartment)
            &&& actions@[1] is EvaluateScript
            &&& actions@[1]->compartment == old(task)@.js_compartment
            &&& actions@[1]->source == bytes
            &&& actions@[1]->filename@ == url.path@
            &&& actions@[1]->line == 1
        },
        file matches Err(reason) ==> {
            &&& actions@.len() == 1
            &&& actions@[0] is Print
            &&& actions@[0]->Print_0@ == "Error opening "@ + url.text@ + ": "@ + reason@
        },
{
}

/// A timer calls its function once: on the object that its first argument refers to, however many
/// arguments there are, and on the global object exactly if there are none. Nothing changes.
pub proof fn law_firing_a_timer(
    task: &mut ScriptTask,
    timer_data: TimerData,
    res: (Vec<ScriptAction>, bool),
)
    requires
        call_ensures(ScriptTask::handle_msg, (task, ScriptMsg::FireTimerMsg(timer_data)), res),
    ensures
        final(task)@ == old(task)@,
        res.0@.len() == 1,
        res.0@[0] is CallFunction,
        res.0@[0]->cx == old(task)@.js_compartment.cx,
        res.0@[0]->funval == timer_data.funval,
        res.0@[0]->this is Global <==> timer_data.args@.len() == 0,
        res.0@[0]->this is Global ==> res.0@[0]->this == ThisValue::Global(
            old(task)@.js_compartment.global_obj,
        ),
        timer_data.args@.len() >= 1 ==> res.0@[0]->this == ThisValue::Argument(
            timer_data.args@[0],
        ),
{
}

/// What a timer calls its function on does not depend on any argument but the first.
pub proof fn law_later_arguments_of_a_timer_do_not_matter(
    one: &mut ScriptTask,
    other: &mut ScriptTask,
    funval: JSVal,
    args: Vec<JSVal>,
    more: Vec<JSVal>,
    res: (Vec<ScriptAction>, bool),
    same: (Vec<ScriptAction>, bool),
)
    requires
        old(one)@ == old(other)@,
        args@.len() > 0,
        more@.len() > 0,
        args@[0] == more@[0],
        call_ensures(
            ScriptTask::handle_msg,
            (one, ScriptMsg::FireTimerMsg(TimerData { funval, args })),
            res,
        ),
        call_ensures(
            ScriptTask::handle_msg,
            (other, ScriptMsg::FireTimerMsg(TimerData { funval, args: more })),
            same,
        ),
    ensures
        res.0@ == same.0@,
{
}

/// Whether all pages have been laid out anew, with what they held otherwise unchanged.
pub open spec fn all_laid_out(before: ScriptTaskView, after: ScriptTaskView) -> bool {
    forall|id: usize| #[trigger]
        before.layout_map.contains_key(id) ==> {
            let page = after.layout_map[id];
            &&& same_content(before.layout_map[id], page)
            &&& page.layout_join_port
            &&& page.damage is None
            &&& page.window_size == after.window_size
        }
}

/// When the function of a timer has returned, every page is laid out once, for a script query and
/// with the damage that it has.
pub proof fn law_layout_after_a_timer(task: &mut ScriptTask, actions: Vec<ScriptAction>)
    requires
        old(task)@.wf(),
        forall|id: usize| #[trigger]
            old(task)@.layout_map.contains_key(id) ==> old(task)@.layout_map[id].damage is Some,
        call_ensures(ScriptTask::timer_returned, (task,), actions),
    ensures
        call_requires(ScriptTask::timer_returned, (task,)),
        same_but_for_pages(old(task)@, final(task)@),
        all_laid_out(old(task)@, final(task)@),
        lays_out_each_page_once(actions@, old(task)@.layout_map),
        made_up_of(
            actions@,
            old(task)@.layout_map.dom(),
            |id: usize|
                laying_out(
                    id,
                    old(task)@.layout_map[id],
                    ReflowGoal::ReflowForScriptQuery,
                    old(task)@.window_size,
                    old(task)@.layout_map[id].damage->0,
                ),
        ),
{
    let before = old(task)@;
    let blocks = |id: usize|
        laying_out(
            id,
            before.layout_map[id],
            ReflowGoal::ReflowForScriptQuery,
            before.window_size,
            before.layout_map[id].damage->0,
        );
    let step = reflow_step(before, None, ReflowGoal::ReflowForScriptQuery);
    lemma_made_up_of_pages(before.layout_map, step, blocks);
    lemma_lays_out_each_page_once(
        actions@,
        before.layout_map,
        blocks,
        ReflowGoal::ReflowForScriptQuery,
        before.window_size,
        |id: usize| before.layout_map[id].damage->0,
    );
}

/// A new size of the window is taken over by the task and all of its pages; every page is laid out
/// once, for display, at that size, with reflow damage added to what it had.
pub proof fn law_resizing(
    task: &mut ScriptTask,
    target: usize,
    width: usize,
    height: usize,
    res: (Vec<ScriptAction>, bool),
)
    requires
        old(task)@.wf(),
        call_ensures(
            ScriptTask::handle_msg,
            (task, ScriptMsg::SendEventMsg(target, Event::ResizeEvent(width, height))),
            res,
        ),
    ensures
        final(task)@.window_size.width == width,
        final(task)@.window_size.height == height,
        same_but_for_pages(
            ScriptTaskView { window_size: final(task)@.window_size, ..old(task)@ },
            final(task)@,
        ),
        all_laid_out(old(task)@, final(task)@),
        lays_out_each_page_once(res.0@, old(task)@.layout_map),
        made_up_of(
            res.0@,
            old(task)@.layout_map.dom(),
            |id: usize|
                laying_out(
                    id,
                    old(task)@.layout_map[id],
                    ReflowGoal::ReflowForDisplay,
                    Size2D { width, height },
                    worsened(
                        old(task)@.layout_map[id],
                        DocumentDamageLevel::ReflowDocumentDamage,
                    ),
                ),
        ),
{
    let before = old(task)@;
    let resized = before.resized(Size2D { width, height });
    let blocks = |id: usize|
        laying_out(
            id,
            before.layout_map[id],
            ReflowGoal::ReflowForDisplay,
            Size2D { width, height },
            worsened(before.layout_map[id], DocumentDamageLevel::ReflowDocumentDamage),
        );
    let step = reflow_step(
        resized,
        Some(DocumentDamageLevel::ReflowDocumentDamage),
        ReflowGoal::ReflowForDisplay,
    );
    assert(resized.layout_map.dom() =~= before.layout_map.dom());
    lemma_made_up_of_pages(before.layout_map, step, blocks);
    lemma_lays_out_each_page_once(
        res.0@,
        before.layout_map,
        blocks,
        ReflowGoal::ReflowForDisplay,
        Size2D { width, height },
        |id: usize| worsened(before.layout_map[id], DocumentDamageLevel::ReflowDocumentDamage),
    );
}

/// A request to lay everything out again has every page laid out once, for display, with selectors
/// to be matched.
pub proof fn law_laying_everything_out(
    task: &mut ScriptTask,
    target: usize,
    res: (Vec<ScriptAction>, bool),
)
    requires
        old(task)@.wf(),
        call_ensures(
            ScriptTask::handle_msg,
            (task, ScriptMsg::SendEventMsg(target, Event::ReflowEvent)),
            res,
        ),
    ensures
        same_but_for_pages(old(task)@, final(task)@),
        all_laid_out(old(task)@, final(task)@),
        lays_out_each_page_once(res.0@, old(task)@.layout_map),
        made_up_of(
            res.0@,
            old(task)@.layout_map.dom(),
            |id: usize|
                laying_out(
                    id,
                    old(task)@.layout_map[id],
                    ReflowGoal::ReflowForDisplay,
                    old(task)@.window_size,
                    DocumentDamage {
                        root: old(task)@.layout_map[id].frames@[0].document.root,
                        level: DocumentDamageLevel::MatchSelectorsDocumentDamage,
                    },
                ),
        ),
{
    let before = old(task)@;
    let blocks = |id: usize|
        laying_out(
            id,
            before.layout_map[id],
            ReflowGoal::ReflowForDisplay,
            before.window_size,
            DocumentDamage {
                root: before.layout_map[id].frames@[0].document.root,
                level: DocumentDamageLevel::MatchSelectorsDocumentDamage,
            },
        );
    let step = reflow_step(
        before,
        Some(DocumentDamageLevel::MatchSelectorsDocumentDamage),
        ReflowGoal::ReflowForDisplay,
    );
    lemma_made_up_of_pages(before.layout_map, step, blocks);
    lemma_lays_out_each_page_once(
        res.0@,
        before.layout_map,
        blocks,
        ReflowGoal::ReflowForDisplay,
        before.window_size,
        |id: usize|
            DocumentDamage {
                root: before.layout_map[id].frames@[0].document.root,
                level: DocumentDamageLevel::MatchSelectorsDocumentDamage,
            },
    );
}

/// Whether each page is laid out once: the layouts requested are of the pages, in ascending order;
/// each is announced right before, and right before that the layout task is pinged and awaited,
/// if layout of the page was running; and there is nothing else.
pub open spec fn lays_out_each_page_once(
    actions: Seq<ScriptAction>,
    pages: Map<usize, Page>,
) -> bool {
    &&& forall|id: usize| #[trigger]
        pages.contains_key(id) ==> exists|i: int|
            0 <= i < actions.len() && #[trigger] actions[i] is ForkLayout
                && actions[i]->ForkLayout_page == id
    &&& forall|i: int, j: int|
        0 <= i < j < actions.len() && #[trigger] actions[i] is ForkLayout
            && #[trigger] actions[j] is ForkLayout ==> actions[i]->ForkLayout_page
            < actions[j]->ForkLayout_page
    &&& forall|i: int| 0 <= i < actions.len() ==> #[trigger] leads_to_layout(actions, pages, i)
}

/// Whether an action requests a layout of a page, announced and after a ping and a wait if one was
/// running, or is such an announcement, ping or wait.
pub open spec fn leads_to_layout(
    actions: Seq<ScriptAction>,
    pages: Map<usize, Page>,
    i: int,
) -> bool {
    match actions[i] {
        ScriptAction::ForkLayout { page, layout_chan, .. } => {
            &&& pages.contains_key(page)
            &&& layout_chan == pages[page].layout_chan
            &&& i >= 1
            &&& actions[i - 1] == ScriptAction::SetReadyState(ReadyState::PerformingLayout)
            &&& pages[page].layout_join_port ==> {
                &&& i >= 3
                &&& actions[i - 2] == ScriptAction::JoinLayout(page)
                &&& actions[i - 3] == ScriptAction::PingLayout(layout_chan)
            }
        },
        ScriptAction::SetReadyState(_) => i + 1 < actions.len() && actions[i + 1] is ForkLayout,
        ScriptAction::JoinLayout(page) => {
            &&& pages.contains_key(page)
            &&& pages[page].layout_join_port
            &&& i + 2 < actions.len()
            &&& actions[i + 2] is ForkLayout
            &&& actions[i + 2]->ForkLayout_page == page
        },
        ScriptAction::PingLayout(_) => i + 1 < actions.len() && actions[i + 1] is JoinLayout,
        _ => false,
    }
}

/// Whether the block of every page lays that page out.
spec fn blocks_lay_out(
    pages: Map<usize, Page>,
    blocks: spec_fn(usize) -> Seq<ScriptAction>,
    goal: ReflowGoal,
    window_size: Size2D,
    damage: spec_fn(usize) -> DocumentDamage,
) -> bool {
    forall|id: usize| #[trigger]
        pages.contains_key(id) ==> blocks(id) == laying_out(
            id,
            pages[id],
            goal,
            window_size,
            damage(id),
        )
}

/// What stands in the block of a page.
#[verifier::rlimit(40)]
proof fn lemma_layout_block(
    actions: Seq<ScriptAction>,
    id: usize,
    page: Page,
    start: int,
    goal: ReflowGoal,
    window_size: Size2D,
    damage: DocumentDamage,
)
    requires
        ({
            let block = laying_out(id, page, goal, window_size, damage);
            &&& 0 <= start
            &&& start + block.len() <= actions.len()
            &&& forall|i: int|
                0 <= i < block.len() ==> actions[start + i] == #[trigger] block[i]
        }),
    ensures
        ({
            let joins: int = if page.layout_join_port {
                2
            } else {
                0
            };
            &&& laying_out(id, page, goal, window_size, damage).len() == joins + 2
            &&& page.layout_join_port ==> {
                &&& actions[start] == ScriptAction::PingLayout(page.layout_chan)
                &&& actions[start + 1] == ScriptAction::JoinLayout(id)
            }
            &&& actions[start + joins] == ScriptAction::SetReadyState(ReadyState::PerformingLayout)
            &&& actions[start + joins + 1] is ForkLayout
            &&& actions[start + joins + 1]->ForkLayout_page == id
            &&& actions[start + joins + 1]->ForkLayout_layout_chan == page.layout_chan
        }),
{
    let block = laying_out(id, page, goal, window_size, damage);
    assert(actions[start + 0] == block[0]);
    assert(actions[start + 1] == block[1]);
    if page.layout_join_port {
        assert(actions[start + 2] == block[2]);
        assert(actions[start + 3] == block[3]);
    }
}

#[verifier::rlimit(40)]
proof fn lemma_leads_to_layout(
    actions: Seq<ScriptAction>,
    pages: Map<usize, Page>,
    blocks: spec_fn(usize) -> Seq<ScriptAction>,
    places: spec_fn(usize) -> int,
    goal: ReflowGoal,
    window_size: Size2D,
    damage: spec_fn(usize) -> DocumentDamage,
    i: int,
)
    requires
        made_up_at(actions, pages.dom(), blocks, places),
        blocks_lay_out(pages, blocks, goal, window_size, damage),
        0 <= i < actions.len(),
    ensures
        leads_to_layout(actions, pages, i),
        actions[i] is ForkLayout ==> i == places(actions[i]->ForkLayout_page) + blocks(
            actions[i]->ForkLayout_page,
        ).len() - 1,
{
    assert(lies_in_a_block(i, pages.dom(), blocks, places));
    let id = choose|id: usize| #[trigger]
        pages.dom().contains(id) && places(id) <= i < places(id) + blocks(id).len();
    assert(pages.contains_key(id));
    lemma_layout_block(
        actions,
        id,
        pages[id],
        places(id),
        goal,
        window_size,
        damage(id),
    );
    lemma_in_layout_block(actions, pages, id, places(id), i);
}

/// Every action of a block of the given form leads to the layout of its page.
proof fn lemma_in_layout_block(
    actions: Seq<ScriptAction>,
    pages: Map<usize, Page>,
    id: usize,
    start: int,
    i: int,
)
    requires
        pages.contains_key(id),
        ({
            let page = pages[id];
            let joins: int = if page.layout_join_port {
                2
            } else {
                0
            };
            &&& 0 <= start <= i < start + joins + 2 <= actions.len()
            &&& page.layout_join_port ==> {
                &&& actions[start] == ScriptAction::PingLayout(page.layout_chan)
                &&& actions[start + 1] == ScriptAction::JoinLayout(id)
            }
            &&& actions[start + joins] == ScriptAction::SetReadyState(ReadyState::PerformingLayout)
            &&& actions[start + joins + 1] is ForkLayout
            &&& actions[start + joins + 1]->ForkLayout_page == id
            &&& actions[start + joins + 1]->ForkLayout_layout_chan == page.layout_chan
        }),
    ensures
        leads_to_layout(actions, pages, i),
        actions[i] is ForkLayout ==> {
            &&& actions[i]->ForkLayout_page == id
            &&& i == start + 1 + if pages[id].layout_join_port {
                2int
            } else {
                0int
            }
        },
{
}

#[verifier::rlimit(40)]
proof fn lemma_lays_out_each_page_once(
    actions: Seq<ScriptAction>,
    pages: Map<usize, Page>,
    blocks: spec_fn(usize) -> Seq<ScriptAction>,
    goal: ReflowGoal,
    window_size: Size2D,
    damage: spec_fn(usize) -> DocumentDamage,
)
    requires
        made_up_of(actions, pages.dom(), blocks),
        blocks_lay_out(pages, blocks, goal, window_size, damage),
    ensures
        lays_out_each_page_once(actions, pages),
{
    let ids = pages.dom();
    let places = choose|places: spec_fn(usize) -> int| #[trigger]
        made_up_at(actions, ids, blocks, places);
    assert forall|id: usize| #[trigger] pages.contains_key(id) implies exists|i: int|
        0 <= i < actions.len() && #[trigger] actions[i] is ForkLayout
            && actions[i]->ForkLayout_page == id by {
        assert(ids.contains(id));
        lemma_layout_block(
            actions,
            id,
            pages[id],
            places(id),
            goal,
            window_size,
            damage(id),
        );
        let last = places(id) + blocks(id).len() - 1;
        assert(actions[last] is ForkLayout);
    }
    assert forall|i: int| 0 <= i < actions.len() implies #[trigger] leads_to_layout(
        actions,
        pages,
        i,
    ) by {
        lemma_leads_to_layout(actions, pages, blocks, places, goal, window_size, damage, i);
    }
    assert forall|i: int, j: int|
        0 <= i < j < actions.len() && #[trigger] actions[i] is ForkLayout
            && #[trigger] actions[j] is ForkLayout implies actions[i]->ForkLayout_page
        < actions[j]->ForkLayout_page by {
        lemma_leads_to_layout(actions, pages, blocks, places, goal, window_size, damage, i);
        lemma_leads_to_layout(actions, pages, blocks, places, goal, window_size, damage, j);
        let a = actions[i]->ForkLayout_page;
        let b = actions[j]->ForkLayout_page;
        assert(ids.contains(a) && ids.contains(b));
    }
}

/// A click on a page asks its layout task, once and when layout is done, which node of its outermost
/// document is at the point. Layout of the page is then not running; nothing else changes.
pub proof fn law_clicking(
    task: &mut ScriptTask,
    id: usize,
    button: usize,
    point: ScreenPoint,
    res: (Vec<ScriptAction>, bool),
)
    requires
        old(task)@.wf(),
        old(task)@.layout_map.contains_key(id),
        call_ensures(
            ScriptTask::handle_msg,
            (task, ScriptMsg::SendEventMsg(id, Event::ClickEvent(button, point))),
            res,
        ),
    ensures
        ({
            let page = old(task)@.layout_map[id];
            &&& res.0@.len() == if page.layout_join_port {
                3int
            } else {
                1int
            }
            &&& page.layout_join_port ==> {
                &&& res.0@[0] == ScriptAction::PingLayout(page.layout_chan)
                &&& res.0@[1] == ScriptAction::JoinLayout(id)
            }
            &&& res.0@.last() is QueryLayout
            &&& res.0@.last()->QueryLayout_page == id
            &&& res.0@.last()->QueryLayout_layout_chan == page.layout_chan
            &&& res.0@.last()->query == LayoutQuery::HitTestQuery(
                page.frames@[0].document.root,
                point,
            )
            &&& final(task)@.layout_map[id] == (Page { layout_join_port: false, ..page })
            &&& same_but_for_page(old(task)@, final(task)@, id)
        }),
{
}

/// Pressing and releasing a button do nothing.
pub proof fn law_pressing_and_releasing(
    task: &mut ScriptTask,
    id: usize,
    event: Event,
    res: (Vec<ScriptAction>, bool),
)
    requires
        event is MouseDownEvent || event is MouseUpEvent,
        call_ensures(ScriptTask::handle_msg, (task, ScriptMsg::SendEventMsg(id, event)), res),
    ensures
        res.0@.len() == 0,
        final(task)@ == old(task)@,
{
}

/// The notice that a reflow is complete tells the compositor, once, that loading has finished,
/// whether or not the layout has been joined already. Layout of the page is then not running;
/// nothing else changes.
pub proof fn law_completing_a_reflow(
    task: &mut ScriptTask,
    id: usize,
    res: (Vec<ScriptAction>, bool),
)
    requires
        old(task)@.wf(),
        old(task)@.layout_map.contains_key(id),
        call_ensures(ScriptTask::handle_msg, (task, ScriptMsg::ReflowCompleteMsg(id)), res),
    ensures
        res.0@.len() == 1,
        res.0@[0] == ScriptAction::SetReadyState(ReadyState::FinishedLoading),
        final(task)@.layout_map[id] == (Page {
            layout_join_port: false,
            ..old(task)@.layout_map[id]
        }),
        same_but_for_page(old(task)@, final(task)@, id),
{
}

/// A layout that has been joined is completed as one that has not: the compositor is told the same.
pub proof fn law_joining_does_not_silence_completion(
    joining_task: &mut ScriptTask,
    id: usize,
    joins: Vec<ScriptAction>,
    joined: &mut ScriptTask,
    late: (Vec<ScriptAction>, bool),
    running: &mut ScriptTask,
    res: (Vec<ScriptAction>, bool),
)
    requires
        old(joining_task)@.wf(),
        old(joining_task)@.layout_map.contains_key(id),
        call_ensures(ScriptTask::join_layout, (joining_task, id), joins),
        old(joined)@ == final(joining_task)@,
        call_ensures(ScriptTask::handle_msg, (joined, ScriptMsg::ReflowCompleteMsg(id)), late),
        old(running)@ == old(joining_task)@,
        call_ensures(ScriptTask::handle_msg, (running, ScriptMsg::ReflowCompleteMsg(id)), res),
    ensures
        late.0@ == res.0@,
        late.0@.contains(ScriptAction::SetReadyState(ReadyState::FinishedLoading)),
        final(joined)@ == final(running)@,
{
    assert(late.0@[0] == ScriptAction::SetReadyState(ReadyState::FinishedLoading));
    assert(final(joined)@.layout_map =~= final(running)@.layout_map);
}

/// The end of the task joins the layout of every page and then tears its document down, once for
/// each page. No layout is running then; nothing else changes.
pub proof fn law_ending_the_task(task: &mut ScriptTask, res: (Vec<ScriptAction>, bool))
    requires
        old(task)@.wf(),
        call_ensures(ScriptTask::handle_msg, (task, ScriptMsg::ExitMsg), res),
    ensures
        same_but_for_pages(old(task)@, final(task)@),
        forall|id: usize| #[trigger]
            old(task)@.layout_map.contains_key(id) ==> final(task)@.layout_map[id] == (Page {
                layout_join_port: false,
                ..old(task)@.layout_map[id]
            }),
        made_up_of(
            res.0@,
            old(task)@.layout_map.dom(),
            |id: usize|
                joining(id, old(task)@.layout_map[id]) + seq![
                    ScriptAction::Teardown(old(task)@.layout_map[id].frames@[0].document),
                ],
        ),
{
    let before = old(task)@;
    let blocks = |id: usize|
        joining(id, before.layout_map[id]) + seq![
            ScriptAction::Teardown(before.layout_map[id].frames@[0].document),
        ];
    lemma_made_up_of_pages(before.layout_map, exit_step(before), blocks);
}

/// Whether the document of a page is torn down at a place, when layout of the page is done.
pub open spec fn tears_down_at(
    actions: Seq<ScriptAction>,
    id: usize,
    page: Page,
    at: int,
) -> bool {
    &&& 0 <= at < actions.len()
    &&& actions[at] == ScriptAction::Teardown(page.frames@[0].document)
    &&& page.layout_join_port ==> {
        &&& at >= 2
        &&& actions[at - 1] == ScriptAction::JoinLayout(id)
        &&& actions[at - 2] == ScriptAction::PingLayout(page.layout_chan)
    }
}

/// Whether an action is a teardown at one of the places, or a ping, or the wait after it.
pub open spec fn leads_to_teardown(
    actions: Seq<ScriptAction>,
    pages: Map<usize, Page>,
    places: Seq<int>,
    i: int,
) -> bool {
    match actions[i] {
        ScriptAction::Teardown(_) => places.contains(i),
        ScriptAction::PingLayout(_) => i + 1 < actions.len() && actions[i + 1] is JoinLayout,
        ScriptAction::JoinLayout(id) => {
            &&& places.contains(i + 1)
            &&& pages.contains_key(id)
            &&& pages[id].layout_join_port
        },
        _ => false,
    }
}

/// The blocks of actions at the end of a task.
spec fn ending(pages: Map<usize, Page>) -> spec_fn(usize) -> Seq<ScriptAction> {
    |id: usize|
        joining(id, pages[id]) + seq![ScriptAction::Teardown(pages[id].frames@[0].document)]
}

#[verifier::rlimit(40)]
proof fn lemma_tears_down_at(
    actions: Seq<ScriptAction>,
    pages: Map<usize, Page>,
    starts: spec_fn(usize) -> int,
    id: usize,
)
    requires
        made_up_at(actions, pages.dom(), ending(pages), starts),
        pages.contains_key(id),
    ensures
        tears_down_at(actions, id, pages[id], starts(id) + ending(pages)(id).len() - 1),
{
    let block = ending(pages)(id);
    assert(pages.dom().contains(id));
    assert(actions[starts(id) + 0] == block[0]);
    if pages[id].layout_join_port {
        assert(actions[starts(id) + 1] == block[1]);
        assert(actions[starts(id) + 2] == block[2]);
    }
}

#[verifier::rlimit(40)]
proof fn lemma_leads_to_teardown(
    actions: Seq<ScriptAction>,
    pages: Map<usize, Page>,
    starts: spec_fn(usize) -> int,
    places: Seq<int>,
    i: int,
)
    requires
        made_up_at(actions, pages.dom(), ending(pages), starts),
        forall|id: usize| #[trigger]
            pages.contains_key(id) ==> places.contains(
                starts(id) + ending(pages)(id).len() - 1,
            ),
        0 <= i < actions.len(),
    ensures
        leads_to_teardown(actions, pages, places, i),
{
    let blocks = ending(pages);
    assert(lies_in_a_block(i, pages.dom(), blocks, starts));
    let id = choose|id: usize| #[trigger]
        pages.dom().contains(id) && starts(id) <= i < starts(id) + blocks(id).len();
    assert(pages.contains_key(id));
    let block = blocks(id);
    assert(actions[starts(id) + 0] == block[0]);
    if pages[id].layout_join_port {
        assert(actions[starts(id) + 1] == block[1]);
        assert(actions[starts(id) + 2] == block[2]);
    }
}

/// The end of the task tears down one document for each page, in the order of their ids, each when
/// layout of the page is done; what is not a teardown is a ping or the wait after it.
pub proof fn law_one_teardown_for_each_page(
    task: &mut ScriptTask,
    res: (Vec<ScriptAction>, bool),
) -> (found: (Seq<usize>, Seq<int>))
    requires
        old(task)@.wf(),
        call_ensures(ScriptTask::handle_msg, (task, ScriptMsg::ExitMsg), res),
    ensures
        found.0.len() == found.1.len(),
        forall|id: usize| #[trigger]
            found.0.contains(id) <==> old(task)@.layout_map.contains_key(id),
        forall|j: int, k: int| 0 <= j < k < found.0.len() ==> found.0[j] < found.0[k],
        forall|j: int, k: int| 0 <= j < k < found.1.len() ==> found.1[j] < found.1[k],
        forall|k: int|
            0 <= k < found.0.len() ==> tears_down_at(
                res.0@,
                found.0[k],
                old(task)@.layout_map[found.0[k]],
                #[trigger] found.1[k],
            ),
        forall|i: int|
            0 <= i < res.0@.len() ==> #[trigger] leads_to_teardown(
                res.0@,
                old(task)@.layout_map,
                found.1,
                i,
            ),
{
    lemma_one_teardown_for_each_page(res.0@, old(task)@)
}

#[verifier::rlimit(40)]
proof fn lemma_one_teardown_for_each_page(actions: Seq<ScriptAction>, before: ScriptTaskView) -> (
    found: (Seq<usize>, Seq<int>))
    requires
        actions == for_each(ascending(before.layout_map.dom()), exit_step(before)),
    ensures
        found.0.len() == found.1.len(),
        forall|id: usize| #[trigger]
            found.0.contains(id) <==> before.layout_map.contains_key(id),
        forall|j: int, k: int| 0 <= j < k < found.0.len() ==> found.0[j] < found.0[k],
        forall|j: int, k: int| 0 <= j < k < found.1.len() ==> found.1[j] < found.1[k],
        forall|k: int|
            0 <= k < found.0.len() ==> tears_down_at(
                actions,
                found.0[k],
                before.layout_map[found.0[k]],
                #[trigger] found.1[k],
            ),
        forall|i: int|
            0 <= i < actions.len() ==> #[trigger] leads_to_teardown(
                actions,
                before.layout_map,
                found.1,
                i,
            ),
{
    let pages = before.layout_map;
    let blocks = ending(pages);
    lemma_made_up_of_pages(pages, exit_step(before), blocks);
    let starts = choose|starts: spec_fn(usize) -> int| #[trigger]
        made_up_at(actions, pages.dom(), blocks, starts);
    let ids = ascending(pages.dom());
    lemma_ascending_lists(pages.dom());
    let places = Seq::new(ids.len(), |k: int| starts(ids[k]) + blocks(ids[k]).len() - 1);
    assert forall|id: usize| #[trigger] ids.contains(id) <==> pages.contains_key(id) by {
        assert(ids.contains(id) <==> pages.dom().contains(id));
    }
    assert forall|k: int| 0 <= k < ids.len() implies tears_down_at(
        actions,
        ids[k],
        pages[ids[k]],
        #[trigger] places[k],
    ) by {
        assert(ids.contains(ids[k]));
        lemma_tears_down_at(actions, pages, starts, ids[k]);
    }
    assert forall|j: int, k: int| 0 <= j < k < places.len() implies places[j] < places[k] by {
        assert(ids.contains(ids[j]) && ids.contains(ids[k]));
        assert(pages.dom().contains(ids[j]) && pages.dom().contains(ids[k]));
        assert(ids[j] < ids[k]);
    }
    assert forall|id: usize| #[trigger] pages.contains_key(id) implies places.contains(
        starts(id) + ending(pages)(id).len() - 1,
    ) by {
        assert(ids.contains(id));
        let k = choose|k: int| 0 <= k < ids.len() && ids[k] == id;
        assert(places[k] == starts(id) + blocks(id).len() - 1);
    }
    assert forall|i: int| 0 <= i < actions.len() implies #[trigger] leads_to_teardown(
        actions,
        pages,
        places,
        i,
    ) by {
        lemma_leads_to_teardown(actions, pages, starts, places, i);
    }
    (ids, places)
}

/// Joining the layout of a page pings and waits if it is running, and does nothing if it is not.
pub proof fn law_joining(task: &mut ScriptTask, id: usize, actions: Vec<ScriptAction>)
    requires
        old(task)@.wf(),
        old(task)@.layout_map.contains_key(id),
        call_ensures(ScriptTask::join_layout, (task, id), actions),
    ensures
        call_requires(ScriptTask::join_layout, (task, id)),
        !old(task)@.layout_map[id].layout_join_port ==> actions@.len() == 0,
        old(task)@.layout_map[id].layout_join_port ==> {
            &&& actions@.len() == 2
            &&& actions@[0] == ScriptAction::PingLayout(old(task)@.layout_map[id].layout_chan)
            &&& actions@[1] == ScriptAction::JoinLayout(id)
        },
        final(task)@.layout_map[id] == (Page {
            layout_join_port: false,
            ..old(task)@.layout_map[id]
        }),
        same_but_for_page(old(task)@, final(task)@, id),
{
}

/// Adding damage to a page changes its damage alone.
pub proof fn law_damaging_a_page(task: &mut ScriptTask, id: usize, level: DocumentDamageLevel)
    requires
        old(task)@.wf(),
        old(task)@.layout_map.contains_key(id),
        call_ensures(ScriptTask::damage_page, (task, id, level), ()),
    ensures
        call_requires(ScriptTask::damage_page, (task, id, level)),
        final(task)@.layout_map[id] == (Page {
            damage: Some(worsened(old(task)@.layout_map[id], level)),
            ..old(task)@.layout_map[id]
        }),
        same_but_for_page(old(task)@, final(task)@, id),
{
}

/// Damage that is added is there afterwards at the given root, and asks for selectors to be matched
/// exactly if the new damage or the old one does.
pub proof fn law_adding_damage(
    damage: &mut Option<DocumentDamage>,
    root: NodeId,
    level: DocumentDamageLevel,
)
    requires
        call_ensures(ScriptTask::damage, (damage, root, level), ()),
    ensures
        *final(damage) is Some,
        final(damage)->0.root == root,
        final(damage)->0.level is MatchSelectorsDocumentDamage <==> {
            ||| level is MatchSelectorsDocumentDamage
            ||| *old(damage) is Some && old(damage)->0.level is MatchSelectorsDocumentDamage
        },
{
}

/// To reflow a page is to join its layout, to announce that layout is performed, and to hand the
/// layout task all damage of the page, which is then gone; layout is running then.
pub proof fn law_reflowing(
    task: &mut ScriptTask,
    id: usize,
    goal: ReflowGoal,
    actions: Vec<ScriptAction>,
    only_joining: &mut ScriptTask,
    joins: Vec<ScriptAction>,
)
    requires
        old(task)@.wf(),
        old(task)@.layout_map.contains_key(id),
        old(task)@.layout_map[id].damage is Some,
        call_ensures(ScriptTask::reflow, (task, id, goal), actions),
        old(only_joining)@ == old(task)@,
        call_ensures(ScriptTask::join_layout, (only_joining, id), joins),
    ensures
        call_requires(ScriptTask::reflow, (task, id, goal)),
        ({
            let page = old(task)@.layout_map[id];
            let count = joins@.len() as int;
            &&& actions@.len() == count + 2
            &&& forall|i: int| 0 <= i < count ==> #[trigger] actions@[i] == joins@[i]
            &&& actions@[count] == ScriptAction::SetReadyState(ReadyState::PerformingLayout)
            &&& actions@[count + 1] is ForkLayout
            &&& actions@[count + 1]->ForkLayout_page == id
            &&& actions@[count + 1]->ForkLayout_layout_chan == page.layout_chan
            &&& actions@[count + 1]->reflow.document_root == page.frames@[0].document.root
            &&& actions@[count + 1]->reflow.url == page.frames@[0].url
            &&& actions@[count + 1]->reflow.goal == goal
            &&& actions@[count + 1]->reflow.window_size == old(task)@.window_size
            &&& Some(actions@[count + 1]->reflow.damage) == page.damage
        }),
        final(task)@.layout_map[id] == (Page {
            layout_join_port: true,
            damage: None,
            ..old(task)@.layout_map[id]
        }),
        same_but_for_page(old(task)@, final(task)@, id),
{
}

/// To reflow the entire document of a page is to reflow it with selectors to be matched.
pub proof fn law_reflowing_the_entire_document(
    task: &mut ScriptTask,
    id: usize,
    goal: ReflowGoal,
    actions: Vec<ScriptAction>,
    damaging: &mut ScriptTask,
    reflowing: &mut ScriptTask,
    same: Vec<ScriptAction>,
)
    requires
        old(task)@.wf(),
        old(task)@.layout_map.contains_key(id),
        call_ensures(ScriptTask::reflow_all, (task, id, goal), actions),
        old(damaging)@ == old(task)@,
        call_ensures(
            ScriptTask::damage_page,
            (damaging, id, DocumentDamageLevel::MatchSelectorsDocumentDamage),
            (),
        ),
        old(reflowing)@ == final(damaging)@,
        call_ensures(ScriptTask::reflow, (reflowing, id, goal), same),
    ensures
        call_requires(ScriptTask::reflow_all, (task, id, goal)),
        call_requires(ScriptTask::reflow, (reflowing, id, goal)),
        actions@ == same@,
        final(task)@ == final(reflowing)@,
        actions@.len() >= 2,
        actions@.last() is ForkLayout,
        actions@.last()->reflow.damage.level is MatchSelectorsDocumentDamage,
        actions@.last()->reflow.damage.root == old(task)@.layout_map[id].frames@[0].document.root,
        final(task)@.layout_map[id] == (Page {
            layout_join_port: true,
            damage: None,
            ..old(task)@.layout_map[id]
        }),
        same_but_for_page(old(task)@, final(task)@, id),
{
}

/// To query layout is to join it and then to ask, once.
pub proof fn law_querying_layout(
    task: &mut ScriptTask,
    id: usize,
    query: LayoutQuery,
    actions: Vec<ScriptAction>,
    only_joining: &mut ScriptTask,
    joins: Vec<ScriptAction>,
)
    requires
        old(task)@.wf(),
        old(task)@.layout_map.contains_key(id),
        call_ensures(ScriptTask::query_layout, (task, id, query), actions),
        old(only_joining)@ == old(task)@,
        call_ensures(ScriptTask::join_layout, (only_joining, id), joins),
    ensures
        call_requires(ScriptTask::query_layout, (task, id, query)),
        final(task)@ == final(only_joining)@,
        actions@ == joins@.push(
            ScriptAction::QueryLayout {
                page: id,
                layout_chan: old(task)@.layout_map[id].layout_chan,
                query,
            },
        ),
        final(task)@.layout_map[id] == (Page {
            layout_join_port: false,
            ..old(task)@.layout_map[id]
        }),
        same_but_for_page(old(task)@, final(task)@, id),
{
}

/// The accessors tell what the task holds.
pub proof fn law_script_task_accessors(
    task: ScriptTask,
    id: usize,
    page: Option<&Page>,
    compartment: Compartment,
    damaged: bool,
)
    requires
        call_ensures(ScriptTask::page, (&task, id), page),
        call_ensures(ScriptTask::js_compartment, (&task,), compartment),
        call_ensures(ScriptTask::is_all_damaged, (&task,), damaged),
    ensures
        page is Some <==> task@.layout_map.contains_key(id),
        page is Some ==> *page->0 == task@.layout_map[id],
        compartment == task@.js_compartment,
        damaged <==> !exists|other: usize| #[trigger]
            task@.layout_map.contains_key(other) && task@.layout_map[other].damage is None,
{
}

/// Whether the actions load the links among some attributes, which stand at the given places.
pub open spec fn loads_links_at(
    actions: Seq<ScriptAction>,
    attrs: Seq<Attr>,
    base: Url,
    places: Seq<int>,
) -> bool {
    &&& actions.len() == places.len()
    &&& forall|j: int, k: int| 0 <= j < k < places.len() ==> places[j] < places[k]
    &&& forall|k: int|
        0 <= k < places.len() ==> {
            &&& 0 <= #[trigger] places[k] < attrs.len()
            &&& attrs[places[k]].name@ == seq!['h', 'r', 'e', 'f']
            &&& actions[k] == (ScriptAction::LoadUrl { href: attrs[places[k]].value, base })
        }
    &&& forall|i: int|
        0 <= i < attrs.len() && (#[trigger] attrs[i]).name@ == seq!['h', 'r', 'e', 'f'] ==>
            places.contains(i)
}

proof fn lemma_loads_links(attrs: Seq<Attr>, base: Url) -> (places: Seq<int>)
    ensures
        loads_links_at(link_actions(attrs, base), attrs, base, places),
    decreases attrs.len(),
{
    reveal(Seq::filter);
    if attrs.len() == 0 {
        seq![]
    } else {
        let rest = attrs.drop_last();
        let last = attrs.last();
        let earlier = link_actions(rest, base);
        let before = lemma_loads_links(rest, base);
        let places = if last.name@ == seq!['h', 'r', 'e', 'f'] {
            before.push(attrs.len() - 1)
        } else {
            before
        };
        let all = link_actions(attrs, base);
        if last.name@ == seq!['h', 'r', 'e', 'f'] {
            assert(all =~= earlier.push(ScriptAction::LoadUrl { href: last.value, base }));
        } else {
            assert(all =~= earlier);
        }
        assert forall|k: int| 0 <= k < places.len() implies {
            &&& 0 <= #[trigger] places[k] < attrs.len()
            &&& attrs[places[k]].name@ == seq!['h', 'r', 'e', 'f']
            &&& all[k] == (ScriptAction::LoadUrl { href: attrs[places[k]].value, base })
        } by {
            if k < before.len() {
                assert(places[k] == before[k]);
                assert(rest[before[k]] == attrs[before[k]]);
            }
        }
        assert forall|j: int, k: int| 0 <= j < k < places.len() implies places[j] < places[k] by {
            assert(places[j] == before[j]);
            if k < before.len() {
                assert(places[k] == before[k]);
            }
        }
        assert forall|i: int|
            0 <= i < attrs.len() && (#[trigger] attrs[i]).name@ == seq![
                'h',
                'r',
                'e',
                'f',
            ] implies places.contains(i) by {
            if i < rest.len() {
                assert(rest[i] == attrs[i]);
                assert(before.contains(i));
                let k = choose|k: int| 0 <= k < before.len() && before[k] == i;
                assert(places[k] == i);
            } else {
                assert(places[before.len() as int] == i);
            }
        }
        places
    }
}

/// Whether the nodes lead from the first one up to the last, each being the parent of the one
/// before, and none but the last being an element.
pub open spec fn leads_up(line: Seq<Node>) -> bool {
    &&& line.len() > 0
    &&& forall|i: int|
        0 <= i < line.len() - 1 ==> {
            &&& (#[trigger] line[i]).element is None
            &&& line[i].parent is Some
            &&& *(line[i].parent->0) == line[i + 1]
        }
}

proof fn lemma_closest(line: Seq<Node>)
    requires
        leads_up(line),
        line.last().element is Some || line.last().parent is None,
    ensures
        line[0].closest() == line.last().element,
    decreases line.len(),
{
    if line.len() > 1 {
        let rest = line.drop_first();
        assert forall|i: int| 0 <= i < rest.len() - 1 implies {
            &&& (#[trigger] rest[i]).element is None
            &&& rest[i].parent is Some
            &&& *(rest[i].parent->0) == rest[i + 1]
        } by {
            assert(rest[i] == line[i + 1]);
        }
        lemma_closest(rest);
        assert(line[0].element is None);
        assert(*(line[0].parent->0) == rest[0]);
    }
}

/// Every node has a line that leads up from it to an element, or to a node without parent.
pub proof fn law_every_node_has_a_line(node: Node) -> (line: Seq<Node>)
    ensures
        leads_up(line),
        line[0] == node,
        line.last().element is Some || line.last().parent is None,
    decreases node,
{
    if node.element is Some || node.parent is None {
        seq![node]
    } else {
        let rest = law_every_node_has_a_line(*(node.parent->0));
        let line = seq![node] + rest;
        assert forall|i: int| 0 <= i < line.len() - 1 implies {
            &&& (#[trigger] line[i]).element is None
            &&& line[i].parent is Some
            &&& *(line[i].parent->0) == line[i + 1]
        } by {
            if i > 0 {
                assert(line[i] == rest[i - 1]);
                assert(line[i + 1] == rest[i]);
            }
        }
        line
    }
}

/// The nearest element of a node is at the end of the line that leads up from it.
pub proof fn law_nearest_element(line: Seq<Node>, found: Option<&Element>)
    requires
        leads_up(line),
        line.last().element is Some || line.last().parent is None,
        call_ensures(Node::closest_element, (&line[0],), found),
    ensures
        found is Some <==> line.last().element is Some,
        found is Some ==> Some(*found->0) == line.last().element,
{
    lemma_closest(line);
}

/// A click that hits a node loads every link of the nearest element, if that is an anchor: once for
/// each attribute named `href`, in order, as seen from the page. Any other click does nothing.
pub proof fn law_following_links(
    task: ScriptTask,
    id: usize,
    line: Seq<Node>,
    actions: Vec<ScriptAction>,
)
    requires
        task@.wf(),
        task@.layout_map.contains_key(id),
        leads_up(line),
        line.last().element is Some || line.last().parent is None,
        call_ensures(ScriptTask::hit_test_answered, (&task, id, Ok(line[0])), actions),
    ensures
        call_requires(ScriptTask::hit_test_answered, (&task, id, Ok(line[0]))),
        line.last().element is None ==> actions@.len() == 0,
        line.last().element matches Some(element) ==> {
            &&& element.tag_name@ == seq!['a'] ==> exists|places: Seq<int>|
                #![trigger loads_links_at(
                    actions@,
                    element.attrs@,
                    task@.layout_map[id].frames@[0].url,
                    places,
                )]
                {
                    &&& places.len() == actions@.len()
                    &&& forall|j: int, k: int|
                        0 <= j < k < places.len() ==> places[j] < places[k]
                    &&& forall|k: int|
                        0 <= k < places.len() ==> {
                            &&& 0 <= #[trigger] places[k] < element.attrs@.len()
                            &&& actions@[k] == (ScriptAction::LoadUrl {
                                href: element.attrs@[places[k]].value,
                                base: task@.layout_map[id].frames@[0].url,
                            })
                        }
                    &&& forall|i: int|
                        0 <= i < element.attrs@.len() ==> (places.contains(i) <==> (
                        #[trigger] element.attrs@[i]).name@ == seq!['h', 'r', 'e', 'f'])
                }
            &&& element.tag_name@ != seq!['a'] ==> actions@.len() == 0
        },
{
    lemma_closest(line);
    if let Some(element) = line.last().element {
        let base = task@.layout_map[id].frames@[0].url;
        let places = lemma_loads_links(element.attrs@, base);
        if element.tag_name@ == seq!['a'] {
            assert(loads_links_at(actions@, element.attrs@, base, places));
            assert forall|i: int| 0 <= i < element.attrs@.len() implies (places.contains(i) <==> (
            #[trigger] element.attrs@[i]).name@ == seq!['h', 'r', 'e', 'f']) by {
                if places.contains(i) {
                    let k = choose|k: int| 0 <= k < places.len() && places[k] == i;
                    assert(element.attrs@[places[k]].name@ == seq!['h', 'r', 'e', 'f']);
                }
            }
        }
    }
}

/// A click that hits no node does nothing.
pub proof fn law_missing_everything(task: ScriptTask, id: usize, actions: Vec<ScriptAction>)
    requires
        call_ensures(ScriptTask::hit_test_answered, (&task, id, Err(())), actions),
    ensures
        actions@.len() == 0,
{
}

/// A parsed document is tied to its root and its window; then its first layout is requested, for
/// display, with selectors to be matched; then the debug functions are defined; then its scripts
/// are evaluated in order, each once, in the task's compartment.
pub proof fn law_running_a_document(
    task: &mut ScriptTask,
    id: usize,
    layout_chan: LayoutChan,
    url: Url,
    parsed: ParsedDocument,
    window: Window,
    js_compartment: Compartment,
    actions: Vec<ScriptAction>,
)
    requires
        old(task)@.wf(),
        call_ensures(
            ScriptTask::document_parsed,
            (task, id, layout_chan, url, parsed, window, js_compartment),
            actions,
        ),
    ensures
        call_requires(
            ScriptTask::document_parsed,
            (task, id, layout_chan, url, parsed, window, js_compartment),
        ),
        actions@.len() == 4 + parsed.js_scripts@.len(),
        actions@[0] == ScriptAction::AddToDocument(
            Document { root: parsed.root, window: Some(window) },
        ),
        actions@[1] == ScriptAction::SetReadyState(ReadyState::PerformingLayout),
        actions@[2] == (ScriptAction::ForkLayout {
            page: id,
            layout_chan,
            reflow: Reflow {
                document_root: parsed.root,
                url,
                goal: ReflowGoal::ReflowForDisplay,
                window_size: old(task)@.window_size,
                damage: DocumentDamage {
                    root: parsed.root,
                    level: DocumentDamageLevel::MatchSelectorsDocumentDamage,
                },
            },
        }),
        actions@[3] == ScriptAction::DefineDebugFunctions(old(task)@.js_compartment),
        forall|i: int|
            0 <= i < parsed.js_scripts@.len() ==> {
                let script = #[trigger] actions@[4 + i];
                &&& script is EvaluateScript
                &&& script->compartment == old(task)@.js_compartment
                &&& script->source == parsed.js_scripts@[i]
                &&& script->filename@ == seq!['?', '?', '?']
                &&& script->line == 1
            },
{
    let document = Document { root: parsed.root, window: Some(window) };
    let first = parsed_actions(old(task)@, id, layout_chan, url, document);
    assert(first.len() == 4);
    assert forall|i: int| 0 <= i < 4 implies #[trigger] actions@[i] == first[i] by {
        assert(actions@.take(4)[i] == actions@[i]);
    }
    assert forall|i: int| 0 <= i < parsed.js_scripts@.len() implies {
        let script = #[trigger] actions@[4 + i];
        &&& script is EvaluateScript
        &&& script->compartment == old(task)@.js_compartment
        &&& script->source == parsed.js_scripts@[i]
        &&& script->filename@ == seq!['?', '?', '?']
        &&& script->line == 1
    } by {
        let script = parsed.js_scripts@[i];
        assert(evaluates(
            actions@[first.len() + i],
            old(task)@.js_compartment,
            script,
        ));
    }
}

/// The page of a parsed document has one frame, made of what was parsed and given, without history
/// and bindings; it is being laid out and has no damage. Other pages and the task stay as they are.
pub proof fn law_page_of_a_document(
    task: &mut ScriptTask,
    id: usize,
    layout_chan: LayoutChan,
    url: Url,
    parsed: ParsedDocument,
    window: Window,
    js_compartment: Compartment,
    actions: Vec<ScriptAction>,
)
    requires
        old(task)@.wf(),
        call_ensures(
            ScriptTask::document_parsed,
            (task, id, layout_chan, url, parsed, window, js_compartment),
            actions,
        ),
    ensures
        final(task)@.wf(),
        final(task)@.layout_map.contains_key(id),
        ({
            let page = final(task)@.layout_map[id];
            let frame = page.frames@[0];
            &&& page.script_task == old(task)@.id
            &&& page.layout_chan == layout_chan
            &&& page.layout_join_port
            &&& page.damage is None
            &&& page.window_size == old(task)@.window_size
            &&& page.frames@.len() == 1
            &&& frame.page == id
            &&& frame.document.root == parsed.root
            &&& frame.document.window == Some(window)
            &&& frame.window == window
            &&& frame.url == url
            &&& frame.navigation_context@.previous.len() == 0
            &&& frame.navigation_context@.current_and_next.len() == 0
            &&& frame.js_info.js_compartment == js_compartment
            &&& !frame.js_info.bindings_initialized
        }),
        final(task)@.id == old(task)@.id,
        final(task)@.window_size == old(task)@.window_size,
        final(task)@.bindings_initialized == old(task)@.bindings_initialized,
        final(task)@.js_compartment == old(task)@.js_compartment,
        forall|other: usize|
            other != id ==> {
                &&& #[trigger] final(task)@.layout_map.contains_key(other) <==> old(
                    task,
                )@.layout_map.contains_key(other)
                &&& old(task)@.layout_map.contains_key(other) ==> final(task)@.layout_map[other]
                    == old(task)@.layout_map[other]
            },
{
}

} // verus!
