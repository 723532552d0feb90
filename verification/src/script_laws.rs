//! What holds of the steps of the script task and of the messages that it gets.

use vstd::prelude::*;

use crate::dom::{Attr, Document, Event, Node};
use crate::geometry::Size2D;
use crate::ids::{ascending, is_ascending, lemma_ascending_lists};
use crate::layout::{
    with_damage, DocumentDamage, DocumentDamageLevel, LayoutChan, LayoutQuery, Reflow, ReflowGoal,
};
use crate::page::Page;
use crate::script_task::{
    actions_for, event_actions, exit_step, for_each, fork_actions, hit_actions, join_actions,
    link_actions, parsed_actions, prepared, query_actions, reflow_actions, reflow_all_actions,
    reflow_step, ScriptAction, ScriptMsg, ScriptTaskView,
};
use crate::url::Url;

verus! {

/// Whether layout of a page is running after a list of actions, given whether it was before.
/// `None` if a layout is joined that is not running, or one is requested while one is running.
pub open spec fn layout_after(running: bool, actions: Seq<ScriptAction>, id: usize) -> Option<bool>
    decreases actions.len(),
{
    if actions.len() == 0 {
        Some(running)
    } else {
        match (layout_after(running, actions.drop_last(), id), actions.last()) {
            (None, _) => None,
            (Some(now), ScriptAction::JoinLayout(page)) => if page != id {
                Some(now)
            } else if now {
                Some(false)
            } else {
                None
            },
            (Some(now), ScriptAction::ForkLayout { page, .. }) => if page != id {
                Some(now)
            } else if now {
                None
            } else {
                Some(true)
            },
            (Some(now), _) => Some(now),
        }
    }
}

/// Actions in two parts are followed one part after the other.
pub proof fn lemma_layout_after_concat(
    running: bool,
    first: Seq<ScriptAction>,
    second: Seq<ScriptAction>,
    id: usize,
)
    ensures
        layout_after(running, first + second, id) == match layout_after(running, first, id) {
            Some(now) => layout_after(now, second, id),
            None => None,
        },
    decreases second.len(),
{
    if second.len() == 0 {
        assert(first + second =~= first);
    } else {
        assert((first + second).drop_last() =~= first + second.drop_last());
        lemma_layout_after_concat(running, first, second.drop_last(), id);
    }
}

/// Joining the layout of a page ends it and does not concern other pages.
pub proof fn lemma_layout_after_join(page: Page, id: usize, other: usize, running: bool)
    ensures
        layout_after(page.layout_join_port, join_actions(id, page), id) == Some(false),
        other != id ==> layout_after(running, join_actions(id, page), other) == Some(running),
{
    let joins = join_actions(id, page);
    reveal_with_fuel(layout_after, 3);
    if page.layout_join_port {
        assert(joins.drop_last().drop_last() =~= Seq::empty());
    }
}

/// Layout is not running after it has been joined, and joining twice is joining once: when layout
/// is not running, nothing is sent or awaited and the page stays as it is.
pub proof fn law_joining_twice_is_joining_once(id: usize, page: Page)
    ensures
        !page.joined().layout_join_port,
        page.joined().joined() == page.joined(),
        join_actions(id, page.joined()) == Seq::<ScriptAction>::empty(),
        !page.layout_join_port ==> {
            &&& page.joined() == page
            &&& join_actions(id, page) == Seq::<ScriptAction>::empty()
        },
{
}

/// A layout is requested only when the one before it has been joined; then it is running. Other
/// pages are not concerned.
pub proof fn law_reflow_joins_before_it_forks(
    id: usize,
    page: Page,
    goal: ReflowGoal,
    window_size: Size2D,
    other: usize,
    running: bool,
)
    ensures
        layout_after(
            page.layout_join_port,
            reflow_actions(id, page, goal, window_size),
            id,
        ) == Some(true),
        other != id ==> layout_after(
            running,
            reflow_actions(id, page, goal, window_size),
            other,
        ) == Some(running),
{
    let joins = join_actions(id, page);
    let forks = fork_actions(id, page, goal, window_size);
    lemma_layout_after_join(page, id, other, running);
    lemma_layout_after_concat(page.layout_join_port, joins, forks, id);
    lemma_layout_after_concat(running, joins, forks, other);
    reveal_with_fuel(layout_after, 3);
    assert(forks.drop_last().drop_last() =~= Seq::empty());
}

/// A question to a layout task is asked only when no layout is running.
pub proof fn law_queries_wait_for_layout(
    id: usize,
    page: Page,
    query: LayoutQuery,
    other: usize,
    running: bool,
)
    ensures
        layout_after(page.layout_join_port, query_actions(id, page, query), id) == Some(false),
        other != id ==> layout_after(running, query_actions(id, page, query), other) == Some(
            running,
        ),
        query_actions(id, page, query).last() == (ScriptAction::QueryLayout {
            page: id,
            layout_chan: page.layout_chan,
            query,
        }),
{
    let joins = join_actions(id, page);
    let asks = seq![
        ScriptAction::QueryLayout { page: id, layout_chan: page.layout_chan, query },
    ];
    lemma_layout_after_join(page, id, other, running);
    lemma_layout_after_concat(page.layout_join_port, joins, asks, id);
    lemma_layout_after_concat(running, joins, asks, other);
    reveal_with_fuel(layout_after, 2);
}

/// The end of a task ends the layout of each of its pages and does not concern others.
pub proof fn lemma_layout_after_exit_step(before: ScriptTaskView, id: usize, other: usize, running: bool)
    ensures
        layout_after(
            before.layout_map[id].layout_join_port,
            exit_step(before)(id),
            id,
        ) == Some(false),
        other != id ==> layout_after(running, exit_step(before)(id), other) == Some(running),
{
    let page = before.layout_map[id];
    let joins = join_actions(id, page);
    let tears = seq![ScriptAction::Teardown(page.root().document)];
    lemma_layout_after_join(page, id, other, running);
    lemma_layout_after_concat(page.layout_join_port, joins, tears, id);
    lemma_layout_after_concat(running, joins, tears, other);
    reveal_with_fuel(layout_after, 2);
}

/// Over the pages of a task, one after the other, each page's own actions decide.
pub proof fn lemma_layout_after_for_each(
    ids: Seq<usize>,
    actions: spec_fn(usize) -> Seq<ScriptAction>,
    id: usize,
    running: bool,
    end: bool,
)
    requires
        is_ascending(ids),
        ids.contains(id) ==> layout_after(running, actions(id), id) == Some(end),
        forall|p: usize, now: bool|
            p != id ==> #[trigger] layout_after(now, actions(p), id) == Some(now),
    ensures
        layout_after(running, for_each(ids, actions), id) == Some(
            if ids.contains(id) {
                end
            } else {
                running
            },
        ),
    decreases ids.len(),
{
    if ids.len() > 0 {
        let rest = ids.drop_last();
        assert(is_ascending(rest));
        if rest.contains(id) {
            let j = choose|j: int| 0 <= j < rest.len() && rest[j] == id;
            assert(ids[j] == id);
        }
        lemma_layout_after_for_each(rest, actions, id, running, end);
        lemma_layout_after_concat(running, for_each(rest, actions), actions(ids.last()), id);
        if ids.last() == id {
            assert(ids[ids.len() - 1] == id);
            assert(ids.contains(id));
            if rest.contains(id) {
                let j = choose|j: int| 0 <= j < rest.len() && rest[j] == id;
                assert(ids[j] < ids[ids.len() - 1]);
            }
        } else {
            assert(ids.contains(id) <==> rest.contains(id)) by {
                if ids.contains(id) {
                    let j = choose|j: int| 0 <= j < ids.len() && ids[j] == id;
                    assert(rest[j] == id);
                }
                if rest.contains(id) {
                    let j = choose|j: int| 0 <= j < rest.len() && rest[j] == id;
                    assert(ids[j] == id);
                }
            }
        }
    }
}

/// When all pages are laid out anew, the layout of each is joined, if it was running, before
/// another is requested; then it is running.
pub proof fn law_reflow_of_all_pages_joins_before_it_forks(
    before: ScriptTaskView,
    level: Option<DocumentDamageLevel>,
    goal: ReflowGoal,
    id: usize,
)
    requires
        before.layout_map.contains_key(id),
    ensures
        layout_after(
            before.layout_map[id].layout_join_port,
            reflow_all_actions(before, level, goal),
            id,
        ) == Some(true),
{
    let dom = before.layout_map.dom();
    let step = reflow_step(before, level, goal);
    let running = before.layout_map[id].layout_join_port;
    lemma_ascending_lists(dom);
    assert(ascending(dom).contains(id)) by {
        assert(dom.contains(id));
    }
    law_reflow_joins_before_it_forks(
        id,
        prepared(before.layout_map[id], level),
        goal,
        before.window_size,
        id,
        running,
    );
    assert forall|p: usize, now: bool|
        p != id implies #[trigger] layout_after(now, step(p), id) == Some(now) by {
        law_reflow_joins_before_it_forks(
            p,
            prepared(before.layout_map[p], level),
            goal,
            before.window_size,
            id,
            now,
        );
    }
    lemma_layout_after_for_each(ascending(dom), step, id, running, true);
}

/// A page never has two layouts running, and none is joined that is not running: what a message
/// has done to the layout of a page is what the page's state says afterwards. (The notice that a
/// layout is complete is itself the end of that layout.)
pub proof fn law_layouts_of_a_page_do_not_overlap(before: ScriptTaskView, msg: ScriptMsg, id: usize)
    requires
        before.wf(),
        before.accepts(msg),
        before.layout_map.contains_key(id),
    ensures
        layout_after(
            before.layout_map[id].layout_join_port,
            actions_for(before, msg),
            id,
        ) == Some(
            if msg == ScriptMsg::ReflowCompleteMsg(id) {
                before.layout_map[id].layout_join_port
            } else {
                before.after(msg).layout_map[id].layout_join_port
            },
        ),
{
    let running = before.layout_map[id].layout_join_port;
    match msg {
        ScriptMsg::LoadMsg(_, _, _) => {
            reveal_with_fuel(layout_after, 4);
        },
        ScriptMsg::ExecuteMsg(_) => {
            reveal_with_fuel(layout_after, 2);
        },
        ScriptMsg::SendEventMsg(page, event) => match event {
            Event::ResizeEvent(width, height) => {
                law_reflow_of_all_pages_joins_before_it_forks(
                    before.resized(Size2D { width, height }),
                    Some(DocumentDamageLevel::ReflowDocumentDamage),
                    ReflowGoal::ReflowForDisplay,
                    id,
                );
            },
            Event::ReflowEvent => {
                law_reflow_of_all_pages_joins_before_it_forks(
                    before,
                    Some(DocumentDamageLevel::MatchSelectorsDocumentDamage),
                    ReflowGoal::ReflowForDisplay,
                    id,
                );
            },
            Event::ClickEvent(_, point) => {
                law_queries_wait_for_layout(
                    page,
                    before.layout_map[page],
                    LayoutQuery::HitTestQuery(
                        before.layout_map[page].root().document.root,
                        point,
                    ),
                    id,
                    running,
                );
            },
            Event::MouseDownEvent(_, _) => {},
            Event::MouseUpEvent(_, _) => {},
        },
        ScriptMsg::FireTimerMsg(_) => {
            reveal_with_fuel(layout_after, 2);
        },
        ScriptMsg::ReflowCompleteMsg(_) => {
            reveal_with_fuel(layout_after, 2);
        },
        ScriptMsg::ExitMsg => {
            let dom = before.layout_map.dom();
            lemma_ascending_lists(dom);
            assert(ascending(dom).contains(id)) by {
                assert(dom.contains(id));
            }
            lemma_layout_after_exit_step(before, id, id, running);
            assert forall|p: usize, now: bool|
                p != id implies #[trigger] layout_after(now, exit_step(before)(p), id) == Some(
                now,
            ) by {
                lemma_layout_after_exit_step(before, p, id, now);
            }
            lemma_layout_after_for_each(ascending(dom), exit_step(before), id, running, false);
        },
    }
}

/// A page that has just been parsed is laid out once.
pub proof fn law_new_page_is_laid_out_once(
    task: ScriptTaskView,
    id: usize,
    layout_chan: LayoutChan,
    url: Url,
    document: Document,
)
    ensures
        layout_after(false, parsed_actions(task, id, layout_chan, url, document), id) == Some(true),
{
    reveal_with_fuel(layout_after, 5);
}

/// Whether every wait for the layout of a page comes right after a ping to the layout task of that
/// page.
pub open spec fn waits_follow_pings(actions: Seq<ScriptAction>, pages: Map<usize, Page>) -> bool {
    forall|i: int|
        0 <= i < actions.len() ==> (#[trigger] actions[i] matches ScriptAction::JoinLayout(id) ==> {
            &&& i > 0
            &&& pages.contains_key(id)
            &&& actions[i - 1] == ScriptAction::PingLayout(pages[id].layout_chan)
        })
}

proof fn lemma_waits_follow_pings_concat(
    first: Seq<ScriptAction>,
    second: Seq<ScriptAction>,
    pages: Map<usize, Page>,
)
    requires
        waits_follow_pings(first, pages),
        waits_follow_pings(second, pages),
    ensures
        waits_follow_pings(first + second, pages),
{
    let all = first + second;
    assert forall|i: int| 0 <= i < all.len() implies (#[trigger] all[i] matches
        ScriptAction::JoinLayout(id) ==> {
        &&& i > 0
        &&& pages.contains_key(id)
        &&& all[i - 1] == ScriptAction::PingLayout(pages[id].layout_chan)
    }) by {
        if i < first.len() {
            assert(all[i] == first[i]);
        } else {
            assert(all[i] == second[i - first.len()]);
        }
    }
}

proof fn lemma_waits_follow_pings_for_each(
    ids: Seq<usize>,
    actions: spec_fn(usize) -> Seq<ScriptAction>,
    pages: Map<usize, Page>,
)
    requires
        forall|i: int| 0 <= i < ids.len() ==> waits_follow_pings(#[trigger] actions(ids[i]), pages),
    ensures
        waits_follow_pings(for_each(ids, actions), pages),
    decreases ids.len(),
{
    if ids.len() > 0 {
        let rest = ids.drop_last();
        assert forall|i: int| 0 <= i < rest.len() implies waits_follow_pings(
            #[trigger] actions(rest[i]),
            pages,
        ) by {
            assert(rest[i] == ids[i]);
        }
        lemma_waits_follow_pings_for_each(rest, actions, pages);
        assert(waits_follow_pings(actions(ids[ids.len() - 1]), pages));
        lemma_waits_follow_pings_concat(for_each(rest, actions), actions(ids.last()), pages);
    }
}

proof fn lemma_reflows_ping(
    before: ScriptTaskView,
    level: Option<DocumentDamageLevel>,
    goal: ReflowGoal,
)
    ensures
        waits_follow_pings(reflow_all_actions(before, level, goal), before.layout_map),
{
    let ids = ascending(before.layout_map.dom());
    let step = reflow_step(before, level, goal);
    lemma_ascending_lists(before.layout_map.dom());
    assert forall|i: int| 0 <= i < ids.len() implies waits_follow_pings(
        #[trigger] step(ids[i]),
        before.layout_map,
    ) by {
        assert(ids.contains(ids[i]));
    }
    lemma_waits_follow_pings_for_each(ids, step, before.layout_map);
}

/// No message makes the task wait for a layout without a ping to the layout task first.
pub proof fn law_waits_follow_pings(before: ScriptTaskView, msg: ScriptMsg)
    requires
        before.accepts(msg),
    ensures
        waits_follow_pings(actions_for(before, msg), before.layout_map),
{
    match msg {
        ScriptMsg::SendEventMsg(_, Event::ResizeEvent(width, height)) => {
            let resized = before.resized(Size2D { width, height });
            let actions = actions_for(before, msg);
            lemma_reflows_ping(
                resized,
                Some(DocumentDamageLevel::ReflowDocumentDamage),
                ReflowGoal::ReflowForDisplay,
            );
            assert forall|i: int| 0 <= i < actions.len() implies (#[trigger] actions[i] matches
                ScriptAction::JoinLayout(id) ==> {
                &&& i > 0
                &&& before.layout_map.contains_key(id)
                &&& actions[i - 1] == ScriptAction::PingLayout(before.layout_map[id].layout_chan)
            }) by {
                if let ScriptAction::JoinLayout(id) = actions[i] {
                    assert(resized.layout_map.contains_key(id));
                }
            }
        },
        ScriptMsg::SendEventMsg(_, Event::ReflowEvent) => lemma_reflows_ping(
            before,
            Some(DocumentDamageLevel::MatchSelectorsDocumentDamage),
            ReflowGoal::ReflowForDisplay,
        ),
        ScriptMsg::ExitMsg => {
            let ids = ascending(before.layout_map.dom());
            lemma_ascending_lists(before.layout_map.dom());
            assert forall|i: int| 0 <= i < ids.len() implies waits_follow_pings(
                #[trigger] exit_step(before)(ids[i]),
                before.layout_map,
            ) by {
                assert(ids.contains(ids[i]));
            }
            lemma_waits_follow_pings_for_each(ids, exit_step(before), before.layout_map);
        },
        _ => {},
    }
}

proof fn lemma_for_each_contains(
    ids: Seq<usize>,
    actions: spec_fn(usize) -> Seq<ScriptAction>,
    id: usize,
    action: ScriptAction,
)
    requires
        ids.contains(id),
        actions(id).contains(action),
    ensures
        for_each(ids, actions).contains(action),
    decreases ids.len(),
{
    let rest = ids.drop_last();
    let all = for_each(ids, actions);
    let earlier = for_each(rest, actions);
    let own = actions(id);
    if ids.last() == id {
        let j = choose|j: int| 0 <= j < own.len() && own[j] == action;
        assert(all[earlier.len() + j] == action);
    } else {
        let i = choose|i: int| 0 <= i < ids.len() && ids[i] == id;
        assert(rest[i] == id);
        lemma_for_each_contains(rest, actions, id, action);
        let j = choose|j: int| 0 <= j < earlier.len() && earlier[j] == action;
        assert(all[j] == action);
    }
}

/// Every action done for several pages is done for one of them.
pub proof fn lemma_for_each_origin(
    ids: Seq<usize>,
    actions: spec_fn(usize) -> Seq<ScriptAction>,
    i: int,
) -> (id: usize)
    requires
        0 <= i < for_each(ids, actions).len(),
    ensures
        ids.contains(id),
        actions(id).contains(for_each(ids, actions)[i]),
    decreases ids.len(),
{
    let rest = ids.drop_last();
    let earlier = for_each(rest, actions);
    if i < earlier.len() {
        let id = lemma_for_each_origin(rest, actions, i);
        let j = choose|j: int| 0 <= j < rest.len() && rest[j] == id;
        assert(ids[j] == id);
        id
    } else {
        assert(actions(ids.last())[i - earlier.len()] == for_each(ids, actions)[i]);
        assert(ids[ids.len() - 1] == ids.last());
        ids.last()
    }
}

/// A new size of the window reaches the layout of every page, along with all damage that the page
/// had.
pub proof fn law_resize_reaches_every_page(
    before: ScriptTaskView,
    target: usize,
    width: usize,
    height: usize,
    id: usize,
)
    requires
        before.layout_map.contains_key(id),
    ensures
        ({
            let page = before.layout_map[id];
            event_actions(before, target, Event::ResizeEvent(width, height)).contains(
                ScriptAction::ForkLayout {
                    page: id,
                    layout_chan: page.layout_chan,
                    reflow: Reflow {
                        document_root: page.root().document.root,
                        url: page.root().url,
                        goal: ReflowGoal::ReflowForDisplay,
                        window_size: Size2D { width, height },
                        damage: with_damage(
                            page.damage,
                            page.root().document.root,
                            DocumentDamageLevel::ReflowDocumentDamage,
                        ),
                    },
                },
            )
        }),
{
    let resized = before.resized(Size2D { width, height });
    let level = Some(DocumentDamageLevel::ReflowDocumentDamage);
    let step = reflow_step(resized, level, ReflowGoal::ReflowForDisplay);
    let dom = resized.layout_map.dom();
    lemma_ascending_lists(dom);
    assert(ascending(dom).contains(id)) by {
        assert(dom.contains(id));
    }
    let actions = step(id);
    let fork = actions[actions.len() - 1];
    assert(actions.contains(fork));
    lemma_for_each_contains(ascending(dom), step, id, fork);
}

/// A request to lay everything out anew reaches the layout of every page, and asks for selectors
/// to be matched again.
pub proof fn law_reflow_event_reaches_every_page(before: ScriptTaskView, target: usize, id: usize)
    requires
        before.layout_map.contains_key(id),
    ensures
        ({
            let page = before.layout_map[id];
            event_actions(before, target, Event::ReflowEvent).contains(
                ScriptAction::ForkLayout {
                    page: id,
                    layout_chan: page.layout_chan,
                    reflow: Reflow {
                        document_root: page.root().document.root,
                        url: page.root().url,
                        goal: ReflowGoal::ReflowForDisplay,
                        window_size: before.window_size,
                        damage: DocumentDamage {
                            root: page.root().document.root,
                            level: DocumentDamageLevel::MatchSelectorsDocumentDamage,
                        },
                    },
                },
            )
        }),
{
    let level = Some(DocumentDamageLevel::MatchSelectorsDocumentDamage);
    let step = reflow_step(before, level, ReflowGoal::ReflowForDisplay);
    let dom = before.layout_map.dom();
    lemma_ascending_lists(dom);
    assert(ascending(dom).contains(id)) by {
        assert(dom.contains(id));
    }
    let actions = step(id);
    let fork = actions[actions.len() - 1];
    assert(actions.contains(fork));
    lemma_for_each_contains(ascending(dom), step, id, fork);
}

/// Whether a layout, if the action requests one, is that of a page of the task: of its document,
/// through its channel, and for the size of the window.
pub open spec fn layout_fits(action: ScriptAction, task: ScriptTaskView) -> bool {
    action matches ScriptAction::ForkLayout { page, layout_chan, reflow } ==> {
        &&& task.layout_map.contains_key(page)
        &&& layout_chan == task.layout_map[page].layout_chan
        &&& reflow.document_root == task.layout_map[page].root().document.root
        &&& reflow.url == task.layout_map[page].root().url
        &&& reflow.window_size == task.window_size
    }
}

proof fn lemma_reflows_fit(
    before: ScriptTaskView,
    level: Option<DocumentDamageLevel>,
    goal: ReflowGoal,
    i: int,
)
    requires
        0 <= i < reflow_all_actions(before, level, goal).len(),
    ensures
        layout_fits(reflow_all_actions(before, level, goal)[i], before.all_reflowed(level)),
{
    let dom = before.layout_map.dom();
    let step = reflow_step(before, level, goal);
    lemma_ascending_lists(dom);
    let id = lemma_for_each_origin(ascending(dom), step, i);
    assert(dom.contains(id));
}

/// Every layout that a message requests is for the size that the window then has, and of a page's
/// own document through its own channel.
pub proof fn law_layouts_fit_their_page(before: ScriptTaskView, msg: ScriptMsg, i: int)
    requires
        before.wf(),
        before.accepts(msg),
        0 <= i < actions_for(before, msg).len(),
    ensures
        layout_fits(actions_for(before, msg)[i], before.after(msg)),
{
    match msg {
        ScriptMsg::SendEventMsg(_, event) => match event {
            Event::ResizeEvent(width, height) => {
                lemma_reflows_fit(
                    before.resized(Size2D { width, height }),
                    Some(DocumentDamageLevel::ReflowDocumentDamage),
                    ReflowGoal::ReflowForDisplay,
                    i,
                );
            },
            Event::ReflowEvent => {
                lemma_reflows_fit(
                    before,
                    Some(DocumentDamageLevel::MatchSelectorsDocumentDamage),
                    ReflowGoal::ReflowForDisplay,
                    i,
                );
            },
            _ => {},
        },
        ScriptMsg::ExitMsg => {
            let dom = before.layout_map.dom();
            let id = lemma_for_each_origin(ascending(dom), exit_step(before), i);
        },
        _ => {},
    }
}

/// The end of the task tears down the document of every page and leaves no layout running.
pub proof fn law_exit_tears_down_every_document(before: ScriptTaskView, id: usize)
    requires
        before.layout_map.contains_key(id),
    ensures
        actions_for(before, ScriptMsg::ExitMsg).contains(
            ScriptAction::Teardown(before.layout_map[id].root().document),
        ),
        !before.after(ScriptMsg::ExitMsg).layout_map[id].layout_join_port,
{
    let dom = before.layout_map.dom();
    lemma_ascending_lists(dom);
    assert(ascending(dom).contains(id)) by {
        assert(dom.contains(id));
    }
    let actions = exit_step(before)(id);
    let teardown = actions[actions.len() - 1];
    assert(actions.contains(teardown));
    lemma_for_each_contains(ascending(dom), exit_step(before), id, teardown);
}

/// All damage added to a page since its last layout is handed to the next one, and is then gone.
pub proof fn law_added_damage_reaches_layout(
    id: usize,
    page: Page,
    first: DocumentDamageLevel,
    second: DocumentDamageLevel,
    goal: ReflowGoal,
    window_size: Size2D,
)
    requires
        page.damage is None,
    ensures
        ({
            let damaged = page.damaged(first).damaged(second);
            let actions = reflow_actions(id, damaged, goal, window_size);
            &&& actions.last() matches ScriptAction::ForkLayout { reflow, .. }
            &&& reflow.damage.root == page.root().document.root
            &&& reflow.damage.level == first.max(second)
            &&& damaged.forked().damage is None
        }),
{
}

/// The state of a task after a history of messages.
pub open spec fn state_of(start: ScriptTaskView, history: Seq<ScriptMsg>) -> ScriptTaskView
    decreases history.len(),
{
    if history.len() == 0 {
        start
    } else {
        state_of(start, history.drop_last()).after(history.last())
    }
}

/// Whether every message of a history could be handled when it came.
pub open spec fn all_accepted(start: ScriptTaskView, history: Seq<ScriptMsg>) -> bool
    decreases history.len(),
{
    history.len() > 0 ==> {
        &&& all_accepted(start, history.drop_last())
        &&& state_of(start, history.drop_last()).accepts(history.last())
    }
}

/// The invariant of the task holds after every history, and messages neither add pages nor remove
/// any.
pub proof fn law_invariant_holds_throughout(start: ScriptTaskView, history: Seq<ScriptMsg>)
    requires
        start.wf(),
        all_accepted(start, history),
    ensures
        state_of(start, history).wf(),
        state_of(start, history).layout_map.dom() == start.layout_map.dom(),
    decreases history.len(),
{
    if history.len() > 0 {
        law_invariant_holds_throughout(start, history.drop_last());
        let before = state_of(start, history.drop_last());
        assert(before.after(history.last()).layout_map.dom() =~= before.layout_map.dom());
    }
}

/// A click loads exactly the links of the nearest element, if that is an anchor, as seen from the
/// page; any other click does nothing.
pub proof fn law_clicks_load_exactly_the_links(page: Page, node: Node, action: ScriptAction)
    ensures
        hit_actions(page, Ok(node)).contains(action) <==> {
            &&& node.closest() matches Some(element)
            &&& element.is_anchor()
            &&& exists|i: int|
                0 <= i < element.attrs@.len() && (#[trigger] element.attrs@[i]).is_href()
                    && action == (ScriptAction::LoadUrl {
                    href: element.attrs@[i].value,
                    base: page.root().url,
                })
        },
{
    if let Some(element) = node.closest() {
        if element.is_anchor() {
            lemma_link_actions_contains(element.attrs@, page.root().url, action);
        }
    }
}

proof fn lemma_link_actions_contains(attrs: Seq<Attr>, base: Url, action: ScriptAction)
    ensures
        link_actions(attrs, base).contains(action) <==> exists|i: int|
            0 <= i < attrs.len() && (#[trigger] attrs[i]).is_href() && action
                == (ScriptAction::LoadUrl { href: attrs[i].value, base }),
    decreases attrs.len(),
{
    reveal(Seq::filter);
    if attrs.len() > 0 {
        let rest = attrs.drop_last();
        let last = attrs.last();
        let earlier = link_actions(rest, base);
        let all = link_actions(attrs, base);
        lemma_link_actions_contains(rest, base, action);
        if last.is_href() {
            assert(all =~= earlier.push(ScriptAction::LoadUrl { href: last.value, base }));
        } else {
            assert(all =~= earlier);
        }
        if all.contains(action) {
            let k = choose|k: int| 0 <= k < all.len() && all[k] == action;
            if k < earlier.len() {
                assert(earlier[k] == action);
                let i = choose|i: int|
                    0 <= i < rest.len() && (#[trigger] rest[i]).is_href() && action
                        == (ScriptAction::LoadUrl { href: rest[i].value, base });
                assert(attrs[i] == rest[i]);
            } else {
                assert(attrs[attrs.len() - 1].is_href());
            }
        }
        if exists|i: int|
            0 <= i < attrs.len() && (#[trigger] attrs[i]).is_href() && action
                == (ScriptAction::LoadUrl { href: attrs[i].value, base }) {
            let i = choose|i: int|
                0 <= i < attrs.len() && (#[trigger] attrs[i]).is_href() && action
                    == (ScriptAction::LoadUrl { href: attrs[i].value, base });
            if i < rest.len() {
                assert(rest[i] == attrs[i]);
                assert(earlier.contains(action));
                let k = choose|k: int| 0 <= k < earlier.len() && earlier[k] == action;
                assert(all[k] == action);
            } else {
                assert(all[earlier.len() as int] == action);
            }
        }
    }
}

/// How often a list of actions defines the bindings.
pub open spec fn definitions(actions: Seq<ScriptAction>) -> nat
    decreases actions.len(),
{
    if actions.len() == 0 {
        0
    } else {
        definitions(actions.drop_last()) + if actions.last() is DefineBindings {
            1nat
        } else {
            0nat
        }
    }
}

/// How often the bindings are defined in the course of a history.
pub open spec fn all_definitions(start: ScriptTaskView, history: Seq<ScriptMsg>) -> nat
    decreases history.len(),
{
    if history.len() == 0 {
        0
    } else {
        all_definitions(start, history.drop_last()) + definitions(
            actions_for(state_of(start, history.drop_last()), history.last()),
        )
    }
}

/// Whether a page was to be loaded in the course of a history.
pub open spec fn has_load(history: Seq<ScriptMsg>) -> bool {
    exists|i: int| 0 <= i < history.len() && #[trigger] history[i] is LoadMsg
}

/// Actions none of which defines the bindings define them no times.
pub proof fn lemma_no_definitions(actions: Seq<ScriptAction>)
    requires
        forall|i: int| 0 <= i < actions.len() ==> !(#[trigger] actions[i] is DefineBindings),
    ensures
        definitions(actions) == 0,
    decreases actions.len(),
{
    if actions.len() > 0 {
        assert forall|i: int| 0 <= i < actions.drop_last().len() implies !(
        #[trigger] actions.drop_last()[i] is DefineBindings) by {
            assert(actions.drop_last()[i] == actions[i]);
        }
        lemma_no_definitions(actions.drop_last());
    }
}

proof fn lemma_definitions_of_msg(before: ScriptTaskView, msg: ScriptMsg)
    ensures
        definitions(actions_for(before, msg)) == if msg is LoadMsg && !before.bindings_initialized {
            1nat
        } else {
            0nat
        },
{
    let actions = actions_for(before, msg);
    match msg {
        ScriptMsg::LoadMsg(_, _, _) => {
            reveal_with_fuel(definitions, 4);
        },
        ScriptMsg::SendEventMsg(_, event) => {
            assert forall|i: int| 0 <= i < actions.len() implies !(
            #[trigger] actions[i] is DefineBindings) by {
                match event {
                    Event::ResizeEvent(width, height) => {
                        let resized = before.resized(Size2D { width, height });
                        let id = lemma_for_each_origin(
                            ascending(resized.layout_map.dom()),
                            reflow_step(
                                resized,
                                Some(DocumentDamageLevel::ReflowDocumentDamage),
                                ReflowGoal::ReflowForDisplay,
                            ),
                            i,
                        );
                    },
                    Event::ReflowEvent => {
                        let id = lemma_for_each_origin(
                            ascending(before.layout_map.dom()),
                            reflow_step(
                                before,
                                Some(DocumentDamageLevel::MatchSelectorsDocumentDamage),
                                ReflowGoal::ReflowForDisplay,
                            ),
                            i,
                        );
                    },
                    _ => {},
                }
            }
            lemma_no_definitions(actions);
        },
        ScriptMsg::ExitMsg => {
            assert forall|i: int| 0 <= i < actions.len() implies !(
            #[trigger] actions[i] is DefineBindings) by {
                let id = lemma_for_each_origin(
                    ascending(before.layout_map.dom()),
                    exit_step(before),
                    i,
                );
            }
            lemma_no_definitions(actions);
        },
        _ => lemma_no_definitions(actions),
    }
}

/// The bindings are defined once, when the first page is loaded, and never again.
pub proof fn law_bindings_are_defined_once(start: ScriptTaskView, history: Seq<ScriptMsg>)
    ensures
        all_definitions(start, history) == if has_load(history) && !start.bindings_initialized {
            1nat
        } else {
            0nat
        },
        state_of(start, history).bindings_initialized == (start.bindings_initialized || has_load(
            history,
        )),
    decreases history.len(),
{
    if history.len() > 0 {
        let earlier = history.drop_last();
        law_bindings_are_defined_once(start, earlier);
        lemma_definitions_of_msg(state_of(start, earlier), history.last());
        assert(has_load(history) <==> has_load(earlier) || history.last() is LoadMsg) by {
            if has_load(earlier) {
                let i = choose|i: int| 0 <= i < earlier.len() && #[trigger] earlier[i] is LoadMsg;
                assert(history[i] is LoadMsg);
            }
            if history.last() is LoadMsg {
                assert(history[history.len() - 1] is LoadMsg);
            }
            if has_load(history) {
                let i = choose|i: int| 0 <= i < history.len() && #[trigger] history[i] is LoadMsg;
                if i < earlier.len() {
                    assert(earlier[i] is LoadMsg);
                }
            }
        }
    }
}

} // verus!
