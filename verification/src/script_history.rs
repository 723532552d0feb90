//! What holds of the script task over its whole course: the messages that it gets and the results
//! that come back to it in between.

use vstd::prelude::*;

use crate::dom::{Compartment, Document, Event, Node, Window};
use crate::geometry::Size2D;
use crate::ids::{ascending, lemma_ascending_lists};
use crate::layout::{
    DocumentDamage, DocumentDamageLevel, LayoutChan, LayoutQuery, Reflow, ReflowGoal, StyleSheetId,
};
use crate::page::Page;
use crate::script_laws::{
    definitions, law_layouts_of_a_page_do_not_overlap, law_queries_wait_for_layout,
    law_reflow_joins_before_it_forks, law_reflow_of_all_pages_joins_before_it_forks, layout_after,
    lemma_for_each_origin, lemma_layout_after_concat, lemma_layout_after_exit_step,
    lemma_layout_after_for_each, lemma_layout_after_join, lemma_no_definitions,
};
use crate::script_task::{
    actions_for, evaluates, event_actions, exit_step, hit_actions, is_new_page, join_actions,
    parsed_actions, prepared, query_actions, reflow_actions, reflow_all_actions, reflow_step,
    runs_document, runs_script, sheet_actions, ParsedDocument, ScriptAction, ScriptMsg,
    ScriptTaskView,
};
use crate::url::Url;

verus! {

/// What can happen to a script task.
pub ghost enum ScriptEvent {
    /// A message has come.
    Message(ScriptMsg),
    /// A style sheet has come, or the end of them.
    StyleSheetReceived(LayoutChan, Option<StyleSheetId>),
    /// A document has been parsed; its page is put up.
    Parsed {
        id: usize,
        layout_chan: LayoutChan,
        url: Url,
        parsed: ParsedDocument,
        window: Window,
        js_compartment: Compartment,
        page: Page,
    },
    /// The file of a script has been read.
    ScriptRead(Url, Result<Vec<u8>, String>),
    /// The function of a timer has returned.
    TimerReturned,
    /// A layout task has told which node a click hit.
    HitTestAnswered(usize, Result<Node, ()>),
    /// Damage has been added to a page.
    Damaged(usize, DocumentDamageLevel),
    /// The layout of a page has been joined.
    Joined(usize),
    /// A page has been laid out anew.
    Reflowed(usize, ReflowGoal),
    /// The entire document of a page has been laid out anew.
    ReflowedAll(usize, ReflowGoal),
    /// The layout task of a page has been asked.
    Queried(usize, LayoutQuery),
}

impl ScriptEvent {
    /// Whether the event can happen to a task in the given state.
    pub open spec fn can_happen(self, before: ScriptTaskView) -> bool {
        match self {
            ScriptEvent::Message(msg) => before.accepts(msg),
            ScriptEvent::StyleSheetReceived(_, _) => true,
            ScriptEvent::Parsed { id, layout_chan, url, parsed, window, js_compartment, page } =>
                is_new_page(
                page,
                before,
                id,
                layout_chan,
                url,
                Document { root: parsed.root, window: Some(window) },
                window,
                js_compartment,
            ),
            ScriptEvent::ScriptRead(_, _) => true,
            ScriptEvent::TimerReturned => before.all_damaged(),
            ScriptEvent::HitTestAnswered(id, _) => before.layout_map.contains_key(id),
            ScriptEvent::Damaged(id, _) => before.layout_map.contains_key(id),
            ScriptEvent::Joined(id) => before.layout_map.contains_key(id),
            ScriptEvent::Reflowed(id, _) => {
                &&& before.layout_map.contains_key(id)
                &&& before.layout_map[id].damage is Some
            },
            ScriptEvent::ReflowedAll(id, _) => before.layout_map.contains_key(id),
            ScriptEvent::Queried(id, _) => before.layout_map.contains_key(id),
        }
    }

    /// The state of the task after the event.
    pub open spec fn after(self, before: ScriptTaskView) -> ScriptTaskView {
        match self {
            ScriptEvent::Message(msg) => before.after(msg),
            ScriptEvent::StyleSheetReceived(_, _) => before,
            ScriptEvent::Parsed { id, page, .. } => before.with_page(id, page),
            ScriptEvent::ScriptRead(_, _) => before,
            ScriptEvent::TimerReturned => before.all_reflowed(None),
            ScriptEvent::HitTestAnswered(_, _) => before,
            ScriptEvent::Damaged(id, level) => before.with_page(
                id,
                before.layout_map[id].damaged(level),
            ),
            ScriptEvent::Joined(id) => before.with_page(id, before.layout_map[id].joined()),
            ScriptEvent::Reflowed(id, _) => before.with_page(id, before.layout_map[id].forked()),
            ScriptEvent::ReflowedAll(id, _) => before.with_page(
                id,
                before.layout_map[id].damaged(
                    DocumentDamageLevel::MatchSelectorsDocumentDamage,
                ).forked(),
            ),
            ScriptEvent::Queried(id, _) => before.with_page(id, before.layout_map[id].joined()),
        }
    }

    /// Whether the actions are those that the task answers the event with.
    pub open spec fn is_answered(self, before: ScriptTaskView, actions: Seq<ScriptAction>) -> bool {
        match self {
            ScriptEvent::Message(msg) => actions =~= actions_for(before, msg),
            ScriptEvent::StyleSheetReceived(layout_chan, sheet) => actions =~= sheet_actions(
                layout_chan,
                sheet,
            ),
            ScriptEvent::Parsed { id, layout_chan, url, parsed, window, .. } => runs_document(
                before,
                id,
                layout_chan,
                url,
                Document { root: parsed.root, window: Some(window) },
                parsed.js_scripts@,
                actions,
            ),
            ScriptEvent::ScriptRead(url, file) => runs_script(before, url, file, actions),
            ScriptEvent::TimerReturned => actions =~= reflow_all_actions(
                before,
                None,
                ReflowGoal::ReflowForScriptQuery,
            ),
            ScriptEvent::HitTestAnswered(id, response) => actions =~= hit_actions(
                before.layout_map[id],
                response,
            ),
            ScriptEvent::Damaged(_, _) => actions =~= seq![],
            ScriptEvent::Joined(id) => actions =~= join_actions(id, before.layout_map[id]),
            ScriptEvent::Reflowed(id, goal) => actions =~= reflow_actions(
                id,
                before.layout_map[id],
                goal,
                before.window_size,
            ),
            ScriptEvent::ReflowedAll(id, goal) => actions =~= reflow_actions(
                id,
                before.layout_map[id].damaged(DocumentDamageLevel::MatchSelectorsDocumentDamage),
                goal,
                before.window_size,
            ),
            ScriptEvent::Queried(id, query) => actions =~= query_actions(
                id,
                before.layout_map[id],
                query,
            ),
        }
    }

    /// Whether the event asks for a page to be loaded.
    pub open spec fn is_load(self) -> bool {
        self matches ScriptEvent::Message(msg) && msg is LoadMsg
    }
}

/// An event, and what the task answered it with.
pub ghost struct ScriptStep {
    pub event: ScriptEvent,
    pub actions: Seq<ScriptAction>,
}

/// The state of a task after a course of steps.
pub open spec fn state_after(start: ScriptTaskView, course: Seq<ScriptStep>) -> ScriptTaskView
    decreases course.len(),
{
    if course.len() == 0 {
        start
    } else {
        course.last().event.after(state_after(start, course.drop_last()))
    }
}

/// Whether a task can take a course: every event could happen when it came, and was answered.
pub open spec fn is_course(start: ScriptTaskView, course: Seq<ScriptStep>) -> bool
    decreases course.len(),
{
    course.len() > 0 ==> {
        let before = state_after(start, course.drop_last());
        &&& is_course(start, course.drop_last())
        &&& course.last().event.can_happen(before)
        &&& course.last().event.is_answered(before, course.last().actions)
    }
}

/// All that is done in a course, in order.
pub open spec fn all_actions(course: Seq<ScriptStep>) -> Seq<ScriptAction>
    decreases course.len(),
{
    if course.len() == 0 {
        seq![]
    } else {
        all_actions(course.drop_last()) + course.last().actions
    }
}

/// Whether a page was to be loaded in a course.
pub open spec fn loads(course: Seq<ScriptStep>) -> bool {
    exists|i: int| 0 <= i < course.len() && (#[trigger] course[i]).event.is_load()
}

/// The invariant of the task holds after every course, whatever pages are put up in it.
pub proof fn law_invariant_holds_in_every_course(start: ScriptTaskView, course: Seq<ScriptStep>)
    requires
        start.wf(),
        is_course(start, course),
    ensures
        state_after(start, course).wf(),
    decreases course.len(),
{
    if course.len() > 0 {
        law_invariant_holds_in_every_course(start, course.drop_last());
    }
}

/// Only a request to load a page has bindings defined or a page parsed.
proof fn lemma_only_loads_parse(before: ScriptTaskView, event: ScriptEvent, actions: Seq<
    ScriptAction,
>)
    requires
        event.is_answered(before, actions),
        !event.is_load(),
    ensures
        forall|i: int|
            0 <= i < actions.len() ==> {
                &&& !(#[trigger] actions[i] is DefineBindings)
                &&& !(actions[i] is ParseHtml)
            },
{
    assert forall|i: int| 0 <= i < actions.len() implies {
        &&& !(#[trigger] actions[i] is DefineBindings)
        &&& !(actions[i] is ParseHtml)
    } by {
        match event {
            ScriptEvent::Message(ScriptMsg::SendEventMsg(_, dom_event)) => {
                lemma_events_do_not_parse(before, dom_event, actions, i);
            },
            ScriptEvent::Message(ScriptMsg::ExitMsg) => {
                let id = lemma_for_each_origin(
                    ascending(before.layout_map.dom()),
                    exit_step(before),
                    i,
                );
            },
            ScriptEvent::Parsed { id, layout_chan, url, parsed, window, .. } => {
                let document = Document { root: parsed.root, window: Some(window) };
                let first = parsed_actions(before, id, layout_chan, url, document);
                if i < first.len() {
                    assert(actions[i] == actions.take(first.len() as int)[i]);
                } else {
                    lemma_scripts_are_evaluated(
                        before,
                        id,
                        layout_chan,
                        url,
                        document,
                        parsed.js_scripts@,
                        actions,
                        i,
                    );
                }
            },
            ScriptEvent::TimerReturned => {
                let id = lemma_for_each_origin(
                    ascending(before.layout_map.dom()),
                    reflow_step(before, None, ReflowGoal::ReflowForScriptQuery),
                    i,
                );
            },
            _ => {},
        }
    }
}

proof fn lemma_events_do_not_parse(
    before: ScriptTaskView,
    event: Event,
    actions: Seq<ScriptAction>,
    i: int,
)
    requires
        exists|id: usize| actions == #[trigger] event_actions(before, id, event),
        0 <= i < actions.len(),
    ensures
        !(actions[i] is DefineBindings),
        !(actions[i] is ParseHtml),
{
    match event {
        Event::ResizeEvent(width, height) => {
            let resized = before.resized(Size2D { width, height });
            let id = lemma_for_each_origin(
                ascending(resized.layout_map.dom()),
                reflow_step(
                    resized,
                    Some(DocumentDamageLevel::ReflowDocumentDamage),
                    ReflowGoal::ReflowForDisplay,
                ),
                i,
            );
        },
        Event::ReflowEvent => {
            let id = lemma_for_each_origin(
                ascending(before.layout_map.dom()),
                reflow_step(
                    before,
                    Some(DocumentDamageLevel::MatchSelectorsDocumentDamage),
                    ReflowGoal::ReflowForDisplay,
                ),
                i,
            );
        },
        _ => {},
    }
}

proof fn lemma_definitions_concat(first: Seq<ScriptAction>, second: Seq<ScriptAction>)
    ensures
        definitions(first + second) == definitions(first) + definitions(second),
    decreases second.len(),
{
    if second.len() == 0 {
        assert(first + second =~= first);
    } else {
        assert((first + second).drop_last() =~= first + second.drop_last());
        lemma_definitions_concat(first, second.drop_last());
    }
}

proof fn lemma_loads_step(course: Seq<ScriptStep>)
    requires
        course.len() > 0,
    ensures
        loads(course) <==> loads(course.drop_last()) || course.last().event.is_load(),
{
    let earlier = course.drop_last();
    if loads(earlier) {
        let i = choose|i: int| 0 <= i < earlier.len() && (#[trigger] earlier[i]).event.is_load();
        assert(course[i].event.is_load());
    }
    if course.last().event.is_load() {
        assert(course[course.len() - 1].event.is_load());
    }
    if loads(course) {
        let i = choose|i: int| 0 <= i < course.len() && (#[trigger] course[i]).event.is_load();
        if i < earlier.len() {
            assert(earlier[i].event.is_load());
        }
    }
}

/// In a whole course the bindings are defined once, if a page is loaded and they were not there
/// before, and else not at all; once they are there, they stay.
pub proof fn law_bindings_are_defined_once_in_every_course(
    start: ScriptTaskView,
    course: Seq<ScriptStep>,
)
    requires
        is_course(start, course),
    ensures
        definitions(all_actions(course)) == if loads(course) && !start.bindings_initialized {
            1nat
        } else {
            0nat
        },
        state_after(start, course).bindings_initialized == (start.bindings_initialized || loads(
            course,
        )),
    decreases course.len(),
{
    if course.len() > 0 {
        let earlier = course.drop_last();
        let step = course.last();
        let before = state_after(start, earlier);
        law_bindings_are_defined_once_in_every_course(start, earlier);
        lemma_definitions_concat(all_actions(earlier), step.actions);
        lemma_loads_step(course);
        if step.event.is_load() {
            reveal_with_fuel(definitions, 4);
        } else {
            lemma_only_loads_parse(before, step.event, step.actions);
            lemma_no_definitions(step.actions);
        }
    }
}

/// No page is parsed before the bindings have been defined.
pub proof fn law_bindings_are_defined_before_parsing(
    start: ScriptTaskView,
    course: Seq<ScriptStep>,
    j: int,
)
    requires
        is_course(start, course),
        !start.bindings_initialized,
        0 <= j < all_actions(course).len(),
        all_actions(course)[j] is ParseHtml,
    ensures
        exists|i: int| 0 <= i < j && #[trigger] all_actions(course)[i] is DefineBindings,
    decreases course.len(),
{
    let earlier = course.drop_last();
    let step = course.last();
    let before = state_after(start, earlier);
    let all = all_actions(course);
    let done = all_actions(earlier);
    if j < done.len() {
        law_bindings_are_defined_before_parsing(start, earlier, j);
        let i = choose|i: int| 0 <= i < j && #[trigger] done[i] is DefineBindings;
        assert(all[i] is DefineBindings);
    } else {
        assert(all[j] == step.actions[j - done.len()]);
        if !step.event.is_load() {
            lemma_only_loads_parse(before, step.event, step.actions);
        }
        if before.bindings_initialized {
            law_bindings_are_defined_once_in_every_course(start, earlier);
            let i = lemma_some_definition(done);
            assert(all[i] is DefineBindings);
        } else {
            assert(all[done.len() as int] == step.actions[0]);
            assert(all[done.len() as int] is DefineBindings);
        }
    }
}

proof fn lemma_some_definition(actions: Seq<ScriptAction>) -> (i: int)
    requires
        definitions(actions) > 0,
    ensures
        0 <= i < actions.len(),
        actions[i] is DefineBindings,
    decreases actions.len(),
{
    if actions.last() is DefineBindings {
        actions.len() - 1
    } else {
        lemma_some_definition(actions.drop_last())
    }
}

/// Whether the layout of a page is running.
pub open spec fn is_running(task: ScriptTaskView, id: usize) -> bool {
    task.layout_map.contains_key(id) && task.layout_map[id].layout_join_port
}

/// Whether the layout of a page is running after a step, given whether it was before. A page that
/// has just been parsed has not been laid out, whatever stood under its id before, and the notice
/// that a layout is complete is its end. `None` if a layout is joined that is not running, or one
/// is requested while one is running.
pub open spec fn layout_after_step(running: bool, step: ScriptStep, id: usize) -> Option<bool> {
    match step.event {
        ScriptEvent::Parsed { id: parsed, .. } => layout_after(
            running && parsed != id,
            step.actions,
            id,
        ),
        ScriptEvent::Message(ScriptMsg::ReflowCompleteMsg(done)) => layout_after(
            running && done != id,
            step.actions,
            id,
        ),
        _ => layout_after(running, step.actions, id),
    }
}

/// Whether the layout of a page is running after a course.
pub open spec fn layout_after_course(
    running: bool,
    course: Seq<ScriptStep>,
    id: usize,
) -> Option<bool>
    decreases course.len(),
{
    if course.len() == 0 {
        Some(running)
    } else {
        match layout_after_course(running, course.drop_last(), id) {
            Some(now) => layout_after_step(now, course.last(), id),
            None => None,
        }
    }
}

/// Actions that neither join nor request a layout of a page do not concern it.
proof fn lemma_layout_unconcerned(running: bool, actions: Seq<ScriptAction>, id: usize)
    requires
        forall|i: int|
            0 <= i < actions.len() ==> {
                &&& #[trigger] actions[i] != ScriptAction::JoinLayout(id)
                &&& !(actions[i] matches ScriptAction::ForkLayout { page, .. } && page == id)
            },
    ensures
        layout_after(running, actions, id) == Some(running),
    decreases actions.len(),
{
    if actions.len() > 0 {
        let rest = actions.drop_last();
        assert forall|i: int| 0 <= i < rest.len() implies {
            &&& #[trigger] rest[i] != ScriptAction::JoinLayout(id)
            &&& !(rest[i] matches ScriptAction::ForkLayout { page, .. } && page == id)
        } by {
            assert(rest[i] == actions[i]);
        }
        lemma_layout_unconcerned(running, rest, id);
        assert(actions[actions.len() - 1] != ScriptAction::JoinLayout(id));
    }
}

/// Laying out all pages does not concern one that is not there.
proof fn lemma_reflows_unconcerned(
    before: ScriptTaskView,
    level: Option<DocumentDamageLevel>,
    goal: ReflowGoal,
    id: usize,
    running: bool,
)
    requires
        !before.layout_map.contains_key(id),
    ensures
        layout_after(running, reflow_all_actions(before, level, goal), id) == Some(running),
{
    let dom = before.layout_map.dom();
    let step = reflow_step(before, level, goal);
    lemma_ascending_lists(dom);
    assert(!dom.contains(id));
    assert(!ascending(dom).contains(id));
    assert forall|p: usize, now: bool|
        p != id implies #[trigger] layout_after(now, step(p), id) == Some(now) by {
        law_reflow_joins_before_it_forks(
            p,
            prepared(before.layout_map[p], level),
            goal,
            before.window_size,
            id,
            now,
        );
    }
    lemma_layout_after_for_each(ascending(dom), step, id, running, running);
}

/// A message does not concern the layout of a page that is not there.
proof fn lemma_message_unconcerned(before: ScriptTaskView, msg: ScriptMsg, id: usize, running: bool)
    requires
        before.accepts(msg),
        !before.layout_map.contains_key(id),
    ensures
        layout_after(running, actions_for(before, msg), id) == Some(running),
{
    match msg {
        ScriptMsg::SendEventMsg(_, Event::ResizeEvent(width, height)) => lemma_reflows_unconcerned(
            before.resized(Size2D { width, height }),
            Some(DocumentDamageLevel::ReflowDocumentDamage),
            ReflowGoal::ReflowForDisplay,
            id,
            running,
        ),
        ScriptMsg::SendEventMsg(_, Event::ReflowEvent) => lemma_reflows_unconcerned(
            before,
            Some(DocumentDamageLevel::MatchSelectorsDocumentDamage),
            ReflowGoal::ReflowForDisplay,
            id,
            running,
        ),
        ScriptMsg::ExitMsg => {
            let dom = before.layout_map.dom();
            lemma_ascending_lists(dom);
            assert(!dom.contains(id));
            assert(!ascending(dom).contains(id));
            assert forall|p: usize, now: bool|
                p != id implies #[trigger] layout_after(now, exit_step(before)(p), id) == Some(
                now,
            ) by {
                lemma_layout_after_exit_step(before, p, id, now);
            }
            lemma_layout_after_for_each(ascending(dom), exit_step(before), id, running, running);
        },
        _ => lemma_layout_unconcerned(running, actions_for(before, msg), id),
    }
}

/// What is done with a parsed document requests one layout of its page and does not concern
/// others.
proof fn lemma_parsed_forks_once(
    task: ScriptTaskView,
    parsed: usize,
    layout_chan: LayoutChan,
    url: Url,
    document: Document,
    scripts: Seq<Vec<u8>>,
    actions: Seq<ScriptAction>,
    id: usize,
    running: bool,
)
    requires
        runs_document(task, parsed, layout_chan, url, document, scripts, actions),
        parsed == id ==> !running,
    ensures
        layout_after(running, actions, id) == Some(running || parsed == id),
{
    let first = parsed_actions(task, parsed, layout_chan, url, document);
    let tail = actions.skip(4);
    assert(actions =~= first + tail) by {
        assert forall|i: int| 0 <= i < 4 implies #[trigger] actions[i] == first[i] by {
            assert(actions.take(first.len() as int)[i] == actions[i]);
        }
    }
    assert forall|i: int| 0 <= i < tail.len() implies {
        &&& #[trigger] tail[i] != ScriptAction::JoinLayout(id)
        &&& !(tail[i] matches ScriptAction::ForkLayout { page, .. } && page == id)
    } by {
        lemma_scripts_are_evaluated(
            task,
            parsed,
            layout_chan,
            url,
            document,
            scripts,
            actions,
            i + 4,
        );
    }
    lemma_layout_after_concat(running, first, tail, id);
    reveal_with_fuel(layout_after, 5);
    lemma_layout_unconcerned(running || parsed == id, tail, id);
}

proof fn lemma_layout_after_step(before: ScriptTaskView, step: ScriptStep, id: usize)
    requires
        before.wf(),
        step.event.can_happen(before),
        step.event.is_answered(before, step.actions),
    ensures
        layout_after_step(is_running(before, id), step, id) == Some(
            is_running(step.event.after(before), id),
        ),
{
    let running = is_running(before, id);
    match step.event {
        ScriptEvent::Message(msg) => {
            if msg is ReflowCompleteMsg {
                lemma_layout_unconcerned(
                    running && msg != ScriptMsg::ReflowCompleteMsg(id),
                    step.actions,
                    id,
                );
            } else if before.layout_map.contains_key(id) {
                law_layouts_of_a_page_do_not_overlap(before, msg, id);
            } else {
                lemma_message_unconcerned(before, msg, id, running);
            }
        },
        ScriptEvent::Parsed { id: parsed, layout_chan, url, parsed: document, window, .. } => {
            lemma_parsed_forks_once(
                before,
                parsed,
                layout_chan,
                url,
                Document { root: document.root, window: Some(window) },
                document.js_scripts@,
                step.actions,
                id,
                running && parsed != id,
            );
        },
        ScriptEvent::TimerReturned => {
            if before.layout_map.contains_key(id) {
                law_reflow_of_all_pages_joins_before_it_forks(
                    before,
                    None,
                    ReflowGoal::ReflowForScriptQuery,
                    id,
                );
            } else {
                lemma_reflows_unconcerned(
                    before,
                    None,
                    ReflowGoal::ReflowForScriptQuery,
                    id,
                    running,
                );
            }
        },
        ScriptEvent::Joined(page) => {
            lemma_layout_after_join(before.layout_map[page], page, id, running);
        },
        ScriptEvent::Reflowed(page, goal) => {
            law_reflow_joins_before_it_forks(
                page,
                before.layout_map[page],
                goal,
                before.window_size,
                id,
                running,
            );
        },
        ScriptEvent::ReflowedAll(page, goal) => {
            law_reflow_joins_before_it_forks(
                page,
                before.layout_map[page].damaged(
                    DocumentDamageLevel::MatchSelectorsDocumentDamage,
                ),
                goal,
                before.window_size,
                id,
                running,
            );
        },
        ScriptEvent::Queried(page, query) => {
            law_queries_wait_for_layout(page, before.layout_map[page], query, id, running);
        },
        _ => lemma_layout_unconcerned(running, step.actions, id),
    }
}

/// In a whole course no page ever has two layouts running, and none is joined that is not running:
/// what has been done is what the state of the page says.
pub proof fn law_layouts_do_not_overlap_in_any_course(
    start: ScriptTaskView,
    course: Seq<ScriptStep>,
    id: usize,
)
    requires
        start.wf(),
        is_course(start, course),
    ensures
        layout_after_course(is_running(start, id), course, id) == Some(
            is_running(state_after(start, course), id),
        ),
    decreases course.len(),
{
    if course.len() > 0 {
        let earlier = course.drop_last();
        law_layouts_do_not_overlap_in_any_course(start, earlier, id);
        law_invariant_holds_in_every_course(start, earlier);
        lemma_layout_after_step(state_after(start, earlier), course.last(), id);
    }
}

/// Whether an action sends something to a layout task.
pub open spec fn is_sent_to(action: ScriptAction, chan: LayoutChan) -> bool {
    match action {
        ScriptAction::AddStylesheet { layout_chan, .. } => layout_chan == chan,
        ScriptAction::PingLayout(layout_chan) => layout_chan == chan,
        ScriptAction::ForkLayout { layout_chan, .. } => layout_chan == chan,
        ScriptAction::QueryLayout { layout_chan, .. } => layout_chan == chan,
        _ => false,
    }
}

/// What a layout task is sent in the course of some actions, in order.
pub open spec fn sent_to(actions: Seq<ScriptAction>, chan: LayoutChan) -> Seq<ScriptAction> {
    actions.filter(|action: ScriptAction| is_sent_to(action, chan))
}

proof fn lemma_all_actions_concat(first: Seq<ScriptStep>, second: Seq<ScriptStep>)
    ensures
        all_actions(first + second) == all_actions(first) + all_actions(second),
    decreases second.len(),
{
    if second.len() == 0 {
        assert(first + second =~= first);
        assert(all_actions(first) + all_actions(second) =~= all_actions(first));
    } else {
        assert((first + second).drop_last() =~= first + second.drop_last());
        lemma_all_actions_concat(first, second.drop_last());
        assert(all_actions(first + second) =~= all_actions(first) + all_actions(second));
    }
}

proof fn lemma_sheets_are_sent(
    steps: Seq<ScriptStep>,
    layout_chan: LayoutChan,
    sheets: Seq<StyleSheetId>,
)
    requires
        steps.len() == sheets.len(),
        forall|i: int|
            0 <= i < steps.len() ==> (#[trigger] steps[i]).actions == sheet_actions(
                layout_chan,
                Some(sheets[i]),
            ),
    ensures
        sent_to(all_actions(steps), layout_chan) == sheets.map_values(
            |sheet: StyleSheetId| ScriptAction::AddStylesheet { layout_chan, sheet },
        ),
    decreases steps.len(),
{
    let adding = |sheet: StyleSheetId| ScriptAction::AddStylesheet { layout_chan, sheet };
    reveal(Seq::filter);
    if steps.len() > 0 {
        let rest = steps.drop_last();
        assert forall|i: int| 0 <= i < rest.len() implies (#[trigger] rest[i]).actions
            == sheet_actions(layout_chan, Some(sheets.drop_last()[i])) by {
            assert(rest[i] == steps[i]);
        }
        lemma_sheets_are_sent(rest, layout_chan, sheets.drop_last());
        assert(steps[steps.len() - 1].actions == sheet_actions(layout_chan, Some(sheets.last())));
        let all = all_actions(steps);
        assert(all.drop_last() =~= all_actions(rest));
        assert(sheets.map_values(adding) =~= sheets.drop_last().map_values(adding).push(
            adding(sheets.last()),
        ));
    } else {
        assert(sheets.map_values(adding) =~= Seq::empty());
    }
}

proof fn lemma_nothing_is_sent(actions: Seq<ScriptAction>, layout_chan: LayoutChan)
    requires
        forall|i: int|
            0 <= i < actions.len() ==> !is_sent_to(#[trigger] actions[i], layout_chan),
    ensures
        sent_to(actions, layout_chan) == Seq::<ScriptAction>::empty(),
    decreases actions.len(),
{
    reveal(Seq::filter);
    if actions.len() > 0 {
        let rest = actions.drop_last();
        assert forall|i: int| 0 <= i < rest.len() implies !is_sent_to(
            #[trigger] rest[i],
            layout_chan,
        ) by {
            assert(rest[i] == actions[i]);
        }
        lemma_nothing_is_sent(rest, layout_chan);
        assert(!is_sent_to(actions[actions.len() - 1], layout_chan));
    }
}

/// Every event of a course could happen when it came, and was answered.
proof fn lemma_course_step(start: ScriptTaskView, course: Seq<ScriptStep>, k: int)
    requires
        is_course(start, course),
        0 <= k < course.len(),
    ensures
        ({
            let before = state_after(start, course.take(k));
            &&& course[k].event.can_happen(before)
            &&& course[k].event.is_answered(before, course[k].actions)
            &&& state_after(start, course.take(k + 1)) == course[k].event.after(before)
        }),
    decreases course.len(),
{
    let earlier = course.drop_last();
    if k < earlier.len() {
        lemma_course_step(start, earlier, k);
        assert(earlier.take(k) =~= course.take(k));
        assert(earlier.take(k + 1) =~= course.take(k + 1));
    } else {
        assert(course.take(k) =~= earlier);
        assert(course.take(k + 1) =~= course);
    }
}

/// Style sheets do not change the state of the task.
proof fn lemma_sheets_keep_the_state(start: ScriptTaskView, course: Seq<ScriptStep>, k: int)
    requires
        is_course(start, course),
        1 <= k <= course.len(),
        forall|i: int|
            1 <= i < k ==> (#[trigger] course[i]).event is StyleSheetReceived,
    ensures
        state_after(start, course.take(k)) == state_after(start, course.take(1)),
    decreases k,
{
    if k > 1 {
        lemma_sheets_keep_the_state(start, course, k - 1);
        lemma_course_step(start, course, k - 1);
        assert(course[k - 1].event is StyleSheetReceived);
    }
}

/// When a page is loaded, its layout task is sent every style sheet of the page, in order, and
/// then one request for the first layout; nothing else goes there.
pub proof fn law_style_sheets_precede_the_first_layout(
    start: ScriptTaskView,
    id: usize,
    layout_chan: LayoutChan,
    url: Url,
    sheets: Seq<StyleSheetId>,
    parsed: ParsedDocument,
    window: Window,
    js_compartment: Compartment,
    page: Page,
    course: Seq<ScriptStep>,
)
    requires
        is_course(start, course),
        course.len() == sheets.len() + 3,
        course[0].event == ScriptEvent::Message(ScriptMsg::LoadMsg(id, layout_chan, url)),
        forall|i: int|
            0 <= i < sheets.len() ==> (#[trigger] course[i + 1]).event
                == ScriptEvent::StyleSheetReceived(layout_chan, Some(sheets[i])),
        course[sheets.len() as int + 1].event == ScriptEvent::StyleSheetReceived(layout_chan, None),
        course[sheets.len() as int + 2].event == (ScriptEvent::Parsed {
            id,
            layout_chan,
            url,
            parsed,
            window,
            js_compartment,
            page,
        }),
    ensures
        sent_to(all_actions(course), layout_chan) == sheets.map_values(
            |sheet: StyleSheetId| ScriptAction::AddStylesheet { layout_chan, sheet },
        ).push(
            ScriptAction::ForkLayout {
                page: id,
                layout_chan,
                reflow: Reflow {
                    document_root: parsed.root,
                    url,
                    goal: ReflowGoal::ReflowForDisplay,
                    window_size: start.window_size,
                    damage: DocumentDamage {
                        root: parsed.root,
                        level: DocumentDamageLevel::MatchSelectorsDocumentDamage,
                    },
                },
            },
        ),
{
    let n = sheets.len() as int;
    let document = Document { root: parsed.root, window: Some(window) };
    let sheet_steps = course.subrange(1, n + 1);
    let load = course[0].actions;
    let run = course[n + 2].actions;

    assert forall|i: int| 1 <= i < n + 2 implies (#[trigger] course[i]).event is
        StyleSheetReceived by {
        if i < n + 1 {
            assert(course[(i - 1) + 1].event is StyleSheetReceived);
        }
    }
    lemma_sheets_keep_the_state(start, course, n + 2);
    lemma_course_step(start, course, 0);
    lemma_course_step(start, course, n + 1);
    lemma_course_step(start, course, n + 2);
    assert(course.take(0) =~= Seq::empty());
    assert forall|i: int| 0 <= i < sheet_steps.len() implies (#[trigger] sheet_steps[i]).actions
        == sheet_actions(layout_chan, Some(sheets[i])) by {
        assert(sheet_steps[i] == course[i + 1]);
        lemma_course_step(start, course, i + 1);
    }

    lemma_nothing_is_sent(load, layout_chan);
    lemma_sheets_are_sent(sheet_steps, layout_chan, sheets);
    let task = start.after(ScriptMsg::LoadMsg(id, layout_chan, url));
    lemma_document_is_sent(task, id, layout_chan, url, document, parsed.js_scripts@, run);

    let ends = seq![course[n + 1], course[n + 2]];
    assert(course =~= seq![course[0]] + sheet_steps + ends);
    lemma_all_actions_concat(seq![course[0]] + sheet_steps, ends);
    lemma_all_actions_concat(seq![course[0]], sheet_steps);
    reveal_with_fuel(all_actions, 3);
    assert(all_actions(seq![course[0]]) =~= load);
    assert(ends.drop_last() =~= seq![course[n + 1]]);
    assert(all_actions(ends) =~= run);
    let sent = |action: ScriptAction| is_sent_to(action, layout_chan);
    Seq::filter_distributes_over_add(load + all_actions(sheet_steps), run, sent);
    Seq::filter_distributes_over_add(load, all_actions(sheet_steps), sent);
}

/// Of what is done with a parsed document, only the request for its layout goes to layout.
proof fn lemma_document_is_sent(
    task: ScriptTaskView,
    id: usize,
    layout_chan: LayoutChan,
    url: Url,
    document: Document,
    scripts: Seq<Vec<u8>>,
    actions: Seq<ScriptAction>,
)
    requires
        runs_document(task, id, layout_chan, url, document, scripts, actions),
    ensures
        sent_to(actions, layout_chan) == seq![
            parsed_actions(task, id, layout_chan, url, document)[2],
        ],
{
    let first = parsed_actions(task, id, layout_chan, url, document);
    let head = first.take(2);
    let fork = seq![first[2]];
    let tail = actions.skip(3);
    let sent = |action: ScriptAction| is_sent_to(action, layout_chan);
    assert forall|i: int| 0 <= i < tail.len() implies !is_sent_to(
        #[trigger] tail[i],
        layout_chan,
    ) by {
        if i == 0 {
            assert(actions.take(first.len() as int)[3] == actions[3]);
        } else {
            lemma_scripts_are_evaluated(
                task,
                id,
                layout_chan,
                url,
                document,
                scripts,
                actions,
                i + 3,
            );
        }
    }
    assert(actions =~= head + fork + tail) by {
        assert forall|i: int| 0 <= i < 3 implies #[trigger] actions[i] == first[i] by {
            assert(actions.take(first.len() as int)[i] == actions[i]);
        }
    }
    lemma_nothing_is_sent(head, layout_chan);
    lemma_nothing_is_sent(tail, layout_chan);
    Seq::filter_distributes_over_add(head + fork, tail, sent);
    Seq::filter_distributes_over_add(head, fork, sent);
    assert(fork.filter(sent) =~= fork) by {
        reveal_with_fuel(Seq::filter, 2);
    }
}

/// After the first actions for a parsed document come its scripts alone.
proof fn lemma_scripts_are_evaluated(
    task: ScriptTaskView,
    id: usize,
    layout_chan: LayoutChan,
    url: Url,
    document: Document,
    scripts: Seq<Vec<u8>>,
    actions: Seq<ScriptAction>,
    i: int,
)
    requires
        runs_document(task, id, layout_chan, url, document, scripts, actions),
        parsed_actions(task, id, layout_chan, url, document).len() <= i < actions.len(),
    ensures
        actions[i] is EvaluateScript,
{
    let first = parsed_actions(task, id, layout_chan, url, document);
    let script = scripts[i - first.len()];
    assert(evaluates(actions[first.len() + (i - first.len())], task.js_compartment, script));
}

} // verus!
