//! The script task: it owns the documents, runs JavaScript, and drives parsing and layout.
//!
//! The task decides; its surroundings act. A step returns the actions to be performed, in order.
//! Where an action has a result that the task needs (a parsed document, a file, the answer of a
//! layout task, the return of a script function), it is the last one of its step, and the result
//! comes back through a method of its own.

use std::collections::BTreeMap;

use vstd::prelude::*;
use vstd::string::StringExecFns;

use crate::dom::{
    Attr, Compartment, Document, Element, Event, JSContext, JSObject, JSVal, Node, NodeId,
    TimerData, Window,
};
use crate::geometry::Size2D;
use crate::ids::{ascending, keys, lists};
use crate::layout::{
    with_damage, DocumentDamage, DocumentDamageLevel, LayoutChan, LayoutQuery, ReadyState, Reflow,
    ReflowGoal, StyleSheetId,
};
use crate::navigation::{NavigationContext, NavigationContextView};
use crate::page::{Frame, JSFrameInfo, Page};
use crate::url::Url;

verus! {

/// Messages used to control the script task.
pub enum ScriptMsg {
    /// Loads a page with the given id, whose layout is done at the other end of the channel.
    LoadMsg(usize, LayoutChan, Url),
    /// Executes a standalone script.
    ExecuteMsg(Url),
    /// Sends a DOM event, along with the id of the page.
    SendEventMsg(usize, Event),
    /// Fires a JavaScript timeout.
    FireTimerMsg(TimerData),
    /// Notifies script that reflow of a page is finished.
    ReflowCompleteMsg(usize),
    /// Ends the task.
    ExitMsg,
}

/// The `this` of a function call.
#[derive(Clone, Copy, Debug, PartialEq, Eq, Structural)]
pub enum ThisValue {
    /// The object that a value refers to.
    Argument(JSVal),
    /// The global object.
    Global(JSObject),
}

/// What an HTML parser makes of a page.
pub struct ParsedDocument {
    /// The root of the document tree.
    pub root: NodeId,
    /// The scripts of the document, in order.
    pub js_scripts: Vec<Vec<u8>>,
}

/// What the script task asks of its surroundings.
#[derive(Debug, PartialEq, Eq)]
pub enum ScriptAction {
    /// Defines the DOM bindings in a compartment.
    DefineBindings(Compartment),
    /// Defines the debug functions in a compartment.
    DefineDebugFunctions(Compartment),
    /// Tells the compositor how far a page has come.
    SetReadyState(ReadyState),
    /// Parses a page. Its style sheets come back, one after the other, through
    /// [`ScriptTask::style_sheet_received`], and then the document through
    /// [`ScriptTask::document_parsed`].
    ParseHtml { page: usize, layout_chan: LayoutChan, url: Url },
    /// Sends a style sheet to a layout task.
    AddStylesheet { layout_chan: LayoutChan, sheet: StyleSheetId },
    /// Ties the root of a document into it.
    AddToDocument(Document),
    /// Reads the file at a locator's path; the result comes back through
    /// [`ScriptTask::script_read`].
    ReadScript(Url),
    /// Prints a line for the user.
    Print(String),
    /// Evaluates a script, whose text begins at the given line of the named file.
    EvaluateScript { compartment: Compartment, source: Vec<u8>, filename: String, line: u32 },
    /// Calls a function without arguments; its return is told by [`ScriptTask::timer_returned`].
    CallFunction { cx: JSContext, this: ThisValue, funval: JSVal },
    /// Sends a ping to a layout task, which answers when it has finished its pending requests.
    PingLayout(LayoutChan),
    /// Waits on a page's port until the layout task answers, and closes the port.
    JoinLayout(usize),
    /// Opens a port for a page and sends its layout task a request that will be answered there.
    ForkLayout { page: usize, layout_chan: LayoutChan, reflow: Reflow },
    /// Asks a layout task; the answer comes back through [`ScriptTask::hit_test_answered`].
    QueryLayout { page: usize, layout_chan: LayoutChan, query: LayoutQuery },
    /// Tears down a document.
    Teardown(Document),
    /// Has the engine load what a link refers to, seen from the page that holds it.
    LoadUrl { href: String, base: Url },
}

/// The script task.
pub struct ScriptTask {
    /// The id by which pages know their script task.
    id: usize,
    /// The pages, by their ids.
    layout_map: BTreeMap<usize, Page>,
    /// The current size of the window, in pixels.
    window_size: Size2D,
    /// Whether the JS bindings have been initialized.
    bindings_initialized: bool,
    /// The JavaScript compartment of the task.
    js_compartment: Compartment,
}

/// The state of a [`ScriptTask`].
#[verifier::ext_equal]
pub ghost struct ScriptTaskView {
    pub id: usize,
    pub layout_map: Map<usize, Page>,
    pub window_size: Size2D,
    pub bindings_initialized: bool,
    pub js_compartment: Compartment,
}

/// The page after damage of the given level, if any, has been added.
pub open spec fn prepared(page: Page, level: Option<DocumentDamageLevel>) -> Page {
    match level {
        Some(level) => page.damaged(level),
        None => page,
    }
}

impl ScriptTaskView {
    /// Every page has an outermost frame, knows its task and the size of the window, and is known
    /// to its frames.
    pub open spec fn wf(self) -> bool {
        forall|id: usize| #[trigger]
            self.layout_map.contains_key(id) ==> self.holds(id, self.layout_map[id])
    }

    /// Whether a page can stand under an id.
    pub open spec fn holds(self, id: usize, page: Page) -> bool {
        &&& page.wf()
        &&& page.script_task == self.id
        &&& page.window_size == self.window_size
        &&& forall|i: int| 0 <= i < page.frames@.len() ==> (#[trigger] page.frames@[i]).page == id
    }

    /// The state with another page under an id.
    pub open spec fn with_page(self, id: usize, page: Page) -> ScriptTaskView {
        ScriptTaskView { layout_map: self.layout_map.insert(id, page), ..self }
    }

    /// Whether there is damage to lay out on every page.
    pub open spec fn all_damaged(self) -> bool {
        forall|id: usize| #[trigger]
            self.layout_map.contains_key(id) ==> self.layout_map[id].damage is Some
    }

    /// The state after all pages have been laid out anew.
    pub open spec fn all_reflowed(self, level: Option<DocumentDamageLevel>) -> ScriptTaskView {
        ScriptTaskView {
            layout_map: self.layout_map.map_values(|page: Page| prepared(page, level).forked()),
            ..self
        }
    }

    /// The state in a window of another size.
    pub open spec fn resized(self, window_size: Size2D) -> ScriptTaskView {
        ScriptTaskView {
            window_size,
            layout_map: self.layout_map.map_values(|page: Page| page.resized(window_size)),
            ..self
        }
    }

    /// Whether the task can handle a message: an event or a notice about a page needs the page.
    pub open spec fn accepts(self, msg: ScriptMsg) -> bool {
        match msg {
            ScriptMsg::SendEventMsg(id, event) => self.accepts_event(id, event),
            ScriptMsg::ReflowCompleteMsg(id) => self.layout_map.contains_key(id),
            _ => true,
        }
    }

    /// Whether the task can handle an event: a click needs the page that it hits.
    pub open spec fn accepts_event(self, id: usize, event: Event) -> bool {
        event is ClickEvent ==> self.layout_map.contains_key(id)
    }

    /// The state after an event.
    pub open spec fn after_event(self, id: usize, event: Event) -> ScriptTaskView {
        match event {
            Event::ResizeEvent(width, height) => self.resized(
                Size2D { width, height },
            ).all_reflowed(Some(DocumentDamageLevel::ReflowDocumentDamage)),
            Event::ReflowEvent => self.all_reflowed(
                Some(DocumentDamageLevel::MatchSelectorsDocumentDamage),
            ),
            Event::ClickEvent(_, _) => self.with_page(id, self.layout_map[id].joined()),
            Event::MouseDownEvent(_, _) => self,
            Event::MouseUpEvent(_, _) => self,
        }
    }

    /// The state after a message.
    pub open spec fn after(self, msg: ScriptMsg) -> ScriptTaskView {
        match msg {
            ScriptMsg::LoadMsg(_, _, _) => ScriptTaskView { bindings_initialized: true, ..self },
            ScriptMsg::ExecuteMsg(_) => self,
            ScriptMsg::SendEventMsg(id, event) => self.after_event(id, event),
            ScriptMsg::FireTimerMsg(_) => self,
            ScriptMsg::ReflowCompleteMsg(id) => self.with_page(id, self.layout_map[id].joined()),
            ScriptMsg::ExitMsg => self.all_joined(),
        }
    }

    /// The state when the layouts of all pages have been joined.
    pub open spec fn all_joined(self) -> ScriptTaskView {
        ScriptTaskView {
            layout_map: self.layout_map.map_values(|page: Page| page.joined()),
            ..self
        }
    }
}

/// What is done to join the layout of a page: if it is running, its layout task is sent a ping and
/// the answer is awaited.
pub open spec fn join_actions(id: usize, page: Page) -> Seq<ScriptAction> {
    if page.layout_join_port {
        seq![ScriptAction::PingLayout(page.layout_chan), ScriptAction::JoinLayout(id)]
    } else {
        seq![]
    }
}

/// What is done to request a layout of a page.
pub open spec fn fork_actions(
    id: usize,
    page: Page,
    goal: ReflowGoal,
    window_size: Size2D,
) -> Seq<ScriptAction> {
    seq![
        ScriptAction::SetReadyState(ReadyState::PerformingLayout),
        ScriptAction::ForkLayout {
            page: id,
            layout_chan: page.layout_chan,
            reflow: Reflow {
                document_root: page.root().document.root,
                url: page.root().url,
                goal,
                window_size,
                damage: page.damage->0,
            },
        },
    ]
}

/// What is done to lay a page out anew.
pub open spec fn reflow_actions(
    id: usize,
    page: Page,
    goal: ReflowGoal,
    window_size: Size2D,
) -> Seq<ScriptAction> {
    join_actions(id, page) + fork_actions(id, page, goal, window_size)
}

/// What is done to ask the layout task of a page.
pub open spec fn query_actions(id: usize, page: Page, query: LayoutQuery) -> Seq<ScriptAction> {
    join_actions(id, page) + seq![
        ScriptAction::QueryLayout { page: id, layout_chan: page.layout_chan, query },
    ]
}

/// The actions for each of several pages, one page after the other.
pub open spec fn for_each(
    ids: Seq<usize>,
    actions: spec_fn(usize) -> Seq<ScriptAction>,
) -> Seq<ScriptAction>
    decreases ids.len(),
{
    if ids.len() == 0 {
        seq![]
    } else {
        for_each(ids.drop_last(), actions) + actions(ids.last())
    }
}

/// What is done to lay out one of the pages of a task anew.
pub open spec fn reflow_step(
    before: ScriptTaskView,
    level: Option<DocumentDamageLevel>,
    goal: ReflowGoal,
) -> spec_fn(usize) -> Seq<ScriptAction> {
    |id: usize|
        reflow_actions(id, prepared(before.layout_map[id], level), goal, before.window_size)
}

/// What is done to lay all pages out anew.
pub open spec fn reflow_all_actions(
    before: ScriptTaskView,
    level: Option<DocumentDamageLevel>,
    goal: ReflowGoal,
) -> Seq<ScriptAction> {
    for_each(ascending(before.layout_map.dom()), reflow_step(before, level, goal))
}

/// What is done with one of the pages of a task when the task ends.
pub open spec fn exit_step(before: ScriptTaskView) -> spec_fn(usize) -> Seq<ScriptAction> {
    |id: usize|
        join_actions(id, before.layout_map[id]) + seq![
            ScriptAction::Teardown(before.layout_map[id].root().document),
        ]
}

/// What is done upon an event.
pub open spec fn event_actions(before: ScriptTaskView, id: usize, event: Event) -> Seq<
    ScriptAction,
> {
    match event {
        Event::ResizeEvent(width, height) => reflow_all_actions(
            before.resized(Size2D { width, height }),
            Some(DocumentDamageLevel::ReflowDocumentDamage),
            ReflowGoal::ReflowForDisplay,
        ),
        Event::ReflowEvent => reflow_all_actions(
            before,
            Some(DocumentDamageLevel::MatchSelectorsDocumentDamage),
            ReflowGoal::ReflowForDisplay,
        ),
        Event::ClickEvent(_, point) => query_actions(
            id,
            before.layout_map[id],
            LayoutQuery::HitTestQuery(before.layout_map[id].root().document.root, point),
        ),
        Event::MouseDownEvent(_, _) => seq![],
        Event::MouseUpEvent(_, _) => seq![],
    }
}

/// What is done upon a message.
pub open spec fn actions_for(before: ScriptTaskView, msg: ScriptMsg) -> Seq<ScriptAction> {
    match msg {
        ScriptMsg::LoadMsg(id, layout_chan, url) => (if before.bindings_initialized {
            Seq::<ScriptAction>::empty()
        } else {
            seq![ScriptAction::DefineBindings(before.js_compartment)]
        }) + seq![
            ScriptAction::SetReadyState(ReadyState::Loading),
            ScriptAction::ParseHtml { page: id, layout_chan, url },
        ],
        ScriptMsg::ExecuteMsg(url) => seq![ScriptAction::ReadScript(url)],
        ScriptMsg::SendEventMsg(id, event) => event_actions(before, id, event),
        ScriptMsg::FireTimerMsg(timer_data) => seq![
            ScriptAction::CallFunction {
                cx: before.js_compartment.cx,
                this: if timer_data.args@.len() > 0 {
                    ThisValue::Argument(timer_data.args@[0])
                } else {
                    ThisValue::Global(before.js_compartment.global_obj)
                },
                funval: timer_data.funval,
            },
        ],
        ScriptMsg::ReflowCompleteMsg(_) => seq![
            ScriptAction::SetReadyState(ReadyState::FinishedLoading),
        ],
        ScriptMsg::ExitMsg => for_each(ascending(before.layout_map.dom()), exit_step(before)),
    }
}

/// Whether the actions are those for a script whose file has been read, or could not be opened.
pub open spec fn runs_script(
    task: ScriptTaskView,
    url: Url,
    file: Result<Vec<u8>, String>,
    actions: Seq<ScriptAction>,
) -> bool {
    match file {
        Ok(bytes) => actions =~= seq![
            ScriptAction::DefineDebugFunctions(task.js_compartment),
            ScriptAction::EvaluateScript {
                compartment: task.js_compartment,
                source: bytes,
                filename: url.path,
                line: 1,
            },
        ],
        Err(reason) => {
            &&& actions.len() == 1
            &&& actions[0] matches ScriptAction::Print(line)
            &&& line@ =~= "Error opening "@ + url.text@ + ": "@ + reason@
        },
    }
}

/// What is done with a style sheet of a page that is being parsed. `None` is the end of them.
pub open spec fn sheet_actions(layout_chan: LayoutChan, sheet: Option<StyleSheetId>) -> Seq<
    ScriptAction,
> {
    match sheet {
        Some(sheet) => seq![ScriptAction::AddStylesheet { layout_chan, sheet }],
        None => seq![],
    }
}

impl View for ScriptTask {
    type V = ScriptTaskView;

    closed spec fn view(&self) -> ScriptTaskView {
        ScriptTaskView {
            id: self.id,
            layout_map: self.layout_map@,
            window_size: self.window_size,
            bindings_initialized: self.bindings_initialized,
            js_compartment: self.js_compartment,
        }
    }
}

impl ScriptTask {
    /// Creates a script task without pages, for a window of 800 by 600 pixels.
    pub fn new(id: usize, js_compartment: Compartment) -> (task: ScriptTask)
        ensures
            task@ == (ScriptTaskView {
                id,
                layout_map: Map::empty(),
                window_size: Size2D { width: 800, height: 600 },
                bindings_initialized: false,
                js_compartment,
            }),
            task@.wf(),
    {
        ScriptTask {
            id,
            layout_map: BTreeMap::new(),
            window_size: Size2D { width: 800, height: 600 },
            bindings_initialized: false,
            js_compartment,
        }
    }

    /// The page with the given id.
    pub fn page(&self, id: usize) -> (page: Option<&Page>)
        ensures
            match page {
                Some(page) => self@.layout_map.contains_key(id) && *page == self@.layout_map[id],
                None => !self@.layout_map.contains_key(id),
            },
    {
        broadcast use vstd::laws_cmp::group_laws_cmp;

        self.layout_map.get(&id)
    }

    /// The JavaScript compartment of the task.
    pub fn js_compartment(&self) -> (compartment: Compartment)
        ensures
            compartment == self@.js_compartment,
    {
        self.js_compartment
    }

    /// Sends a ping to the layout task of a page and waits for the response, if layout is running.
    /// The response arrives when the layout task has finished any pending request messages.
    pub fn join_layout(&mut self, id: usize) -> (actions: Vec<ScriptAction>)
        requires
            old(self)@.wf(),
            old(self)@.layout_map.contains_key(id),
        ensures
            final(self)@.wf(),
            final(self)@ == old(self)@.with_page(id, old(self)@.layout_map[id].joined()),
            actions@ == join_actions(id, old(self)@.layout_map[id]),
    {
        broadcast use vstd::laws_cmp::group_laws_cmp;

        let mut actions: Vec<ScriptAction> = Vec::new();
        let mut page = self.layout_map.remove(&id).unwrap();
        if page.layout_join_port {
            page.layout_join_port = false;
            actions.push(ScriptAction::PingLayout(page.layout_chan));
            actions.push(ScriptAction::JoinLayout(id));
        }
        self.layout_map.insert(id, page);
        assert(self@.layout_map =~= old(self)@.layout_map.insert(
            id,
            old(self)@.layout_map[id].joined(),
        ));
        actions
    }

    /// Waits until the layout task of a page has completed its current action, joins it, and then
    /// requests a new layout run. It does not wait for the new layout computation to finish.
    pub fn reflow(&mut self, id: usize, goal: ReflowGoal) -> (actions: Vec<ScriptAction>)
        requires
            old(self)@.wf(),
            old(self)@.layout_map.contains_key(id),
            old(self)@.layout_map[id].damage is Some,
        ensures
            final(self)@.wf(),
            final(self)@ == old(self)@.with_page(id, old(self)@.layout_map[id].forked()),
            actions@ == reflow_actions(
                id,
                old(self)@.layout_map[id],
                goal,
                old(self)@.window_size,
            ),
    {
        broadcast use vstd::laws_cmp::group_laws_cmp;

        let mut actions = self.join_layout(id);
        actions.push(ScriptAction::SetReadyState(ReadyState::PerformingLayout));
        let mut page = self.layout_map.remove(&id).unwrap();
        page.layout_join_port = true;
        let damage = page.damage.take().unwrap();
        let root_frame = &page.frames[0];
        let reflow = Reflow {
            document_root: root_frame.document.root,
            url: root_frame.url.clone(),
            goal,
            window_size: self.window_size,
            damage,
        };
        actions.push(ScriptAction::ForkLayout { page: id, layout_chan: page.layout_chan, reflow });
        self.layout_map.insert(id, page);
        assert(self@.layout_map =~= old(self)@.layout_map.insert(
            id,
            old(self)@.layout_map[id].forked(),
        ));
        assert(actions@ =~= reflow_actions(
            id,
            old(self)@.layout_map[id],
            goal,
            old(self)@.window_size,
        ));
        actions
    }

    /// Adds the given damage.
    pub fn damage(damage: &mut Option<DocumentDamage>, root: NodeId, level: DocumentDamageLevel)
        ensures
            *final(damage) == Some(with_damage(*old(damage), root, level)),
    {
        match damage.take() {
            None => {
                *damage = Some(DocumentDamage { root, level });
            },
            Some(mut present) => {
                present.root = root;
                present.level.add(level);
                *damage = Some(present);
            },
        }
    }

    /// Adds damage to the document of a page.
    pub fn damage_page(&mut self, id: usize, level: DocumentDamageLevel)
        requires
            old(self)@.wf(),
            old(self)@.layout_map.contains_key(id),
        ensures
            final(self)@.wf(),
            final(self)@ == old(self)@.with_page(id, old(self)@.layout_map[id].damaged(level)),
    {
        broadcast use vstd::laws_cmp::group_laws_cmp;

        let mut page = self.layout_map.remove(&id).unwrap();
        let root = page.frames[0].document.root;
        ScriptTask::damage(&mut page.damage, root, level);
        self.layout_map.insert(id, page);
        assert(self@.layout_map =~= old(self)@.layout_map.insert(
            id,
            old(self)@.layout_map[id].damaged(level),
        ));
    }

    /// Reflows the entire document of a page.
    pub fn reflow_all(&mut self, id: usize, goal: ReflowGoal) -> (actions: Vec<ScriptAction>)
        requires
            old(self)@.wf(),
            old(self)@.layout_map.contains_key(id),
        ensures
            final(self)@.wf(),
            ({
                let page = old(self)@.layout_map[id].damaged(
                    DocumentDamageLevel::MatchSelectorsDocumentDamage,
                );
                &&& final(self)@ == old(self)@.with_page(id, page.forked())
                &&& actions@ == reflow_actions(id, page, goal, old(self)@.window_size)
            }),
    {
        self.damage_page(id, DocumentDamageLevel::MatchSelectorsDocumentDamage);
        let actions = self.reflow(id, goal);
        proof {
            let page = old(self)@.layout_map[id].damaged(
                DocumentDamageLevel::MatchSelectorsDocumentDamage,
            );
            assert(self@.layout_map =~= old(self)@.layout_map.insert(id, page.forked()));
        }
        actions
    }

    /// Sends the given query to the layout task of a page, once its layout is done.
    pub fn query_layout(&mut self, id: usize, query: LayoutQuery) -> (actions: Vec<ScriptAction>)
        requires
            old(self)@.wf(),
            old(self)@.layout_map.contains_key(id),
        ensures
            final(self)@.wf(),
            final(self)@ == old(self)@.with_page(id, old(self)@.layout_map[id].joined()),
            actions@ == query_actions(id, old(self)@.layout_map[id], query),
    {
        let mut actions = self.join_layout(id);
        let layout_chan = self.page(id).unwrap().layout_chan;
        actions.push(ScriptAction::QueryLayout { page: id, layout_chan, query });
        assert(actions@ =~= query_actions(id, old(self)@.layout_map[id], query));
        actions
    }

    /// Lays all pages out anew, after adding damage of the given level, if any.
    fn reflow_pages(
        &mut self,
        level: Option<DocumentDamageLevel>,
        goal: ReflowGoal,
    ) -> (actions: Vec<ScriptAction>)
        requires
            old(self)@.wf(),
            level is Some || old(self)@.all_damaged(),
        ensures
            final(self)@.wf(),
            final(self)@ == old(self)@.all_reflowed(level),
            actions@ == reflow_all_actions(old(self)@, level, goal),
    {
        let ids = keys(&self.layout_map);
        let ghost start = self@;
        let ghost change = |page: Page| prepared(page, level).forked();
        let ghost step = reflow_step(start, level, goal);
        let mut actions: Vec<ScriptAction> = Vec::new();
        assert(self@ =~= partly(start, ids@.take(0), change));
        for i in 0..ids.len()
            invariant
                start.wf(),
                level is Some || start.all_damaged(),
                lists(ids@, start.layout_map.dom()),
                change == (|page: Page| prepared(page, level).forked()),
                step == reflow_step(start, level, goal),
                self@.wf(),
                self@ == partly(start, ids@.take(i as int), change),
                actions@ == for_each(ids@.take(i as int), step),
        {
            let id: usize = ids[i];
            proof {
                lemma_partly_step(start, ids@, i as int, change);
                lemma_for_each_step(ids@, i as int, step);
            }
            let ghost before = self@;
            if let Some(level) = level {
                self.damage_page(id, level);
            }
            let mut page_actions = self.reflow(id, goal);
            actions.append(&mut page_actions);
            assert(self@ =~= before.with_page(id, change(start.layout_map[id])));
        }
        proof {
            assert(ids@.take(ids@.len() as int) =~= ids@);
            lemma_partly_all(start, ids@, change);
            assert(self@ =~= start.all_reflowed(level));
        }
        actions
    }

    /// Changes the size of the window.
    fn resize(&mut self, window_size: Size2D)
        requires
            old(self)@.wf(),
        ensures
            final(self)@.wf(),
            final(self)@ == old(self)@.resized(window_size),
    {
        let ids = keys(&self.layout_map);
        self.window_size = window_size;
        let ghost start = self@;
        let ghost change = |page: Page| page.resized(window_size);
        assert(self@ =~= partly(start, ids@.take(0), change));
        for i in 0..ids.len()
            invariant
                lists(ids@, start.layout_map.dom()),
                change == (|page: Page| page.resized(window_size)),
                self@ == partly(start, ids@.take(i as int), change),
        {
            proof {
                lemma_partly_step(start, ids@, i as int, change);
            }
            self.resize_page(ids[i], window_size);
        }
        proof {
            assert(ids@.take(ids@.len() as int) =~= ids@);
            lemma_partly_all(start, ids@, change);
            assert(self@ =~= old(self)@.resized(window_size));
        }
    }

    /// Tells a page the size of the window.
    fn resize_page(&mut self, id: usize, window_size: Size2D)
        requires
            old(self)@.layout_map.contains_key(id),
        ensures
            final(self)@ == old(self)@.with_page(id, old(self)@.layout_map[id].resized(window_size)),
    {
        broadcast use vstd::laws_cmp::group_laws_cmp;

        let mut page = self.layout_map.remove(&id).unwrap();
        page.window_size = window_size;
        self.layout_map.insert(id, page);
        assert(self@.layout_map =~= old(self)@.layout_map.insert(
            id,
            old(self)@.layout_map[id].resized(window_size),
        ));
    }

    /// Decides whether the task can handle a message.
    pub fn accepts(&self, msg: &ScriptMsg) -> (res: bool)
        ensures
            res == self@.accepts(*msg),
    {
        match msg {
            ScriptMsg::SendEventMsg(id, Event::ClickEvent(_, _)) => self.page(*id).is_some(),
            ScriptMsg::ReflowCompleteMsg(id) => self.page(*id).is_some(),
            _ => true,
        }
    }

    /// Handles an incoming control message. Returns what is to be done, in order, and whether the
    /// task goes on.
    pub fn handle_msg(&mut self, msg: ScriptMsg) -> (res: (Vec<ScriptAction>, bool))
        requires
            old(self)@.wf(),
            old(self)@.accepts(msg),
        ensures
            final(self)@.wf(),
            final(self)@ == old(self)@.after(msg),
            res.0@ == actions_for(old(self)@, msg),
            res.1 == !(msg is ExitMsg),
    {
        match msg {
            ScriptMsg::LoadMsg(id, layout_chan, url) => (self.load(id, layout_chan, url), true),
            ScriptMsg::ExecuteMsg(url) => (self.handle_execute_msg(url), true),
            ScriptMsg::SendEventMsg(id, event) => (self.handle_event(id, event), true),
            ScriptMsg::FireTimerMsg(timer_data) => (self.handle_fire_timer_msg(timer_data), true),
            ScriptMsg::ReflowCompleteMsg(id) => (self.handle_reflow_complete_msg(id), true),
            ScriptMsg::ExitMsg => (self.handle_exit_msg(), false),
        }
    }

    /// Handles a request to execute a script.
    fn handle_execute_msg(&self, url: Url) -> (actions: Vec<ScriptAction>)
        ensures
            actions@ == actions_for(self@, ScriptMsg::ExecuteMsg(url)),
    {
        let mut actions: Vec<ScriptAction> = Vec::new();
        actions.push(ScriptAction::ReadScript(url));
        actions
    }

    /// Goes on with a script that was to be executed, when its file has been read: evaluates it,
    /// or reports why it could not be opened.
    pub fn script_read(&self, url: Url, file: Result<Vec<u8>, String>) -> (actions: Vec<
        ScriptAction,
    >)
        ensures
            runs_script(self@, url, file, actions@),
    {
        let mut actions: Vec<ScriptAction> = Vec::new();
        match file {
            Err(reason) => {
                let mut line: String = "Error opening ".to_owned();
                line.append(url.text.as_str());
                line.append(": ");
                line.append(reason.as_str());
                actions.push(ScriptAction::Print(line));
            },
            Ok(bytes) => {
                actions.push(ScriptAction::DefineDebugFunctions(self.js_compartment));
                actions.push(
                    ScriptAction::EvaluateScript {
                        compartment: self.js_compartment,
                        source: bytes,
                        filename: url.path,
                        line: 1,
                    },
                );
            },
        }
        actions
    }

    /// Handles a timer that fired: calls its function, on its first argument or else on the global
    /// object.
    fn handle_fire_timer_msg(&self, timer_data: TimerData) -> (actions: Vec<ScriptAction>)
        ensures
            actions@ == actions_for(self@, ScriptMsg::FireTimerMsg(timer_data)),
    {
        let this_value = if timer_data.args.len() > 0 {
            ThisValue::Argument(timer_data.args[0])
        } else {
            ThisValue::Global(self.js_compartment.global_obj)
        };
        let mut actions: Vec<ScriptAction> = Vec::new();
        actions.push(
            ScriptAction::CallFunction {
                cx: self.js_compartment.cx,
                this: this_value,
                funval: timer_data.funval,
            },
        );
        actions
    }

    /// Decides whether there is damage to lay out on every page.
    pub fn is_all_damaged(&self) -> (res: bool)
        ensures
            res == self@.all_damaged(),
    {
        let ids = keys(&self.layout_map);
        for i in 0..ids.len()
            invariant
                lists(ids@, self@.layout_map.dom()),
                forall|j: int|
                    0 <= j < i ==> self@.layout_map[#[trigger] ids@[j]].damage is Some,
        {
            assert(ids@.contains(ids@[i as int]));
            let page = self.page(ids[i]).unwrap();
            if page.damage.is_none() {
                assert(self@.layout_map.contains_key(ids@[i as int]));
                return false;
            }
        }
        proof {
            assert forall|id: usize| #[trigger] self@.layout_map.contains_key(id) implies
                self@.layout_map[id].damage is Some by {
                assert(ids@.contains(id));
                let j = choose|j: int| 0 <= j < ids@.len() && ids@[j] == id;
                assert(self@.layout_map[ids@[j]].damage is Some);
            }
        }
        true
    }

    /// Goes on with a timer that fired, when its function has returned: lays all pages out.
    pub fn timer_returned(&mut self) -> (actions: Vec<ScriptAction>)
        requires
            old(self)@.wf(),
            old(self)@.all_damaged(),
        ensures
            final(self)@.wf(),
            final(self)@ == old(self)@.all_reflowed(None),
            actions@ == reflow_all_actions(old(self)@, None, ReflowGoal::ReflowForScriptQuery),
    {
        self.reflow_pages(None, ReflowGoal::ReflowForScriptQuery)
    }

    /// Handles a notification that reflow completed.
    fn handle_reflow_complete_msg(&mut self, id: usize) -> (actions: Vec<ScriptAction>)
        requires
            old(self)@.wf(),
            old(self)@.layout_map.contains_key(id),
        ensures
            final(self)@.wf(),
            final(self)@ == old(self)@.after(ScriptMsg::ReflowCompleteMsg(id)),
            actions@ == actions_for(old(self)@, ScriptMsg::ReflowCompleteMsg(id)),
    {
        broadcast use vstd::laws_cmp::group_laws_cmp;

        let mut page = self.layout_map.remove(&id).unwrap();
        page.layout_join_port = false;
        self.layout_map.insert(id, page);
        assert(self@.layout_map =~= old(self)@.layout_map.insert(
            id,
            old(self)@.layout_map[id].joined(),
        ));
        let mut actions: Vec<ScriptAction> = Vec::new();
        actions.push(ScriptAction::SetReadyState(ReadyState::FinishedLoading));
        actions
    }

    /// Handles a request to exit the script task.
    fn handle_exit_msg(&mut self) -> (actions: Vec<ScriptAction>)
        requires
            old(self)@.wf(),
        ensures
            final(self)@.wf(),
            final(self)@ == old(self)@.all_joined(),
            actions@ == actions_for(old(self)@, ScriptMsg::ExitMsg),
    {
        let ids = keys(&self.layout_map);
        let ghost start = self@;
        let ghost change = |page: Page| page.joined();
        let ghost step = exit_step(start);
        let mut actions: Vec<ScriptAction> = Vec::new();
        assert(self@ =~= partly(start, ids@.take(0), change));
        for i in 0..ids.len()
            invariant
                start.wf(),
                lists(ids@, start.layout_map.dom()),
                change == (|page: Page| page.joined()),
                step == exit_step(start),
                self@.wf(),
                self@ == partly(start, ids@.take(i as int), change),
                actions@ == for_each(ids@.take(i as int), step),
        {
            let id: usize = ids[i];
            proof {
                lemma_partly_step(start, ids@, i as int, change);
                lemma_for_each_step(ids@, i as int, step);
            }
            let ghost earlier = actions@;
            let mut joins = self.join_layout(id);
            actions.append(&mut joins);
            let document = self.page(id).unwrap().frames[0].document;
            actions.push(ScriptAction::Teardown(document));
            assert(actions@ =~= earlier + step(id));
        }
        proof {
            assert(ids@.take(ids@.len() as int) =~= ids@);
            lemma_partly_all(start, ids@, change);
            assert(self@ =~= start.all_joined());
        }
        actions
    }

    /// The entry point to document loading: defines the bindings, unless that has been done, and
    /// has the page parsed.
    pub fn load(&mut self, id: usize, layout_chan: LayoutChan, url: Url) -> (actions: Vec<
        ScriptAction,
    >)
        requires
            old(self)@.wf(),
        ensures
            final(self)@.wf(),
            final(self)@ == old(self)@.after(ScriptMsg::LoadMsg(id, layout_chan, url)),
            actions@ == actions_for(old(self)@, ScriptMsg::LoadMsg(id, layout_chan, url)),
    {
        let mut actions: Vec<ScriptAction> = Vec::new();
        if !self.bindings_initialized {
            actions.push(ScriptAction::DefineBindings(self.js_compartment));
            self.bindings_initialized = true;
        }
        actions.push(ScriptAction::SetReadyState(ReadyState::Loading));
        actions.push(ScriptAction::ParseHtml { page: id, layout_chan, url });
        actions
    }

    /// This is the main entry point for receiving and dispatching DOM events.
    fn handle_event(&mut self, id: usize, event: Event) -> (actions: Vec<ScriptAction>)
        requires
            old(self)@.wf(),
            old(self)@.accepts_event(id, event),
        ensures
            final(self)@.wf(),
            final(self)@ == old(self)@.after_event(id, event),
            actions@ == event_actions(old(self)@, id, event),
    {
        match event {
            Event::ResizeEvent(new_width, new_height) => {
                self.resize(Size2D { width: new_width, height: new_height });
                self.reflow_pages(
                    Some(DocumentDamageLevel::ReflowDocumentDamage),
                    ReflowGoal::ReflowForDisplay,
                )
            },
            Event::ReflowEvent => {
                self.reflow_pages(
                    Some(DocumentDamageLevel::MatchSelectorsDocumentDamage),
                    ReflowGoal::ReflowForDisplay,
                )
            },
            Event::ClickEvent(_, point) => {
                let root = self.page(id).unwrap().frames[0].document.root;
                self.query_layout(id, LayoutQuery::HitTestQuery(root, point))
            },
            Event::MouseDownEvent(_, _) => Vec::new(),
            Event::MouseUpEvent(_, _) => Vec::new(),
        }
    }
}

/// The links of an anchor, as seen from the page that holds it.
pub open spec fn link_actions(attrs: Seq<Attr>, base: Url) -> Seq<ScriptAction> {
    attrs.filter(|attr: Attr| attr.is_href()).map_values(
        |attr: Attr| ScriptAction::LoadUrl { href: attr.value, base },
    )
}

/// What is done when a layout task has said which node a click hit: the links of the nearest
/// element are loaded, if it is an anchor.
pub open spec fn hit_actions(page: Page, response: Result<Node, ()>) -> Seq<ScriptAction> {
    match response {
        Ok(node) => match node.closest() {
            Some(element) => if element.is_anchor() {
                link_actions(element.attrs@, page.root().url)
            } else {
                seq![]
            },
            None => seq![],
        },
        Err(_) => seq![],
    }
}

impl ScriptTask {
    /// Goes on with a click, when the layout task has answered which node it hit.
    pub fn hit_test_answered(&self, id: usize, response: Result<Node, ()>) -> (actions: Vec<
        ScriptAction,
    >)
        requires
            self@.wf(),
            self@.layout_map.contains_key(id),
        ensures
            actions@ == hit_actions(self@.layout_map[id], response),
    {
        match response {
            Ok(node) => {
                if let Some(element) = node.closest_element() {
                    if element.has_anchor_tag() {
                        return self.load_url_from_element(id, element);
                    }
                }
                Vec::new()
            },
            Err(_) => Vec::new(),
        }
    }

    /// Loads what the `href` attributes of an element of a page refer to.
    fn load_url_from_element(&self, id: usize, element: &Element) -> (actions: Vec<ScriptAction>)
        requires
            self@.wf(),
            self@.layout_map.contains_key(id),
        ensures
            actions@ == link_actions(element.attrs@, self@.layout_map[id].root().url),
    {
        let page = self.page(id).unwrap();
        let current_url = &page.frames[0].url;
        let ghost attrs = element.attrs@;
        let mut actions: Vec<ScriptAction> = Vec::new();
        assert(actions@ =~= link_actions(attrs.take(0), *current_url)) by {
            reveal(Seq::filter);
        }
        for i in 0..element.attrs.len()
            invariant
                attrs == element.attrs@,
                actions@ == link_actions(attrs.take(i as int), *current_url),
        {
            let attr = &element.attrs[i];
            proof {
                lemma_link_step(attrs, i as int, *current_url);
            }
            if attr.has_href_name() {
                actions.push(
                    ScriptAction::LoadUrl { href: attr.value.clone(), base: current_url.clone() },
                );
            }
        }
        assert(attrs.take(attrs.len() as int) =~= attrs);
        actions
    }
}

proof fn lemma_link_step(attrs: Seq<Attr>, i: int, base: Url)
    requires
        0 <= i < attrs.len(),
    ensures
        link_actions(attrs.take(i + 1), base) == if attrs[i].is_href() {
            link_actions(attrs.take(i), base).push(
                ScriptAction::LoadUrl { href: attrs[i].value, base },
            )
        } else {
            link_actions(attrs.take(i), base)
        },
{
    reveal(Seq::filter);
    assert(attrs.take(i + 1).drop_last() =~= attrs.take(i));
    assert(link_actions(attrs.take(i + 1), base) =~= if attrs[i].is_href() {
        link_actions(attrs.take(i), base).push(
            ScriptAction::LoadUrl { href: attrs[i].value, base },
        )
    } else {
        link_actions(attrs.take(i), base)
    });
}

/// What is done when a page has been parsed, before its scripts are run.
pub open spec fn parsed_actions(
    task: ScriptTaskView,
    id: usize,
    layout_chan: LayoutChan,
    url: Url,
    document: Document,
) -> Seq<ScriptAction> {
    seq![
        ScriptAction::AddToDocument(document),
        ScriptAction::SetReadyState(ReadyState::PerformingLayout),
        ScriptAction::ForkLayout {
            page: id,
            layout_chan,
            reflow: Reflow {
                document_root: document.root,
                url,
                goal: ReflowGoal::ReflowForDisplay,
                window_size: task.window_size,
                damage: DocumentDamage {
                    root: document.root,
                    level: DocumentDamageLevel::MatchSelectorsDocumentDamage,
                },
            },
        },
        ScriptAction::DefineDebugFunctions(task.js_compartment),
    ]
}

/// Whether an action evaluates a script of a document.
pub open spec fn evaluates(
    action: ScriptAction,
    js_compartment: Compartment,
    script: Vec<u8>,
) -> bool {
    &&& action matches ScriptAction::EvaluateScript { compartment, source, filename, line }
    &&& compartment == js_compartment
    &&& source == script
    &&& filename@ == seq!['?', '?', '?']
    &&& line == 1
}

/// Whether a page is as it is when its document has just been parsed and its first layout has been
/// requested.
pub open spec fn is_new_page(
    page: Page,
    task: ScriptTaskView,
    id: usize,
    layout_chan: LayoutChan,
    url: Url,
    document: Document,
    window: Window,
    js_compartment: Compartment,
) -> bool {
    &&& page.script_task == task.id
    &&& page.layout_chan == layout_chan
    &&& page.frames@.len() == 1
    &&& page.root() == Frame {
        page: id,
        document,
        window,
        url,
        navigation_context: page.root().navigation_context,
        js_info: JSFrameInfo { bindings_initialized: false, js_compartment },
    }
    &&& page.root().navigation_context@ == NavigationContextView {
        previous: Seq::empty(),
        current_and_next: Seq::empty(),
    }
    &&& page.layout_join_port
    &&& page.damage is None
    &&& page.window_size == task.window_size
}

/// Whether the actions are those for a document that has just been parsed: its first layout, and
/// then its scripts in order.
pub open spec fn runs_document(
    task: ScriptTaskView,
    id: usize,
    layout_chan: LayoutChan,
    url: Url,
    document: Document,
    scripts: Seq<Vec<u8>>,
    actions: Seq<ScriptAction>,
) -> bool {
    let first = parsed_actions(task, id, layout_chan, url, document);
    &&& actions.len() == first.len() + scripts.len()
    &&& actions.take(first.len() as int) =~= first
    &&& forall|i: int|
        0 <= i < scripts.len() ==> evaluates(
            actions[first.len() + i],
            task.js_compartment,
            #[trigger] scripts[i],
        )
}

impl ScriptTask {
    /// Goes on with a page that was to be loaded, when a style sheet of it has come, or the end of
    /// them: sends the sheet over to layout.
    pub fn style_sheet_received(
        &self,
        layout_chan: LayoutChan,
        sheet: Option<StyleSheetId>,
    ) -> (actions: Vec<ScriptAction>)
        ensures
            actions@ == sheet_actions(layout_chan, sheet),
    {
        let mut actions: Vec<ScriptAction> = Vec::new();
        if let Some(sheet) = sheet {
            actions.push(ScriptAction::AddStylesheet { layout_chan, sheet });
        }
        actions
    }

    /// Goes on with a page that was to be loaded, when it has been parsed: sets up its document and
    /// its frame, kicks off the initial layout, and runs the document's scripts. A page that stood
    /// under the same id gives way to it.
    pub fn document_parsed(
        &mut self,
        id: usize,
        layout_chan: LayoutChan,
        url: Url,
        parsed: ParsedDocument,
        window: Window,
        js_compartment: Compartment,
    ) -> (actions: Vec<ScriptAction>)
        requires
            old(self)@.wf(),
        ensures
            final(self)@.wf(),
            ({
                let document = Document { root: parsed.root, window: Some(window) };
                let page = final(self)@.layout_map[id];
                &&& final(self)@ == old(self)@.with_page(id, page)
                &&& is_new_page(
                    page,
                    old(self)@,
                    id,
                    layout_chan,
                    url,
                    document,
                    window,
                    js_compartment,
                )
                &&& runs_document(
                    old(self)@,
                    id,
                    layout_chan,
                    url,
                    document,
                    parsed.js_scripts@,
                    actions@,
                )
            }),
    {
        let document = Document { root: parsed.root, window: Some(window) };
        let ghost first = parsed_actions(self@, id, layout_chan, url, document);
        let mut actions: Vec<ScriptAction> = Vec::new();
        actions.push(ScriptAction::AddToDocument(document));

        let root_frame = Frame::new(
            id,
            document,
            window,
            url,
            NavigationContext::new(),
            js_compartment,
        );
        let mut page = Page::new(self.id, layout_chan, self.window_size);
        page.insert_frame(root_frame);
        page.damage =
        Some(
            DocumentDamage {
                root: parsed.root,
                level: DocumentDamageLevel::MatchSelectorsDocumentDamage,
            },
        );
        self.insert_page(id, page);
        let mut layout_actions = self.reflow(id, ReflowGoal::ReflowForDisplay);
        actions.append(&mut layout_actions);
        actions.push(ScriptAction::DefineDebugFunctions(self.js_compartment));
        assert(actions@ =~= first);
        assert(self@.layout_map =~= old(self)@.layout_map.insert(id, self@.layout_map[id]));

        proof {
            reveal_strlit("???");
            assert("???"@ =~= seq!['?', '?', '?']);
        }
        let ghost scripts = parsed.js_scripts@;
        for bytes in it: parsed.js_scripts
            invariant
                it.seq() == scripts,
                "???"@ == seq!['?', '?', '?'],
                actions@.len() == first.len() + it.index(),
                actions@.take(first.len() as int) == first,
                forall|i: int|
                    0 <= i < it.index() ==> evaluates(
                        actions@[first.len() + i],
                        self@.js_compartment,
                        #[trigger] scripts[i],
                    ),
        {
            let ghost earlier = actions@;
            actions.push(
                ScriptAction::EvaluateScript {
                    compartment: self.js_compartment,
                    source: bytes,
                    filename: "???".to_owned(),
                    line: 1,
                },
            );
            assert(actions@.take(first.len() as int) =~= earlier.take(first.len() as int));
        }
        actions
    }

    /// Puts a page under an id.
    fn insert_page(&mut self, id: usize, page: Page)
        requires
            old(self)@.wf(),
            old(self)@.holds(id, page),
        ensures
            final(self)@.wf(),
            final(self)@ == old(self)@.with_page(id, page),
    {
        broadcast use vstd::laws_cmp::group_laws_cmp;

        self.layout_map.insert(id, page);
    }
}

/// The state when some of the pages have been changed.
spec fn partly(
    start: ScriptTaskView,
    done: Seq<usize>,
    change: spec_fn(Page) -> Page,
) -> ScriptTaskView {
    ScriptTaskView {
        layout_map: Map::new(
            |id: usize| start.layout_map.contains_key(id),
            |id: usize|
                if done.contains(id) {
                    change(start.layout_map[id])
                } else {
                    start.layout_map[id]
                },
        ),
        ..start
    }
}

proof fn lemma_partly_step(
    start: ScriptTaskView,
    ids: Seq<usize>,
    i: int,
    change: spec_fn(Page) -> Page,
)
    requires
        lists(ids, start.layout_map.dom()),
        0 <= i < ids.len(),
    ensures
        start.layout_map.contains_key(ids[i]),
        partly(start, ids.take(i), change).layout_map.contains_key(ids[i]),
        partly(start, ids.take(i), change).layout_map[ids[i]] == start.layout_map[ids[i]],
        partly(start, ids.take(i + 1), change) == partly(start, ids.take(i), change).with_page(
            ids[i],
            change(start.layout_map[ids[i]]),
        ),
{
    let id = ids[i];
    assert(ids.contains(id));
    if ids.take(i).contains(id) {
        let j = choose|j: int| 0 <= j < ids.take(i).len() && ids.take(i)[j] == id;
        assert(ids[j] < ids[i]);
    }
    assert forall|k: usize| #[trigger]
        ids.take(i + 1).contains(k) <==> ids.take(i).contains(k) || k == id by {
        if ids.take(i).contains(k) {
            let j = choose|j: int| 0 <= j < ids.take(i).len() && ids.take(i)[j] == k;
            assert(ids.take(i + 1)[j] == k);
        }
        if ids.take(i + 1).contains(k) {
            let upto = ids.take(i + 1);
            let j = choose|j: int| 0 <= j < upto.len() && upto[j] == k;
            if j < i {
                assert(ids.take(i)[j] == k);
            }
        }
        assert(ids.take(i + 1)[i] == id);
    }
    assert(partly(start, ids.take(i + 1), change) =~= partly(
        start,
        ids.take(i),
        change,
    ).with_page(id, change(start.layout_map[id])));
}

proof fn lemma_partly_all(start: ScriptTaskView, ids: Seq<usize>, change: spec_fn(Page) -> Page)
    requires
        lists(ids, start.layout_map.dom()),
    ensures
        partly(start, ids, change).layout_map == start.layout_map.map_values(change),
{
    assert forall|id: usize| #[trigger] start.layout_map.contains_key(id) implies ids.contains(
        id,
    ) by {
        assert(start.layout_map.dom().contains(id));
    }
    assert(partly(start, ids, change).layout_map =~= start.layout_map.map_values(change));
}

proof fn lemma_for_each_step(
    ids: Seq<usize>,
    i: int,
    actions: spec_fn(usize) -> Seq<ScriptAction>,
)
    requires
        0 <= i < ids.len(),
    ensures
        for_each(ids.take(i + 1), actions) == for_each(ids.take(i), actions) + actions(ids[i]),
{
    assert(ids.take(i + 1).drop_last() =~= ids.take(i));
}

} // verus!
