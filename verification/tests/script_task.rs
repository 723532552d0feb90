use servo::dom::{
    Attr, Compartment, Document, Element, Event, JSContext, JSObject, JSVal, Node, NodeId,
    ScreenPoint, TimerData, Window, WrapperCache,
};
use servo::geometry::Size2D;
use servo::layout::{
    DocumentDamage, DocumentDamageLevel, LayoutChan, LayoutQuery, ReadyState, Reflow, ReflowGoal,
    StyleSheetId,
};
use servo::script_task::{ParsedDocument, ScriptAction, ScriptMsg, ScriptTask, ThisValue};
use servo::url::Url;

const MATCH: DocumentDamageLevel = DocumentDamageLevel::MatchSelectorsDocumentDamage;
const REFLOW: DocumentDamageLevel = DocumentDamageLevel::ReflowDocumentDamage;
const POINT: ScreenPoint = ScreenPoint { x_bits: 1, y_bits: 2 };
const CHAN: LayoutChan = LayoutChan { id: 50 };

fn compartment() -> Compartment {
    Compartment { cx: JSContext { address: 1 }, global_obj: JSObject { address: 2 } }
}

fn frame_compartment() -> Compartment {
    Compartment { cx: JSContext { address: 3 }, global_obj: JSObject { address: 4 } }
}

fn url(path: &str) -> Url {
    Url { text: format!("http://a{}", path), path: path.to_string() }
}

fn window() -> Window {
    Window { id: 8, wrapper: WrapperCache { wrapper: None } }
}

fn document(root: usize) -> Document {
    Document { root: NodeId { id: root }, window: Some(window()) }
}

fn handle(task: &mut ScriptTask, msg: ScriptMsg) -> Vec<ScriptAction> {
    assert!(task.accepts(&msg));
    let (actions, goes_on) = task.handle_msg(msg);
    assert!(goes_on);
    actions
}

fn parse(task: &mut ScriptTask, id: usize, js_scripts: Vec<Vec<u8>>) -> Vec<ScriptAction> {
    let parsed = ParsedDocument { root: NodeId { id: id * 10 }, js_scripts };
    let path = format!("/{}", id);
    task.document_parsed(id, LayoutChan { id }, url(&path), parsed, window(), frame_compartment())
}

fn fork(
    id: usize,
    goal: ReflowGoal,
    window_size: (usize, usize),
    level: DocumentDamageLevel,
) -> ScriptAction {
    ScriptAction::ForkLayout {
        page: id,
        layout_chan: LayoutChan { id },
        reflow: Reflow {
            document_root: NodeId { id: id * 10 },
            url: url(&format!("/{}", id)),
            goal,
            window_size: Size2D { width: window_size.0, height: window_size.1 },
            damage: DocumentDamage { root: NodeId { id: id * 10 }, level },
        },
    }
}

fn performing() -> ScriptAction {
    ScriptAction::SetReadyState(ReadyState::PerformingLayout)
}

fn task_with(ids: &[usize]) -> ScriptTask {
    let mut task = ScriptTask::new(6, compartment());
    for id in ids {
        parse(&mut task, *id, vec![]);
    }
    task
}

#[test]
fn loading_defines_bindings_once() {
    let mut task = task_with(&[]);
    let load = |id: usize| ScriptMsg::LoadMsg(id, CHAN, url("/x"));
    let parse_html = |id: usize| ScriptAction::ParseHtml { page: id, layout_chan: CHAN, url: url("/x") };
    assert_eq!(
        handle(&mut task, load(1)),
        vec![
            ScriptAction::DefineBindings(compartment()),
            ScriptAction::SetReadyState(ReadyState::Loading),
            parse_html(1),
        ]
    );
    assert_eq!(
        handle(&mut task, load(2)),
        vec![ScriptAction::SetReadyState(ReadyState::Loading), parse_html(2)]
    );
    assert!(task.page(1).is_none());
}

#[test]
fn a_parsed_document_is_laid_out_and_its_scripts_run() {
    let mut task = task_with(&[]);
    let evaluate = |source: &[u8]| ScriptAction::EvaluateScript {
        compartment: compartment(),
        source: source.to_vec(),
        filename: "???".to_string(),
        line: 1,
    };
    assert_eq!(
        parse(&mut task, 3, vec![b"one".to_vec(), b"two".to_vec()]),
        vec![
            ScriptAction::AddToDocument(document(30)),
            performing(),
            fork(3, ReflowGoal::ReflowForDisplay, (800, 600), MATCH),
            ScriptAction::DefineDebugFunctions(compartment()),
            evaluate(b"one"),
            evaluate(b"two"),
        ]
    );
    let page = task.page(3).unwrap();
    assert_eq!(page.script_task, 6);
    assert_eq!(page.layout_chan, LayoutChan { id: 3 });
    assert!(page.layout_join_port);
    assert!(page.damage.is_none());
    assert_eq!(page.window_size, Size2D { width: 800, height: 600 });
    assert_eq!(page.frames.len(), 1);
    let frame = page.root_frame().unwrap();
    assert_eq!(frame.page, 3);
    assert_eq!(frame.document, document(30));
    assert_eq!(frame.window, window());
    assert_eq!(frame.url, url("/3"));
    assert_eq!(frame.js_info.js_compartment, frame_compartment());
}

#[test]
fn style_sheets_go_to_layout_before_the_first_reflow() {
    let mut task = task_with(&[]);
    let chan = LayoutChan { id: 3 };
    let mut actions = handle(&mut task, ScriptMsg::LoadMsg(3, chan, url("/3")));
    for sheet in [Some(StyleSheetId { id: 1 }), Some(StyleSheetId { id: 2 }), None] {
        actions.append(&mut task.style_sheet_received(chan, sheet));
    }
    actions.append(&mut parse(&mut task, 3, vec![]));
    let sent: Vec<ScriptAction> = actions
        .into_iter()
        .filter(|action| {
            matches!(
                action,
                ScriptAction::AddStylesheet { .. } | ScriptAction::ForkLayout { .. }
            )
        })
        .collect();
    assert_eq!(
        sent,
        vec![
            ScriptAction::AddStylesheet { layout_chan: chan, sheet: StyleSheetId { id: 1 } },
            ScriptAction::AddStylesheet { layout_chan: chan, sheet: StyleSheetId { id: 2 } },
            fork(3, ReflowGoal::ReflowForDisplay, (800, 600), MATCH),
        ]
    );
}

#[test]
fn joining_twice_is_joining_once() {
    let mut task = task_with(&[1]);
    task.damage_page(1, REFLOW);
    assert_eq!(
        task.join_layout(1),
        vec![ScriptAction::PingLayout(LayoutChan { id: 1 }), ScriptAction::JoinLayout(1)]
    );
    assert!(!task.page(1).unwrap().layout_join_port);
    assert!(task.page(1).unwrap().damage.is_some());
    assert!(task.join_layout(1).is_empty());
    assert!(!task.page(1).unwrap().layout_join_port);
}

#[test]
fn bindings_stay_defined_over_loads_and_documents() {
    let mut task = task_with(&[]);
    let mut definitions = 0;
    for id in [1, 2, 3] {
        let mut actions = task.load(id, LayoutChan { id }, url("/x"));
        assert!(matches!(actions[actions.len() - 1], ScriptAction::ParseHtml { .. }));
        actions.append(&mut parse(&mut task, id, vec![]));
        definitions +=
            actions.iter().filter(|a| matches!(a, ScriptAction::DefineBindings(_))).count();
        assert_eq!(definitions, 1);
    }
}

#[test]
fn a_page_under_the_same_id_gives_way() {
    let mut task = task_with(&[3]);
    let parsed = ParsedDocument { root: NodeId { id: 99 }, js_scripts: vec![] };
    let actions =
        task.document_parsed(3, CHAN, url("/new"), parsed, window(), frame_compartment());
    assert_eq!(actions.len(), 4);
    assert_eq!(actions[1], performing());
    let page = task.page(3).unwrap();
    assert_eq!(page.layout_chan, CHAN);
    assert_eq!(page.root_frame().unwrap().url, url("/new"));
}

#[test]
fn scripts_are_read_and_evaluated() {
    let mut task = task_with(&[]);
    assert_eq!(
        handle(&mut task, ScriptMsg::ExecuteMsg(url("/s.js"))),
        vec![ScriptAction::ReadScript(url("/s.js"))]
    );
    assert_eq!(
        task.script_read(url("/s.js"), Ok(b"code".to_vec())),
        vec![
            ScriptAction::DefineDebugFunctions(compartment()),
            ScriptAction::EvaluateScript {
                compartment: compartment(),
                source: b"code".to_vec(),
                filename: "/s.js".to_string(),
                line: 1,
            },
        ]
    );
}

#[test]
fn a_script_that_cannot_be_opened_is_reported() {
    assert_eq!(
        task_with(&[]).script_read(url("/s.js"), Err("no such file".to_string())),
        vec![ScriptAction::Print("Error opening http://a/s.js: no such file".to_string())]
    );
}

#[test]
fn a_timer_calls_its_function() {
    let mut task = task_with(&[]);
    let call = |this: ThisValue| ScriptAction::CallFunction {
        cx: JSContext { address: 1 },
        this,
        funval: JSVal { bits: 70 },
    };
    let fire = |args: Vec<JSVal>| ScriptMsg::FireTimerMsg(TimerData { funval: JSVal { bits: 70 }, args });
    assert_eq!(
        handle(&mut task, fire(vec![])),
        vec![call(ThisValue::Global(JSObject { address: 2 }))]
    );
    assert_eq!(
        handle(&mut task, fire(vec![JSVal { bits: 71 }, JSVal { bits: 72 }])),
        vec![call(ThisValue::Argument(JSVal { bits: 71 }))]
    );
}

#[test]
fn all_pages_are_laid_out_after_a_timer() {
    let mut task = task_with(&[2, 1]);
    assert!(!task.is_all_damaged());
    task.damage_page(1, REFLOW);
    assert!(!task.is_all_damaged());
    task.damage_page(2, MATCH);
    assert!(task.is_all_damaged());
    assert_eq!(
        task.timer_returned(),
        vec![
            ScriptAction::PingLayout(LayoutChan { id: 1 }),
            ScriptAction::JoinLayout(1),
            performing(),
            fork(1, ReflowGoal::ReflowForScriptQuery, (800, 600), REFLOW),
            ScriptAction::PingLayout(LayoutChan { id: 2 }),
            ScriptAction::JoinLayout(2),
            performing(),
            fork(2, ReflowGoal::ReflowForScriptQuery, (800, 600), MATCH),
        ]
    );
    assert!(!task.is_all_damaged());
    assert!(task_with(&[]).is_all_damaged());
}

#[test]
fn a_completed_reflow_needs_no_joining() {
    let mut task = task_with(&[1]);
    assert_eq!(
        handle(&mut task, ScriptMsg::ReflowCompleteMsg(1)),
        vec![ScriptAction::SetReadyState(ReadyState::FinishedLoading)]
    );
    assert!(!task.page(1).unwrap().layout_join_port);
    assert_eq!(
        handle(&mut task, ScriptMsg::SendEventMsg(1, Event::ReflowEvent)),
        vec![performing(), fork(1, ReflowGoal::ReflowForDisplay, (800, 600), MATCH)]
    );
}

#[test]
fn a_resize_reaches_every_page() {
    let mut task = task_with(&[1, 2]);
    handle(&mut task, ScriptMsg::ReflowCompleteMsg(2));
    task.damage_page(2, MATCH);
    assert_eq!(
        handle(&mut task, ScriptMsg::SendEventMsg(77, Event::ResizeEvent(320, 200))),
        vec![
            ScriptAction::PingLayout(LayoutChan { id: 1 }),
            ScriptAction::JoinLayout(1),
            performing(),
            fork(1, ReflowGoal::ReflowForDisplay, (320, 200), REFLOW),
            performing(),
            fork(2, ReflowGoal::ReflowForDisplay, (320, 200), MATCH),
        ]
    );
    for id in [1, 2] {
        let page = task.page(id).unwrap();
        assert_eq!(page.window_size, Size2D { width: 320, height: 200 });
        assert!(page.layout_join_port && page.damage.is_none());
    }
}

#[test]
fn reflow_hands_over_the_damage() {
    let mut task = task_with(&[1]);
    task.damage_page(1, REFLOW);
    assert_eq!(
        task.reflow(1, ReflowGoal::ReflowForScriptQuery),
        vec![
            ScriptAction::PingLayout(LayoutChan { id: 1 }),
            ScriptAction::JoinLayout(1),
            performing(),
            fork(1, ReflowGoal::ReflowForScriptQuery, (800, 600), REFLOW),
        ]
    );
    assert_eq!(
        task.reflow_all(1, ReflowGoal::ReflowForDisplay)[3],
        fork(1, ReflowGoal::ReflowForDisplay, (800, 600), MATCH)
    );
    assert!(task.page(1).unwrap().damage.is_none());
}

#[test]
fn accumulated_damage_reaches_layout() {
    let mut task = task_with(&[1]);
    task.damage_page(1, REFLOW);
    task.damage_page(1, MATCH);
    task.damage_page(1, REFLOW);
    assert_eq!(
        task.reflow(1, ReflowGoal::ReflowForDisplay)[3],
        fork(1, ReflowGoal::ReflowForDisplay, (800, 600), MATCH)
    );
}

#[test]
fn a_click_asks_layout() {
    let mut task = task_with(&[1]);
    let click = || ScriptMsg::SendEventMsg(1, Event::ClickEvent(0, POINT));
    let ask = || ScriptAction::QueryLayout {
        page: 1,
        layout_chan: LayoutChan { id: 1 },
        query: LayoutQuery::HitTestQuery(NodeId { id: 10 }, POINT),
    };
    assert_eq!(
        handle(&mut task, click()),
        vec![
            ScriptAction::PingLayout(LayoutChan { id: 1 }),
            ScriptAction::JoinLayout(1),
            ask(),
        ]
    );
    assert_eq!(handle(&mut task, click()), vec![ask()]);
    assert_eq!(
        task.query_layout(1, LayoutQuery::HitTestQuery(NodeId { id: 10 }, POINT)),
        vec![ask()]
    );
}

fn link(tag: &str, attrs: &[(&str, &str)]) -> Node {
    let attrs = attrs
        .iter()
        .map(|(name, value)| Attr { name: name.to_string(), value: value.to_string() })
        .collect();
    Node { element: Some(Element { tag_name: tag.to_string(), attrs }), parent: None }
}

#[test]
fn a_clicked_link_is_loaded() {
    let task = task_with(&[1]);
    let load = |href: &str| ScriptAction::LoadUrl { href: href.to_string(), base: url("/1") };
    let anchor = || link("a", &[("href", "x"), ("class", "y"), ("href", "z")]);
    assert_eq!(task.hit_test_answered(1, Ok(anchor())), vec![load("x"), load("z")]);
    let text = Node { element: None, parent: Some(Box::new(anchor())) };
    assert_eq!(task.hit_test_answered(1, Ok(text)), vec![load("x"), load("z")]);
}

#[test]
fn other_clicks_do_nothing() {
    let task = task_with(&[1]);
    assert!(task.hit_test_answered(1, Err(())).is_empty());
    assert!(task.hit_test_answered(1, Ok(link("b", &[("href", "x")]))).is_empty());
    assert!(task.hit_test_answered(1, Ok(link("a", &[("name", "x")]))).is_empty());
    let text = Node { element: None, parent: None };
    assert!(task.hit_test_answered(1, Ok(text)).is_empty());
    let mut inner = link("b", &[]);
    inner.parent = Some(Box::new(link("a", &[("href", "x")])));
    assert!(task.hit_test_answered(1, Ok(inner)).is_empty());
}

#[test]
fn pressing_and_releasing_do_nothing() {
    let mut task = task_with(&[1]);
    for event in [Event::MouseDownEvent(0, POINT), Event::MouseUpEvent(0, POINT)] {
        assert!(handle(&mut task, ScriptMsg::SendEventMsg(1, event)).is_empty());
    }
    assert!(task.page(1).unwrap().layout_join_port);
}

#[test]
fn messages_about_missing_pages_are_not_accepted() {
    let task = task_with(&[1]);
    assert!(!task.accepts(&ScriptMsg::ReflowCompleteMsg(2)));
    assert!(task.accepts(&ScriptMsg::ReflowCompleteMsg(1)));
    assert!(!task.accepts(&ScriptMsg::SendEventMsg(2, Event::ClickEvent(0, POINT))));
    assert!(task.accepts(&ScriptMsg::SendEventMsg(2, Event::MouseDownEvent(0, POINT))));
    assert!(task.accepts(&ScriptMsg::SendEventMsg(2, Event::ReflowEvent)));
    assert!(task.accepts(&ScriptMsg::ExitMsg));
}

#[test]
fn the_end_tears_down_every_document() {
    let mut task = task_with(&[2, 1]);
    handle(&mut task, ScriptMsg::ReflowCompleteMsg(1));
    let (actions, goes_on) = task.handle_msg(ScriptMsg::ExitMsg);
    assert!(!goes_on);
    assert_eq!(
        actions,
        vec![
            ScriptAction::Teardown(document(10)),
            ScriptAction::PingLayout(LayoutChan { id: 2 }),
            ScriptAction::JoinLayout(2),
            ScriptAction::Teardown(document(20)),
        ]
    );
    assert!(!task.page(2).unwrap().layout_join_port);
}

#[test]
fn layouts_of_a_page_never_overlap() {
    let mut task = task_with(&[1, 2]);
    let mut running = [true, true];
    for msg in [
        ScriptMsg::SendEventMsg(1, Event::ReflowEvent),
        ScriptMsg::SendEventMsg(1, Event::ClickEvent(0, POINT)),
        ScriptMsg::SendEventMsg(1, Event::ResizeEvent(10, 10)),
        ScriptMsg::SendEventMsg(2, Event::ClickEvent(0, POINT)),
        ScriptMsg::SendEventMsg(2, Event::ReflowEvent),
    ] {
        for action in handle(&mut task, msg) {
            match action {
                ScriptAction::JoinLayout(id) => {
                    assert!(running[id - 1]);
                    running[id - 1] = false;
                }
                ScriptAction::ForkLayout { page, .. } => {
                    assert!(!running[page - 1]);
                    running[page - 1] = true;
                }
                _ => {}
            }
        }
        for id in [1, 2] {
            assert_eq!(task.page(id).unwrap().layout_join_port, running[id - 1]);
        }
    }
}
