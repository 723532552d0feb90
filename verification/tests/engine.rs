use servo::engine::{Bestowal, Engine, EngineAction, Msg};
use servo::url::Url;

fn url(path: &str) -> Url {
    Url { text: format!("http://example.org{}", path), path: path.to_string() }
}

fn handle(engine: &mut Engine, request: Msg<u32>) -> (Vec<EngineAction<u32>>, bool) {
    assert!(engine.accepts(&request));
    engine.handle_request(request)
}

fn load(engine: &mut Engine, path: &str) -> Vec<EngineAction<u32>> {
    let (actions, goes_on) = handle(engine, Msg::LoadUrlMsg(url(path)));
    assert!(goes_on);
    actions
}

#[test]
fn documents_and_scripts_go_to_new_pipelines() {
    let mut engine = Engine::new();
    assert_eq!(
        load(&mut engine, "/index.html"),
        vec![
            EngineAction::CreatePipeline(0),
            EngineAction::LoadDocument { pipeline: 0, url: url("/index.html") },
        ]
    );
    assert_eq!(
        load(&mut engine, "/main.js"),
        vec![
            EngineAction::CreatePipeline(1),
            EngineAction::ExecuteScript { pipeline: 1, url: url("/main.js") },
        ]
    );
    assert_eq!(
        load(&mut engine, "/main.jsx"),
        vec![
            EngineAction::CreatePipeline(2),
            EngineAction::LoadDocument { pipeline: 2, url: url("/main.jsx") },
        ]
    );
}

#[test]
fn the_first_document_gets_a_fresh_token() {
    let mut engine = Engine::new();
    load(&mut engine, "/");
    assert_eq!(
        handle(&mut engine, Msg::RendererReadyMsg(0)),
        (
            vec![
                EngineAction::BestowToken { pipeline: 0, token: Bestowal::Fresh },
                EngineAction::SetLayoutChan(0),
            ],
            true
        )
    );
    assert_eq!(handle(&mut engine, Msg::RendererReadyMsg(0)), (vec![], true));
}

#[test]
fn the_token_passes_on() {
    let mut engine = Engine::new();
    load(&mut engine, "/a");
    handle(&mut engine, Msg::RendererReadyMsg(0));
    load(&mut engine, "/b");
    assert_eq!(
        handle(&mut engine, Msg::RendererReadyMsg(1)),
        (vec![EngineAction::ProcureToken(0)], true)
    );
    assert_eq!(
        handle(&mut engine, Msg::TokenSurrenderMsg(42)),
        (
            vec![
                EngineAction::ExitPipeline(0),
                EngineAction::BestowToken { pipeline: 1, token: Bestowal::Surrendered(42) },
                EngineAction::SetLayoutChan(1),
            ],
            true
        )
    );
    assert_eq!(
        handle(&mut engine, Msg::ExitMsg).0[0],
        EngineAction::ExitPipeline(1)
    );
}

#[test]
fn only_the_latest_document_gets_the_token() {
    let mut engine = Engine::new();
    load(&mut engine, "/a");
    load(&mut engine, "/b");
    assert_eq!(handle(&mut engine, Msg::RendererReadyMsg(0)), (vec![], true));
    assert_eq!(
        handle(&mut engine, Msg::RendererReadyMsg(1)).0[0],
        EngineAction::BestowToken { pipeline: 1, token: Bestowal::Fresh }
    );
}

#[test]
fn scripts_do_not_claim_the_token() {
    let mut engine = Engine::new();
    load(&mut engine, "/a.js");
    assert_eq!(handle(&mut engine, Msg::RendererReadyMsg(0)), (vec![], true));
    load(&mut engine, "/b");
    load(&mut engine, "/c.js");
    assert_eq!(
        handle(&mut engine, Msg::RendererReadyMsg(1)).0[0],
        EngineAction::BestowToken { pipeline: 1, token: Bestowal::Fresh }
    );
}

#[test]
fn a_token_that_nobody_awaits_is_dropped() {
    let mut engine = Engine::new();
    assert_eq!(handle(&mut engine, Msg::TokenSurrenderMsg(1)), (vec![], true));
    load(&mut engine, "/a");
    handle(&mut engine, Msg::RendererReadyMsg(0));
    assert_eq!(
        handle(&mut engine, Msg::TokenSurrenderMsg(1)),
        (vec![EngineAction::ExitPipeline(0)], true)
    );
    load(&mut engine, "/b");
    assert_eq!(
        handle(&mut engine, Msg::RendererReadyMsg(1)).0[0],
        EngineAction::BestowToken { pipeline: 1, token: Bestowal::Fresh }
    );
}

#[test]
fn the_end_ends_every_pipeline_in_order() {
    let mut engine = Engine::new();
    for path in ["/a", "/b.js", "/c"] {
        load(&mut engine, path);
    }
    assert_eq!(
        handle(&mut engine, Msg::ExitMsg),
        (
            vec![
                EngineAction::ExitPipeline(0),
                EngineAction::ExitPipeline(1),
                EngineAction::ExitPipeline(2),
                EngineAction::ExitImageCache,
                EngineAction::ExitResourceTask,
                EngineAction::AcknowledgeExit,
            ],
            false
        )
    );
}

#[test]
fn ids_are_not_reused_after_a_pipeline_has_ended() {
    let mut engine = Engine::new();
    load(&mut engine, "/a");
    handle(&mut engine, Msg::RendererReadyMsg(0));
    handle(&mut engine, Msg::TokenSurrenderMsg(1));
    assert_eq!(load(&mut engine, "/b")[0], EngineAction::CreatePipeline(1));
}

#[test]
fn ids_given_out_in_a_row_are_consecutive() {
    let mut engine = Engine::new();
    for expected in 0..5 {
        assert_eq!(engine.get_next_id(), expected);
    }
    assert_eq!(load(&mut engine, "/a")[0], EngineAction::CreatePipeline(5));
}

#[test]
fn the_active_pipeline_is_removed_once() {
    let mut engine = Engine::new();
    load(&mut engine, "/a");
    handle(&mut engine, Msg::RendererReadyMsg(0));
    load(&mut engine, "/b");
    assert_eq!(engine.remove_active_pipeline::<u32>(), vec![EngineAction::ExitPipeline(0)]);
    assert_eq!(engine.remove_active_pipeline::<u32>(), vec![]);
    assert_eq!(handle(&mut engine, Msg::ExitMsg).0[0], EngineAction::ExitPipeline(1));
}

#[test]
fn at_most_one_token_is_out() {
    let mut engine = Engine::new();
    let mut out: i32 = 0;
    let mut count = |actions: &Vec<EngineAction<u32>>, surrendered: i32| {
        let bestowed =
            actions.iter().filter(|a| matches!(a, EngineAction::BestowToken { .. })).count();
        out += bestowed as i32 - surrendered;
        out
    };
    load(&mut engine, "/a");
    assert_eq!(count(&handle(&mut engine, Msg::RendererReadyMsg(0)).0, 0), 1);
    load(&mut engine, "/b");
    assert_eq!(count(&handle(&mut engine, Msg::RendererReadyMsg(1)).0, 0), 1);
    assert_eq!(count(&handle(&mut engine, Msg::TokenSurrenderMsg(5)).0, 1), 1);
    assert_eq!(count(&handle(&mut engine, Msg::TokenSurrenderMsg(5)).0, 1), 0);
}
