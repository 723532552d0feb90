use servo::geometry::{Point2D, Rect, Size2D};
use servo::render_task::{
    assemble, LayerBuffer, LayerBufferSet, Msg, Notice, Opts, RenderAction, RenderLayer,
    RenderState, RenderTask,
};
use servo::tiling::{divide_into_tiles, Tile};

type Task = RenderTask<&'static str, u32>;
type Action = RenderAction<&'static str, &'static str, u32>;
type Message = Msg<&'static str, u32>;

fn task() -> Task {
    RenderTask::new(Opts { tile_size: 4, zoom: 1 })
}

fn size(width: usize, height: usize) -> Size2D {
    Size2D { width, height }
}

fn layer(display_list: &'static str) -> RenderLayer<&'static str> {
    RenderLayer { display_list, size: size(6, 2) }
}

fn buffers(left: &'static str, right: &'static str) -> LayerBufferSet<&'static str> {
    let left_rect = Rect { origin: Point2D { x: 0, y: 0 }, size: size(4, 2) };
    let right_rect = Rect { origin: Point2D { x: 4, y: 0 }, size: size(2, 2) };
    LayerBufferSet {
        buffers: vec![
            LayerBuffer { draw_target: left, rect: left_rect, screen_pos: left_rect, stride: 16 },
            LayerBuffer { draw_target: right, rect: right_rect, screen_pos: right_rect, stride: 8 },
        ],
    }
}

fn handle(task: &mut Task, msg: Message) -> (Vec<Action>, bool) {
    assert!(task.accepts(&msg));
    task.handle_msg(msg)
}

fn finish(task: &mut Task, set: LayerBufferSet<&'static str>) -> Vec<Action> {
    task.finish_render(set, size(6, 2))
}

#[test]
fn rendering_starts_with_tiles_to_draw() {
    let mut task = task();
    let (actions, goes_on) = handle(&mut task, Msg::RenderMsg(layer("list")));
    assert!(goes_on);
    assert_eq!(
        actions,
        vec![
            RenderAction::SetRenderState(RenderState::RenderingRenderState),
            RenderAction::DrawTiles {
                layer: layer("list"),
                tiles: divide_into_tiles(size(6, 2), 4, 1),
            },
        ]
    );
}

#[test]
fn buffers_are_assembled_tile_by_tile() {
    let tiles: Vec<Tile> = divide_into_tiles(size(6, 2), 4, 1);
    assert_eq!(assemble(&tiles, vec!["left", "right"]), buffers("left", "right"));
    assert!(assemble(&Vec::new(), Vec::<u8>::new()).buffers.is_empty());
}

#[test]
fn a_layer_is_painted_with_the_token() {
    let mut task = task();
    assert_eq!(handle(&mut task, Msg::TokenBestowMsg(7)), (vec![], true));
    assert_eq!(
        finish(&mut task, buffers("a", "b")),
        vec![
            RenderAction::Paint { layer_buffer_set: buffers("a", "b"), layer_size: size(6, 2) },
            RenderAction::SetRenderState(RenderState::IdleRenderState),
        ]
    );
}

#[test]
fn a_layer_waits_for_the_token() {
    let mut task = task();
    assert_eq!(
        finish(&mut task, buffers("a", "b")),
        vec![
            RenderAction::Report(Notice::CachingPaintMsg),
            RenderAction::SetRenderState(RenderState::IdleRenderState),
        ]
    );
    assert_eq!(
        handle(&mut task, Msg::TokenBestowMsg(7)),
        (
            vec![
                RenderAction::Report(Notice::RetrievingPaintMsg),
                RenderAction::Paint { layer_buffer_set: buffers("a", "b"), layer_size: size(6, 2) },
                RenderAction::SetRenderState(RenderState::IdleRenderState),
            ],
            true
        )
    );
    assert_eq!(handle(&mut task, Msg::TokenProcureMsg), (vec![RenderAction::SurrenderToken(7)], true));
    assert_eq!(handle(&mut task, Msg::TokenBestowMsg(8)), (vec![], true));
}

#[test]
fn only_the_last_waiting_layer_is_painted() {
    let mut task = task();
    finish(&mut task, buffers("a", "b"));
    finish(&mut task, buffers("c", "d"));
    let (actions, _) = handle(&mut task, Msg::TokenBestowMsg(7));
    assert_eq!(
        actions[1],
        RenderAction::Paint { layer_buffer_set: buffers("c", "d"), layer_size: size(6, 2) }
    );
    assert_eq!(actions.len(), 3);
}

#[test]
fn the_procured_token_is_the_bestowed_one() {
    let mut task = task();
    handle(&mut task, Msg::TokenBestowMsg(7));
    handle(&mut task, Msg::TokenBestowMsg(9));
    assert_eq!(handle(&mut task, Msg::TokenProcureMsg), (vec![RenderAction::SurrenderToken(9)], true));
    assert_eq!(
        finish(&mut task, buffers("a", "b"))[0],
        RenderAction::Report(Notice::CachingPaintMsg)
    );
}

#[test]
fn a_missing_token_cannot_be_procured() {
    let mut task = task();
    assert!(!task.accepts::<&'static str>(&Msg::TokenProcureMsg));
    handle(&mut task, Msg::TokenBestowMsg(1));
    assert!(task.accepts::<&'static str>(&Msg::TokenProcureMsg));
    handle(&mut task, Msg::TokenProcureMsg);
    assert!(!task.accepts::<&'static str>(&Msg::TokenProcureMsg));
}

#[test]
fn a_layer_that_cannot_be_tiled_is_refused() {
    let task: Task = RenderTask::new(Opts { tile_size: 0, zoom: 1 });
    assert!(!task.accepts(&Msg::RenderMsg(layer("list"))));
    assert!(task.accepts(&Msg::RenderMsg(RenderLayer { display_list: "list", size: size(6, 0) })));
}

#[test]
fn the_task_ends_with_an_acknowledgement() {
    assert_eq!(handle(&mut task(), Msg::ExitMsg), (vec![RenderAction::AcknowledgeExit], false));
}

#[test]
fn notices_have_texts() {
    assert_eq!(Notice::CachingPaintMsg.text(), "caching paint msg");
    assert_eq!(Notice::RetrievingPaintMsg.text(), "retrieving cached paint msg");
}
