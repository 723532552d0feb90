//! What each call of the render task does, message by message.

use vstd::prelude::*;

use crate::geometry::Size2D;
use crate::render_task::{
    assemble, LayerBufferSet, Msg, Notice, Opts, RenderAction, RenderLayer, RenderState,
    RenderTask,
};
use crate::tiling::{
    divide_into_tiles, is_tileable, law_each_pixel_in_exactly_one_tile, law_page_origins,
    law_tile_grid, law_tile_sizes, law_tiles_stand_row_by_row, Tile,
};

verus! {

/// A render task starts without the token and without a finished layer.
pub proof fn law_new_render_task_is_idle<T, K>(opts: Opts, task: RenderTask<T, K>)
    requires
        call_ensures(RenderTask::<T, K>::new, (opts,), task),
    ensures
        task@.wf(),
        task@.opts == opts,
        task@.compositor_token is None,
        task@.next_paint_msg is None,
{
}

/// Every message can be handled in every state, but for a layer that cannot be measured or would
/// need tiles without extent, and for a token that is not there.
pub proof fn law_render_messages_can_be_handled<D, T, K>(
    task: &mut RenderTask<T, K>,
    msg: Msg<D, K>,
    answer: bool,
)
    requires
        old(task)@.wf(),
        call_ensures(RenderTask::<T, K>::accepts::<D>, (&*old(task), &msg), answer),
    ensures
        answer ==> call_requires(RenderTask::<T, K>::handle_msg::<D>, (task, msg)),
        msg is TokenBestowMsg || msg is ExitMsg ==> answer,
        msg is TokenProcureMsg ==> (answer <==> old(task)@.compositor_token is Some),
        msg matches Msg::RenderMsg(layer) ==> ({
            let side = old(task)@.opts.tile_size;
            let width = layer.size.width * old(task)@.opts.zoom;
            let height = layer.size.height * old(task)@.opts.zoom;
            answer <==> height == 0 || {
                &&& height <= usize::MAX
                &&& width <= usize::MAX
                &&& side > 0
                &&& (4 * side <= usize::MAX || 4 * width <= usize::MAX)
            }
        }),
{
}

/// The task goes on after every message but the one to end.
pub proof fn law_only_exit_ends_the_render_task<D, T, K>(
    task: &mut RenderTask<T, K>,
    msg: Msg<D, K>,
    res: (Vec<RenderAction<D, T, K>>, bool),
)
    requires
        call_ensures(RenderTask::<T, K>::handle_msg::<D>, (task, msg), res),
    ensures
        res.1 <==> !(msg is ExitMsg),
        final(task)@.wf(),
        final(task)@.opts == old(task)@.opts,
        msg is ExitMsg ==> {
            &&& res.0@.len() == 1
            &&& res.0@[0] == RenderAction::<D, T, K>::AcknowledgeExit
            &&& final(task)@ == old(task)@
        },
{
}

/// To render a layer, the compositor is told that rendering goes on, and then the layer, as it is,
/// is to be drawn in the tiles that it divides into. Nothing changes until it has been drawn.
pub proof fn law_rendering_starts<D, T, K>(
    task: &mut RenderTask<T, K>,
    layer: RenderLayer<D>,
    res: (Vec<RenderAction<D, T, K>>, bool),
    tiles: Vec<Tile>,
)
    requires
        call_ensures(RenderTask::<T, K>::handle_msg::<D>, (task, Msg::RenderMsg(layer)), res),
        call_ensures(
            divide_into_tiles,
            (layer.size, old(task)@.opts.tile_size, old(task)@.opts.zoom),
            tiles,
        ),
    ensures
        final(task)@ == old(task)@,
        res.0@.len() == 2,
        res.0@[0] == RenderAction::<D, T, K>::SetRenderState(RenderState::RenderingRenderState),
        res.0@[1] is DrawTiles,
        res.0@[1]->layer == layer,
        res.0@[1]->tiles@ == tiles@,
{
}

/// [`RenderTask::render`] does what the message to render does.
pub proof fn law_render_is_the_message<D, T, K>(
    task: RenderTask<T, K>,
    layer: RenderLayer<D>,
    actions: Vec<RenderAction<D, T, K>>,
    tiles: Vec<Tile>,
)
    requires
        call_ensures(RenderTask::<T, K>::render::<D>, (&task, layer), actions),
        call_ensures(
            divide_into_tiles,
            (layer.size, task@.opts.tile_size, task@.opts.zoom),
            tiles,
        ),
    ensures
        actions@.len() == 2,
        actions@[0] == RenderAction::<D, T, K>::SetRenderState(RenderState::RenderingRenderState),
        actions@[1] is DrawTiles,
        actions@[1]->layer == layer,
        actions@[1]->tiles@ == tiles@,
{
}

/// There is one buffer for each tile, in the same order, with the tile's own draw target, place
/// and stride.
pub proof fn law_buffers_match_tiles<T>(tiles: Vec<Tile>, targets: Vec<T>, set: LayerBufferSet<T>)
    requires
        tiles@.len() == targets@.len(),
        call_ensures(assemble::<T>, (&tiles, targets), set),
    ensures
        call_requires(assemble::<T>, (&tiles, targets)),
        set.buffers@.len() == tiles@.len(),
        forall|i: int|
            0 <= i < tiles@.len() ==> {
                let buffer = #[trigger] set.buffers@[i];
                &&& buffer.draw_target == targets@[i]
                &&& buffer.rect == tiles@[i].rect
                &&& buffer.screen_pos == tiles@[i].screen_pos
                &&& buffer.stride == tiles@[i].stride
            },
{
}

/// A layer that has been drawn is painted as it is, if the task has the token; else it is kept, in
/// place of any layer kept before, and that is reported. Either way the compositor is then told
/// that the task is idle, and the token stays where it is.
pub proof fn law_rendering_ends<D, T, K>(
    task: &mut RenderTask<T, K>,
    set: LayerBufferSet<T>,
    size: Size2D,
    actions: Vec<RenderAction<D, T, K>>,
)
    requires
        old(task)@.wf(),
        call_ensures(RenderTask::<T, K>::finish_render::<D>, (task, set, size), actions),
    ensures
        call_requires(RenderTask::<T, K>::finish_render::<D>, (task, set, size)),
        final(task)@.wf(),
        final(task)@.opts == old(task)@.opts,
        final(task)@.compositor_token == old(task)@.compositor_token,
        actions@.len() == 2,
        actions@[1] == RenderAction::<D, T, K>::SetRenderState(RenderState::IdleRenderState),
        old(task)@.compositor_token is Some ==> {
            &&& actions@[0] is Paint
            &&& actions@[0]->layer_buffer_set == set
            &&& actions@[0]->layer_size == size
            &&& final(task)@.next_paint_msg is None
        },
        old(task)@.compositor_token is None ==> {
            &&& actions@[0] == RenderAction::<D, T, K>::Report(Notice::CachingPaintMsg)
            &&& final(task)@.next_paint_msg == Some((set, size))
        },
{
}

/// A token that arrives is held. If a layer was kept, that is reported, the layer is painted as it
/// was kept, the compositor is told that the task is idle, and the layer is kept no longer.
pub proof fn law_token_arrives<D, T, K>(
    task: &mut RenderTask<T, K>,
    token: K,
    res: (Vec<RenderAction<D, T, K>>, bool),
)
    requires
        call_ensures(RenderTask::<T, K>::handle_msg::<D>, (task, Msg::TokenBestowMsg(token)), res),
    ensures
        final(task)@.compositor_token == Some(token),
        final(task)@.next_paint_msg is None,
        old(task)@.next_paint_msg is None ==> res.0@.len() == 0,
        old(task)@.next_paint_msg matches Some(kept) ==> {
            &&& res.0@.len() == 3
            &&& res.0@[0] == RenderAction::<D, T, K>::Report(Notice::RetrievingPaintMsg)
            &&& res.0@[1] is Paint
            &&& res.0@[1]->layer_buffer_set == kept.0
            &&& res.0@[1]->layer_size == kept.1
            &&& res.0@[2] == RenderAction::<D, T, K>::SetRenderState(RenderState::IdleRenderState)
        },
{
}

/// A token that is procured is the one held; it is surrendered and held no longer. A finished layer
/// stays where it is.
pub proof fn law_token_leaves<D, T, K>(
    task: &mut RenderTask<T, K>,
    token: K,
    res: (Vec<RenderAction<D, T, K>>, bool),
)
    requires
        old(task)@.compositor_token == Some(token),
        call_ensures(RenderTask::<T, K>::handle_msg::<D>, (task, Msg::TokenProcureMsg), res),
    ensures
        res.0@.len() == 1,
        res.0@[0] == RenderAction::<D, T, K>::SurrenderToken(token),
        final(task)@.compositor_token is None,
        final(task)@.next_paint_msg == old(task)@.next_paint_msg,
{
}

/// A layer drawn without the token is painted, as it was drawn, when the token arrives, even if
/// others had been drawn before it.
pub proof fn law_drawn_layer_is_painted_when_the_token_arrives<D, T, K>(
    drawing: &mut RenderTask<T, K>,
    set: LayerBufferSet<T>,
    size: Size2D,
    drawn: Vec<RenderAction<D, T, K>>,
    waiting: &mut RenderTask<T, K>,
    token: K,
    res: (Vec<RenderAction<D, T, K>>, bool),
)
    requires
        old(drawing)@.wf(),
        old(drawing)@.compositor_token is None,
        call_ensures(RenderTask::<T, K>::finish_render::<D>, (drawing, set, size), drawn),
        old(waiting)@ == final(drawing)@,
        call_ensures(
            RenderTask::<T, K>::handle_msg::<D>,
            (waiting, Msg::TokenBestowMsg(token)),
            res,
        ),
    ensures
        forall|i: int| 0 <= i < drawn@.len() ==> !(#[trigger] drawn@[i] is Paint),
        res.0@.len() == 3,
        res.0@[1] is Paint,
        res.0@[1]->layer_buffer_set == set,
        res.0@[1]->layer_size == size,
{
}

/// The two notices have two texts.
pub proof fn law_notice_texts(notice: Notice, text: String)
    requires
        call_ensures(Notice::text, (&notice,), text),
    ensures
        notice is CachingPaintMsg ==> text@ == "caching paint msg"@,
        notice is RetrievingPaintMsg ==> text@ == "retrieving cached paint msg"@,
{
}

/// A layer can be divided if it has no rows of pixels, or else if tiles have an extent and the
/// scaled layer and the rows of a tile can be measured; and then it is divided.
pub proof fn law_tileable_layers(size: Size2D, tile_size: usize, scale: usize, answer: bool)
    requires
        call_ensures(is_tileable, (size, tile_size, scale), answer),
    ensures
        answer ==> call_requires(divide_into_tiles, (size, tile_size, scale)),
        answer <==> size.height * scale == 0 || {
            &&& size.height * scale <= usize::MAX
            &&& size.width * scale <= usize::MAX
            &&& tile_size > 0
            &&& (4 * tile_size <= usize::MAX || 4 * (size.width * scale) <= usize::MAX)
        },
{
}

/// Whether the tiles divide a layer: they lie on the grid of multiples of the tile size, row by
/// row; each reaches to the next line of the grid or to the edge of the scaled layer; the page
/// origin of each is its screen origin divided by the zoom factor, on both axes; and a row of a
/// tile's buffer has four bytes for each pixel.
pub open spec fn divides(tiles: Seq<Tile>, size: Size2D, tile_size: usize, scale: usize) -> bool {
    let width = size.width * scale;
    let height = size.height * scale;
    &&& forall|k: int|
        0 <= k < tiles.len() ==> {
            let tile = #[trigger] tiles[k];
            let on_screen = tile.screen_pos;
            let on_page = tile.rect;
            &&& on_screen.origin.x < width && on_screen.origin.y < height
            &&& on_screen.origin.x as int % tile_size as int == 0
            &&& on_screen.origin.y as int % tile_size as int == 0
            &&& on_screen.size.width <= tile_size && on_screen.size.height <= tile_size
            &&& on_screen.origin.x + on_screen.size.width <= width
            &&& on_screen.origin.y + on_screen.size.height <= height
            &&& on_screen.size.width == tile_size || on_screen.origin.x + on_screen.size.width
                == width
            &&& on_screen.size.height == tile_size || on_screen.origin.y + on_screen.size.height
                == height
            &&& on_page.size == on_screen.size
            &&& on_page.origin.x * scale <= on_screen.origin.x < (on_page.origin.x + 1) * scale
            &&& on_page.origin.y * scale <= on_screen.origin.y < (on_page.origin.y + 1) * scale
            &&& tile.stride == 4 * on_screen.size.width
        }
    &&& forall|j: int, k: int|
        0 <= j < k < tiles.len() ==> {
            let one = (#[trigger] tiles[j]).screen_pos.origin;
            let other = (#[trigger] tiles[k]).screen_pos.origin;
            one.y < other.y || (one.y == other.y && one.x < other.x)
        }
    &&& forall|px: int, py: int|
        0 <= px < width && 0 <= py < height ==> #[trigger] is_covered(tiles, px, py)
}

/// Whether a pixel lies in a tile.
pub open spec fn is_covered(tiles: Seq<Tile>, px: int, py: int) -> bool {
    exists|k: int|
        0 <= k < tiles.len() && {
            let place = (#[trigger] tiles[k]).screen_pos;
            &&& place.origin.x <= px < place.origin.x + place.size.width
            &&& place.origin.y <= py < place.origin.y + place.size.height
        }
}

/// Every layer that can be divided is divided, at every zoom factor.
#[verifier::rlimit(40)]
pub proof fn law_layers_are_divided(
    size: Size2D,
    tile_size: usize,
    scale: usize,
    answer: bool,
    tiles: Vec<Tile>,
)
    requires
        call_ensures(is_tileable, (size, tile_size, scale), answer),
        answer,
        call_ensures(divide_into_tiles, (size, tile_size, scale), tiles),
    ensures
        divides(tiles@, size, tile_size, scale),
{
    let width = size.width * scale;
    let height = size.height * scale;
    assert forall|k: int| 0 <= k < tiles@.len() implies {
        let tile = #[trigger] tiles@[k];
        let on_screen = tile.screen_pos;
        let on_page = tile.rect;
        &&& on_screen.origin.x < width && on_screen.origin.y < height
        &&& on_screen.origin.x as int % tile_size as int == 0
        &&& on_screen.origin.y as int % tile_size as int == 0
        &&& on_screen.size.width <= tile_size && on_screen.size.height <= tile_size
        &&& on_screen.origin.x + on_screen.size.width <= width
        &&& on_screen.origin.y + on_screen.size.height <= height
        &&& on_screen.size.width == tile_size || on_screen.origin.x + on_screen.size.width == width
        &&& on_screen.size.height == tile_size || on_screen.origin.y + on_screen.size.height
            == height
        &&& on_page.size == on_screen.size
        &&& on_page.origin.x * scale <= on_screen.origin.x < (on_page.origin.x + 1) * scale
        &&& on_page.origin.y * scale <= on_screen.origin.y < (on_page.origin.y + 1) * scale
        &&& tile.stride == 4 * on_screen.size.width
    } by {
        law_tile_grid(size, tile_size, scale, k);
        law_page_origins(size, tile_size, scale, k);
        law_tile_sizes(size, tile_size, scale, k);
    }
    assert forall|j: int, k: int| 0 <= j < k < tiles@.len() implies {
        let one = (#[trigger] tiles@[j]).screen_pos.origin;
        let other = (#[trigger] tiles@[k]).screen_pos.origin;
        one.y < other.y || (one.y == other.y && one.x < other.x)
    } by {
        law_tiles_stand_row_by_row(size, tile_size, scale, j, k);
    }
    assert forall|px: int, py: int| 0 <= px < width && 0 <= py < height implies
        #[trigger] is_covered(tiles@, px, py) by {
        law_each_pixel_in_exactly_one_tile(size, tile_size, scale, px, py);
        let k = choose|k: int|
            0 <= k < tiles@.len() && (#[trigger] tiles@[k]).screen_pos.covers(px, py);
        let place = tiles@[k].screen_pos;
        assert(place.origin.x <= px < place.origin.x + place.size.width);
    }
}

} // verus!
