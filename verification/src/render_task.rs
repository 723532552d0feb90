//! The task that handles all rendering and painting.
//!
//! The task divides each layer it receives into tiles, has them drawn, and hands the finished
//! buffers to the compositor. It may paint only while it holds the compositor token. A layer
//! finished without the token is kept back, and painted when the token arrives.
//!
//! `D` is the display list of a layer, `T` the draw target of a tile and `K` the compositor token.

use vstd::prelude::*;

use crate::geometry::{Rect, Size2D};
use crate::tiling::{divide_into_tiles, is_tileable, layer_tiles, tileable, Tile};

verus! {

/// A layer to be rendered.
#[derive(Debug, PartialEq, Eq)]
pub struct RenderLayer<D> {
    pub display_list: D,
    pub size: Size2D,
}

/// Messages to the render task.
pub enum Msg<D, K> {
    /// Renders a layer.
    RenderMsg(RenderLayer<D>),
    /// Grants permission to paint.
    TokenBestowMsg(K),
    /// Asks for the permission to paint back.
    TokenProcureMsg,
    /// Ends the task.
    ExitMsg,
}

/// What the compositor is told about the task's progress.
#[derive(Clone, Copy, Debug, PartialEq, Eq, Structural)]
pub enum RenderState {
    IdleRenderState,
    RenderingRenderState,
}

/// Remarks on where a finished layer goes.
#[derive(Clone, Copy, Debug, PartialEq, Eq, Structural)]
pub enum Notice {
    CachingPaintMsg,
    RetrievingPaintMsg,
}

impl Notice {
    /// The line that is printed for the user.
    pub fn text(&self) -> (text: String)
        ensures
            text@ == match *self {
                Notice::CachingPaintMsg => "caching paint msg"@,
                Notice::RetrievingPaintMsg => "retrieving cached paint msg"@,
            },
    {
        match self {
            Notice::CachingPaintMsg => "caching paint msg".to_owned(),
            Notice::RetrievingPaintMsg => "retrieving cached paint msg".to_owned(),
        }
    }
}

/// The drawn buffer of one tile.
#[derive(Debug, PartialEq, Eq)]
pub struct LayerBuffer<T> {
    pub draw_target: T,
    pub rect: Rect,
    pub screen_pos: Rect,
    pub stride: usize,
}

/// The drawn buffers of a layer.
#[derive(Debug, PartialEq, Eq)]
pub struct LayerBufferSet<T> {
    pub buffers: Vec<LayerBuffer<T>>,
}

/// What the task asks of its surroundings.
#[derive(Debug, PartialEq, Eq)]
pub enum RenderAction<D, T, K> {
    /// Tells the compositor what the task is doing.
    SetRenderState(RenderState),
    /// Draws the layer's display list into one new draw target for each tile; the targets come
    /// back through [`assemble`] and [`RenderTask::finish_render`].
    DrawTiles { layer: RenderLayer<D>, tiles: Vec<Tile> },
    /// Hands finished buffers to the compositor.
    Paint { layer_buffer_set: LayerBufferSet<T>, layer_size: Size2D },
    /// Gives the compositor token back to the engine.
    SurrenderToken(K),
    /// Reports where a finished layer goes.
    Report(Notice),
    /// Confirms the end of the task.
    AcknowledgeExit,
}

/// The options that the task reads.
#[derive(Clone, Copy, Debug, PartialEq, Eq, Structural)]
pub struct Opts {
    /// The side length of a tile, in pixels.
    pub tile_size: usize,
    /// The zoom factor.
    pub zoom: usize,
}

/// The render task.
pub struct RenderTask<T, K> {
    opts: Opts,
    /// A token that grants permission to send paint messages to the compositor.
    compositor_token: Option<K>,
    /// The last layer rendered without the token.
    next_paint_msg: Option<(LayerBufferSet<T>, Size2D)>,
}

/// The state of a [`RenderTask`].
pub ghost struct RenderTaskView<T, K> {
    pub opts: Opts,
    pub compositor_token: Option<K>,
    pub next_paint_msg: Option<(LayerBufferSet<T>, Size2D)>,
}

impl<T, K> RenderTaskView<T, K> {
    /// A task that may paint keeps nothing back.
    pub open spec fn wf(self) -> bool {
        self.compositor_token is Some ==> self.next_paint_msg is None
    }

    /// Whether the task can handle a message: a layer must be divisible into tiles, and only a
    /// token that is held can be procured.
    pub open spec fn accepts<D>(self, msg: Msg<D, K>) -> bool {
        match msg {
            Msg::RenderMsg(layer) => tileable(layer.size, self.opts.tile_size, self.opts.zoom),
            Msg::TokenBestowMsg(_) => true,
            Msg::TokenProcureMsg => self.compositor_token is Some,
            Msg::ExitMsg => true,
        }
    }

    /// The state after a layer has been drawn.
    pub open spec fn rendered(self, layer_buffer_set: LayerBufferSet<T>, layer_size: Size2D) -> Self {
        if self.compositor_token is Some {
            self
        } else {
            RenderTaskView { next_paint_msg: Some((layer_buffer_set, layer_size)), ..self }
        }
    }

    /// What is painted when a layer has been drawn.
    pub open spec fn paint_when_rendered(
        self,
        layer_buffer_set: LayerBufferSet<T>,
        layer_size: Size2D,
    ) -> Option<(LayerBufferSet<T>, Size2D)> {
        if self.compositor_token is Some {
            Some((layer_buffer_set, layer_size))
        } else {
            None
        }
    }

    /// The state after the token has arrived.
    pub open spec fn bestowed(self, token: K) -> Self {
        RenderTaskView { compositor_token: Some(token), next_paint_msg: None, ..self }
    }

    /// What is painted when the token arrives.
    pub open spec fn paint_when_bestowed(self) -> Option<(LayerBufferSet<T>, Size2D)> {
        self.next_paint_msg
    }

    /// The state after the token has been given back.
    pub open spec fn procured(self) -> Self {
        RenderTaskView { compositor_token: None, ..self }
    }
}

/// The buffers made of the given tiles and draw targets, tile by tile.
pub open spec fn buffers_of<T>(tiles: Seq<Tile>, targets: Seq<T>) -> Seq<LayerBuffer<T>> {
    Seq::new(
        tiles.len(),
        |i: int|
            LayerBuffer {
                draw_target: targets[i],
                rect: tiles[i].rect,
                screen_pos: tiles[i].screen_pos,
                stride: tiles[i].stride,
            },
    )
}

/// Puts the draw targets of a layer's tiles together.
pub fn assemble<T>(tiles: &Vec<Tile>, targets: Vec<T>) -> (layer_buffer_set: LayerBufferSet<T>)
    requires
        targets@.len() == tiles@.len(),
    ensures
        layer_buffer_set.buffers@ == buffers_of(tiles@, targets@),
{
    let mut buffers: Vec<LayerBuffer<T>> = Vec::new();
    for draw_target in it: targets
        invariant
            it.seq() == targets@,
            targets@.len() == tiles@.len(),
            buffers@ == buffers_of(tiles@, targets@).take(it.index()),
    {
        let tile: Tile = tiles[buffers.len()];
        buffers.push(
            LayerBuffer {
                draw_target,
                rect: tile.rect,
                screen_pos: tile.screen_pos,
                stride: tile.stride,
            },
        );
        assert(buffers@ =~= buffers_of(tiles@, targets@).take(it.index() + 1));
    }
    assert(buffers@ =~= buffers_of(tiles@, targets@));
    LayerBufferSet { buffers }
}

/// Whether the actions of a message are those that the state calls for.
pub open spec fn answers<D, T, K>(
    before: RenderTaskView<T, K>,
    msg: Msg<D, K>,
    actions: Seq<RenderAction<D, T, K>>,
) -> bool {
    match msg {
        Msg::RenderMsg(layer) => {
            &&& actions.len() == 2
            &&& actions[0] == RenderAction::<D, T, K>::SetRenderState(
                RenderState::RenderingRenderState,
            )
            &&& actions[1] matches RenderAction::DrawTiles { layer: drawn, tiles }
            &&& drawn == layer
            &&& tiles@ == layer_tiles(layer.size, before.opts.tile_size, before.opts.zoom)
        },
        Msg::TokenBestowMsg(_) => actions =~= match before.paint_when_bestowed() {
            Some((layer_buffer_set, layer_size)) => seq![
                RenderAction::<D, T, K>::Report(Notice::RetrievingPaintMsg),
                RenderAction::<D, T, K>::Paint { layer_buffer_set, layer_size },
                RenderAction::<D, T, K>::SetRenderState(RenderState::IdleRenderState),
            ],
            None => seq![],
        },
        Msg::TokenProcureMsg => actions =~= seq![
            RenderAction::<D, T, K>::SurrenderToken(before.compositor_token->0),
        ],
        Msg::ExitMsg => actions =~= seq![RenderAction::<D, T, K>::AcknowledgeExit],
    }
}

/// The state after a message. A layer changes nothing until it has been drawn.
pub open spec fn state_after<D, T, K>(
    before: RenderTaskView<T, K>,
    msg: Msg<D, K>,
) -> RenderTaskView<T, K> {
    match msg {
        Msg::RenderMsg(_) => before,
        Msg::TokenBestowMsg(token) => before.bestowed(token),
        Msg::TokenProcureMsg => before.procured(),
        Msg::ExitMsg => before,
    }
}

impl<T, K> View for RenderTask<T, K> {
    type V = RenderTaskView<T, K>;

    closed spec fn view(&self) -> RenderTaskView<T, K> {
        RenderTaskView {
            opts: self.opts,
            compositor_token: self.compositor_token,
            next_paint_msg: self.next_paint_msg,
        }
    }
}

impl<T, K> RenderTask<T, K> {
    /// Creates a render task that holds neither the token nor a finished layer.
    pub fn new(opts: Opts) -> (task: RenderTask<T, K>)
        ensures
            task@ == (RenderTaskView::<T, K> { opts, compositor_token: None, next_paint_msg: None }),
            task@.wf(),
    {
        RenderTask { opts, compositor_token: None, next_paint_msg: None }
    }

    /// Decides whether the task can handle a message.
    pub fn accepts<D>(&self, msg: &Msg<D, K>) -> (res: bool)
        ensures
            res == self@.accepts(*msg),
    {
        match msg {
            Msg::RenderMsg(layer) => is_tileable(layer.size, self.opts.tile_size, self.opts.zoom),
            Msg::TokenBestowMsg(_) => true,
            Msg::TokenProcureMsg => self.compositor_token.is_some(),
            Msg::ExitMsg => true,
        }
    }

    /// Handles one message. Returns what is to be done, in order, and whether the task goes on.
    pub fn handle_msg<D>(&mut self, msg: Msg<D, K>) -> (res: (Vec<RenderAction<D, T, K>>, bool))
        requires
            old(self)@.wf(),
            old(self)@.accepts(msg),
        ensures
            final(self)@.wf(),
            final(self)@ == state_after(old(self)@, msg),
            answers(old(self)@, msg, res.0@),
            res.1 == !(msg is ExitMsg),
    {
        match msg {
            Msg::RenderMsg(layer) => (self.render(layer), true),
            Msg::TokenBestowMsg(token) => {
                self.compositor_token = Some(token);
                let next_paint_msg = self.next_paint_msg.take();
                let mut actions: Vec<RenderAction<D, T, K>> = Vec::new();
                match next_paint_msg {
                    Some((layer_buffer_set, layer_size)) => {
                        actions.push(RenderAction::Report(Notice::RetrievingPaintMsg));
                        actions.push(RenderAction::Paint { layer_buffer_set, layer_size });
                        actions.push(RenderAction::SetRenderState(RenderState::IdleRenderState));
                    },
                    None => {},
                }
                (actions, true)
            },
            Msg::TokenProcureMsg => {
                let mut actions: Vec<RenderAction<D, T, K>> = Vec::new();
                match self.compositor_token.take() {
                    Some(token) => actions.push(RenderAction::SurrenderToken(token)),
                    None => {},
                }
                (actions, true)
            },
            Msg::ExitMsg => {
                let mut actions: Vec<RenderAction<D, T, K>> = Vec::new();
                actions.push(RenderAction::AcknowledgeExit);
                (actions, false)
            },
        }
    }

    /// Starts to render a layer: divides it into tiles and asks for them to be drawn.
    pub fn render<D>(&self, layer: RenderLayer<D>) -> (actions: Vec<RenderAction<D, T, K>>)
        requires
            self@.accepts(Msg::RenderMsg(layer)),
        ensures
            answers(self@, Msg::RenderMsg(layer), actions@),
    {
        let tiles = divide_into_tiles(layer.size, self.opts.tile_size, self.opts.zoom);
        let mut actions: Vec<RenderAction<D, T, K>> = Vec::new();
        actions.push(RenderAction::SetRenderState(RenderState::RenderingRenderState));
        actions.push(RenderAction::DrawTiles { layer, tiles });
        actions
    }

    /// Ends the rendering of a layer: paints its buffers, or keeps them until the token arrives.
    pub fn finish_render<D>(
        &mut self,
        layer_buffer_set: LayerBufferSet<T>,
        layer_size: Size2D,
    ) -> (actions: Vec<RenderAction<D, T, K>>)
        requires
            old(self)@.wf(),
        ensures
            final(self)@.wf(),
            final(self)@ == old(self)@.rendered(layer_buffer_set, layer_size),
            actions@ == seq![
                match old(self)@.paint_when_rendered(layer_buffer_set, layer_size) {
                    Some((painted, size)) => RenderAction::<D, T, K>::Paint {
                        layer_buffer_set: painted,
                        layer_size: size,
                    },
                    None => RenderAction::<D, T, K>::Report(Notice::CachingPaintMsg),
                },
                RenderAction::<D, T, K>::SetRenderState(RenderState::IdleRenderState),
            ],
    {
        let mut actions: Vec<RenderAction<D, T, K>> = Vec::new();
        if self.compositor_token.is_some() {
            actions.push(RenderAction::Paint { layer_buffer_set, layer_size });
        } else {
            actions.push(RenderAction::Report(Notice::CachingPaintMsg));
            self.next_paint_msg = Some((layer_buffer_set, layer_size));
        }
        actions.push(RenderAction::SetRenderState(RenderState::IdleRenderState));
        actions
    }
}

/// What can happen to a render task that concerns painting.
pub ghost enum PaintEvent<T, K> {
    /// A layer has been drawn.
    Rendered(LayerBufferSet<T>, Size2D),
    /// The token has arrived.
    Bestowed(K),
    /// The token has been given back.
    Procured,
}

/// The state of a task after a history of events.
pub open spec fn state_of<T, K>(
    start: RenderTaskView<T, K>,
    history: Seq<PaintEvent<T, K>>,
) -> RenderTaskView<T, K>
    decreases history.len(),
{
    if history.len() == 0 {
        start
    } else {
        let before = state_of(start, history.drop_last());
        match history.last() {
            PaintEvent::Rendered(layer_buffer_set, layer_size) => before.rendered(
                layer_buffer_set,
                layer_size,
            ),
            PaintEvent::Bestowed(token) => before.bestowed(token),
            PaintEvent::Procured => before.procured(),
        }
    }
}

/// What the last event of a history has painted.
pub open spec fn painted_last<T, K>(
    start: RenderTaskView<T, K>,
    history: Seq<PaintEvent<T, K>>,
) -> Option<(LayerBufferSet<T>, Size2D)>
    recommends
        history.len() > 0,
{
    let before = state_of(start, history.drop_last());
    match history.last() {
        PaintEvent::Rendered(layer_buffer_set, layer_size) => before.paint_when_rendered(
            layer_buffer_set,
            layer_size,
        ),
        PaintEvent::Bestowed(_) => before.paint_when_bestowed(),
        PaintEvent::Procured => None,
    }
}

/// The layers painted in the course of a history, in order.
pub open spec fn painted<T, K>(
    start: RenderTaskView<T, K>,
    history: Seq<PaintEvent<T, K>>,
) -> Seq<(LayerBufferSet<T>, Size2D)>
    decreases history.len(),
{
    if history.len() == 0 {
        seq![]
    } else {
        let earlier = painted(start, history.drop_last());
        match painted_last(start, history) {
            Some(layer) => earlier.push(layer),
            None => earlier,
        }
    }
}

/// The layer drawn last in a history.
pub open spec fn last_rendered<T, K>(history: Seq<PaintEvent<T, K>>) -> Option<
    (LayerBufferSet<T>, Size2D),
>
    decreases history.len(),
{
    if history.len() == 0 {
        None
    } else {
        match history.last() {
            PaintEvent::Rendered(layer_buffer_set, layer_size) => Some(
                (layer_buffer_set, layer_size),
            ),
            _ => last_rendered(history.drop_last()),
        }
    }
}

/// The layer drawn last is never lost and never outlived by an older one: it is the one kept back
/// for the token, or, when nothing is kept back, the one painted last.
pub proof fn law_last_layer_is_painted_or_kept<T, K>(
    start: RenderTaskView<T, K>,
    history: Seq<PaintEvent<T, K>>,
)
    requires
        start.wf(),
        start.next_paint_msg is None,
    ensures
        state_of(start, history).wf(),
        match (last_rendered(history), state_of(start, history).next_paint_msg) {
            (None, kept) => kept is None && painted(start, history).len() == 0,
            (Some(layer), Some(kept)) => kept == layer,
            (Some(layer), None) => painted(start, history).len() > 0 && painted(
                start,
                history,
            ).last() == layer,
        },
    decreases history.len(),
{
    if history.len() > 0 {
        law_last_layer_is_painted_or_kept(start, history.drop_last());
    }
}

/// Nothing is painted without the token: the task holds it after every event that paints.
pub proof fn law_painting_needs_the_token<T, K>(
    start: RenderTaskView<T, K>,
    history: Seq<PaintEvent<T, K>>,
)
    requires
        history.len() > 0,
        painted_last(start, history) is Some,
    ensures
        state_of(start, history).compositor_token is Some,
{
}

/// A layer finished without the token is painted, unchanged, as soon as the token arrives, and is
/// then not kept any longer.
pub proof fn law_kept_layer_is_painted_on_bestowal<T, K>(
    before: RenderTaskView<T, K>,
    layer_buffer_set: LayerBufferSet<T>,
    layer_size: Size2D,
    token: K,
)
    requires
        before.wf(),
        before.compositor_token is None,
    ensures
        before.paint_when_rendered(layer_buffer_set, layer_size) is None,
        before.rendered(layer_buffer_set, layer_size).paint_when_bestowed() == Some(
            (layer_buffer_set, layer_size),
        ),
        before.rendered(layer_buffer_set, layer_size).bestowed(token).next_paint_msg is None,
{
}

/// A bestowed token can be procured, and what is procured is the token that was bestowed.
pub proof fn law_procured_token_is_the_bestowed_one<D, T, K>(
    before: RenderTaskView<T, K>,
    token: K,
    actions: Seq<RenderAction<D, T, K>>,
)
    requires
        answers(before.bestowed(token), Msg::<D, K>::TokenProcureMsg, actions),
    ensures
        before.bestowed(token).accepts(Msg::<D, K>::TokenProcureMsg),
        actions == seq![RenderAction::<D, T, K>::SurrenderToken(token)],
        before.bestowed(token).procured().compositor_token is None,
{
}

} // verus!
