//! The engine: it starts a pipeline for every page and hands the compositor token around.
//!
//! The token grants one pipeline the right to paint. A document that is being loaded waits for it;
//! when its renderer is ready, the present holder is asked to surrender the token, is shut down,
//! and the token passes on.
//!
//! `K` is the compositor token.

use std::collections::BTreeSet;

use vstd::prelude::*;

use crate::ids::{ascending, lemma_ascending_lists, members};
use crate::url::Url;

verus! {

/// Requests to the engine.
pub enum Msg<K> {
    /// Loads a page or runs a script in a new pipeline.
    LoadUrlMsg(Url),
    /// The renderer of the given pipeline has something to paint.
    RendererReadyMsg(usize),
    /// The holder of the token gives it back.
    TokenSurrenderMsg(K),
    /// Ends the engine.
    ExitMsg,
}

/// The token that a pipeline is given.
#[derive(Debug, PartialEq, Eq)]
pub enum Bestowal<K> {
    /// A new one.
    Fresh,
    /// One that another pipeline has surrendered.
    Surrendered(K),
}

/// What the engine asks of its surroundings. A pipeline is named by its id.
#[derive(Debug, PartialEq, Eq)]
pub enum EngineAction<K> {
    /// Starts the tasks of a new pipeline.
    CreatePipeline(usize),
    /// Has the pipeline's script task run a script.
    ExecuteScript { pipeline: usize, url: Url },
    /// Has the pipeline's script task load a document.
    LoadDocument { pipeline: usize, url: Url },
    /// Asks the pipeline's render task for the token.
    ProcureToken(usize),
    /// Gives the pipeline's render task the token.
    BestowToken { pipeline: usize, token: Bestowal<K> },
    /// Makes the compositor talk to the pipeline's layout task.
    SetLayoutChan(usize),
    /// Ends the tasks of a pipeline.
    ExitPipeline(usize),
    /// Ends the image cache.
    ExitImageCache,
    /// Ends the resource task.
    ExitResourceTask,
    /// Confirms the end of the engine.
    AcknowledgeExit,
}

/// The engine.
pub struct Engine {
    /// The ids of the pipelines that are running.
    pipelines: BTreeSet<usize>,
    /// The id of the next pipeline.
    next_id: usize,
    /// The pipeline that has the token.
    current_token_holder: Option<usize>,
    /// The pipeline that waits for the token.
    next_token_holder: Option<usize>,
}

/// The state of an [`Engine`].
#[verifier::ext_equal]
pub ghost struct EngineView {
    pub pipelines: Set<usize>,
    pub next_id: usize,
    pub current_token_holder: Option<usize>,
    pub next_token_holder: Option<usize>,
}

impl EngineView {
    /// The state of an engine that has just started.
    pub open spec fn initial() -> EngineView {
        EngineView {
            pipelines: Set::empty(),
            next_id: 0,
            current_token_holder: None,
            next_token_holder: None,
        }
    }

    /// Ids are given out in order, and the token is held by, and promised to, two different
    /// pipelines that are running.
    pub open spec fn wf(self) -> bool {
        &&& forall|id: usize| #[trigger] self.pipelines.contains(id) ==> id < self.next_id
        &&& self.current_token_holder matches Some(id) ==> self.pipelines.contains(id)
        &&& self.next_token_holder matches Some(id) ==> {
            &&& self.pipelines.contains(id)
            &&& self.current_token_holder != Some(id)
        }
    }

    /// Whether the engine can handle a request: a new pipeline needs an id.
    pub open spec fn accepts<K>(self, request: Msg<K>) -> bool {
        request is LoadUrlMsg ==> self.next_id < usize::MAX
    }

    /// The state after an id has been given out.
    pub open spec fn id_taken(self) -> EngineView {
        EngineView { next_id: (self.next_id + 1) as usize, ..self }
    }

    /// The state after a number of ids have been given out in a row.
    pub open spec fn ids_taken(self, count: nat) -> EngineView
        decreases count,
    {
        if count == 0 {
            self
        } else {
            self.ids_taken((count - 1) as nat).id_taken()
        }
    }

    /// The state after a pipeline has been started. A document waits for the token, a script
    /// does not.
    pub open spec fn loaded(self, url: Url) -> EngineView {
        EngineView {
            pipelines: self.pipelines.insert(self.next_id),
            next_id: (self.next_id + 1) as usize,
            next_token_holder: if url.names_script() {
                self.next_token_holder
            } else {
                Some(self.next_id)
            },
            ..self
        }
    }

    /// The state after the token has been given to a pipeline.
    pub open spec fn bestowed(self, id: usize) -> EngineView {
        EngineView { current_token_holder: Some(id), next_token_holder: None, ..self }
    }

    /// The state after the holder of the token has been shut down.
    pub open spec fn active_removed(self) -> EngineView {
        match self.current_token_holder {
            Some(id) => EngineView {
                pipelines: self.pipelines.remove(id),
                current_token_holder: None,
                ..self
            },
            None => self,
        }
    }

    /// The state after a request.
    pub open spec fn after<K>(self, request: Msg<K>) -> EngineView {
        match request {
            Msg::LoadUrlMsg(url) => self.loaded(url),
            Msg::RendererReadyMsg(id) => if self.next_token_holder == Some(id)
                && self.current_token_holder is None {
                self.bestowed(id)
            } else {
                self
            },
            Msg::TokenSurrenderMsg(_) => match self.active_removed().next_token_holder {
                Some(id) => self.active_removed().bestowed(id),
                None => self.active_removed(),
            },
            Msg::ExitMsg => self,
        }
    }
}

/// What is done when a pipeline is given the token.
pub open spec fn bestow_actions<K>(id: usize, token: Bestowal<K>) -> Seq<EngineAction<K>> {
    seq![
        EngineAction::BestowToken { pipeline: id, token },
        EngineAction::SetLayoutChan(id),
    ]
}

/// What is done when the holder of the token is shut down.
pub open spec fn remove_actions<K>(current_token_holder: Option<usize>) -> Seq<EngineAction<K>> {
    match current_token_holder {
        Some(id) => seq![EngineAction::ExitPipeline(id)],
        None => seq![],
    }
}

/// What is done upon a request.
pub open spec fn actions_for<K>(before: EngineView, request: Msg<K>) -> Seq<EngineAction<K>> {
    match request {
        Msg::LoadUrlMsg(url) => seq![
            EngineAction::CreatePipeline(before.next_id),
            if url.names_script() {
                EngineAction::ExecuteScript { pipeline: before.next_id, url }
            } else {
                EngineAction::LoadDocument { pipeline: before.next_id, url }
            },
        ],
        Msg::RendererReadyMsg(id) => if before.next_token_holder == Some(id) {
            match before.current_token_holder {
                Some(holder) => seq![EngineAction::ProcureToken(holder)],
                None => bestow_actions(id, Bestowal::Fresh),
            }
        } else {
            seq![]
        },
        Msg::TokenSurrenderMsg(token) => remove_actions(before.current_token_holder)
            + match before.next_token_holder {
            Some(id) => bestow_actions(id, Bestowal::Surrendered(token)),
            None => seq![],
        },
        Msg::ExitMsg => ascending(before.pipelines).map_values(
            |id: usize| EngineAction::<K>::ExitPipeline(id),
        ) + seq![
            EngineAction::ExitImageCache,
            EngineAction::ExitResourceTask,
            EngineAction::AcknowledgeExit,
        ],
    }
}

impl View for Engine {
    type V = EngineView;

    closed spec fn view(&self) -> EngineView {
        EngineView {
            pipelines: self.pipelines@,
            next_id: self.next_id,
            current_token_holder: self.current_token_holder,
            next_token_holder: self.next_token_holder,
        }
    }
}

impl Engine {
    /// Creates an engine without pipelines.
    pub fn new() -> (engine: Engine)
        ensures
            engine@ == EngineView::initial(),
            engine@.wf(),
    {
        Engine {
            pipelines: BTreeSet::new(),
            next_id: 0,
            current_token_holder: None,
            next_token_holder: None,
        }
    }

    /// Decides whether the engine can handle a request.
    pub fn accepts<K>(&self, request: &Msg<K>) -> (res: bool)
        ensures
            res == self@.accepts(*request),
    {
        match request {
            Msg::LoadUrlMsg(_) => self.next_id < usize::MAX,
            _ => true,
        }
    }

    /// Gives out the next id.
    pub fn get_next_id(&mut self) -> (id: usize)
        requires
            old(self)@.next_id < usize::MAX,
        ensures
            id == old(self)@.next_id,
            final(self)@ == old(self)@.id_taken(),
            old(self)@.wf() ==> final(self)@.wf(),
    {
        let id: usize = self.next_id;
        self.next_id = id + 1;
        id
    }

    /// Handles one request. Returns what is to be done, in order, and whether the engine goes on.
    pub fn handle_request<K>(&mut self, request: Msg<K>) -> (res: (Vec<EngineAction<K>>, bool))
        requires
            old(self)@.wf(),
            old(self)@.accepts(request),
        ensures
            final(self)@.wf(),
            final(self)@ == old(self)@.after(request),
            res.0@ == actions_for(old(self)@, request),
            res.1 == !(request is ExitMsg),
    {
        broadcast use vstd::laws_cmp::group_laws_cmp;

        let mut actions: Vec<EngineAction<K>> = Vec::new();
        match request {
            Msg::LoadUrlMsg(url) => {
                let pipeline_id: usize = self.get_next_id();
                actions.push(EngineAction::CreatePipeline(pipeline_id));
                if url.is_script() {
                    actions.push(EngineAction::ExecuteScript { pipeline: pipeline_id, url });
                } else {
                    actions.push(EngineAction::LoadDocument { pipeline: pipeline_id, url });
                    self.next_token_holder = Some(pipeline_id);
                }
                self.pipelines.insert(pipeline_id);
                (actions, true)
            },
            Msg::RendererReadyMsg(pipeline_id) => {
                if let Some(id) = self.next_token_holder {
                    if pipeline_id == id {
                        match self.current_token_holder {
                            Some(holder) => actions.push(EngineAction::ProcureToken(holder)),
                            None => {
                                actions = self.bestow_compositor_token(id, Bestowal::Fresh);
                            },
                        }
                    }
                }
                (actions, true)
            },
            Msg::TokenSurrenderMsg(token) => {
                actions = self.remove_active_pipeline();
                if let Some(id) = self.next_token_holder {
                    let mut passed = self.bestow_compositor_token(id, Bestowal::Surrendered(token));
                    actions.append(&mut passed);
                }
                (actions, true)
            },
            Msg::ExitMsg => {
                (self.exit_pipelines(), false)
            },
        }
    }

    /// Shuts down every pipeline and what they share.
    fn exit_pipelines<K>(&self) -> (actions: Vec<EngineAction<K>>)
        ensures
            actions@ == actions_for(self@, Msg::<K>::ExitMsg),
    {
        let ids = members(&self.pipelines);
        let ghost exits = ids@.map_values(|id: usize| EngineAction::<K>::ExitPipeline(id));
        let mut actions: Vec<EngineAction<K>> = Vec::new();
        for i in 0..ids.len()
            invariant
                exits == ids@.map_values(|id: usize| EngineAction::<K>::ExitPipeline(id)),
                actions@ == exits.take(i as int),
        {
            actions.push(EngineAction::ExitPipeline(ids[i]));
            assert(actions@ =~= exits.take(i + 1));
        }
        assert(exits.take(ids@.len() as int) =~= exits);
        actions.push(EngineAction::ExitImageCache);
        actions.push(EngineAction::ExitResourceTask);
        actions.push(EngineAction::AcknowledgeExit);
        actions
    }

    /// Shuts down the pipeline that holds the token, if there is one.
    pub fn remove_active_pipeline<K>(&mut self) -> (actions: Vec<EngineAction<K>>)
        requires
            old(self)@.wf(),
        ensures
            final(self)@.wf(),
            final(self)@ == old(self)@.active_removed(),
            actions@ == remove_actions::<K>(old(self)@.current_token_holder),
    {
        broadcast use vstd::laws_cmp::group_laws_cmp;

        let mut actions: Vec<EngineAction<K>> = Vec::new();
        if let Some(id) = self.current_token_holder {
            self.pipelines.remove(&id);
            actions.push(EngineAction::ExitPipeline(id));
        }
        self.current_token_holder = None;
        actions
    }

    /// Gives the token to a pipeline that is running.
    fn bestow_compositor_token<K>(
        &mut self,
        id: usize,
        compositor_token: Bestowal<K>,
    ) -> (actions: Vec<EngineAction<K>>)
        requires
            old(self)@.wf(),
            old(self)@.pipelines.contains(id),
        ensures
            final(self)@.wf(),
            final(self)@ == old(self)@.bestowed(id),
            actions@ == bestow_actions(id, compositor_token),
    {
        let mut actions: Vec<EngineAction<K>> = Vec::new();
        actions.push(EngineAction::BestowToken { pipeline: id, token: compositor_token });
        actions.push(EngineAction::SetLayoutChan(id));
        self.current_token_holder = Some(id);
        self.next_token_holder = None;
        actions
    }
}

/// The pipeline that an action addresses.
pub open spec fn addressee<K>(action: EngineAction<K>) -> Option<usize> {
    match action {
        EngineAction::CreatePipeline(id) => Some(id),
        EngineAction::ExecuteScript { pipeline, .. } => Some(pipeline),
        EngineAction::LoadDocument { pipeline, .. } => Some(pipeline),
        EngineAction::ProcureToken(id) => Some(id),
        EngineAction::BestowToken { pipeline, .. } => Some(pipeline),
        EngineAction::SetLayoutChan(id) => Some(id),
        EngineAction::ExitPipeline(id) => Some(id),
        _ => None,
    }
}

/// Every action addresses a pipeline that is running or that the request has just started; in
/// particular the pipeline that waits for the token is there when the token is bestowed.
pub proof fn law_actions_address_running_pipelines<K>(before: EngineView, request: Msg<K>, i: int)
    requires
        before.wf(),
        before.accepts(request),
        0 <= i < actions_for(before, request).len(),
    ensures
        addressee(actions_for(before, request)[i]) matches Some(id) ==> {
            ||| before.pipelines.contains(id)
            ||| request is LoadUrlMsg && id == before.next_id
        },
{
    if request is ExitMsg {
        let ids = ascending(before.pipelines);
        lemma_ascending_lists(before.pipelines);
        if i < ids.len() {
            assert(ids.contains(ids[i]));
        }
    }
}

/// The token is asked for only where it is, and given only where it is awaited.
pub proof fn law_token_goes_from_holder_to_next<K>(before: EngineView, request: Msg<K>, i: int)
    requires
        before.wf(),
        0 <= i < actions_for(before, request).len(),
    ensures
        match actions_for(before, request)[i] {
            EngineAction::ProcureToken(id) => before.current_token_holder == Some(id),
            EngineAction::BestowToken { pipeline, .. } => {
                &&& before.next_token_holder == Some(pipeline)
                &&& before.after(request).current_token_holder == Some(pipeline)
            },
            _ => true,
        },
{
}

/// The end of the engine ends every running pipeline.
pub proof fn law_exit_ends_every_pipeline<K>(before: EngineView, id: usize)
    requires
        before.pipelines.contains(id),
    ensures
        actions_for(before, Msg::<K>::ExitMsg).contains(EngineAction::ExitPipeline(id)),
{
    let ids = ascending(before.pipelines);
    lemma_ascending_lists(before.pipelines);
    assert(ids.contains(id));
    let i = choose|i: int| 0 <= i < ids.len() && ids[i] == id;
    assert(actions_for(before, Msg::<K>::ExitMsg)[i] == EngineAction::<K>::ExitPipeline(id));
}

/// The state of an engine after a history of requests.
pub open spec fn state_of<K>(start: EngineView, history: Seq<Msg<K>>) -> EngineView
    decreases history.len(),
{
    if history.len() == 0 {
        start
    } else {
        state_of(start, history.drop_last()).after(history.last())
    }
}

/// Whether every request of a history could be handled when it came.
pub open spec fn all_accepted<K>(start: EngineView, history: Seq<Msg<K>>) -> bool
    decreases history.len(),
{
    history.len() > 0 ==> {
        &&& all_accepted(start, history.drop_last())
        &&& state_of(start, history.drop_last()).accepts(history.last())
    }
}

/// The ids of the pipelines started in the course of a history, in order.
pub open spec fn started<K>(start: EngineView, history: Seq<Msg<K>>) -> Seq<usize>
    decreases history.len(),
{
    if history.len() == 0 {
        seq![]
    } else {
        let earlier = started(start, history.drop_last());
        let actions = actions_for(state_of(start, history.drop_last()), history.last());
        if actions.len() > 0 && actions[0] is CreatePipeline {
            earlier.push(actions[0]->CreatePipeline_0)
        } else {
            earlier
        }
    }
}

/// The invariant of the engine holds after every history.
pub proof fn law_invariant_holds_throughout<K>(start: EngineView, history: Seq<Msg<K>>)
    requires
        start.wf(),
        all_accepted(start, history),
    ensures
        state_of(start, history).wf(),
    decreases history.len(),
{
    if history.len() > 0 {
        law_invariant_holds_throughout(start, history.drop_last());
    }
}

/// Pipelines get consecutive ids, so that no id is ever used twice.
pub proof fn law_ids_are_never_reused<K>(start: EngineView, history: Seq<Msg<K>>)
    requires
        start.wf(),
        all_accepted(start, history),
    ensures
        started(start, history) =~= Seq::new(
            started(start, history).len(),
            |i: int| (start.next_id + i) as usize,
        ),
        state_of(start, history).next_id == start.next_id + started(start, history).len(),
    decreases history.len(),
{
    if history.len() > 0 {
        let earlier = history.drop_last();
        law_ids_are_never_reused(start, earlier);
        if history.last() is ExitMsg {
            let ids = ascending(state_of(start, earlier).pipelines);
            assert(actions_for(state_of(start, earlier), history.last()).len() == ids.len() + 3);
        }
    }
}

/// Ids given out in a row are consecutive, hence distinct, and nothing else changes.
pub proof fn law_consecutive_ids(before: EngineView, count: nat)
    requires
        before.next_id + count <= usize::MAX,
    ensures
        before.ids_taken(count) == (EngineView {
            next_id: (before.next_id + count) as usize,
            ..before
        }),
        forall|i: nat|
            i <= count ==> (#[trigger] before.ids_taken(i)).next_id == before.next_id + i,
    decreases count,
{
    if count > 0 {
        law_consecutive_ids(before, (count - 1) as nat);
    }
    assert forall|i: nat| i <= count implies (#[trigger] before.ids_taken(i)).next_id
        == before.next_id + i by {
        if i < count {
            assert(i <= (count - 1) as nat);
        }
    }
}

/// Removing the active pipeline ends that one pipeline, if there is one, and leaves the claim to
/// the token and the ids alone. Removing it again changes nothing and ends nothing.
pub proof fn law_active_pipeline_is_removed_once<K>(before: EngineView)
    ensures
        ({
            let removed = before.active_removed();
            &&& removed.current_token_holder is None
            &&& removed.next_token_holder == before.next_token_holder
            &&& removed.next_id == before.next_id
            &&& match before.current_token_holder {
                Some(id) => {
                    &&& removed.pipelines == before.pipelines.remove(id)
                    &&& remove_actions::<K>(Some(id)) == seq![EngineAction::<K>::ExitPipeline(id)]
                },
                None => {
                    &&& removed == before
                    &&& remove_actions::<K>(None) == Seq::<EngineAction<K>>::empty()
                },
            }
            &&& removed.active_removed() == removed
            &&& remove_actions::<K>(removed.current_token_holder) == Seq::<
                EngineAction<K>,
            >::empty()
        }),
{
}

/// How often the token is bestowed by a list of actions.
pub open spec fn bestowals<K>(actions: Seq<EngineAction<K>>) -> nat
    decreases actions.len(),
{
    if actions.len() == 0 {
        0
    } else {
        bestowals(actions.drop_last()) + if actions.last() is BestowToken {
            1nat
        } else {
            0nat
        }
    }
}

/// How many tokens are in the hands of render tasks after a history.
pub open spec fn tokens_out<K>(start: EngineView, history: Seq<Msg<K>>) -> int
    decreases history.len(),
{
    if history.len() == 0 {
        if start.current_token_holder is Some {
            1
        } else {
            0
        }
    } else {
        let earlier = history.drop_last();
        tokens_out(start, earlier) + bestowals(
            actions_for(state_of(start, earlier), history.last()),
        ) - if history.last() is TokenSurrenderMsg {
            1int
        } else {
            0int
        }
    }
}

/// Whether render tasks have surrendered only tokens that they had.
pub open spec fn surrenders_are_honest<K>(start: EngineView, history: Seq<Msg<K>>) -> bool
    decreases history.len(),
{
    history.len() > 0 ==> {
        &&& surrenders_are_honest(start, history.drop_last())
        &&& history.last() is TokenSurrenderMsg ==> tokens_out(start, history.drop_last()) > 0
    }
}

proof fn lemma_no_bestowals<K>(actions: Seq<EngineAction<K>>)
    requires
        forall|i: int| 0 <= i < actions.len() ==> !(#[trigger] actions[i] is BestowToken),
    ensures
        bestowals(actions) == 0,
    decreases actions.len(),
{
    if actions.len() > 0 {
        assert forall|i: int| 0 <= i < actions.drop_last().len() implies !(
        #[trigger] actions.drop_last()[i] is BestowToken) by {
            assert(actions.drop_last()[i] == actions[i]);
        }
        lemma_no_bestowals(actions.drop_last());
    }
}

proof fn lemma_bestow_actions<K>(
    prefix: Seq<EngineAction<K>>,
    id: usize,
    token: Bestowal<K>,
)
    requires
        forall|i: int| 0 <= i < prefix.len() ==> !(#[trigger] prefix[i] is BestowToken),
    ensures
        bestowals(prefix + bestow_actions(id, token)) == 1,
{
    let actions = prefix + bestow_actions(id, token);
    assert(actions.drop_last().drop_last() =~= prefix);
    lemma_no_bestowals(prefix);
    assert(actions.drop_last().last() is BestowToken);
    reveal_with_fuel(bestowals, 3);
}

/// At most one compositor token is ever out, and it is out exactly while the engine counts a
/// pipeline as its holder.
pub proof fn law_at_most_one_token<K>(start: EngineView, history: Seq<Msg<K>>)
    requires
        start.wf(),
        all_accepted(start, history),
        surrenders_are_honest(start, history),
    ensures
        tokens_out(start, history) == if state_of(start, history).current_token_holder is Some {
            1int
        } else {
            0int
        },
    decreases history.len(),
{
    if history.len() > 0 {
        let earlier = history.drop_last();
        let before = state_of(start, earlier);
        law_at_most_one_token(start, earlier);
        let actions = actions_for(before, history.last());
        match history.last() {
            Msg::LoadUrlMsg(_) => lemma_no_bestowals(actions),
            Msg::RendererReadyMsg(id) => {
                if before.next_token_holder == Some(id) && before.current_token_holder is None {
                    lemma_bestow_actions(Seq::empty(), id, Bestowal::<K>::Fresh);
                    assert(Seq::empty() + actions =~= actions);
                } else {
                    lemma_no_bestowals(actions);
                }
            },
            Msg::TokenSurrenderMsg(token) => {
                match before.next_token_holder {
                    Some(id) => lemma_bestow_actions(
                        remove_actions(before.current_token_holder),
                        id,
                        Bestowal::Surrendered(token),
                    ),
                    None => lemma_no_bestowals(actions),
                }
            },
            Msg::ExitMsg => lemma_no_bestowals(actions),
        }
    }
}

/// The token goes only to the document loaded last: a renderer of any other pipeline that becomes
/// ready changes nothing.
pub proof fn law_only_latest_document_gets_the_token<K>(before: EngineView, url: Url, id: usize)
    requires
        before.wf(),
        before.accepts(Msg::<K>::LoadUrlMsg(url)),
        !url.names_script(),
        id != before.next_id,
    ensures
        before.loaded(url).after(Msg::<K>::RendererReadyMsg(id)) == before.loaded(url),
        actions_for(before.loaded(url), Msg::<K>::RendererReadyMsg(id)) == Seq::<
            EngineAction<K>,
        >::empty(),
{
}

/// Running a script leaves the token and the claim to it where they are.
pub proof fn law_scripts_do_not_claim_the_token(before: EngineView, url: Url)
    requires
        url.names_script(),
    ensures
        before.loaded(url).current_token_holder == before.current_token_holder,
        before.loaded(url).next_token_holder == before.next_token_holder,
{
}

/// The first document to become ready gets a new token at once.
pub proof fn law_first_document_gets_a_fresh_token<K>(url: Url)
    requires
        !url.names_script(),
    ensures
        ({
            let loaded = EngineView::initial().loaded(url);
            let ready = Msg::<K>::RendererReadyMsg(0);
            &&& actions_for(loaded, ready) == bestow_actions(0, Bestowal::<K>::Fresh)
            &&& loaded.after(ready).current_token_holder == Some(0usize)
        }),
{
}

/// The token passes from one pipeline to the next: the holder is asked for it and keeps it until
/// it surrenders it; then the holder is shut down and the very token it gave back is bestowed.
pub proof fn law_token_passes_on<K>(before: EngineView, holder: usize, next: usize, token: K)
    requires
        before.wf(),
        before.current_token_holder == Some(holder),
        before.next_token_holder == Some(next),
    ensures
        ({
            let ready = Msg::<K>::RendererReadyMsg(next);
            let surrender = Msg::TokenSurrenderMsg(token);
            &&& actions_for(before, ready) == seq![EngineAction::<K>::ProcureToken(holder)]
            &&& before.after(ready) == before
            &&& actions_for(before, surrender) == seq![
                EngineAction::ExitPipeline(holder),
                EngineAction::BestowToken {
                    pipeline: next,
                    token: Bestowal::Surrendered(token),
                },
                EngineAction::SetLayoutChan(next),
            ]
            &&& before.after(surrender) == EngineView {
                pipelines: before.pipelines.remove(holder),
                current_token_holder: Some(next),
                next_token_holder: None,
                ..before
            }
            &&& before.after(surrender).pipelines.contains(next)
        }),
{
    assert(actions_for(before, Msg::TokenSurrenderMsg(token)) =~= seq![
        EngineAction::ExitPipeline(holder),
        EngineAction::BestowToken { pipeline: next, token: Bestowal::Surrendered(token) },
        EngineAction::SetLayoutChan(next),
    ]);
}

} // verus!
