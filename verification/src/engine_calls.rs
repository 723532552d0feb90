//! What each call of the engine does, request by request.

use vstd::prelude::*;

use crate::engine::{Bestowal, Engine, EngineAction, Msg};
use crate::ids::{ascending, lemma_ascending_lists};
use crate::url::Url;

verus! {

/// Whether a text ends in `.js`.
pub open spec fn ends_in_js(text: Seq<char>) -> bool {
    let len = text.len() as int;
    &&& len >= 3
    &&& text[len - 3] == '.'
    &&& text[len - 2] == 'j'
    &&& text[len - 1] == 's'
}

proof fn lemma_names_script(url: Url)
    ensures
        url.names_script() <==> ends_in_js(url.path@),
{
    let path = url.path@;
    if path.len() >= 3 {
        let tail = path.subrange(path.len() - 3, path.len() as int);
        assert(tail =~= seq!['.', 'j', 's'] <==> ends_in_js(path));
    }
}

/// An engine starts without pipelines, and nobody holds or awaits the token.
pub proof fn law_new_engine_is_idle(engine: Engine)
    requires
        call_ensures(Engine::new, (), engine),
    ensures
        engine@.wf(),
        forall|id: usize| !(#[trigger] engine@.pipelines.contains(id)),
        engine@.next_id == 0,
        engine@.current_token_holder is None,
        engine@.next_token_holder is None,
{
}

/// Every request can be handled in every state, but that a new pipeline needs an id.
pub proof fn law_requests_can_be_handled<K>(engine: &mut Engine, request: Msg<K>, answer: bool)
    requires
        old(engine)@.wf(),
        call_ensures(Engine::accepts::<K>, (&*old(engine), &request), answer),
    ensures
        answer <==> !(request is LoadUrlMsg && old(engine)@.next_id == usize::MAX),
        answer ==> call_requires(Engine::handle_request::<K>, (engine, request)),
{
}

/// The engine goes on after every request but the one to end.
pub proof fn law_only_exit_ends_the_engine<K>(
    engine: &mut Engine,
    request: Msg<K>,
    res: (Vec<EngineAction<K>>, bool),
)
    requires
        call_ensures(Engine::handle_request::<K>, (engine, request), res),
    ensures
        res.1 <==> !(request is ExitMsg),
        final(engine)@.wf(),
{
}

/// A request to load starts one pipeline, under the next id, and hands it the locator: to be
/// executed, if its path ends in `.js`, and else to be loaded. A document becomes the one that
/// waits for the token, whatever waited before; a script leaves that as it is. Who holds the token
/// does not change.
pub proof fn law_loading<K>(
    engine: &mut Engine,
    url: Url,
    res: (Vec<EngineAction<K>>, bool),
)
    requires
        old(engine)@.wf(),
        old(engine)@.next_id < usize::MAX,
        call_ensures(Engine::handle_request::<K>, (engine, Msg::LoadUrlMsg(url)), res),
    ensures
        ({
            let new = old(engine)@.next_id;
            &&& res.0@.len() == 2
            &&& res.0@[0] == EngineAction::<K>::CreatePipeline(new)
            &&& ends_in_js(url.path@) ==> res.0@[1] == (EngineAction::<K>::ExecuteScript {
                pipeline: new,
                url,
            })
            &&& !ends_in_js(url.path@) ==> res.0@[1] == (EngineAction::<K>::LoadDocument {
                pipeline: new,
                url,
            })
            &&& ends_in_js(url.path@) ==> final(engine)@.next_token_holder == old(
                engine,
            )@.next_token_holder
            &&& !ends_in_js(url.path@) ==> final(engine)@.next_token_holder == Some(new)
            &&& final(engine)@.current_token_holder == old(engine)@.current_token_holder
            &&& final(engine)@.next_id == new + 1
            &&& !old(engine)@.pipelines.contains(new)
            &&& forall|id: usize| #[trigger]
                final(engine)@.pipelines.contains(id) <==> old(engine)@.pipelines.contains(id)
                    || id == new
        }),
{
    lemma_names_script(url);
}

/// A renderer that becomes ready gets the token moving exactly if its pipeline is the one that
/// waits: then the holder is asked for the token, if there is a holder, and nothing changes yet;
/// without a holder a new token is given to the pipeline at once.
pub proof fn law_ready_renderer<K>(
    engine: &mut Engine,
    id: usize,
    res: (Vec<EngineAction<K>>, bool),
)
    requires
        old(engine)@.wf(),
        call_ensures(Engine::handle_request::<K>, (engine, Msg::RendererReadyMsg(id)), res),
    ensures
        old(engine)@.next_token_holder != Some(id) ==> {
            &&& res.0@.len() == 0
            &&& final(engine)@ == old(engine)@
        },
        old(engine)@.next_token_holder == Some(id) ==> {
            &&& old(engine)@.current_token_holder matches Some(holder) ==> {
                &&& res.0@.len() == 1
                &&& res.0@[0] == EngineAction::<K>::ProcureToken(holder)
                &&& final(engine)@ == old(engine)@
            }
            &&& old(engine)@.current_token_holder is None ==> {
                &&& res.0@.len() == 2
                &&& res.0@[0] == (EngineAction::BestowToken {
                    pipeline: id,
                    token: Bestowal::<K>::Fresh,
                })
                &&& res.0@[1] == EngineAction::<K>::SetLayoutChan(id)
                &&& final(engine)@.current_token_holder == Some(id)
                &&& final(engine)@.next_token_holder is None
                &&& final(engine)@.pipelines == old(engine)@.pipelines
                &&& final(engine)@.next_id == old(engine)@.next_id
            }
        },
{
}

/// A surrendered token ends the pipeline that held it and goes to the one that waits, if there is
/// one; it is the very token that was surrendered.
pub proof fn law_surrendered_token<K>(
    engine: &mut Engine,
    token: K,
    res: (Vec<EngineAction<K>>, bool),
)
    requires
        old(engine)@.wf(),
        call_ensures(Engine::handle_request::<K>, (engine, Msg::TokenSurrenderMsg(token)), res),
    ensures
        ({
            let holder = old(engine)@.current_token_holder;
            let next = old(engine)@.next_token_holder;
            let exits: int = if holder is Some {
                1
            } else {
                0
            };
            let bestowals: int = if next is Some {
                2
            } else {
                0
            };
            &&& res.0@.len() == exits + bestowals
            &&& holder matches Some(id) ==> res.0@[0] == EngineAction::<K>::ExitPipeline(id)
            &&& next matches Some(id) ==> {
                &&& res.0@[exits] == (EngineAction::BestowToken {
                    pipeline: id,
                    token: Bestowal::Surrendered(token),
                })
                &&& res.0@[exits + 1] == EngineAction::<K>::SetLayoutChan(id)
            }
            &&& final(engine)@.current_token_holder == next
            &&& final(engine)@.next_token_holder is None
            &&& final(engine)@.next_id == old(engine)@.next_id
            &&& forall|id: usize| #[trigger]
                final(engine)@.pipelines.contains(id) <==> old(engine)@.pipelines.contains(id)
                    && holder != Some(id)
        }),
{
}

/// The document loaded last is displayed, whatever waited before it: when its renderer is ready,
/// it gets a new token at once, or the holder is asked for the token, and when the holder
/// surrenders it, the document gets it.
pub proof fn law_document_loaded_last_is_displayed<K>(
    loading: &mut Engine,
    url: Url,
    loaded: (Vec<EngineAction<K>>, bool),
    waiting: &mut Engine,
    ready: (Vec<EngineAction<K>>, bool),
    procuring: &mut Engine,
    token: K,
    surrendered: (Vec<EngineAction<K>>, bool),
)
    requires
        old(loading)@.wf(),
        old(loading)@.next_id < usize::MAX,
        !ends_in_js(url.path@),
        call_ensures(Engine::handle_request::<K>, (loading, Msg::LoadUrlMsg(url)), loaded),
        old(waiting)@ == final(loading)@,
        call_ensures(
            Engine::handle_request::<K>,
            (waiting, Msg::RendererReadyMsg(old(loading)@.next_id)),
            ready,
        ),
        old(procuring)@ == final(waiting)@,
        call_ensures(
            Engine::handle_request::<K>,
            (procuring, Msg::TokenSurrenderMsg(token)),
            surrendered,
        ),
    ensures
        ({
            let document = old(loading)@.next_id;
            match old(loading)@.current_token_holder {
                None => {
                    &&& ready.0@.len() == 2
                    &&& ready.0@[0] == (EngineAction::BestowToken {
                        pipeline: document,
                        token: Bestowal::<K>::Fresh,
                    })
                    &&& final(waiting)@.current_token_holder == Some(document)
                },
                Some(holder) => {
                    &&& ready.0@.len() == 1
                    &&& ready.0@[0] == EngineAction::<K>::ProcureToken(holder)
                    &&& surrendered.0@.len() == 3
                    &&& surrendered.0@[0] == EngineAction::<K>::ExitPipeline(holder)
                    &&& surrendered.0@[1] == (EngineAction::BestowToken {
                        pipeline: document,
                        token: Bestowal::Surrendered(token),
                    })
                    &&& surrendered.0@[2] == EngineAction::<K>::SetLayoutChan(document)
                    &&& final(procuring)@.current_token_holder == Some(document)
                },
            }
        }),
{
    lemma_names_script(url);
}

/// The end of the engine ends every pipeline once, in the order of their ids, then the image
/// cache, then the resource task, and is confirmed last.
pub proof fn law_ending<K>(engine: &mut Engine, res: (Vec<EngineAction<K>>, bool))
    requires
        old(engine)@.wf(),
        call_ensures(Engine::handle_request::<K>, (engine, Msg::ExitMsg), res),
    ensures
        final(engine)@ == old(engine)@,
        ({
            let count = res.0@.len() - 3;
            &&& count >= 0
            &&& res.0@[count] == EngineAction::<K>::ExitImageCache
            &&& res.0@[count + 1] == EngineAction::<K>::ExitResourceTask
            &&& res.0@[count + 2] == EngineAction::<K>::AcknowledgeExit
            &&& forall|i: int|
                0 <= i < count ==> #[trigger] res.0@[i] is ExitPipeline && old(
                    engine,
                )@.pipelines.contains(res.0@[i]->ExitPipeline_0)
            &&& forall|i: int, j: int|
                0 <= i < j < count ==> (#[trigger] res.0@[i])->ExitPipeline_0 < (
                #[trigger] res.0@[j])->ExitPipeline_0
            &&& forall|id: usize| #[trigger]
                old(engine)@.pipelines.contains(id) ==> exists|i: int|
                    0 <= i < count && #[trigger] res.0@[i] == EngineAction::<K>::ExitPipeline(id)
        }),
{
    let ids = ascending(old(engine)@.pipelines);
    lemma_ascending_lists(old(engine)@.pipelines);
    assert(res.0@.len() == ids.len() + 3);
    assert forall|i: int| 0 <= i < ids.len() implies #[trigger] res.0@[i] == EngineAction::<
        K,
    >::ExitPipeline(ids[i]) && old(engine)@.pipelines.contains(ids[i]) by {
        assert(ids.contains(ids[i]));
    }
    assert forall|id: usize| #[trigger] old(engine)@.pipelines.contains(id) implies exists|i: int|
        0 <= i < ids.len() && #[trigger] res.0@[i] == EngineAction::<K>::ExitPipeline(id) by {
        assert(ids.contains(id));
        let i = choose|i: int| 0 <= i < ids.len() && ids[i] == id;
        assert(res.0@[i] == EngineAction::<K>::ExitPipeline(id));
    }
}

/// Two ids taken in a row differ by one, and taking them changes nothing else.
pub proof fn law_taking_ids(first: &mut Engine, a: usize, second: &mut Engine, b: usize)
    requires
        old(first)@.next_id < usize::MAX,
        call_ensures(Engine::get_next_id, (first,), a),
        old(second)@ == final(first)@,
        call_ensures(Engine::get_next_id, (second,), b),
        old(second)@.next_id < usize::MAX,
    ensures
        a == old(first)@.next_id,
        b == a + 1,
        final(second)@.next_id == b + 1,
        final(second)@.pipelines == old(first)@.pipelines,
        final(second)@.current_token_holder == old(first)@.current_token_holder,
        final(second)@.next_token_holder == old(first)@.next_token_holder,
{
}

/// Removing the active pipeline ends the holder of the token, if there is one, and only it.
pub proof fn law_removing_the_active_pipeline<K>(
    engine: &mut Engine,
    actions: Vec<EngineAction<K>>,
)
    requires
        old(engine)@.wf(),
        call_ensures(Engine::remove_active_pipeline::<K>, (engine,), actions),
    ensures
        old(engine)@.current_token_holder matches Some(id) ==> {
            &&& actions@.len() == 1
            &&& actions@[0] == EngineAction::<K>::ExitPipeline(id)
        },
        old(engine)@.current_token_holder is None ==> actions@.len() == 0,
        final(engine)@.current_token_holder is None,
        final(engine)@.next_token_holder == old(engine)@.next_token_holder,
        final(engine)@.next_id == old(engine)@.next_id,
        forall|id: usize| #[trigger]
            final(engine)@.pipelines.contains(id) <==> old(engine)@.pipelines.contains(id) && old(
                engine,
            )@.current_token_holder != Some(id),
{
}

} // verus!
