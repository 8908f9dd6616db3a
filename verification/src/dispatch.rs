//! The steps by which a plugin hands an event to its guest component.
use vstd::prelude::*;

verus! {

/// The step that comes next, or how the dispatch ended.
#[derive(Clone, Copy, Debug, PartialEq, Eq, Structural)]
pub enum CallbackStage {
    NewStore,
    ClientResource,
    InstantiatePre,
    Bindings,
    Instantiate,
    CallGuest,
    Handled,
    Abandoned,
}

/// The step after `stage`, given whether it succeeded; `with_client` says whether the guest is
/// handed a client resource.
pub open spec fn stage_after(stage: CallbackStage, with_client: bool, ok: bool) -> CallbackStage {
    match stage {
        CallbackStage::Handled => CallbackStage::Handled,
        CallbackStage::Abandoned => CallbackStage::Abandoned,
        _ => if !ok {
            CallbackStage::Abandoned
        } else {
            match stage {
                CallbackStage::NewStore => if with_client {
                    CallbackStage::ClientResource
                } else {
                    CallbackStage::InstantiatePre
                },
                CallbackStage::ClientResource => CallbackStage::InstantiatePre,
                CallbackStage::InstantiatePre => CallbackStage::Bindings,
                CallbackStage::Bindings => CallbackStage::Instantiate,
                CallbackStage::Instantiate => CallbackStage::CallGuest,
                _ => CallbackStage::Handled,
            }
        },
    }
}

/// The stage reached from the first one after a sequence of outcomes.
pub open spec fn stage_after_all(with_client: bool, outcomes: Seq<bool>) -> CallbackStage
    decreases outcomes.len(),
{
    if outcomes.len() == 0 {
        CallbackStage::NewStore
    } else {
        stage_after(stage_after_all(with_client, outcomes.drop_last()), with_client, outcomes.last())
    }
}

pub fn next_stage(stage: CallbackStage, with_client: bool, ok: bool) -> (r: CallbackStage)
    ensures
        r == stage_after(stage, with_client, ok),
{
    match stage {
        CallbackStage::Handled => CallbackStage::Handled,
        CallbackStage::Abandoned => CallbackStage::Abandoned,
        CallbackStage::NewStore => if !ok {
            CallbackStage::Abandoned
        } else if with_client {
            CallbackStage::ClientResource
        } else {
            CallbackStage::InstantiatePre
        },
        CallbackStage::ClientResource => if ok {
            CallbackStage::InstantiatePre
        } else {
            CallbackStage::Abandoned
        },
        CallbackStage::InstantiatePre => if ok {
            CallbackStage::Bindings
        } else {
            CallbackStage::Abandoned
        },
        CallbackStage::Bindings => if ok {
            CallbackStage::Instantiate
        } else {
            CallbackStage::Abandoned
        },
        CallbackStage::Instantiate => if ok {
            CallbackStage::CallGuest
        } else {
            CallbackStage::Abandoned
        },
        CallbackStage::CallGuest => if ok {
            CallbackStage::Handled
        } else {
            CallbackStage::Abandoned
        },
    }
}

/// What a loop that waits for events of a service saw.
pub enum LoopEvent {
    Cancelled,
    /// An event to be handled.
    Item,
    /// An event that does not concern the plugin.
    Skipped,
    Failed,
    Ended,
}

#[derive(Clone, Copy, Debug, PartialEq, Eq, Structural)]
pub enum LoopAction {
    Handle,
    Continue,
    Stop,
}

/// What a loop that waits for events does next: a failure does not end it.
pub fn loop_step(event: LoopEvent) -> (r: LoopAction)
    ensures
        r == match event {
            LoopEvent::Cancelled => LoopAction::Stop,
            LoopEvent::Item => LoopAction::Handle,
            LoopEvent::Skipped => LoopAction::Continue,
            LoopEvent::Failed => LoopAction::Continue,
            LoopEvent::Ended => LoopAction::Stop,
        },
{
    match event {
        LoopEvent::Cancelled => LoopAction::Stop,
        LoopEvent::Item => LoopAction::Handle,
        LoopEvent::Skipped => LoopAction::Continue,
        LoopEvent::Failed => LoopAction::Continue,
        LoopEvent::Ended => LoopAction::Stop,
    }
}

/// How many steps stand before the call of the guest.
pub open spec fn steps_before_call(with_client: bool) -> nat {
    if with_client {
        5
    } else {
        4
    }
}

proof fn lemma_stage_position(with_client: bool, outcomes: Seq<bool>)
    ensures
        ({
            let n = outcomes.len();
            let s = stage_after_all(with_client, outcomes);
            let base = steps_before_call(with_client);
            let ok = forall|i: int| 0 <= i < n ==> outcomes[i];
            &&& (n <= base + 1 && !ok ==> s == CallbackStage::Abandoned)
            &&& (n > base + 1 ==> s == CallbackStage::Abandoned || s == CallbackStage::Handled)
            &&& (ok && n == 0 ==> s == CallbackStage::NewStore)
            &&& (ok && n + 3 == base ==> s == CallbackStage::InstantiatePre)
            &&& (ok && with_client && n == 1 ==> s == CallbackStage::ClientResource)
            &&& (ok && n + 2 == base ==> s == CallbackStage::Bindings)
            &&& (ok && n + 1 == base ==> s == CallbackStage::Instantiate)
            &&& (ok && n == base ==> s == CallbackStage::CallGuest)
            &&& (ok && n == base + 1 ==> s == CallbackStage::Handled)
        }),
    decreases outcomes.len(),
{
    if outcomes.len() > 0 {
        let p = outcomes.drop_last();
        lemma_stage_position(with_client, p);
        assert(forall|i: int| 0 <= i < p.len() ==> p[i] == outcomes[i]);
        assert(outcomes.last() == outcomes[outcomes.len() - 1]);
        let ok_p = forall|i: int| 0 <= i < p.len() ==> p[i];
        let ok = forall|i: int| 0 <= i < outcomes.len() ==> outcomes[i];
        if ok {
            assert(ok_p) by {
                assert forall|i: int| 0 <= i < p.len() implies p[i] by {
                    assert(outcomes[i]);
                }
            }
        } else if ok_p {
            assert(!outcomes.last()) by {
                if outcomes.last() {
                    assert forall|i: int| 0 <= i < outcomes.len() implies outcomes[i] by {
                        if i < p.len() {
                            assert(p[i]);
                        }
                    }
                }
            }
        }
    }
}

/// The guest is called exactly when every step before the call succeeded.
pub proof fn guest_called_only_after_every_step(with_client: bool, outcomes: Seq<bool>)
    requires
        outcomes.len() == steps_before_call(with_client),
    ensures
        stage_after_all(with_client, outcomes) == CallbackStage::CallGuest <==> forall|i: int|
            0 <= i < outcomes.len() ==> outcomes[i],
{
    lemma_stage_position(with_client, outcomes);
}

/// Once abandoned or handled, a dispatch does nothing more.
pub proof fn ended_dispatch_stays_ended(stage: CallbackStage, with_client: bool, ok: bool)
    requires
        stage == CallbackStage::Handled || stage == CallbackStage::Abandoned,
    ensures
        stage_after(stage, with_client, ok) == stage,
{
}

/// A dispatch goes on step by step, in order, with a client only where there is one, and a step that
/// fails abandons it.
pub proof fn steps_follow_each_other(with_client: bool)
    ensures
        stage_after(CallbackStage::NewStore, true, true) is ClientResource,
        stage_after(CallbackStage::NewStore, false, true) is InstantiatePre,
        stage_after(CallbackStage::ClientResource, with_client, true) is InstantiatePre,
        stage_after(CallbackStage::InstantiatePre, with_client, true) is Bindings,
        stage_after(CallbackStage::Bindings, with_client, true) is Instantiate,
        stage_after(CallbackStage::Instantiate, with_client, true) is CallGuest,
        stage_after(CallbackStage::CallGuest, with_client, true) is Handled,
        stage_after(CallbackStage::NewStore, with_client, false) is Abandoned,
        stage_after(CallbackStage::ClientResource, with_client, false) is Abandoned,
        stage_after(CallbackStage::InstantiatePre, with_client, false) is Abandoned,
        stage_after(CallbackStage::Bindings, with_client, false) is Abandoned,
        stage_after(CallbackStage::Instantiate, with_client, false) is Abandoned,
        stage_after(CallbackStage::CallGuest, with_client, false) is Abandoned,
{
}

/// One step after another: a dispatch begins with its store, and each outcome moves it on from
/// where the ones before left it.
pub proof fn outcomes_move_the_dispatch_on(with_client: bool, outcomes: Seq<bool>, ok: bool)
    ensures
        stage_after_all(with_client, Seq::<bool>::empty()) is NewStore,
        stage_after_all(with_client, outcomes.push(ok)) == stage_after(
            stage_after_all(with_client, outcomes),
            with_client,
            ok,
        ),
{
    assert(outcomes.push(ok).drop_last() =~= outcomes);
}

/// A loop handles what comes, goes on behind what it skips or fails at, and stops when it is
/// cancelled or ended.
pub proof fn loops_go_on(a: LoopAction, b: LoopAction, c: LoopAction, d: LoopAction, e: LoopAction)
    requires
        call_ensures(loop_step, (LoopEvent::Cancelled,), a),
        call_ensures(loop_step, (LoopEvent::Item,), b),
        call_ensures(loop_step, (LoopEvent::Skipped,), c),
        call_ensures(loop_step, (LoopEvent::Failed,), d),
        call_ensures(loop_step, (LoopEvent::Ended,), e),
    ensures
        a is Stop && e is Stop,
        b is Handle,
        c is Continue && d is Continue,
{
}

} // verus!
