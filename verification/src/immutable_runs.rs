//! Laws over runs of calls, from any callers, on the state of a shared display: a
//! task is made only when nothing runs, nothing runs again only after a poll that
//! completed, a run of polls of the wait is one blocking wait, and a begun send
//! polled to completion is one blocking send of that request.
use vstd::prelude::*;
use crate::blocking_display::{PollOr, Polled};
use crate::immutable::{begin_send_step, send_step, wait_step, State, Step};

verus! {

/// One call on the shared state: of `poll_wait`, `begin_send_request` or
/// `poll_send_request`, with the arguments it was given and what it returned.
pub enum Call<Q, F1, P1, F2, P2, RW, RS> {
    Wait { spawn: F1, poll: P1, step: Step<RW> },
    Begin { req: Q, spawn: F2, begun: PollOr<(), Q> },
    Send { poll: P2, polled: Polled<RS> },
}

/// `call` takes the state from `pre` to `post`.
pub open spec fn call_step<W, S, Q, RW, RS, F1: FnOnce() -> W, P1: FnOnce(W) -> Result<RW, W>, F2: FnOnce(Q) -> S, P2: FnOnce(S) -> Result<RS, S>>(
    pre: State<W, S>,
    call: Call<Q, F1, P1, F2, P2, RW, RS>,
    post: State<W, S>,
) -> bool {
    match call {
        Call::Wait { spawn, poll, step } => wait_step(pre, spawn, poll, step, post),
        Call::Begin { req, spawn, begun } => begin_send_step(pre, req, spawn, begun, post),
        Call::Send { poll, polled } => send_step(pre, poll, polled, post),
    }
}

/// `states[i]` is the state before `calls[i]` and `states[i + 1]` the state after it.
pub open spec fn run<W, S, Q, RW, RS, F1: FnOnce() -> W, P1: FnOnce(W) -> Result<RW, W>, F2: FnOnce(Q) -> S, P2: FnOnce(S) -> Result<RS, S>>(
    states: Seq<State<W, S>>,
    calls: Seq<Call<Q, F1, P1, F2, P2, RW, RS>>,
) -> bool {
    &&& states.len() == calls.len() + 1
    &&& forall|i: int| #![trigger calls[i]] 0 <= i < calls.len() ==> call_step(states[i], calls[i], states[i + 1])
}

/// The call completed the running operation: a poll that was ready.
pub open spec fn completed<Q, F1, P1, F2, P2, RW, RS>(call: Call<Q, F1, P1, F2, P2, RW, RS>) -> bool {
    match call {
        Call::Wait { step, .. } => step is Ready,
        Call::Begin { .. } => false,
        Call::Send { polled, .. } => polled is Ready,
    }
}

/// The call made no task: afterwards nothing runs, or the state is as before, or
/// the same operation runs on with the task that the call's poll gave back for
/// the running one.
pub open spec fn makes_no_task<W, S, Q, RW, RS, F1: FnOnce() -> W, P1: FnOnce(W) -> Result<RW, W>, F2: FnOnce(Q) -> S, P2: FnOnce(S) -> Result<RS, S>>(
    pre: State<W, S>,
    call: Call<Q, F1, P1, F2, P2, RW, RS>,
    post: State<W, S>,
) -> bool {
    ||| post is Inactive
    ||| post == pre
    ||| match (pre, post, call) {
        (State::Wait(w), State::Wait(w1), Call::Wait { poll, .. }) => poll.ensures((w,), Err(w1)),
        (State::SendRequest(s), State::SendRequest(s1), Call::Send { poll, .. }) => poll.ensures((s,), Err(s1)),
        _ => false,
    }
}

proof fn lemma_call<W, S, Q, RW, RS, F1: FnOnce() -> W, P1: FnOnce(W) -> Result<RW, W>, F2: FnOnce(Q) -> S, P2: FnOnce(S) -> Result<RS, S>>(
    pre: State<W, S>,
    call: Call<Q, F1, P1, F2, P2, RW, RS>,
    post: State<W, S>,
)
    requires
        call_step(pre, call, post),
    ensures
        !(pre is Inactive) ==> makes_no_task(pre, call, post),
        post is Inactive ==> completed(call),
{
    match call {
        Call::Wait { spawn, poll, step } => {
            if !(pre is SendRequest) {
                let (w, out) = choose|w: W, out: Result<RW, W>|
                    #![trigger poll.ensures((w,), out)]
                    {
                        &&& match pre {
                            State::Wait(w0) => w == w0,
                            _ => spawn.ensures((), w),
                        }
                        &&& poll.ensures((w,), out)
                        &&& match out {
                            Ok(r) => step == Step::Ready(r) && post == State::<W, S>::Inactive,
                            Err(w1) => step is Pending && post == State::<W, S>::Wait(w1),
                        }
                    };
            }
        },
        Call::Begin { .. } => {},
        Call::Send { poll, polled } => {
            let s = pre->SendRequest_0;
            let out = choose|out: Result<RS, S>|
                #![trigger poll.ensures((s,), out)]
                poll.ensures((s,), out) && match out {
                    Ok(r) => polled == Polled::Ready(r) && post == State::<W, S>::Inactive,
                    Err(s1) => polled is Pending && post == State::<W, S>::SendRequest(s1),
                };
        },
    }
}

/// Law: over any run of the three calls, from any callers in any order, a task is
/// made only when nothing runs (a call made while an operation runs leaves the
/// state as it was, polls the running task on, or completes it), and nothing runs
/// after a call only if that call was a poll that completed. At most one
/// operation runs at any point, since the state holds one task or none.
pub proof fn law_any_run_makes_tasks_only_when_inactive<W, S, Q, RW, RS, F1: FnOnce() -> W, P1: FnOnce(W) -> Result<RW, W>, F2: FnOnce(Q) -> S, P2: FnOnce(S) -> Result<RS, S>>(
    states: Seq<State<W, S>>,
    calls: Seq<Call<Q, F1, P1, F2, P2, RW, RS>>,
)
    requires
        run(states, calls),
    ensures
        forall|i: int| #![trigger calls[i]] 0 <= i < calls.len() && !(states[i] is Inactive)
            ==> makes_no_task(states[i], calls[i], states[i + 1]),
        forall|i: int| #![trigger calls[i]] 0 <= i < calls.len() && states[i + 1] is Inactive
            ==> completed(calls[i]),
{
    assert forall|i: int| #![trigger calls[i]] 0 <= i < calls.len() implies
        (!(states[i] is Inactive) ==> makes_no_task(states[i], calls[i], states[i + 1]))
        && (states[i + 1] is Inactive ==> completed(calls[i])) by {
        lemma_call(states[i], calls[i], states[i + 1]);
    }
}

/// The first `k` calls of a run of waits from `Inactive` all pended.
proof fn lemma_pending_waits<W, S, Q, RW, RS, F1: FnOnce() -> W, P1: FnOnce(W) -> Result<RW, W>, F2: FnOnce(Q) -> S, P2: FnOnce(S) -> Result<RS, S>>(
    states: Seq<State<W, S>>,
    calls: Seq<Call<Q, F1, P1, F2, P2, RW, RS>>,
    k: int,
) -> (tasks: Seq<W>)
    requires
        run(states, calls),
        states[0] is Inactive,
        1 <= k < states.len(),
        forall|i: int| 0 <= i < k ==> #[trigger] calls[i] is Wait && calls[i]->step is Pending,
    ensures
        tasks.len() == k + 1,
        calls[0]->Wait_spawn.ensures((), tasks[0]),
        forall|i: int| #![trigger tasks[i]] 0 < i <= k ==> states[i] == State::<W, S>::Wait(tasks[i]),
        forall|i: int| #![trigger tasks[i]] 0 <= i < k ==> calls[i]->Wait_poll.ensures((tasks[i],), Err(tasks[i + 1])),
    decreases k,
{
    let prev: Seq<W> = if k == 1 { Seq::empty() } else { lemma_pending_waits(states, calls, k - 1) };
    let c = calls[k - 1];
    assert(call_step(states[k - 1], c, states[k]));
    if k > 1 {
        assert(states[k - 1] == State::<W, S>::Wait(prev[k - 1]));
    }
    let spawn = c->Wait_spawn;
    let poll = c->Wait_poll;
    let step = c->step;
    let (w, out) = choose|w: W, out: Result<RW, W>|
        #![trigger poll.ensures((w,), out)]
        {
            &&& match states[k - 1] {
                State::Wait(w0) => w == w0,
                _ => spawn.ensures((), w),
            }
            &&& poll.ensures((w,), out)
            &&& match out {
                Ok(r) => step == Step::Ready(r) && states[k] == State::<W, S>::Inactive,
                Err(w1) => step is Pending && states[k] == State::<W, S>::Wait(w1),
            }
        };
    let tasks = if k == 1 { seq![w, out->Err_0] } else { prev.push(out->Err_0) };
    assert forall|i: int| #![trigger tasks[i]] 0 < i <= k implies states[i] == State::<W, S>::Wait(tasks[i]) by {
        if i < k {
            assert(tasks[i] == prev[i]);
        }
    }
    assert forall|i: int| #![trigger tasks[i]] 0 <= i < k implies calls[i]->Wait_poll.ensures((tasks[i],), Err(tasks[i + 1])) by {
        if i < k - 1 {
            assert(tasks[i] == prev[i] && tasks[i + 1] == prev[i + 1]);
        }
    }
    tasks
}

/// Law: a run of `poll_wait` calls from `Inactive`, pending until its last call
/// is ready, is one blocking wait. The first call makes the only task; every later
/// call finds that wait running (so makes no task) and polls it again; each
/// pending poll gives back the task that runs next; the last poll completes the
/// last task with the returned result, and nothing runs afterwards. The result is
/// the tasks of the run.
pub proof fn law_wait_run_is_one_wait<W, S, Q, RW, RS, F1: FnOnce() -> W, P1: FnOnce(W) -> Result<RW, W>, F2: FnOnce(Q) -> S, P2: FnOnce(S) -> Result<RS, S>>(
    states: Seq<State<W, S>>,
    calls: Seq<Call<Q, F1, P1, F2, P2, RW, RS>>,
) -> (tasks: Seq<W>)
    requires
        run(states, calls),
        calls.len() >= 1,
        states[0] is Inactive,
        forall|i: int| 0 <= i < calls.len() ==> #[trigger] calls[i] is Wait,
        forall|i: int| 0 <= i < calls.len() - 1 ==> #[trigger] calls[i]->step is Pending,
        calls.last()->step is Ready,
    ensures
        tasks.len() == calls.len(),
        calls[0]->Wait_spawn.ensures((), tasks[0]),
        forall|i: int| #![trigger tasks[i]] 0 < i < calls.len() ==> states[i] == State::<W, S>::Wait(tasks[i]),
        forall|i: int| #![trigger tasks[i]] 0 <= i < calls.len() - 1 ==> calls[i]->Wait_poll.ensures((tasks[i],), Err(tasks[i + 1])),
        calls.last()->Wait_poll.ensures((tasks.last(),), Ok(calls.last()->step->Ready_0)),
        states.last() is Inactive,
{
    let n = calls.len() as int;
    let prev: Seq<W> = if n == 1 { Seq::empty() } else { lemma_pending_waits(states, calls, n - 1) };
    let c = calls[n - 1];
    assert(call_step(states[n - 1], c, states[n]));
    if n > 1 {
        assert(states[n - 1] == State::<W, S>::Wait(prev[n - 1]));
    }
    let spawn = c->Wait_spawn;
    let poll = c->Wait_poll;
    let step = c->step;
    let (w, out) = choose|w: W, out: Result<RW, W>|
        #![trigger poll.ensures((w,), out)]
        {
            &&& match states[n - 1] {
                State::Wait(w0) => w == w0,
                _ => spawn.ensures((), w),
            }
            &&& poll.ensures((w,), out)
            &&& match out {
                Ok(r) => step == Step::Ready(r) && states[n] == State::<W, S>::Inactive,
                Err(w1) => step is Pending && states[n] == State::<W, S>::Wait(w1),
            }
        };
    let tasks = if n == 1 { seq![w] } else { prev };
    assert(tasks.last() == w);
    tasks
}

/// A call that leaves a send running: a refused wait (parked) or begin (its
/// request handed back), or a send poll that pended.
pub open spec fn keeps_sending<Q, F1, P1, F2, P2, RW, RS>(call: Call<Q, F1, P1, F2, P2, RW, RS>) -> bool {
    !(call is Send) || call->polled is Pending
}

/// What a call made while send task `task` runs does: a wait parks and a begin is
/// refused with its request handed back, both leaving the task running (`next` is
/// `task`); a send poll pends and gives back `next`, the task that runs on.
pub open spec fn sending_call<S, Q, RW, RS, F1, P1, F2, P2: FnOnce(S) -> Result<RS, S>>(
    call: Call<Q, F1, P1, F2, P2, RW, RS>,
    task: S,
    next: S,
) -> bool {
    match call {
        Call::Wait { step, .. } => step is Park && next == task,
        Call::Begin { req, begun, .. } => begun == PollOr::<(), Q>::Pending(req) && next == task,
        Call::Send { poll, .. } => poll.ensures((task,), Err(next)),
    }
}

/// A begin from `Inactive` followed by `k - 1` calls that kept the send running.
proof fn lemma_sending<W, S, Q, RW, RS, F1: FnOnce() -> W, P1: FnOnce(W) -> Result<RW, W>, F2: FnOnce(Q) -> S, P2: FnOnce(S) -> Result<RS, S>>(
    states: Seq<State<W, S>>,
    calls: Seq<Call<Q, F1, P1, F2, P2, RW, RS>>,
    k: int,
) -> (tasks: Seq<S>)
    requires
        run(states, calls),
        states[0] is Inactive,
        calls[0] is Begin,
        1 <= k < states.len(),
        forall|i: int| 1 <= i < k ==> keeps_sending(#[trigger] calls[i]),
    ensures
        tasks.len() == k,
        calls[0]->begun == PollOr::<(), Q>::Ready(()),
        calls[0]->Begin_spawn.ensures((calls[0]->req,), tasks[0]),
        forall|i: int| #![trigger states[i]] 1 <= i <= k ==> states[i] == State::<W, S>::SendRequest(tasks[i - 1]),
        forall|i: int| #![trigger calls[i]] 1 <= i < k ==> sending_call(calls[i], tasks[i - 1], tasks[i]),
    decreases k,
{
    if k == 1 {
        let c = calls[0];
        assert(call_step(states[0], c, states[1]));
        let spawn = c->Begin_spawn;
        let req = c->req;
        let s = choose|s: S| #![trigger spawn.ensures((req,), s)] spawn.ensures((req,), s) && states[1] == State::<W, S>::SendRequest(s);
        seq![s]
    } else {
        let prev = lemma_sending(states, calls, k - 1);
        let c = calls[k - 1];
        assert(call_step(states[k - 1], c, states[k]));
        assert(states[k - 1] == State::<W, S>::SendRequest(prev[k - 2]));
        let task = prev[k - 2];
        let next: S = match c {
            Call::Send { poll, polled } => {
                let out = choose|out: Result<RS, S>|
                    #![trigger poll.ensures((task,), out)]
                    poll.ensures((task,), out) && match out {
                        Ok(r) => polled == Polled::Ready(r) && states[k] == State::<W, S>::Inactive,
                        Err(s1) => polled is Pending && states[k] == State::<W, S>::SendRequest(s1),
                    };
                out->Err_0
            },
            _ => task,
        };
        let tasks = prev.push(next);
        assert forall|i: int| #![trigger states[i]] 1 <= i <= k implies states[i] == State::<W, S>::SendRequest(tasks[i - 1]) by {
            if i < k {
                assert(tasks[i - 1] == prev[i - 1]);
            }
        }
        assert forall|i: int| #![trigger calls[i]] 1 <= i < k implies sending_call(calls[i], tasks[i - 1], tasks[i]) by {
            if i < k - 1 {
                assert(tasks[i - 1] == prev[i - 1] && tasks[i] == prev[i]);
            }
        }
        tasks
    }
}

/// Law: a request begun when nothing runs, followed by calls from any callers that
/// are refused waits or begins or pending send polls, and ended by a completed send
/// poll, is one blocking send of that request. The begin is `Ready` and makes the
/// only task of the run, from its request; every later call finds that send
/// running: a wait parks and a begin is refused, both changing nothing, and a
/// pending poll gives back the task that runs next; the last poll completes the
/// last task with the returned result, and nothing runs afterwards. The result is
/// the tasks of the send.
pub proof fn law_begun_send_is_one_send<W, S, Q, RW, RS, F1: FnOnce() -> W, P1: FnOnce(W) -> Result<RW, W>, F2: FnOnce(Q) -> S, P2: FnOnce(S) -> Result<RS, S>>(
    states: Seq<State<W, S>>,
    calls: Seq<Call<Q, F1, P1, F2, P2, RW, RS>>,
) -> (tasks: Seq<S>)
    requires
        run(states, calls),
        calls.len() >= 2,
        states[0] is Inactive,
        calls[0] is Begin,
        forall|i: int| 1 <= i < calls.len() - 1 ==> keeps_sending(#[trigger] calls[i]),
        calls.last() is Send,
        calls.last()->polled is Ready,
    ensures
        tasks.len() == calls.len() - 1,
        calls[0]->begun == PollOr::<(), Q>::Ready(()),
        calls[0]->Begin_spawn.ensures((calls[0]->req,), tasks[0]),
        forall|i: int| #![trigger states[i]] 1 <= i < calls.len() ==> states[i] == State::<W, S>::SendRequest(tasks[i - 1]),
        forall|i: int| #![trigger calls[i]] 1 <= i < calls.len() - 1 ==> sending_call(calls[i], tasks[i - 1], tasks[i]),
        calls.last()->Send_poll.ensures((tasks.last(),), Ok(calls.last()->polled->Ready_0)),
        states.last() is Inactive,
{
    let n = calls.len() as int;
    let tasks = lemma_sending(states, calls, n - 1);
    let c = calls[n - 1];
    assert(call_step(states[n - 1], c, states[n]));
    assert(states[n - 1] == State::<W, S>::SendRequest(tasks[n - 2]));
    tasks
}

} // verus!
