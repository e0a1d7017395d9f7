//! Laws over runs of calls on a `BlockingDisplay`: a run of polls of the wait is
//! one blocking wait, and a run of sends is one blocking send, whose completion
//! hands back every waker queued during the run.
use vstd::prelude::*;
use crate::blocking_display::{
    begin_send_step, send_step, wait_step, BlockingDisplayView, Holder, PollOr, Polled,
    SendPolled,
};

verus! {

/// One call of `poll_wait`: the closures it was given and what it returned.
pub struct WaitCall<F, P, R> {
    pub spawn: F,
    pub poll: P,
    pub res: Polled<R>,
}

/// `views[i]` is the state before `calls[i]` and `views[i + 1]` the state after it.
pub open spec fn wait_run<T, W, S, K, R, F: FnOnce(T) -> W, P: FnOnce(W) -> Result<(R, T), W>>(
    views: Seq<BlockingDisplayView<T, W, S, K>>,
    calls: Seq<WaitCall<F, P, R>>,
) -> bool {
    &&& views.len() == calls.len() + 1
    &&& forall|i: int|
        #![trigger calls[i]]
        0 <= i < calls.len() ==> wait_step(views[i], calls[i].spawn, calls[i].poll, calls[i].res, views[i + 1])
}

/// The first `k` calls of a run of waits from `Display(d)` all pended: the first
/// made a task from `d`, each poll gave back the next task, and the last one runs.
proof fn lemma_pending_waits<T, W, S, K, R, F: FnOnce(T) -> W, P: FnOnce(W) -> Result<(R, T), W>>(
    views: Seq<BlockingDisplayView<T, W, S, K>>,
    calls: Seq<WaitCall<F, P, R>>,
    d: T,
    k: int,
) -> (tasks: Seq<W>)
    requires
        wait_run(views, calls),
        views[0].holder == Holder::<T, W, S>::Display(d),
        1 <= k < views.len(),
        forall|i: int| 0 <= i < k ==> #[trigger] calls[i].res is Pending,
    ensures
        tasks.len() == k + 1,
        calls[0].spawn.ensures((d,), tasks[0]),
        forall|i: int| #![trigger tasks[i]] 0 < i <= k ==> views[i].holder == Holder::<T, W, S>::Wait(tasks[i]),
        forall|i: int| #![trigger tasks[i]] 0 <= i < k ==> calls[i].poll.ensures((tasks[i],), Err(tasks[i + 1])),
        views[k].wakers == views[0].wakers,
    decreases k,
{
    if k == 1 {
        let c = calls[0];
        assert(wait_step(views[0], c.spawn, c.poll, c.res, views[1]));
        let (w, out) = choose|w: W, out: Result<(R, T), W>|
            #![trigger c.poll.ensures((w,), out)]
            {
                &&& crate::blocking_display::wait_task(views[0].holder, c.spawn, w)
                &&& c.poll.ensures((w,), out)
                &&& match out {
                    Ok((r, t)) => c.res == Polled::Ready(r) && views[1].holder == Holder::<T, W, S>::Display(t),
                    Err(w1) => c.res is Pending && views[1].holder == Holder::<T, W, S>::Wait(w1),
                }
            };
        assert(c.res is Pending);
        let w1 = out->Err_0;
        let tasks = seq![w, w1];
        assert(tasks[1] == w1);
        tasks
    } else {
        let prev = lemma_pending_waits(views, calls, d, k - 1);
        let c = calls[k - 1];
        assert(views[k - 1].holder == Holder::<T, W, S>::Wait(prev[k - 1]));
        assert(wait_step(views[k - 1], c.spawn, c.poll, c.res, views[k]));
        let (w, out) = choose|w: W, out: Result<(R, T), W>|
            #![trigger c.poll.ensures((w,), out)]
            {
                &&& crate::blocking_display::wait_task(views[k - 1].holder, c.spawn, w)
                &&& c.poll.ensures((w,), out)
                &&& match out {
                    Ok((r, t)) => c.res == Polled::Ready(r) && views[k].holder == Holder::<T, W, S>::Display(t),
                    Err(w1) => c.res is Pending && views[k].holder == Holder::<T, W, S>::Wait(w1),
                }
            };
        assert(c.res is Pending);
        let tasks = prev.push(out->Err_0);
        assert forall|i: int| #![trigger tasks[i]] 0 < i <= k implies views[i].holder == Holder::<T, W, S>::Wait(tasks[i]) by {
            if i < k {
                assert(tasks[i] == prev[i]);
            }
        }
        assert forall|i: int| #![trigger tasks[i]] 0 <= i < k implies calls[i].poll.ensures((tasks[i],), Err(tasks[i + 1])) by {
            if i < k - 1 {
                assert(tasks[i] == prev[i] && tasks[i + 1] == prev[i + 1]);
            }
        }
        tasks
    }
}

/// Law: a run of `poll_wait` calls from an adapter holding display `d`, pending
/// until its last call is ready, is one blocking wait. The first call makes the
/// only task, from `d`; every later call polls the running task again (the state
/// before it is that task, so its `spawn` is not used); each pending poll gives
/// back the task that runs next; the last poll completes that task with the
/// returned result and the display `t`, which the adapter then holds. The queued
/// wakers are as before. The result is the tasks of the run and `t`.
pub proof fn law_wait_run_is_one_wait<T, W, S, K, R, F: FnOnce(T) -> W, P: FnOnce(W) -> Result<(R, T), W>>(
    views: Seq<BlockingDisplayView<T, W, S, K>>,
    calls: Seq<WaitCall<F, P, R>>,
    d: T,
) -> (run: (Seq<W>, T))
    requires
        wait_run(views, calls),
        calls.len() >= 1,
        views[0].holder == Holder::<T, W, S>::Display(d),
        forall|i: int| 0 <= i < calls.len() - 1 ==> #[trigger] calls[i].res is Pending,
        calls.last().res is Ready,
    ensures
        run.0.len() == calls.len(),
        calls[0].spawn.ensures((d,), run.0[0]),
        forall|i: int| #![trigger run.0[i]] 0 < i < calls.len() ==> views[i].holder == Holder::<T, W, S>::Wait(run.0[i]),
        forall|i: int| #![trigger run.0[i]] 0 <= i < calls.len() - 1 ==> calls[i].poll.ensures((run.0[i],), Err(run.0[i + 1])),
        calls.last().poll.ensures((run.0.last(),), Ok((calls.last().res->Ready_0, run.1))),
        views.last().holder == Holder::<T, W, S>::Display(run.1),
        views.last().wakers == views[0].wakers,
{
    let n = calls.len() as int;
    let c = calls[n - 1];
    assert(wait_step(views[n - 1], c.spawn, c.poll, c.res, views[n]));
    let prev: Seq<W> = if n == 1 {
        Seq::empty()
    } else {
        lemma_pending_waits(views, calls, d, n - 1)
    };
    if n > 1 {
        assert(views[n - 1].holder == Holder::<T, W, S>::Wait(prev[n - 1]));
    }
    let (w, out) = choose|w: W, out: Result<(R, T), W>|
        #![trigger c.poll.ensures((w,), out)]
        {
            &&& crate::blocking_display::wait_task(views[n - 1].holder, c.spawn, w)
            &&& c.poll.ensures((w,), out)
            &&& match out {
                Ok((r, t)) => c.res == Polled::Ready(r) && views[n].holder == Holder::<T, W, S>::Display(t),
                Err(w1) => c.res is Pending && views[n].holder == Holder::<T, W, S>::Wait(w1),
            }
        };
    let t = out->Ok_0.1;
    let tasks: Seq<W> = if n == 1 { seq![w] } else { prev };
    assert(tasks.last() == w);
    (tasks, t)
}

/// One call of `begin_send_request_raw` or `poll_send_request_raw`: the arguments
/// it was given and what it returned.
pub enum SendCall<Q, F, G, P, R, K> {
    Begin { req: Q, waker: G, spawn: F, begun: PollOr<(), Q> },
    Poll { poll: P, polled: SendPolled<R, K> },
}

/// `call` takes the adapter from `pre` to `post`.
#[verifier::opaque]
pub open spec fn send_call_step<T, W, S, K, Q, R, F: FnOnce(T, Q) -> S, G: FnOnce() -> K, P: FnOnce(S) -> Result<(R, T), S>>(
    pre: BlockingDisplayView<T, W, S, K>,
    call: SendCall<Q, F, G, P, R, K>,
    post: BlockingDisplayView<T, W, S, K>,
) -> bool {
    match call {
        SendCall::Begin { req, waker, spawn, begun } => begin_send_step(pre, req, waker, spawn, begun, post),
        SendCall::Poll { poll, polled } => send_step(pre, poll, polled, post),
    }
}

/// `views[i]` is the state before `calls[i]` and `views[i + 1]` the state after it.
pub open spec fn send_run<T, W, S, K, Q, R, F: FnOnce(T, Q) -> S, G: FnOnce() -> K, P: FnOnce(S) -> Result<(R, T), S>>(
    views: Seq<BlockingDisplayView<T, W, S, K>>,
    calls: Seq<SendCall<Q, F, G, P, R, K>>,
) -> bool {
    &&& views.len() == calls.len() + 1
    &&& forall|i: int| #![trigger calls[i]] 0 <= i < calls.len() ==> send_call_step(views[i], calls[i], views[i + 1])
}

/// A call after which the send still runs: a begin, or a poll that pended.
pub open spec fn keeps_sending<Q, F, G, P, R, K>(call: SendCall<Q, F, G, P, R, K>) -> bool {
    call is Begin || call->polled is Pending
}

/// The number of begins among the first `k` calls.
pub open spec fn begins<Q, F, G, P, R, K>(calls: Seq<SendCall<Q, F, G, P, R, K>>, k: int) -> nat
    decreases k,
{
    if k <= 0 {
        0
    } else {
        begins(calls, k - 1) + if calls[k - 1] is Begin { 1nat } else { 0nat }
    }
}

/// What a call made while task `task` sends does: a begin is refused, queues the
/// waker `queued` that its `waker` made and leaves the task running (`next` is
/// `task`); a pending poll gives back `next`, the task that runs on, and leaves
/// the queue alone.
#[verifier::opaque]
pub open spec fn running_call<T, W, S, K, Q, R, F: FnOnce(T, Q) -> S, G: FnOnce() -> K, P: FnOnce(S) -> Result<(R, T), S>>(
    pre: BlockingDisplayView<T, W, S, K>,
    call: SendCall<Q, F, G, P, R, K>,
    post: BlockingDisplayView<T, W, S, K>,
    task: S,
    next: S,
    queued: K,
) -> bool {
    &&& post.holder == Holder::<T, W, S>::SendRequest(next)
    &&& match call {
        SendCall::Begin { req, waker, begun, .. } => {
            &&& begun == PollOr::<(), Q>::Pending(req)
            &&& waker.ensures((), queued)
            &&& post.wakers == pre.wakers.push(queued)
            &&& next == task
        },
        SendCall::Poll { poll, .. } => {
            &&& poll.ensures((task,), Err(next))
            &&& post.wakers == pre.wakers
        },
    }
}

proof fn lemma_running_call<T, W, S, K, Q, R, F: FnOnce(T, Q) -> S, G: FnOnce() -> K, P: FnOnce(S) -> Result<(R, T), S>>(
    pre: BlockingDisplayView<T, W, S, K>,
    call: SendCall<Q, F, G, P, R, K>,
    post: BlockingDisplayView<T, W, S, K>,
    task: S,
) -> (r: (S, K))
    requires
        send_call_step(pre, call, post),
        pre.holder == Holder::<T, W, S>::SendRequest(task),
        keeps_sending(call),
    ensures
        running_call(pre, call, post, task, r.0, r.1),
{
    reveal(send_call_step);
    reveal(running_call);
    match call {
        SendCall::Begin { req, waker, spawn, begun } => {
            let kk = choose|kk: K|
                #![trigger waker.ensures((), kk)]
                waker.ensures((), kk) && post.wakers == pre.wakers.push(kk);
            (task, kk)
        },
        SendCall::Poll { poll, polled } => {
            let out = choose|out: Result<(R, T), S>|
                #![trigger poll.ensures((task,), out)]
                poll.ensures((task,), out) && crate::blocking_display::send_outcome(out, polled, pre, post);
            (out->Err_0, vstd::pervasive::arbitrary())
        },
    }
}

/// What a running call leaves of the queue and the task.
proof fn lemma_running_call_facts<T, W, S, K, Q, R, F: FnOnce(T, Q) -> S, G: FnOnce() -> K, P: FnOnce(S) -> Result<(R, T), S>>(
    pre: BlockingDisplayView<T, W, S, K>,
    call: SendCall<Q, F, G, P, R, K>,
    post: BlockingDisplayView<T, W, S, K>,
    task: S,
    next: S,
    queued: K,
)
    requires
        running_call(pre, call, post, task, next, queued),
    ensures
        post.holder == Holder::<T, W, S>::SendRequest(next),
        post.wakers.len() == pre.wakers.len() + if call is Begin { 1int } else { 0int },
        forall|m: int| 0 <= m < pre.wakers.len() ==> #[trigger] post.wakers[m] == pre.wakers[m],
        call is Begin ==> post.wakers[pre.wakers.len() as int] == queued,
{
    reveal(running_call);
}

/// The first `k` calls of a run from a running send all kept it running.
proof fn lemma_running_sends<T, W, S, K, Q, R, F: FnOnce(T, Q) -> S, G: FnOnce() -> K, P: FnOnce(S) -> Result<(R, T), S>>(
    views: Seq<BlockingDisplayView<T, W, S, K>>,
    calls: Seq<SendCall<Q, F, G, P, R, K>>,
    k: int,
) -> (run: (Seq<S>, Seq<K>))
    requires
        send_run(views, calls),
        views[0].holder is SendRequest,
        0 <= k < views.len(),
        forall|i: int| 0 <= i < k ==> keeps_sending(#[trigger] calls[i]),
    ensures
        run.0.len() == k + 1,
        run.1.len() == k,
        views[0].holder == Holder::<T, W, S>::SendRequest(run.0[0]),
        forall|i: int| #![trigger calls[i]] 0 <= i < k
            ==> running_call(views[i], calls[i], views[i + 1], run.0[i], run.0[i + 1], run.1[i]),
        forall|i: int| #![trigger views[i]] 0 <= i <= k ==> views[i].wakers.len() == views[0].wakers.len() + begins(calls, i),
        forall|j: int| #![trigger views[j]] 0 <= j <= k ==> views[j].wakers.len() <= views[k].wakers.len(),
        forall|j: int, m: int| #![trigger views[j].wakers[m]]
            0 <= j <= k && 0 <= m < views[j].wakers.len() ==> views[k].wakers[m] == views[j].wakers[m],
    decreases k,
{
    if k == 0 {
        (seq![views[0].holder->SendRequest_0], Seq::empty())
    } else {
        let (tasks, ks) = lemma_running_sends(views, calls, k - 1);
        let c = calls[k - 1];
        if k >= 2 {
            assert(running_call(views[k - 2], calls[k - 2], views[k - 1], tasks[k - 2], tasks[k - 1], ks[k - 2]));
            lemma_running_call_facts(views[k - 2], calls[k - 2], views[k - 1], tasks[k - 2], tasks[k - 1], ks[k - 2]);
        }
        assert(c == calls[k - 1]);
        let (next, kk) = lemma_running_call(views[k - 1], c, views[k], tasks[k - 1]);
        lemma_running_call_facts(views[k - 1], c, views[k], tasks[k - 1], next, kk);
        let tasks2 = tasks.push(next);
        let ks2 = ks.push(kk);
        assert forall|i: int| #![trigger calls[i]] 0 <= i < k implies running_call(
            views[i],
            calls[i],
            views[i + 1],
            tasks2[i],
            tasks2[i + 1],
            ks2[i],
        ) by {
            if i < k - 1 {
                assert(tasks2[i] == tasks[i] && tasks2[i + 1] == tasks[i + 1] && ks2[i] == ks[i]);
            }
        }
        assert forall|i: int| #![trigger views[i]] 0 <= i <= k implies views[i].wakers.len() == views[0].wakers.len() + begins(calls, i) by {
            if i == k {
                assert(views[k - 1].wakers.len() == views[0].wakers.len() + begins(calls, k - 1));
            }
        }
        assert forall|j: int| #![trigger views[j]] 0 <= j <= k implies views[j].wakers.len() <= views[k].wakers.len() by {
            if j < k {
                assert(views[j].wakers.len() <= views[k - 1].wakers.len());
            }
        }
        assert forall|j: int, m: int| #![trigger views[j].wakers[m]]
            0 <= j <= k && 0 <= m < views[j].wakers.len() implies views[k].wakers[m] == views[j].wakers[m] by {
            if j < k {
                assert(views[j].wakers.len() <= views[k - 1].wakers.len());
                assert(views[k - 1].wakers[m] == views[j].wakers[m]);
            }
        }
        (tasks2, ks2)
    }
}

/// Law: while a send runs, a run of calls that are refused begins or pending
/// polls, ended by a completed poll, is that one blocking send. No call makes a
/// task (the state before every call is a running send); each pending poll gives
/// back the task that runs next, each begin is refused with its request handed
/// back and its waker queued; the last poll completes the last task with the
/// returned result and the display `t`, which the adapter then holds, and the
/// queue is left empty. The wakers handed back are the queue before the run
/// followed by the waker of every refused begin, in the order of the begins, and
/// nothing else. The result is the tasks of the run, the waker queued by each call
/// (meaningful for begins), and `t`.
pub proof fn law_send_run_hands_back_every_waker<T, W, S, K, Q, R, F: FnOnce(T, Q) -> S, G: FnOnce() -> K, P: FnOnce(S) -> Result<(R, T), S>>(
    views: Seq<BlockingDisplayView<T, W, S, K>>,
    calls: Seq<SendCall<Q, F, G, P, R, K>>,
) -> (run: (Seq<S>, Seq<K>, T))
    requires
        send_run(views, calls),
        calls.len() >= 1,
        views[0].holder is SendRequest,
        forall|i: int| 0 <= i < calls.len() - 1 ==> keeps_sending(#[trigger] calls[i]),
        calls.last() is Poll,
        calls.last()->polled is Ready,
    ensures
        run.0.len() == calls.len(),
        run.1.len() == calls.len() - 1,
        views[0].holder == Holder::<T, W, S>::SendRequest(run.0[0]),
        forall|i: int| #![trigger calls[i]] 0 <= i < calls.len() - 1
            ==> running_call(views[i], calls[i], views[i + 1], run.0[i], run.0[i + 1], run.1[i]),
        calls.last()->poll.ensures((run.0.last(),), Ok((calls.last()->polled->result, run.2))),
        views.last().holder == Holder::<T, W, S>::Display(run.2),
        views.last().wakers.len() == 0,
        calls.last()->polled->wakers@ == views[calls.len() - 1].wakers,
        calls.last()->polled->wakers@.len() == views[0].wakers.len() + begins(calls, calls.len() - 1),
        forall|m: int| 0 <= m < views[0].wakers.len()
            ==> #[trigger] calls.last()->polled->wakers@[m] == views[0].wakers[m],
        forall|i: int| #![trigger calls[i]] 0 <= i < calls.len() - 1 && calls[i] is Begin ==> {
            &&& views[i].wakers.len() == views[0].wakers.len() + begins(calls, i)
            &&& calls.last()->polled->wakers@[views[i].wakers.len() as int] == run.1[i]
        },
{
    let n = calls.len() as int;
    let (tasks, ks) = lemma_running_sends(views, calls, n - 1);
    if n >= 2 {
        assert(running_call(views[n - 2], calls[n - 2], views[n - 1], tasks[n - 2], tasks[n - 1], ks[n - 2]));
        lemma_running_call_facts(views[n - 2], calls[n - 2], views[n - 1], tasks[n - 2], tasks[n - 1], ks[n - 2]);
    }
    let c = calls[n - 1];
    assert(send_call_step(views[n - 1], c, views[n]));
    reveal(send_call_step);
    let poll = c->poll;
    let polled = c->polled;
    let out = choose|out: Result<(R, T), S>|
        #![trigger poll.ensures((tasks[n - 1],), out)]
        poll.ensures((tasks[n - 1],), out) && crate::blocking_display::send_outcome(out, polled, views[n - 1], views[n]);
    let t = out->Ok_0.1;
    assert(views[n - 1].wakers.len() == views[0].wakers.len() + begins(calls, n - 1));
    assert forall|m: int| 0 <= m < views[0].wakers.len()
        implies #[trigger] polled->wakers@[m] == views[0].wakers[m] by {
        assert(views[n - 1].wakers[m] == views[0].wakers[m]);
    }
    assert forall|i: int| #![trigger calls[i]] 0 <= i < n - 1 && calls[i] is Begin implies {
        &&& views[i].wakers.len() == views[0].wakers.len() + begins(calls, i)
        &&& polled->wakers@[views[i].wakers.len() as int] == ks[i]
    } by {
        assert(running_call(views[i], calls[i], views[i + 1], tasks[i], tasks[i + 1], ks[i]));
        lemma_running_call_facts(views[i], calls[i], views[i + 1], tasks[i], tasks[i + 1], ks[i]);
        let m = views[i].wakers.len() as int;
        assert(views[n - 1].wakers[m] == views[i + 1].wakers[m]);
    }
    (tasks, ks, t)
}

/// Law: a request begun with display `d` in hand, followed by calls that are
/// refused begins or pending polls and ended by a completed poll, is one blocking
/// send of that request. The begin is `Ready` and makes the only task of the run,
/// from `d` and its request; the queue is as before it; every later call finds
/// that send running (so makes no task) and takes it as
/// `law_send_run_hands_back_every_waker` states for the calls after the begin;
/// the last poll completes the last task with the returned result and the display
/// `t`, which the adapter then holds, with the queue left empty. The result is the
/// tasks of the send, the waker queued by each later call, and `t`.
pub proof fn law_begun_send_is_one_send<T, W, S, K, Q, R, F: FnOnce(T, Q) -> S, G: FnOnce() -> K, P: FnOnce(S) -> Result<(R, T), S>>(
    views: Seq<BlockingDisplayView<T, W, S, K>>,
    calls: Seq<SendCall<Q, F, G, P, R, K>>,
    d: T,
) -> (run: (Seq<S>, Seq<K>, T))
    requires
        send_run(views, calls),
        calls.len() >= 2,
        views[0].holder == Holder::<T, W, S>::Display(d),
        calls[0] is Begin,
        forall|i: int| 1 <= i < calls.len() - 1 ==> keeps_sending(#[trigger] calls[i]),
        calls.last() is Poll,
        calls.last()->polled is Ready,
    ensures
        run.0.len() == calls.len() - 1,
        run.1.len() == calls.len() - 2,
        calls[0]->begun == PollOr::<(), Q>::Ready(()),
        calls[0]->spawn.ensures((d, calls[0]->req), run.0[0]),
        views[1].holder == Holder::<T, W, S>::SendRequest(run.0[0]),
        views[1].wakers == views[0].wakers,
        send_run(views.skip(1), calls.skip(1)),
        forall|i: int| #![trigger calls[i]] 1 <= i < calls.len() - 1
            ==> running_call(views[i], calls[i], views[i + 1], run.0[i - 1], run.0[i], run.1[i - 1]),
        calls.last()->poll.ensures((run.0.last(),), Ok((calls.last()->polled->result, run.2))),
        views.last().holder == Holder::<T, W, S>::Display(run.2),
        views.last().wakers.len() == 0,
{
    let n = calls.len() as int;
    let vs = views.skip(1);
    let cs = calls.skip(1);
    let c0 = calls[0];
    assert(send_call_step(views[0], c0, views[1]));
    reveal(send_call_step);
    let s0 = choose|s: S|
        #![trigger c0->spawn.ensures((d, c0->req), s)]
        c0->spawn.ensures((d, c0->req), s) && views[1].holder == Holder::<T, W, S>::SendRequest(s);
    assert forall|i: int| #![trigger cs[i]] 0 <= i < cs.len() implies send_call_step(vs[i], cs[i], vs[i + 1]) by {
        assert(cs[i] == calls[i + 1]);
        assert(send_call_step(views[i + 1], calls[i + 1], views[i + 2]));
    }
    assert forall|i: int| 0 <= i < cs.len() - 1 implies keeps_sending(#[trigger] cs[i]) by {
        assert(cs[i] == calls[i + 1]);
    }
    assert(cs.last() == calls.last());
    let (tasks, ks, t) = law_send_run_hands_back_every_waker(vs, cs);
    assert forall|i: int| #![trigger calls[i]] 1 <= i < n - 1
        implies running_call(views[i], calls[i], views[i + 1], tasks[i - 1], tasks[i], ks[i - 1]) by {
        assert(cs[i - 1] == calls[i]);
        assert(vs[i - 1] == views[i] && vs[i] == views[i + 1]);
    }
    assert(vs.last() == views.last());
    (tasks, ks, t)
}

} // verus!
