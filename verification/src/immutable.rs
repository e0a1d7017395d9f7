//! The state of an asynchronous display that is shared through an immutable
//! reference. The display stays in shared ownership; what is guarded by a lock is
//! which blocking operation, if any, is running: a wait task (`W`) or a
//! send-request task (`S`). At most one runs at a time. A caller that finds the
//! other operation running is told to park: its waker is queued, and all parked
//! wakers are woken when a running operation completes.
use vstd::prelude::*;
use crate::blocking_display::{PollOr, Polled};

verus! {

/// Which blocking operation is running.
pub enum State<W, S> {
    Inactive,
    Wait(W),
    SendRequest(S),
}

/// The result of one step of an operation: done (the parked wakers are then to be
/// woken), not yet (the task keeps running and will wake the caller), or refused
/// because the other operation runs (the caller's waker is to be parked).
pub enum Step<R> {
    Ready(R),
    Pending,
    Park,
}

/// One call of `poll_wait`. While a send runs the caller parks and nothing changes.
/// Otherwise the wait task, the running one or a new one made by `spawn`, is polled
/// once: when done the state is inactive again, else the task keeps running.
pub open spec fn wait_step<W, S, R, F: FnOnce() -> W, P: FnOnce(W) -> Result<R, W>>(
    pre: State<W, S>,
    spawn: F,
    poll: P,
    res: Step<R>,
    post: State<W, S>,
) -> bool {
    match pre {
        State::SendRequest(_) => res is Park && post == pre,
        _ => exists|w: W, out: Result<R, W>|
            #![trigger poll.ensures((w,), out)]
            {
                &&& match pre {
                    State::Wait(w0) => w == w0,
                    _ => spawn.ensures((), w),
                }
                &&& poll.ensures((w,), out)
                &&& match out {
                    Ok(r) => res == Step::Ready(r) && post == State::<W, S>::Inactive,
                    Err(w1) => res is Pending && post == State::<W, S>::Wait(w1),
                }
            },
    }
}

/// One call of `begin_send_request`. When nothing runs, `spawn` makes the send
/// task from the request and the call is `Ready`; otherwise the request is handed
/// back, the caller parks, and nothing changes.
pub open spec fn begin_send_step<W, S, Q, F: FnOnce(Q) -> S>(
    pre: State<W, S>,
    req: Q,
    spawn: F,
    res: PollOr<(), Q>,
    post: State<W, S>,
) -> bool {
    match pre {
        State::Inactive => {
            &&& res == PollOr::<(), Q>::Ready(())
            &&& exists|s: S| #![trigger spawn.ensures((req,), s)] spawn.ensures((req,), s) && post == State::<W, S>::SendRequest(s)
        },
        _ => res == PollOr::<(), Q>::Pending(req) && post == pre,
    }
}

/// One call of `poll_send_request`: the running send task is polled once; when
/// done the state is inactive again, else the task keeps running.
pub open spec fn send_step<W, S, R, P: FnOnce(S) -> Result<R, S>>(
    pre: State<W, S>,
    poll: P,
    res: Polled<R>,
    post: State<W, S>,
) -> bool {
    match pre {
        State::SendRequest(s) => exists|out: Result<R, S>|
            #![trigger poll.ensures((s,), out)]
            poll.ensures((s,), out) && match out {
                Ok(r) => res == Polled::Ready(r) && post == State::<W, S>::Inactive,
                Err(s1) => res is Pending && post == State::<W, S>::SendRequest(s1),
            },
        _ => false,
    }
}

impl<W, S> State<W, S> {
    /// The state of a fresh display: nothing runs.
    pub fn new() -> (res: Self)
        ensures
            res == State::<W, S>::Inactive,
    {
        State::Inactive
    }

    /// Whether a send-request task is running.
    pub fn is_sending(&self) -> (res: bool)
        ensures
            res == (*self is SendRequest),
    {
        match self {
            State::SendRequest(_) => true,
            _ => false,
        }
    }

    /// Makes the state inactive and returns the task that was running, which the
    /// caller must await before it takes the display out of shared ownership.
    pub fn reset(&mut self) -> (res: Self)
        ensures
            res == *old(self),
            *final(self) == State::<W, S>::Inactive,
    {
        let mut res = State::Inactive;
        std::mem::swap(&mut res, self);
        res
    }

    /// Polls the wait for input; see `wait_step`.
    pub fn poll_wait<R, F, P>(&mut self, spawn: F, poll: P) -> (res: Step<R>) where
        F: FnOnce() -> W,
        P: FnOnce(W) -> Result<R, W>,

        requires
            *old(self) is Inactive ==> spawn.requires(()),
            forall|w: W| poll.requires((w,)),
        ensures
            wait_step(*old(self), spawn, poll, res, *final(self)),
    {
        let cur = self.reset();
        let w = match cur {
            State::Inactive => spawn(),
            State::Wait(w) => w,
            State::SendRequest(s) => {
                *self = State::SendRequest(s);
                return Step::Park;
            },
        };
        let ghost gw = w;
        let out = poll(w);
        let ghost gout = out;
        let res = match out {
            Ok(r) => Step::Ready(r),
            Err(w1) => {
                *self = State::Wait(w1);
                Step::Pending
            },
        };
        assert(poll.ensures((gw,), gout));
        res
    }

    /// Begins sending `req`; see `begin_send_step`.
    pub fn begin_send_request<Q, F>(&mut self, req: Q, spawn: F) -> (res: PollOr<(), Q>) where
        F: FnOnce(Q) -> S,

        requires
            *old(self) is Inactive ==> spawn.requires((req,)),
        ensures
            begin_send_step(*old(self), req, spawn, res, *final(self)),
    {
        match self {
            State::Inactive => {
                let ghost greq = req;
                let s = spawn(req);
                let ghost gs = s;
                *self = State::SendRequest(s);
                assert(spawn.ensures((greq,), gs));
                PollOr::Ready(())
            },
            _ => PollOr::Pending(req),
        }
    }

    /// Polls the running send task; see `send_step`. A send task must be running.
    pub fn poll_send_request<R, P>(&mut self, poll: P) -> (res: Polled<R>) where
        P: FnOnce(S) -> Result<R, S>,

        requires
            *old(self) matches State::SendRequest(s) && poll.requires((s,)),
        ensures
            send_step(*old(self), poll, res, *final(self)),
    {
        let s = match self.reset() {
            State::SendRequest(s) => s,
            _ => vstd::pervasive::unreached(),
        };
        let ghost gs = s;
        let out = poll(s);
        let ghost gout = out;
        let res = match out {
            Ok(r) => Polled::Ready(r),
            Err(s1) => {
                *self = State::SendRequest(s1);
                Polled::Pending
            },
        };
        assert(poll.ensures((gs,), gout));
        res
    }
}

/// Law: no wait is polled while a request is being sent: the caller parks and
/// nothing changes.
pub proof fn law_wait_parks_while_sending<W, S, R, F: FnOnce() -> W, P: FnOnce(W) -> Result<R, W>>(
    pre: State<W, S>,
    spawn: F,
    poll: P,
    res: Step<R>,
    post: State<W, S>,
)
    requires
        pre is SendRequest,
        wait_step(pre, spawn, poll, res, post),
    ensures
        res is Park,
        post == pre,
{
}

/// Law: no request is begun while an operation runs: the request is handed back
/// (the caller parks) and nothing changes.
pub proof fn law_request_refused_while_running<W, S, Q, F: FnOnce(Q) -> S>(
    pre: State<W, S>,
    req: Q,
    spawn: F,
    res: PollOr<(), Q>,
    post: State<W, S>,
)
    requires
        !(pre is Inactive),
        begin_send_step(pre, req, spawn, res, post),
    ensures
        res == PollOr::<(), Q>::Pending(req),
        post == pre,
{
}

/// Law: a completed operation leaves nothing running, so the next request is
/// begun at once.
pub proof fn law_completion_frees_the_display<W, S, R, Q, F1: FnOnce() -> W, P: FnOnce(W) -> Result<R, W>, P2: FnOnce(S) -> Result<R, S>, F2: FnOnce(Q) -> S>(
    pre: State<W, S>,
    spawn_wait: F1,
    poll_wait: P,
    poll_send: P2,
    res: Step<R>,
    res_polled: Polled<R>,
    mid: State<W, S>,
    req: Q,
    spawn_send: F2,
    res_send: PollOr<(), Q>,
    post: State<W, S>,
)
    requires
        wait_step(pre, spawn_wait, poll_wait, res, mid) && res is Ready
            || send_step(pre, poll_send, res_polled, mid) && res_polled is Ready,
        begin_send_step(mid, req, spawn_send, res_send, post),
    ensures
        mid is Inactive,
        res_send == PollOr::<(), Q>::Ready(()),
        post is SendRequest,
{
}

/// Law: beginning a request when nothing runs always starts it: the call is
/// `Ready` and a send task that `spawn` made from the request runs. The result is
/// that task.
pub proof fn law_begin_when_inactive_starts_the_send<W, S, Q, F: FnOnce(Q) -> S>(
    pre: State<W, S>,
    req: Q,
    spawn: F,
    res: PollOr<(), Q>,
    post: State<W, S>,
) -> (s: S)
    requires
        pre is Inactive,
        begin_send_step(pre, req, spawn, res, post),
    ensures
        res == PollOr::<(), Q>::Ready(()),
        spawn.ensures((req,), s),
        post == State::<W, S>::SendRequest(s),
{
    choose|s: S| #![trigger spawn.ensures((req,), s)] spawn.ensures((req,), s) && post == State::<W, S>::SendRequest(s)
}

/// Law: polling the wait when nothing runs makes one task with `spawn` and polls it
/// once: when the poll gives back a result `r` the call is `Ready(r)` and nothing
/// runs afterwards; when it gives back a task the call is `Pending` and that task
/// runs. The result is the task made and what its poll gave.
pub proof fn law_wait_when_inactive_makes_one_task<W, S, R, F: FnOnce() -> W, P: FnOnce(W) -> Result<R, W>>(
    pre: State<W, S>,
    spawn: F,
    poll: P,
    res: Step<R>,
    post: State<W, S>,
) -> (run: (W, Result<R, W>))
    requires
        pre is Inactive,
        wait_step(pre, spawn, poll, res, post),
    ensures
        spawn.ensures((), run.0),
        poll.ensures((run.0,), run.1),
        run.1 matches Ok(r) ==> res == Step::Ready(r) && post == State::<W, S>::Inactive,
        run.1 matches Err(w1) ==> res is Pending && post == State::<W, S>::Wait(w1),
{
    choose|w: W, out: Result<R, W>|
        #![trigger poll.ensures((w,), out)]
        {
            &&& match pre {
                State::Wait(w0) => w == w0,
                _ => spawn.ensures((), w),
            }
            &&& poll.ensures((w,), out)
            &&& match out {
                Ok(r) => res == Step::Ready(r) && post == State::<W, S>::Inactive,
                Err(w1) => res is Pending && post == State::<W, S>::Wait(w1),
            }
        }
}

/// Law: polling the wait while wait task `w` runs polls that very task once and
/// makes none: when the poll gives back a result `r` the call is `Ready(r)` and
/// nothing runs afterwards; when it gives back a task the call is `Pending` and
/// that task runs. The result is what the poll gave.
pub proof fn law_wait_polls_the_running_task<W, S, R, F: FnOnce() -> W, P: FnOnce(W) -> Result<R, W>>(
    pre: State<W, S>,
    w: W,
    spawn: F,
    poll: P,
    res: Step<R>,
    post: State<W, S>,
) -> (out: Result<R, W>)
    requires
        pre == State::<W, S>::Wait(w),
        wait_step(pre, spawn, poll, res, post),
    ensures
        poll.ensures((w,), out),
        out matches Ok(r) ==> res == Step::Ready(r) && post == State::<W, S>::Inactive,
        out matches Err(w1) ==> res is Pending && post == State::<W, S>::Wait(w1),
{
    let (w0, out) = choose|w0: W, out: Result<R, W>|
        #![trigger poll.ensures((w0,), out)]
        {
            &&& match pre {
                State::Wait(w1) => w0 == w1,
                _ => spawn.ensures((), w0),
            }
            &&& poll.ensures((w0,), out)
            &&& match out {
                Ok(r) => res == Step::Ready(r) && post == State::<W, S>::Inactive,
                Err(w1) => res is Pending && post == State::<W, S>::Wait(w1),
            }
        };
    out
}

/// Law: polling the send while send task `s` runs polls that very task once: when
/// the poll gives back a result `r` the call is `Ready(r)` and nothing runs
/// afterwards; when it gives back a task the call is `Pending` and that task runs.
/// The result is what the poll gave.
pub proof fn law_send_poll_polls_the_running_task<W, S, R, P: FnOnce(S) -> Result<R, S>>(
    pre: State<W, S>,
    s: S,
    poll: P,
    res: Polled<R>,
    post: State<W, S>,
) -> (out: Result<R, S>)
    requires
        pre == State::<W, S>::SendRequest(s),
        send_step(pre, poll, res, post),
    ensures
        poll.ensures((s,), out),
        out matches Ok(r) ==> res == Polled::Ready(r) && post == State::<W, S>::Inactive,
        out matches Err(s1) ==> res is Pending && post == State::<W, S>::SendRequest(s1),
{
    choose|out: Result<R, S>|
        #![trigger poll.ensures((s,), out)]
        poll.ensures((s,), out) && match out {
            Ok(r) => res == Polled::Ready(r) && post == State::<W, S>::Inactive,
            Err(s1) => res is Pending && post == State::<W, S>::SendRequest(s1),
        }
}

} // verus!
