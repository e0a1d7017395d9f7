//! Bookkeeping of an asynchronous display that runs the blocking operations of an
//! inner display on another thread.
//!
//! The display `T` is always in one place: held by the adapter, moved into the task
//! that waits for input (`W`), moved into the task that sends a request (`S`), or,
//! while `get_mut` waits for such a task to finish, nowhere (detached). The adapter
//! also keeps the wakers of the callers that tried to begin a request while another
//! one was being sent (`K`); they are handed back when that send completes.
use vstd::prelude::*;

verus! {

/// Where the display is.
pub enum Holder<T, W, S> {
    /// The adapter holds the display itself.
    Display(T),
    /// The display is inside the running wait task.
    Wait(W),
    /// The display is inside the running send-request task.
    SendRequest(S),
    /// The running task was taken out by `get_mut`, which is waiting for it.
    Detached,
}

/// A task that `get_mut` took out of the adapter and must await to get the display back.
pub enum InFlight<W, S> {
    Wait(W),
    SendRequest(S),
}

/// The result of polling a task: done with a value, or not yet.
pub enum Polled<R> {
    Ready(R),
    Pending,
}

/// The result of trying to begin an operation: begun, or refused with the
/// request handed back.
pub enum PollOr<A, B> {
    Ready(A),
    Pending(B),
}

/// The result of polling the send-request task. When it is done, the wakers that
/// were queued while it ran come back with its result, to be woken.
pub enum SendPolled<R, K> {
    Ready { result: R, wakers: Vec<K> },
    Pending,
}

/// The abstract state of the adapter.
pub struct BlockingDisplayView<T, W, S, K> {
    pub holder: Holder<T, W, S>,
    pub wakers: Seq<K>,
}

/// An asynchronous display built on a blocking display `T`; its operations run in
/// tasks of type `W` (waiting) and `S` (sending a request), and callers are woken
/// through wakers of type `K`.
pub struct BlockingDisplay<T, W, S, K> {
    display: Option<T>,
    wait: Option<W>,
    send_request: Option<S>,
    send_pending_request_wakers: Vec<K>,
}

impl<T, W, S, K> BlockingDisplay<T, W, S, K> {
    /// The display is in at most one place.
    pub closed spec fn wf(self) -> bool {
        &&& self.display is Some ==> self.wait is None && self.send_request is None
        &&& self.wait is Some ==> self.send_request is None
    }

    /// Where the display is.
    pub closed spec fn holder(self) -> Holder<T, W, S> {
        if let Some(d) = self.display {
            Holder::Display(d)
        } else if let Some(w) = self.wait {
            Holder::Wait(w)
        } else if let Some(s) = self.send_request {
            Holder::SendRequest(s)
        } else {
            Holder::Detached
        }
    }
}

impl<T, W, S, K> View for BlockingDisplay<T, W, S, K> {
    type V = BlockingDisplayView<T, W, S, K>;

    closed spec fn view(&self) -> BlockingDisplayView<T, W, S, K> {
        BlockingDisplayView { holder: self.holder(), wakers: self.send_pending_request_wakers@ }
    }
}

/// The state of a fresh adapter around `display`.
pub open spec fn initial_view<T, W, S, K>(display: T) -> BlockingDisplayView<T, W, S, K> {
    BlockingDisplayView { holder: Holder::Display(display), wakers: Seq::empty() }
}

/// `w` is the wait task that a poll of the wait finds in `holder`: the running one,
/// or, when the adapter holds the display, the one that `spawn` makes from it.
pub open spec fn wait_task<T, W, S, F: FnOnce(T) -> W>(holder: Holder<T, W, S>, spawn: F, w: W) -> bool {
    match holder {
        Holder::Wait(w0) => w == w0,
        Holder::Display(d) => spawn.ensures((d,), w),
        _ => false,
    }
}

/// One call of `poll_wait`: the wait task is found or started, then polled once.
/// When it is done, its result is returned and the adapter holds the display it
/// gives back; otherwise the task keeps running. The queued wakers are left alone.
pub open spec fn wait_step<T, W, S, K, R, F: FnOnce(T) -> W, P: FnOnce(W) -> Result<(R, T), W>>(
    pre: BlockingDisplayView<T, W, S, K>,
    spawn: F,
    poll: P,
    res: Polled<R>,
    post: BlockingDisplayView<T, W, S, K>,
) -> bool {
    &&& post.wakers == pre.wakers
    &&& exists|w: W, out: Result<(R, T), W>|
        #![trigger poll.ensures((w,), out)]
        {
            &&& wait_task(pre.holder, spawn, w)
            &&& poll.ensures((w,), out)
            &&& match out {
                Ok((r, t)) => res == Polled::Ready(r) && post.holder == Holder::<T, W, S>::Display(t),
                Err(w1) => res is Pending && post.holder == Holder::<T, W, S>::Wait(w1),
            }
        }
}

/// One call of `begin_send_request_raw`. With the display in hand, it moves into a
/// new send task that `spawn` makes from it and the request, and the call is
/// `Ready`. While a send task runs, the request is handed back (`Pending`) and a
/// waker made by `waker` is queued behind the running task.
pub open spec fn begin_send_step<T, W, S, K, Q, F: FnOnce(T, Q) -> S, G: FnOnce() -> K>(
    pre: BlockingDisplayView<T, W, S, K>,
    req: Q,
    waker: G,
    spawn: F,
    res: PollOr<(), Q>,
    post: BlockingDisplayView<T, W, S, K>,
) -> bool {
    match pre.holder {
        Holder::Display(d) => {
            &&& res == PollOr::<(), Q>::Ready(())
            &&& post.wakers == pre.wakers
            &&& exists|s: S|
                #![trigger spawn.ensures((d, req), s)]
                spawn.ensures((d, req), s) && post.holder == Holder::<T, W, S>::SendRequest(s)
        },
        Holder::SendRequest(_) => {
            &&& res == PollOr::<(), Q>::Pending(req)
            &&& post.holder == pre.holder
            &&& exists|k: K| #![trigger waker.ensures((), k)] waker.ensures((), k) && post.wakers == pre.wakers.push(k)
        },
        _ => false,
    }
}

/// What one poll of the send task gives: done, with its result and the display,
/// which the adapter holds again, and all queued wakers, in the order they were
/// queued, handed back with the queue left empty; or not yet, with the task, which
/// keeps running, and the queue as it was.
pub open spec fn send_outcome<R, T, W, S, K>(
    out: Result<(R, T), S>,
    res: SendPolled<R, K>,
    pre: BlockingDisplayView<T, W, S, K>,
    post: BlockingDisplayView<T, W, S, K>,
) -> bool {
    match out {
        Ok((r, t)) => {
            &&& res matches SendPolled::Ready { result, wakers } && result == r && wakers@ == pre.wakers
            &&& post.holder == Holder::<T, W, S>::Display(t)
            &&& post.wakers == Seq::<K>::empty()
        },
        Err(s) => {
            &&& res is Pending
            &&& post.holder == Holder::<T, W, S>::SendRequest(s)
            &&& post.wakers == pre.wakers
        },
    }
}

/// One call of `poll_send_request_raw`: the running send task is polled once.
pub open spec fn send_step<T, W, S, K, R, P: FnOnce(S) -> Result<(R, T), S>>(
    pre: BlockingDisplayView<T, W, S, K>,
    poll: P,
    res: SendPolled<R, K>,
    post: BlockingDisplayView<T, W, S, K>,
) -> bool {
    match pre.holder {
        Holder::SendRequest(s) => exists|out: Result<(R, T), S>|
            #![trigger poll.ensures((s,), out)]
            poll.ensures((s,), out) && send_outcome(out, res, pre, post),
        _ => false,
    }
}

impl<T, W, S, K> BlockingDisplay<T, W, S, K> {
    /// Creates the adapter around `display`, with nothing running and no waker queued.
    pub fn new(display: T) -> (res: Self)
        ensures
            res.wf(),
            res@ == initial_view::<T, W, S, K>(display),
    {
        BlockingDisplay {
            display: Some(display),
            wait: None,
            send_request: None,
            send_pending_request_wakers: Vec::new(),
        }
    }

    /// Whether `get_mut` took the running task out and the display is not back yet.
    pub fn is_detached(&self) -> (res: bool)
        ensures
            res == (self@.holder is Detached),
    {
        self.display.is_none() && self.wait.is_none() && self.send_request.is_none()
    }

    /// Whether the adapter holds the display itself.
    pub fn has_display(&self) -> (res: bool)
        ensures
            res == (self@.holder is Display),
    {
        self.display.is_some()
    }

    /// Whether a wait task is running.
    pub fn is_waiting(&self) -> (res: bool)
        requires
            self.wf(),
        ensures
            res == (self@.holder is Wait),
    {
        self.display.is_none() && self.wait.is_some()
    }

    /// Whether a send-request task is running.
    pub fn is_sending(&self) -> (res: bool)
        requires
            self.wf(),
        ensures
            res == (self@.holder is SendRequest),
    {
        self.display.is_none() && self.wait.is_none() && self.send_request.is_some()
    }

    /// The number of wakers queued behind the running send-request task.
    pub fn pending_wakers(&self) -> (res: usize)
        ensures
            res == self@.wakers.len(),
    {
        self.send_pending_request_wakers.len()
    }

    /// The display, which the adapter must hold.
    pub fn inner(&self) -> (res: &T)
        requires
            self.wf(),
            self@.holder is Display,
        ensures
            self@.holder == Holder::<T, W, S>::Display(*res),
    {
        self.display.as_ref().unwrap()
    }

    /// The display, mutably, which the adapter must hold. What the caller writes
    /// through the result is what the adapter holds afterwards.
    pub fn inner_mut(&mut self) -> (res: &mut T)
        requires
            old(self).wf(),
            old(self)@.holder is Display,
        ensures
            final(self).wf(),
            old(self)@.holder == Holder::<T, W, S>::Display(*res),
            final(self)@.holder == Holder::<T, W, S>::Display(*final(res)),
            final(self)@.wakers == old(self)@.wakers,
    {
        self.display.as_mut().unwrap()
    }

    /// Gives up the adapter and tells where the display is: in hand, or in the
    /// task that the caller must await to get it back. Queued wakers are dropped.
    pub fn into_inner(self) -> (res: Holder<T, W, S>)
        requires
            self.wf(),
            !(self@.holder is Detached),
        ensures
            res == self@.holder,
    {
        let BlockingDisplay { display, wait, send_request, send_pending_request_wakers } = self;
        if let Some(d) = display {
            Holder::Display(d)
        } else if let Some(w) = wait {
            Holder::Wait(w)
        } else {
            Holder::SendRequest(send_request.unwrap())
        }
    }

    /// Polls the wait for input. When no wait task is running, the display is moved
    /// into a new one made by `spawn`; the task is then polled once with `poll`,
    /// which gives back either its result and the display, or the task itself.
    /// The adapter must not be sending a request.
    pub fn poll_wait<R, F, P>(&mut self, spawn: F, poll: P) -> (res: Polled<R>) where
        F: FnOnce(T) -> W,
        P: FnOnce(W) -> Result<(R, T), W>,

        requires
            old(self).wf(),
            old(self)@.holder is Display || old(self)@.holder is Wait,
            old(self)@.holder matches Holder::Display(d) ==> spawn.requires((d,)),
            forall|w: W| poll.requires((w,)),
        ensures
            final(self).wf(),
            wait_step(old(self)@, spawn, poll, res, final(self)@),
    {
        let w = match self.wait.take() {
            Some(w) => w,
            None => {
                let d = self.display.take().unwrap();
                spawn(d)
            },
        };
        let ghost gw = w;
        let out = poll(w);
        let ghost gout = out;
        let res = match out {
            Ok((r, t)) => {
                self.display = Some(t);
                Polled::Ready(r)
            },
            Err(w1) => {
                self.wait = Some(w1);
                Polled::Pending
            },
        };
        assert(wait_task(old(self)@.holder, spawn, gw) && poll.ensures((gw,), gout));
        res
    }

    /// Begins sending `req`. With the display in hand, `spawn` makes the send task
    /// from the display and the request. While another send task runs, the request
    /// is handed back and the caller's waker, made by `waker`, is queued to be woken
    /// when that task completes. The adapter must not be waiting.
    pub fn begin_send_request_raw<Q, F, G>(&mut self, req: Q, waker: G, spawn: F) -> (res: PollOr<(), Q>) where
        F: FnOnce(T, Q) -> S,
        G: FnOnce() -> K,

        requires
            old(self).wf(),
            old(self)@.holder is Display || old(self)@.holder is SendRequest,
            old(self)@.holder matches Holder::Display(d) ==> spawn.requires((d, req)),
            old(self)@.holder is SendRequest ==> waker.requires(()),
        ensures
            final(self).wf(),
            begin_send_step(old(self)@, req, waker, spawn, res, final(self)@),
    {
        if self.send_request.is_none() {
            let d = self.display.take().unwrap();
            let ghost gd = d;
            let ghost greq = req;
            let s = spawn(d, req);
            let ghost gs = s;
            self.send_request = Some(s);
            assert(spawn.ensures((gd, greq), gs) && self@.holder == Holder::<T, W, S>::SendRequest(gs));
            PollOr::Ready(())
        } else {
            let k = waker();
            let ghost gk = k;
            self.send_pending_request_wakers.push(k);
            assert(waker.ensures((), gk) && self@.wakers == old(self)@.wakers.push(gk));
            PollOr::Pending(req)
        }
    }

    /// Polls the running send task once with `poll`, which gives back either its
    /// result and the display, or the task itself. When the task is done, every
    /// queued waker is handed back, in order, to be woken.
    pub fn poll_send_request_raw<R, P>(&mut self, poll: P) -> (res: SendPolled<R, K>) where
        P: FnOnce(S) -> Result<(R, T), S>,

        requires
            old(self).wf(),
            old(self)@.holder matches Holder::SendRequest(s) && poll.requires((s,)),
        ensures
            final(self).wf(),
            send_step(old(self)@, poll, res, final(self)@),
    {
        let s = self.send_request.take().unwrap();
        let out = poll(s);
        let ghost gout = out;
        let res = match out {
            Ok((r, t)) => {
                self.display = Some(t);
                let mut wakers: Vec<K> = Vec::new();
                std::mem::swap(&mut wakers, &mut self.send_pending_request_wakers);
                SendPolled::Ready { result: r, wakers }
            },
            Err(s1) => {
                self.send_request = Some(s1);
                SendPolled::Pending
            },
        };
        assert(send_outcome(gout, res, old(self)@, self@));
        res
    }

    /// Starts getting the display back for mutable use. When the adapter holds the
    /// display, nothing changes and the result is `None`: `inner_mut` then gives it.
    /// Otherwise the running task is taken out and returned, and the adapter is
    /// detached until the caller has awaited that task and handed the display back
    /// with `reattach`. Queued wakers stay queued.
    pub fn get_mut(&mut self) -> (res: Option<InFlight<W, S>>)
        requires
            old(self).wf(),
            !(old(self)@.holder is Detached),
        ensures
            final(self).wf(),
            final(self)@.wakers == old(self)@.wakers,
            match old(self)@.holder {
                Holder::Display(d) => res is None && final(self)@.holder == old(self)@.holder,
                Holder::Wait(w) => res == Some(InFlight::<W, S>::Wait(w))
                    && final(self)@.holder is Detached,
                Holder::SendRequest(s) => res == Some(InFlight::<W, S>::SendRequest(s))
                    && final(self)@.holder is Detached,
                Holder::Detached => false,
            },
    {
        if self.display.is_some() {
            return None;
        }
        if let Some(w) = self.wait.take() {
            Some(InFlight::Wait(w))
        } else {
            Some(InFlight::SendRequest(self.send_request.take().unwrap()))
        }
    }

    /// Hands the display back to a detached adapter and returns it mutably; what
    /// the caller writes through the result is what the adapter holds afterwards.
    pub fn reattach(&mut self, display: T) -> (res: &mut T)
        requires
            old(self).wf(),
            old(self)@.holder is Detached,
        ensures
            final(self).wf(),
            *res == display,
            final(self)@.holder == Holder::<T, W, S>::Display(*final(res)),
            final(self)@.wakers == old(self)@.wakers,
    {
        self.display = Some(display);
        self.display.as_mut().unwrap()
    }
}

/// Law: a fresh adapter holds the display it was made with and has no waker
/// queued, so giving it up at once (`into_inner`) hands back that very display.
pub proof fn law_new_holds_the_display<T, W, S, K>(display: T)
    ensures
        initial_view::<T, W, S, K>(display).holder == Holder::<T, W, S>::Display(display),
        initial_view::<T, W, S, K>(display).wakers.len() == 0,
{
}

/// Law: polling the wait never loses the display: when the wait is done the adapter
/// holds the display again, and until then it is in the running wait task.
pub proof fn law_wait_keeps_the_display<T, W, S, K, R, F: FnOnce(T) -> W, P: FnOnce(W) -> Result<(R, T), W>>(
    pre: BlockingDisplayView<T, W, S, K>,
    spawn: F,
    poll: P,
    res: Polled<R>,
    post: BlockingDisplayView<T, W, S, K>,
)
    requires
        wait_step(pre, spawn, poll, res, post),
    ensures
        res is Ready ==> post.holder is Display,
        res is Pending ==> post.holder is Wait,
        post.wakers == pre.wakers,
{
}

/// Law: a request begun while another one is being sent is refused and its waker
/// queued; when the running send completes, that waker comes back, after the ones
/// queued before it, the queue is left empty, and the adapter holds the display.
pub proof fn law_refused_request_is_woken<T, W, S, K, Q, R, F: FnOnce(T, Q) -> S, G: FnOnce() -> K, P: FnOnce(S) -> Result<(R, T), S>>(
    pre: BlockingDisplayView<T, W, S, K>,
    req: Q,
    waker: G,
    spawn: F,
    res_begin: PollOr<(), Q>,
    mid: BlockingDisplayView<T, W, S, K>,
    poll: P,
    res_poll: SendPolled<R, K>,
    post: BlockingDisplayView<T, W, S, K>,
)
    requires
        pre.holder is SendRequest,
        begin_send_step(pre, req, waker, spawn, res_begin, mid),
        send_step(mid, poll, res_poll, post),
        res_poll is Ready,
    ensures
        res_begin == PollOr::<(), Q>::Pending(req),
        exists|k: K| #![trigger waker.ensures((), k)]
            waker.ensures((), k) && res_poll->wakers@ == pre.wakers.push(k),
        post.wakers.len() == 0,
        post.holder is Display,
{
    let k = choose|k: K| #![trigger waker.ensures((), k)] waker.ensures((), k) && mid.wakers == pre.wakers.push(k);
    assert(waker.ensures((), k));
}

/// Law: a request begun with the display in hand takes the display into its send
/// task, and when that task completes the display is back with no waker left.
pub proof fn law_send_returns_the_display<T, W, S, K, Q, R, F: FnOnce(T, Q) -> S, G: FnOnce() -> K, P: FnOnce(S) -> Result<(R, T), S>>(
    pre: BlockingDisplayView<T, W, S, K>,
    req: Q,
    waker: G,
    spawn: F,
    res_begin: PollOr<(), Q>,
    mid: BlockingDisplayView<T, W, S, K>,
    poll: P,
    res_poll: SendPolled<R, K>,
    post: BlockingDisplayView<T, W, S, K>,
)
    requires
        pre.holder is Display,
        begin_send_step(pre, req, waker, spawn, res_begin, mid),
        send_step(mid, poll, res_poll, post),
    ensures
        res_begin is Ready,
        mid.holder is SendRequest,
        res_poll is Ready ==> post.holder is Display && post.wakers.len() == 0 && res_poll->wakers@ == pre.wakers,
        res_poll is Pending ==> post.holder is SendRequest && post.wakers == pre.wakers,
{
}

/// Law: beginning a request with the display in hand always starts it, whatever
/// wakers are queued: the call is `Ready`, the queue is kept, and the display
/// moves into a send task that `spawn` made from it and the request. The result
/// is that task.
pub proof fn law_begin_with_display_starts_the_send<T, W, S, K, Q, F: FnOnce(T, Q) -> S, G: FnOnce() -> K>(
    pre: BlockingDisplayView<T, W, S, K>,
    d: T,
    req: Q,
    waker: G,
    spawn: F,
    res: PollOr<(), Q>,
    post: BlockingDisplayView<T, W, S, K>,
) -> (s: S)
    requires
        pre.holder == Holder::<T, W, S>::Display(d),
        begin_send_step(pre, req, waker, spawn, res, post),
    ensures
        res == PollOr::<(), Q>::Ready(()),
        post.wakers == pre.wakers,
        spawn.ensures((d, req), s),
        post.holder == Holder::<T, W, S>::SendRequest(s),
{
    choose|s: S| #![trigger spawn.ensures((d, req), s)] spawn.ensures((d, req), s) && post.holder == Holder::<T, W, S>::SendRequest(s)
}

/// Law: beginning a request while another one is being sent refuses it: the call
/// hands the request back, the running task stays, no task is made, and the waker
/// made by `waker` is queued after the ones already queued. The result is that
/// waker.
pub proof fn law_begin_while_sending_queues_the_waker<T, W, S, K, Q, F: FnOnce(T, Q) -> S, G: FnOnce() -> K>(
    pre: BlockingDisplayView<T, W, S, K>,
    req: Q,
    waker: G,
    spawn: F,
    res: PollOr<(), Q>,
    post: BlockingDisplayView<T, W, S, K>,
) -> (k: K)
    requires
        pre.holder is SendRequest,
        begin_send_step(pre, req, waker, spawn, res, post),
    ensures
        res == PollOr::<(), Q>::Pending(req),
        post.holder == pre.holder,
        waker.ensures((), k),
        post.wakers == pre.wakers.push(k),
{
    choose|k: K| #![trigger waker.ensures((), k)] waker.ensures((), k) && post.wakers == pre.wakers.push(k)
}

/// Law: polling the wait with the display `d` in hand makes one task from `d` with
/// `spawn` and polls it once with `poll`: when the poll gives back a result `r`
/// and the display `t`, the call is `Ready(r)` and the adapter holds `t`; when it
/// gives back a task, the call is `Pending` and that task runs. The queue is kept.
/// The result is the task made and what its poll gave.
pub proof fn law_wait_from_display_makes_one_task<T, W, S, K, R, F: FnOnce(T) -> W, P: FnOnce(W) -> Result<(R, T), W>>(
    pre: BlockingDisplayView<T, W, S, K>,
    d: T,
    spawn: F,
    poll: P,
    res: Polled<R>,
    post: BlockingDisplayView<T, W, S, K>,
) -> (run: (W, Result<(R, T), W>))
    requires
        pre.holder == Holder::<T, W, S>::Display(d),
        wait_step(pre, spawn, poll, res, post),
    ensures
        spawn.ensures((d,), run.0),
        poll.ensures((run.0,), run.1),
        run.1 matches Ok((r, t)) ==> res == Polled::Ready(r) && post.holder == Holder::<T, W, S>::Display(t),
        run.1 matches Err(w1) ==> res is Pending && post.holder == Holder::<T, W, S>::Wait(w1),
        post.wakers == pre.wakers,
{
    choose|w: W, out: Result<(R, T), W>|
        #![trigger poll.ensures((w,), out)]
        {
            &&& wait_task(pre.holder, spawn, w)
            &&& poll.ensures((w,), out)
            &&& match out {
                Ok((r, t)) => res == Polled::Ready(r) && post.holder == Holder::<T, W, S>::Display(t),
                Err(w1) => res is Pending && post.holder == Holder::<T, W, S>::Wait(w1),
            }
        }
}

/// Law: polling the wait while wait task `w` runs polls that very task once and
/// makes none: when the poll gives back a result `r` and the display `t`, the call
/// is `Ready(r)` and the adapter holds `t`; when it gives back a task, the call is
/// `Pending` and that task runs. The queue is kept. The result is what the poll
/// gave.
pub proof fn law_wait_polls_the_running_task<T, W, S, K, R, F: FnOnce(T) -> W, P: FnOnce(W) -> Result<(R, T), W>>(
    pre: BlockingDisplayView<T, W, S, K>,
    w: W,
    spawn: F,
    poll: P,
    res: Polled<R>,
    post: BlockingDisplayView<T, W, S, K>,
) -> (out: Result<(R, T), W>)
    requires
        pre.holder == Holder::<T, W, S>::Wait(w),
        wait_step(pre, spawn, poll, res, post),
    ensures
        poll.ensures((w,), out),
        out matches Ok((r, t)) ==> res == Polled::Ready(r) && post.holder == Holder::<T, W, S>::Display(t),
        out matches Err(w1) ==> res is Pending && post.holder == Holder::<T, W, S>::Wait(w1),
        post.wakers == pre.wakers,
{
    let (w0, out) = choose|w0: W, out: Result<(R, T), W>|
        #![trigger poll.ensures((w0,), out)]
        {
            &&& wait_task(pre.holder, spawn, w0)
            &&& poll.ensures((w0,), out)
            &&& match out {
                Ok((r, t)) => res == Polled::Ready(r) && post.holder == Holder::<T, W, S>::Display(t),
                Err(w1) => res is Pending && post.holder == Holder::<T, W, S>::Wait(w1),
            }
        };
    out
}

/// Law: polling the send while send task `s` runs polls that very task once: when
/// the poll gives back a result `r` and the display `t`, the call is ready with
/// `r` and hands back exactly the queued wakers, in order, the queue is emptied
/// and the adapter holds `t`; when it gives back a task, the call is `Pending`,
/// that task runs and the queue is kept. The result is what the poll gave.
pub proof fn law_send_poll_polls_the_running_task<T, W, S, K, R, P: FnOnce(S) -> Result<(R, T), S>>(
    pre: BlockingDisplayView<T, W, S, K>,
    s: S,
    poll: P,
    res: SendPolled<R, K>,
    post: BlockingDisplayView<T, W, S, K>,
) -> (out: Result<(R, T), S>)
    requires
        pre.holder == Holder::<T, W, S>::SendRequest(s),
        send_step(pre, poll, res, post),
    ensures
        poll.ensures((s,), out),
        out matches Ok((r, t)) ==> {
            &&& res matches SendPolled::Ready { result, wakers } && result == r && wakers@ == pre.wakers
            &&& post.holder == Holder::<T, W, S>::Display(t)
            &&& post.wakers.len() == 0
        },
        out matches Err(s1) ==> {
            &&& res is Pending
            &&& post.holder == Holder::<T, W, S>::SendRequest(s1)
            &&& post.wakers == pre.wakers
        },
{
    choose|out: Result<(R, T), S>| #![trigger poll.ensures((s,), out)] poll.ensures((s,), out) && send_outcome(out, res, pre, post)
}

} // verus!
