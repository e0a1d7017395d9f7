use breadx_blocking::{BlockingDisplay, Holder, InFlight, PollOr, Polled, SendPolled};

type Adapter = BlockingDisplay<u32, u64, u64, u8>;

#[test]
fn new_holds_the_display() {
    let b = Adapter::new(5);
    assert!(b.has_display());
    assert!(!b.is_waiting());
    assert!(!b.is_sending());
    assert!(!b.is_detached());
    assert_eq!(b.pending_wakers(), 0);
    assert_eq!(*b.inner(), 5);
    assert!(matches!(b.into_inner(), Holder::Display(5)));
}

#[test]
fn inner_mut_writes_through() {
    let mut b = Adapter::new(5);
    *b.inner_mut() = 11;
    assert_eq!(*b.inner(), 11);
    assert!(matches!(b.into_inner(), Holder::Display(11)));
}

#[test]
fn wait_that_completes_at_once_hands_the_display_back() {
    let mut b = Adapter::new(5);
    let r = b.poll_wait(|d| u64::from(d) * 10, |w| Ok((w + 1, 6u32)));
    assert!(matches!(r, Polled::Ready(51)));
    assert!(b.has_display());
    assert_eq!(*b.inner(), 6);
}

#[test]
fn pending_wait_keeps_its_task_and_is_not_restarted() {
    let mut b = Adapter::new(5);
    let r: Polled<u8> = b.poll_wait(|d| u64::from(d) * 10, |w| Err(w + 1));
    assert!(matches!(r, Polled::Pending));
    assert!(b.is_waiting());
    assert!(!b.has_display());
    // The running task (51) is polled again; no new task is made.
    let r = b.poll_wait(|_d| panic!("a second wait task was started"), |w| {
        assert_eq!(w, 51);
        Ok((7u8, 9u32))
    });
    assert!(matches!(r, Polled::Ready(7)));
    assert_eq!(*b.inner(), 9);
}

#[test]
fn into_inner_while_waiting_gives_the_wait_task() {
    let mut b = Adapter::new(5);
    let _: Polled<u8> = b.poll_wait(|d| u64::from(d) + 100, |w| Err(w));
    assert!(matches!(b.into_inner(), Holder::Wait(105)));
}

#[test]
fn begin_send_with_display_starts_the_task() {
    let mut b = Adapter::new(5);
    let r = b.begin_send_request_raw(3u16, || panic!("no waker is needed"), |d, q| u64::from(d) * 1000 + u64::from(q));
    assert!(matches!(r, PollOr::Ready(())));
    assert!(b.is_sending());
    assert_eq!(b.pending_wakers(), 0);
    assert!(matches!(b.into_inner(), Holder::SendRequest(5003)));
}

#[test]
fn refused_requests_are_queued_and_woken_in_order() {
    let mut b = Adapter::new(5);
    let _ = b.begin_send_request_raw(3u16, || 0u8, |d, q| u64::from(d) + u64::from(q));
    let r1 = b.begin_send_request_raw(4u16, || 21u8, |_d, _q| panic!("second send task"));
    assert!(matches!(r1, PollOr::Pending(4)));
    let r2 = b.begin_send_request_raw(5u16, || 22u8, |_d, _q| panic!("second send task"));
    assert!(matches!(r2, PollOr::Pending(5)));
    assert_eq!(b.pending_wakers(), 2);
    assert!(b.is_sending());

    let p: SendPolled<u16, u8> = b.poll_send_request_raw(|s| Err(s));
    assert!(matches!(p, SendPolled::Pending));
    assert_eq!(b.pending_wakers(), 2);

    let p = b.poll_send_request_raw(|s| {
        assert_eq!(s, 8);
        Ok((77u16, 12u32))
    });
    match p {
        SendPolled::Ready { result, wakers } => {
            assert_eq!(result, 77);
            assert_eq!(wakers, vec![21u8, 22u8]);
        }
        SendPolled::Pending => panic!("the send completed"),
    }
    assert_eq!(b.pending_wakers(), 0);
    assert!(b.has_display());
    assert_eq!(*b.inner(), 12);
}

#[test]
fn wait_after_a_completed_send_starts_from_the_returned_display() {
    let mut b = Adapter::new(5);
    let _ = b.begin_send_request_raw(1u16, || 0u8, |d, _q| u64::from(d));
    let _: SendPolled<u16, u8> = b.poll_send_request_raw(|_s| Ok((0u16, 40u32)));
    let r = b.poll_wait(|d| u64::from(d), |w| Ok((w, 41u32)));
    assert!(matches!(r, Polled::Ready(40)));
    assert_eq!(*b.inner(), 41);
}

#[test]
fn get_mut_with_display_in_hand_changes_nothing() {
    let mut b = Adapter::new(5);
    assert!(b.get_mut().is_none());
    assert!(b.has_display());
    *b.inner_mut() += 1;
    assert_eq!(*b.inner(), 6);
}

#[test]
fn get_mut_takes_the_wait_task_out_and_reattach_restores() {
    let mut b = Adapter::new(5);
    let _: Polled<u8> = b.poll_wait(|d| u64::from(d) + 1, |w| Err(w));
    match b.get_mut() {
        Some(InFlight::Wait(w)) => assert_eq!(w, 6),
        _ => panic!("the wait task was running"),
    }
    assert!(b.is_detached());
    let d = b.reattach(30);
    assert_eq!(*d, 30);
    *d = 31;
    assert!(b.has_display());
    assert_eq!(*b.inner(), 31);
}

#[test]
fn get_mut_takes_the_send_task_out_and_keeps_the_queue() {
    let mut b = Adapter::new(5);
    let _ = b.begin_send_request_raw(1u16, || 0u8, |d, _q| u64::from(d) + 2);
    let _ = b.begin_send_request_raw(2u16, || 4u8, |_d, _q| 0u64);
    match b.get_mut() {
        Some(InFlight::SendRequest(s)) => assert_eq!(s, 7),
        _ => panic!("the send task was running"),
    }
    assert!(b.is_detached());
    assert_eq!(b.pending_wakers(), 1);
    let _ = b.reattach(9);
    assert_eq!(b.pending_wakers(), 1);
    assert!(matches!(b.into_inner(), Holder::Display(9)));
}

#[test]
fn run_of_wait_polls_makes_one_task() {
    let spawned = std::cell::Cell::new(0u32);
    let mut b = Adapter::new(5);
    let mut results = Vec::new();
    for round in 0..4u64 {
        let r = b.poll_wait(
            |d| {
                spawned.set(spawned.get() + 1);
                u64::from(d) * 10
            },
            |w| if round < 3 { Err(w + 1) } else { Ok((w as u8, 60u32)) },
        );
        results.push(matches!(r, Polled::Ready(_)));
        if round < 3 {
            assert!(b.is_waiting());
        }
    }
    assert_eq!(spawned.get(), 1);
    assert_eq!(results, vec![false, false, false, true]);
    assert_eq!(*b.inner(), 60);
}

#[test]
fn begun_send_with_interleaved_refusals_is_one_send() {
    let spawned = std::cell::Cell::new(0u32);
    let mut b = Adapter::new(5);
    let mut spawn = |d: u32, q: u16| {
        spawned.set(spawned.get() + 1);
        u64::from(d) * 100 + u64::from(q)
    };
    assert!(matches!(b.begin_send_request_raw(7u16, || 0u8, &mut spawn), PollOr::Ready(())));
    assert!(matches!(b.begin_send_request_raw(8u16, || 31u8, &mut spawn), PollOr::Pending(8)));
    let p: SendPolled<u16, u8> = b.poll_send_request_raw(|s| {
        assert_eq!(s, 507);
        Err(s + 1)
    });
    assert!(matches!(p, SendPolled::Pending));
    assert!(matches!(b.begin_send_request_raw(9u16, || 32u8, &mut spawn), PollOr::Pending(9)));
    let p = b.poll_send_request_raw(|s| {
        assert_eq!(s, 508);
        Ok((3u16, 70u32))
    });
    match p {
        SendPolled::Ready { result, wakers } => {
            assert_eq!(result, 3);
            assert_eq!(wakers, vec![31u8, 32u8]);
        }
        SendPolled::Pending => panic!("the send completed"),
    }
    assert_eq!(spawned.get(), 1);
    assert_eq!(b.pending_wakers(), 0);
    assert_eq!(*b.inner(), 70);
}
