use breadx_blocking::{PollOr, Polled, State, Step};

type St = State<u64, u64>;

#[test]
fn fresh_state_is_inactive() {
    let st = St::new();
    assert!(matches!(st, State::Inactive));
    assert!(!st.is_sending());
}

#[test]
fn wait_from_inactive_spawns_and_completes() {
    let mut st = St::new();
    let r = st.poll_wait(|| 10u64, |w| Ok(w as u8 + 1));
    assert!(matches!(r, Step::Ready(11)));
    assert!(matches!(st, State::Inactive));
}

#[test]
fn pending_wait_keeps_running_and_is_polled_again() {
    let mut st = St::new();
    let r: Step<u8> = st.poll_wait(|| 10u64, |w| Err(w + 1));
    assert!(matches!(r, Step::Pending));
    assert!(matches!(st, State::Wait(11)));
    let r = st.poll_wait(|| panic!("a second wait task"), |w| Ok(w as u8));
    assert!(matches!(r, Step::Ready(11)));
    assert!(matches!(st, State::Inactive));
}

#[test]
fn wait_parks_while_a_request_is_sent() {
    let mut st = St::new();
    let r = st.begin_send_request(3u16, |q| u64::from(q) + 1);
    assert!(matches!(r, PollOr::Ready(())));
    assert!(st.is_sending());
    let r: Step<u8> = st.poll_wait(|| panic!("no wait while sending"), |_w| panic!("no poll while sending"));
    assert!(matches!(r, Step::Park));
    assert!(matches!(st, State::SendRequest(4)));
}

#[test]
fn begin_send_is_refused_while_anything_runs() {
    let mut st = St::new();
    let _: Step<u8> = st.poll_wait(|| 1u64, |w| Err(w));
    let r = st.begin_send_request(3u16, |_q| panic!("no send while waiting"));
    assert!(matches!(r, PollOr::Pending(3)));
    assert!(matches!(st, State::Wait(1)));

    let mut st = St::new();
    let _ = st.begin_send_request(1u16, |q| u64::from(q));
    let r = st.begin_send_request(2u16, |_q| panic!("second send"));
    assert!(matches!(r, PollOr::Pending(2)));
    assert!(matches!(st, State::SendRequest(1)));
}

#[test]
fn completed_send_frees_the_state_for_the_next_request() {
    let mut st = St::new();
    let _ = st.begin_send_request(1u16, |q| u64::from(q) + 5);
    let p: Polled<u16> = st.poll_send_request(|s| Err(s));
    assert!(matches!(p, Polled::Pending));
    assert!(matches!(st, State::SendRequest(6)));
    let p = st.poll_send_request(|s| Ok(s as u16 * 2));
    assert!(matches!(p, Polled::Ready(12)));
    assert!(matches!(st, State::Inactive));
    let r = st.begin_send_request(9u16, |q| u64::from(q));
    assert!(matches!(r, PollOr::Ready(())));
}

#[test]
fn reset_returns_the_running_task() {
    let mut st = St::new();
    let _ = st.begin_send_request(1u16, |q| u64::from(q) + 5);
    let old = st.reset();
    assert!(matches!(old, State::SendRequest(6)));
    assert!(matches!(st, State::Inactive));
}

#[test]
fn interleaved_calls_during_a_send_make_no_task() {
    let spawned = std::cell::Cell::new(0u32);
    let mut st = St::new();
    let r = st.begin_send_request(4u16, |q| {
        spawned.set(spawned.get() + 1);
        u64::from(q) * 10
    });
    assert!(matches!(r, PollOr::Ready(())));
    let w: Step<u8> = st.poll_wait(|| panic!("no wait task while sending"), |_w| panic!("no wait poll"));
    assert!(matches!(w, Step::Park));
    let r = st.begin_send_request(5u16, |_q| panic!("no second send task"));
    assert!(matches!(r, PollOr::Pending(5)));
    let p: Polled<u16> = st.poll_send_request(|s| Err(s + 1));
    assert!(matches!(p, Polled::Pending));
    assert!(matches!(st, State::SendRequest(41)));
    let p = st.poll_send_request(|s| Ok(s as u16));
    assert!(matches!(p, Polled::Ready(41)));
    assert!(matches!(st, State::Inactive));
    assert_eq!(spawned.get(), 1);
}

#[test]
fn run_of_wait_polls_on_shared_state_makes_one_task() {
    let spawned = std::cell::Cell::new(0u32);
    let mut st = St::new();
    for round in 0..3u64 {
        let r = st.poll_wait(
            || {
                spawned.set(spawned.get() + 1);
                100u64
            },
            |w| if round < 2 { Err(w + 1) } else { Ok(w as u8) },
        );
        if round < 2 {
            assert!(matches!(r, Step::Pending));
        } else {
            assert!(matches!(r, Step::Ready(102)));
        }
    }
    assert_eq!(spawned.get(), 1);
    assert!(matches!(st, State::Inactive));
}
