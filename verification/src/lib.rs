//! An asynchronous display over a blocking one: the blocking operations run on
//! other threads, and this library keeps track of where the display is, which
//! operation is running, and who is waiting for it.
pub mod blocking_display;
pub mod immutable;
pub mod blocking_runs;
pub mod immutable_runs;

pub use blocking_display::{
    initial_view, BlockingDisplay, BlockingDisplayView, Holder, InFlight, PollOr, Polled,
    SendPolled,
};
pub use immutable::{State, Step};
