//! The decisions of the feed's consumer loop.
//!
//! The consumer polls the quote channel: a quote is delivered to the sinks
//! and then paced, an empty channel is polled again while the engine runs,
//! and the loop ends once the engine stops with nothing pending or once every
//! producer is gone.
use vstd::prelude::*;

verus! {

/// What a poll of the quote channel found.
#[derive(Clone, Copy, PartialEq, Eq, Debug, Structural)]
pub enum Poll {
    Received,
    Empty,
    Disconnected,
}

/// What the consumer does next.
#[derive(Clone, Copy, PartialEq, Eq, Debug, Structural)]
pub enum ConsumerStep {
    /// Hand the quote to every sink, then pause.
    Deliver,
    /// Poll again.
    Spin,
    /// Leave the loop and drain what is left.
    Finish,
}

/// The consumer's next step for a poll result while the running flag reads `running`.
pub open spec fn spec_consumer_step(poll: Poll, running: bool) -> ConsumerStep {
    match poll {
        Poll::Received => ConsumerStep::Deliver,
        Poll::Empty => if running {
            ConsumerStep::Spin
        } else {
            ConsumerStep::Finish
        },
        Poll::Disconnected => ConsumerStep::Finish,
    }
}

/// Chooses the consumer's next step.
pub fn consumer_step(poll: Poll, running: bool) -> (r: ConsumerStep)
    ensures
        r == spec_consumer_step(poll, running),
{
    match poll {
        Poll::Received => ConsumerStep::Deliver,
        Poll::Empty => {
            if running {
                ConsumerStep::Spin
            } else {
                ConsumerStep::Finish
            }
        },
        Poll::Disconnected => ConsumerStep::Finish,
    }
}

/// The pause after a delivery, in nanoseconds: what is left of the interval
/// the rate asks for once the delivery's own time is spent, or nothing.
pub fn pacing_pause(required: u128, elapsed: u128) -> (r: u128)
    ensures
        r == (if required > elapsed { required - elapsed } else { 0 }),
        r + elapsed >= required,
{
    if required > elapsed {
        required - elapsed
    } else {
        0
    }
}

} // verus!
