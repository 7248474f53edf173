//! The pacing of an episode that an agent drives over the wire.
//!
//! The simulation advances on every tick, but the agent is asked for its
//! input, and sent an observation, only on every fourth tick. An episode
//! ends when the player is hit or when its tick budget is used up; the
//! observation that ends it is sent at once, and the next episode starts.
//!
//! The driver that owns the connection runs the loop: before each tick it
//! asks `wants_input` and hands the input it read to `accept`; it advances
//! the simulation with `input`, and hands the outcome to `finish_tick`,
//! which says what to send and whether to start over.

use crate::input::Input;
use vstd::prelude::*;

verus! {

/// The agent's input is read once in this many ticks.
pub const TICKS_PER_INPUT: u32 = 4;

/// Number of ticks after which an episode ends by itself.
pub const EPISODE_TICKS: u32 = 3600;

/// Reward of a tick that the player survives: the bits of the
/// single-precision number nearest to 0.1.
pub const REWARD_SURVIVAL_BITS: u32 = 0x3DCCCCCD;

/// Reward of the tick that ends an episode: the bits of the
/// single-precision number -1.
pub const REWARD_PENALTY_BITS: u32 = 0xBF800000;

/// A driver of the simulation: it runs until its source of input is gone.
pub trait Backend {
    fn main_loop(&mut self);
}

/// What to tell the agent after a tick.
#[derive(Clone, Copy, Debug, PartialEq, Eq, Structural)]
pub struct Signal {
    /// The reward, as the bits of a single-precision number.
    pub reward_bits: u32,
    /// Whether the episode ended with this tick.
    pub done: bool,
}

/// Whether the agent's input is read before the tick that follows `frame`
/// earlier ticks of the episode.
pub open spec fn sampled(frame: int) -> bool {
    frame % (TICKS_PER_INPUT as int) == 0
}

/// Whether the tick that follows `frame` earlier ticks ends the episode.
pub open spec fn ends(frame: int, died: bool) -> bool {
    died || frame + 1 >= EPISODE_TICKS
}

/// What is sent after the tick that follows `frame` earlier ticks: nothing
/// on a tick between two inputs that the player survives.
pub open spec fn signal_after(frame: int, died: bool) -> Option<Signal> {
    if ends(frame, died) {
        Some(Signal { reward_bits: REWARD_PENALTY_BITS, done: true })
    } else if sampled(frame) {
        Some(Signal { reward_bits: REWARD_SURVIVAL_BITS, done: false })
    } else {
        None
    }
}

/// Number of ticks of the episode after the tick that follows `frame`
/// earlier ticks: none where that tick ended the episode.
pub open spec fn frame_after(frame: int, died: bool) -> int {
    if ends(frame, died) {
        0
    } else {
        frame + 1
    }
}

/// Number of observations sent during the first `n` ticks of an episode
/// that the player survives.
pub open spec fn signals_in(n: nat) -> nat
    decreases n,
{
    if n == 0 {
        0
    } else {
        signals_in((n - 1) as nat) + if signal_after(n - 1, false) is Some {
            1nat
        } else {
            0nat
        }
    }
}

/// Where an episode stands: how many of its ticks have passed, and the input
/// that is held until the agent sends the next.
pub struct Pacer {
    frame: u32,
    input: Input,
}

impl Pacer {
    #[verifier::type_invariant]
    spec fn within_budget(self) -> bool {
        self.frame < EPISODE_TICKS
    }

    /// Number of ticks of the episode that have passed.
    pub closed spec fn spec_frame(&self) -> u32 {
        self.frame
    }

    /// The input that is held.
    pub closed spec fn spec_input(&self) -> Input {
        self.input
    }

    /// The start of the first episode, with no control held.
    pub fn new() -> (r: Pacer)
        ensures
            r.spec_frame() == 0,
            r.spec_input()@ == 0,
    {
        Pacer { frame: 0, input: Input::empty() }
    }

    /// Number of ticks of the episode that have passed; always below the
    /// budget.
    #[verifier::when_used_as_spec(spec_frame)]
    pub fn frame(&self) -> (r: u32)
        ensures
            r == self.spec_frame(),
            r < EPISODE_TICKS,
    {
        proof {
            use_type_invariant(self);
        }
        self.frame
    }

    /// The input with which to advance the simulation.
    #[verifier::when_used_as_spec(spec_input)]
    pub fn input(&self) -> (r: Input)
        ensures
            r == self.spec_input(),
    {
        self.input
    }

    /// Whether the agent's input is to be read before the next tick.
    pub fn wants_input(&self) -> (r: bool)
        ensures
            r == sampled(self.spec_frame() as int),
    {
        self.frame % TICKS_PER_INPUT == 0
    }

    /// Takes the input that the agent sent.
    pub fn accept(&mut self, input: Input)
        ensures
            final(self).spec_input() == input,
            final(self).spec_frame() == old(self).spec_frame(),
    {
        proof {
            use_type_invariant(&*self);
        }
        self.input = input;
    }

    /// Counts the tick that was just simulated, `died` saying whether the
    /// player was hit in it. Returns what to send to the agent, if anything.
    /// Where the returned signal is `done`, the episode is over and the next
    /// one has begun: the simulation is to be set up anew.
    pub fn finish_tick(&mut self, died: bool) -> (r: Option<Signal>)
        ensures
            r == signal_after(old(self).spec_frame() as int, died),
            final(self).spec_frame() == frame_after(old(self).spec_frame() as int, died),
            final(self).spec_input() == old(self).spec_input(),
    {
        proof {
            use_type_invariant(&*self);
        }
        let input_frame: bool = self.frame % TICKS_PER_INPUT == 0;
        let frame: u32 = self.frame + 1;
        let timeout: bool = frame >= EPISODE_TICKS;
        if died || timeout {
            self.frame = 0;
            Some(Signal { reward_bits: REWARD_PENALTY_BITS, done: true })
        } else {
            self.frame = frame;
            if input_frame {
                Some(Signal { reward_bits: REWARD_SURVIVAL_BITS, done: false })
            } else {
                None
            }
        }
    }
}

/// While the player survives, one observation is sent for every four
/// ticks, the first after the first tick.
pub proof fn lemma_one_signal_in_four(n: nat)
    requires
        n < EPISODE_TICKS,
    ensures
        signals_in(n) == (n + 3) / 4,
    decreases n,
{
    if n > 0 {
        lemma_one_signal_in_four((n - 1) as nat);
    }
}

/// An episode never outlasts its budget: the tick that uses it up ends the
/// episode with the penalty, whether or not the player was hit.
pub proof fn lemma_budget_ends_episode(died: bool)
    ensures
        signal_after(
            EPISODE_TICKS - 1,
            died,
        ) == Some(Signal { reward_bits: REWARD_PENALTY_BITS, done: true }),
        frame_after(EPISODE_TICKS - 1, died) == 0,
{
}

/// A tick sends the penalty exactly when it ends the episode, and every
/// other observation carries the reward for surviving.
pub proof fn lemma_reward_of_signal(frame: int, died: bool)
    requires
        0 <= frame < EPISODE_TICKS,
    ensures
        match signal_after(frame, died) {
            Some(s) => s.done == ends(frame, died) && s.reward_bits == (if s.done {
                REWARD_PENALTY_BITS
            } else {
                REWARD_SURVIVAL_BITS
            }),
            None => !ends(frame, died) && !sampled(frame),
        },
{
}

} // verus!
