//! The enemy's clockwork: which kind of movement and attack it has, when its
//! easing movement starts over, and on which ticks it fires. The numbers are
//! drawn once, when the enemy is made, and stay for the episode.

use rand::rngs::ThreadRng;
use rand::Rng;
use vstd::arithmetic::div_mod::{
    lemma_fundamental_div_mod, lemma_fundamental_div_mod_converse, lemma_mod_add_multiples_vanish,
};
use vstd::prelude::*;

verus! {

/// Shortest and longest wait, and shortest and longest animation, of an
/// easing movement that is drawn at random, in ticks.
pub const EASE_MIN: u64 = 30;

pub const EASE_MAX: u64 = 60;

/// Range of the divisor of an aimed attack that is drawn at random.
pub const DIRECT_DIVISOR_MIN: u64 = 4;

pub const DIRECT_DIVISOR_MAX: u64 = 8;

/// Range of the divisor of a burst attack that is drawn at random.
pub const BURST_DIVISOR_MIN: u64 = 6;

pub const BURST_DIVISOR_MAX: u64 = 10;

/// Range of the number of bullets in a burst that is drawn at random.
pub const BURST_AMOUNT_MIN: u64 = 4;

pub const BURST_AMOUNT_MAX: u64 = 8;

/// The three ways in which the enemy moves.
#[derive(Clone, Copy, Debug, PartialEq, Eq, Structural)]
pub enum MovementKind {
    /// It stays where it is.
    Static,
    /// It swings left and right along a sine.
    Sine,
    /// It eases toward a target, waits, and picks the next target.
    EaseOutExpo,
}

/// The three ways in which the enemy fires.
#[derive(Clone, Copy, Debug, PartialEq, Eq, Structural)]
pub enum PatternKind {
    /// One bullet every tick, at a turning angle.
    Spiral,
    /// One bullet aimed at the player, every few ticks.
    Direct,
    /// A fan of bullets aimed at the player, every few ticks.
    Burst,
}

/// The generator of the current thread, `rand::rngs::ThreadRng`. Nothing is
/// known of its state.
#[verifier::external_type_specification]
#[verifier::external_body]
pub struct ExThreadRng(ThreadRng);

/// `rand::Rng::gen_range` on the inclusive range `lo..=hi`: some number of
/// that range. It panics on an empty range.
#[verifier::external_body]
fn uniform(rng: &mut ThreadRng, lo: u64, hi: u64) -> (r: u64)
    requires
        lo <= hi,
    ensures
        lo <= r <= hi,
{
    rng.gen_range(lo..=hi)
}

/// The movement that stands for a draw from `0..=2`.
pub fn movement_kind_of(draw: u64) -> (r: MovementKind)
    requires
        draw <= 2,
    ensures
        r == (if draw == 0 {
            MovementKind::Static
        } else if draw == 1 {
            MovementKind::Sine
        } else {
            MovementKind::EaseOutExpo
        }),
{
    if draw == 0 {
        MovementKind::Static
    } else if draw == 1 {
        MovementKind::Sine
    } else {
        MovementKind::EaseOutExpo
    }
}

/// The attack that stands for a draw from `0..=2`.
pub fn pattern_kind_of(draw: u64) -> (r: PatternKind)
    requires
        draw <= 2,
    ensures
        r == (if draw == 0 {
            PatternKind::Spiral
        } else if draw == 1 {
            PatternKind::Direct
        } else {
            PatternKind::Burst
        }),
{
    if draw == 0 {
        PatternKind::Spiral
    } else if draw == 1 {
        PatternKind::Direct
    } else {
        PatternKind::Burst
    }
}

/// Draws one of the three movements.
pub fn pick_movement_kind(rng: &mut ThreadRng) -> MovementKind {
    let draw: u64 = uniform(rng, 0, 2);
    movement_kind_of(draw)
}

/// Draws one of the three attacks.
pub fn pick_pattern_kind(rng: &mut ThreadRng) -> PatternKind {
    let draw: u64 = uniform(rng, 0, 2);
    pattern_kind_of(draw)
}

/// The cycle of an easing movement: `anim_len` ticks of motion toward the
/// target, then `wait` ticks of rest. The cycle has at least one tick.
#[derive(Clone, Copy, Debug)]
pub struct EaseCycle {
    wait: u64,
    anim_len: u64,
}

impl EaseCycle {
    #[verifier::type_invariant]
    spec fn has_ticks(self) -> bool {
        0 < self.wait + self.anim_len <= u64::MAX
    }

    /// Ticks of rest at the end of each cycle.
    pub closed spec fn spec_wait(&self) -> u64 {
        self.wait
    }

    /// Ticks of motion at the start of each cycle.
    pub closed spec fn spec_anim_len(&self) -> u64 {
        self.anim_len
    }

    /// Length of one cycle in ticks.
    pub open spec fn spec_period(&self) -> int {
        self.spec_anim_len() + self.spec_wait()
    }

    /// How many ticks of the current cycle have passed at tick `frame`.
    pub open spec fn spec_progress(&self, frame: u64) -> int {
        frame as int % self.spec_period()
    }

    /// A cycle of the given lengths, unless it would have no tick at all or
    /// more than a tick counter can hold.
    pub fn new(wait: u64, anim_len: u64) -> (r: Option<EaseCycle>)
        ensures
            match r {
                Some(c) => c.spec_wait() == wait && c.spec_anim_len() == anim_len && 0 < wait
                    + anim_len <= u64::MAX,
                None => wait + anim_len == 0 || wait + anim_len > u64::MAX,
            },
    {
        if wait > u64::MAX - anim_len || (wait == 0 && anim_len == 0) {
            None
        } else {
            Some(EaseCycle { wait, anim_len })
        }
    }

    /// Draws a cycle whose two lengths lie in `EASE_MIN..=EASE_MAX` each.
    pub fn sample(rng: &mut ThreadRng) -> (r: EaseCycle)
        ensures
            EASE_MIN <= r.spec_wait() <= EASE_MAX,
            EASE_MIN <= r.spec_anim_len() <= EASE_MAX,
    {
        let wait: u64 = uniform(rng, EASE_MIN, EASE_MAX);
        let anim_len: u64 = uniform(rng, EASE_MIN, EASE_MAX);
        EaseCycle { wait, anim_len }
    }

    /// Ticks of rest at the end of each cycle.
    #[verifier::when_used_as_spec(spec_wait)]
    pub fn wait(&self) -> (r: u64)
        ensures
            r == self.spec_wait(),
    {
        self.wait
    }

    /// Ticks of motion at the start of each cycle.
    #[verifier::when_used_as_spec(spec_anim_len)]
    pub fn anim_len(&self) -> (r: u64)
        ensures
            r == self.spec_anim_len(),
    {
        self.anim_len
    }

    /// Length of one cycle in ticks; never zero.
    pub fn period(&self) -> (r: u64)
        ensures
            r == self.spec_period(),
            r > 0,
    {
        proof {
            use_type_invariant(self);
        }
        self.anim_len + self.wait
    }

    /// How many ticks of the current cycle have passed at tick `frame`.
    pub fn progress(&self, frame: u64) -> (r: u64)
        ensures
            r == self.spec_progress(frame),
            r < self.spec_period(),
    {
        frame % self.period()
    }

    /// Whether a cycle starts at tick `frame`, which is when the enemy takes
    /// its target as the new start and picks the next target.
    pub fn restarts(&self, frame: u64) -> (r: bool)
        ensures
            r == (self.spec_progress(frame) == 0),
    {
        self.progress(frame) == 0
    }
}

/// How often an attack fires: on every tick that its divisor divides. The
/// divisor is never zero.
#[derive(Clone, Copy, Debug)]
pub struct Cadence {
    divisor: u64,
}

impl Cadence {
    #[verifier::type_invariant]
    spec fn divides(self) -> bool {
        self.divisor > 0
    }

    /// Number of ticks from one shot to the next.
    pub closed spec fn spec_divisor(&self) -> u64 {
        self.divisor
    }

    /// The cadence of one shot every `divisor` ticks, unless `divisor` is
    /// zero.
    pub fn new(divisor: u64) -> (r: Option<Cadence>)
        ensures
            match r {
                Some(c) => c.spec_divisor() == divisor && divisor > 0,
                None => divisor == 0,
            },
    {
        if divisor == 0 {
            None
        } else {
            Some(Cadence { divisor })
        }
    }

    /// Draws the cadence of an aimed attack.
    pub fn sample_direct(rng: &mut ThreadRng) -> (r: Cadence)
        ensures
            DIRECT_DIVISOR_MIN <= r.spec_divisor() <= DIRECT_DIVISOR_MAX,
    {
        let divisor: u64 = uniform(rng, DIRECT_DIVISOR_MIN, DIRECT_DIVISOR_MAX);
        Cadence { divisor }
    }

    /// Draws the cadence of a burst attack.
    pub fn sample_burst(rng: &mut ThreadRng) -> (r: Cadence)
        ensures
            BURST_DIVISOR_MIN <= r.spec_divisor() <= BURST_DIVISOR_MAX,
    {
        let divisor: u64 = uniform(rng, BURST_DIVISOR_MIN, BURST_DIVISOR_MAX);
        Cadence { divisor }
    }

    /// Number of ticks from one shot to the next; never zero.
    #[verifier::when_used_as_spec(spec_divisor)]
    pub fn divisor(&self) -> (r: u64)
        ensures
            r == self.spec_divisor(),
            r > 0,
    {
        proof {
            use_type_invariant(self);
        }
        self.divisor
    }

    /// Whether the attack fires at tick `frame`.
    pub fn fires(&self, frame: u64) -> (r: bool)
        ensures
            r == (frame as int % (self.spec_divisor() as int) == 0),
    {
        frame % self.divisor() == 0
    }
}

/// Draws the number of bullets of a burst.
pub fn sample_burst_amount(rng: &mut ThreadRng) -> (r: u64)
    ensures
        BURST_AMOUNT_MIN <= r <= BURST_AMOUNT_MAX,
{
    uniform(rng, BURST_AMOUNT_MIN, BURST_AMOUNT_MAX)
}

/// An easing movement is at the same point of its cycle one cycle later,
/// and it starts over exactly once in every cycle.
pub proof fn lemma_cycle_repeats(cycle: EaseCycle, frame: u64)
    requires
        0 < cycle.spec_period(),
        frame + cycle.spec_period() <= u64::MAX,
    ensures
        cycle.spec_progress((frame + cycle.spec_period()) as u64) == cycle.spec_progress(frame),
        0 <= cycle.spec_progress(frame) < cycle.spec_period(),
        cycle.spec_progress((frame - cycle.spec_progress(frame)) as u64) == 0,
{
    let p = cycle.spec_period();
    lemma_mod_add_multiples_vanish(frame as int, p);
    lemma_fundamental_div_mod(frame as int, p);
    let q = frame as int / p;
    let start = frame - frame as int % p;
    assert(start == q * p + 0) by (nonlinear_arith)
        requires
            frame as int == p * q + frame as int % p,
            start == frame - frame as int % p,
    ;
    assert(0 <= q) by (nonlinear_arith)
        requires
            frame as int == p * q + frame as int % p,
            0 <= frame as int % p < p,
            0 <= frame,
            0 < p,
    ;
    assert(0 <= start) by (nonlinear_arith)
        requires
            start == q * p + 0,
            0 <= q,
            0 < p,
    ;
    lemma_fundamental_div_mod_converse(start, p, q, 0);
}

} // verus!
