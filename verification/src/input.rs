//! The action bitmask: which of the five controls are held during a tick.

use vstd::prelude::*;

verus! {

/// Bit of the "up" control.
pub const UP: u8 = 0x01;

/// Bit of the "down" control.
pub const DOWN: u8 = 0x02;

/// Bit of the "left" control.
pub const LEFT: u8 = 0x04;

/// Bit of the "right" control.
pub const RIGHT: u8 = 0x08;

/// Bit of the "focus" modifier, which halves the player's speed.
pub const FOCUS: u8 = 0x10;

/// All bits that name a control.
pub const INPUT_MASK: u8 = 0x1f;

/// Whether every bit of `flags` is set in `bits`.
pub open spec fn holds(bits: u8, flags: u8) -> bool {
    bits & flags == flags
}

/// Whether `bits` holds one vertical and one horizontal direction at once.
pub open spec fn diagonal(bits: u8) -> bool {
    (holds(bits, UP) || holds(bits, DOWN)) && (holds(bits, LEFT) || holds(bits, RIGHT))
}

/// The player's speed per tick with no modifier: the bits of the
/// single-precision number 4.
pub const SPEED_FULL_BITS: u32 = 0x40800000;

/// The player's speed with "focus" held: the bits of the single-precision
/// number 2.
pub const SPEED_FOCUS_BITS: u32 = 0x40000000;

/// The full speed along each axis of a diagonal move: the bits of 4 divided
/// by the square root of 2, both taken in single precision.
pub const SPEED_FULL_DIAGONAL_BITS: u32 = 0x403504F3;

/// The focused speed along each axis of a diagonal move: the bits of 2
/// divided by the square root of 2, both taken in single precision.
pub const SPEED_FOCUS_DIAGONAL_BITS: u32 = 0x3FB504F3;

/// The player's speed along each axis that a held direction moves it on,
/// as the bits of a single-precision number: "focus" halves it, and a
/// diagonal move divides it by the square root of two.
pub open spec fn speed_bits_of(bits: u8) -> u32 {
    if holds(bits, FOCUS) {
        if diagonal(bits) {
            SPEED_FOCUS_DIAGONAL_BITS
        } else {
            SPEED_FOCUS_BITS
        }
    } else {
        if diagonal(bits) {
            SPEED_FULL_DIAGONAL_BITS
        } else {
            SPEED_FULL_BITS
        }
    }
}

/// A set of held controls, one bit each.
///
/// Only the five known bits are ever set.
#[derive(Clone, Copy, Debug, PartialEq, Eq, Structural)]
pub struct Input {
    bits: u8,
}

impl View for Input {
    type V = u8;

    closed spec fn view(&self) -> u8 {
        self.bits
    }
}

impl Input {
    #[verifier::type_invariant]
    spec fn known_bits_only(self) -> bool {
        self.bits & INPUT_MASK == self.bits
    }

    /// No control held.
    pub fn empty() -> (r: Input)
        ensures
            r@ == 0,
    {
        assert(0u8 & 0x1fu8 == 0u8) by (bit_vector);
        Input { bits: 0 }
    }

    /// Only "up" held.
    pub fn up() -> (r: Input)
        ensures
            r@ == UP,
    {
        assert(0x01u8 & 0x1fu8 == 0x01u8) by (bit_vector);
        Input { bits: UP }
    }

    /// Only "down" held.
    pub fn down() -> (r: Input)
        ensures
            r@ == DOWN,
    {
        assert(0x02u8 & 0x1fu8 == 0x02u8) by (bit_vector);
        Input { bits: DOWN }
    }

    /// Only "left" held.
    pub fn left() -> (r: Input)
        ensures
            r@ == LEFT,
    {
        assert(0x04u8 & 0x1fu8 == 0x04u8) by (bit_vector);
        Input { bits: LEFT }
    }

    /// Only "right" held.
    pub fn right() -> (r: Input)
        ensures
            r@ == RIGHT,
    {
        assert(0x08u8 & 0x1fu8 == 0x08u8) by (bit_vector);
        Input { bits: RIGHT }
    }

    /// Only the "focus" modifier held.
    pub fn focus() -> (r: Input)
        ensures
            r@ == FOCUS,
    {
        assert(0x10u8 & 0x1fu8 == 0x10u8) by (bit_vector);
        Input { bits: FOCUS }
    }

    /// Decodes a raw byte, dropping the bits that name no control.
    pub fn from_bits_truncate(bits: u8) -> (r: Input)
        ensures
            r@ == bits & INPUT_MASK,
    {
        let kept: u8 = bits & INPUT_MASK;
        assert((bits & 0x1fu8) & 0x1fu8 == bits & 0x1fu8) by (bit_vector);
        Input { bits: kept }
    }

    /// The raw bitmask; no bit outside `INPUT_MASK` is set.
    pub fn bits(&self) -> (r: u8)
        ensures
            r == self@,
            r & INPUT_MASK == r,
    {
        proof {
            use_type_invariant(self);
        }
        self.bits
    }

    /// Whether no control is held.
    pub fn is_empty(&self) -> (r: bool)
        ensures
            r == (self@ == 0),
    {
        self.bits == 0
    }

    /// Whether every control of `other` is held in `self`.
    pub fn contains(&self, other: Input) -> (r: bool)
        ensures
            r == holds(self@, other@),
    {
        self.bits & other.bits == other.bits
    }

    /// The controls held in either set.
    pub fn union(self, other: Input) -> (r: Input)
        ensures
            r@ == self@ | other@,
    {
        proof {
            use_type_invariant(self);
            use_type_invariant(other);
        }
        let a: u8 = self.bits;
        let b: u8 = other.bits;
        assert(a & 0x1fu8 == a && b & 0x1fu8 == b ==> (a | b) & 0x1fu8 == (a | b)) by (bit_vector);
        Input { bits: a | b }
    }

    /// Adds the controls of `other` to `self`.
    pub fn insert(&mut self, other: Input)
        ensures
            final(self)@ == old(self)@ | other@,
    {
        *self = self.union(other);
    }

    /// Whether a vertical and a horizontal direction are held together, which
    /// is when the player's speed is divided by the square root of two.
    pub fn is_diagonal(&self) -> (r: bool)
        ensures
            r == diagonal(self@),
    {
        let v: bool = self.bits & UP == UP || self.bits & DOWN == DOWN;
        let h: bool = self.bits & LEFT == LEFT || self.bits & RIGHT == RIGHT;
        v && h
    }

    /// The speed, per tick and per axis, at which these controls move the
    /// player, as the bits of a single-precision number.
    pub fn speed_bits(&self) -> (r: u32)
        ensures
            r == speed_bits_of(self@),
    {
        let focus: bool = self.bits & FOCUS == FOCUS;
        if focus {
            if self.is_diagonal() {
                SPEED_FOCUS_DIAGONAL_BITS
            } else {
                SPEED_FOCUS_BITS
            }
        } else {
            if self.is_diagonal() {
                SPEED_FULL_DIAGONAL_BITS
            } else {
                SPEED_FULL_BITS
            }
        }
    }
}

} // verus!
