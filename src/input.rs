//! State of the pointer and of the movement keys.
use vstd::prelude::*;

verus! {

/// What the pointer is dragging while the mouse button is held.
#[derive(Copy, Clone, Debug, PartialEq, Eq, Structural)]
pub enum DragKind {
    /// A particle of the cloth, by its grid column and row.
    Particle(usize, usize),
}

/// Forward key.
pub const MOVE_W: u32 = 0b00001;

/// Left key.
pub const MOVE_A: u32 = 0b00010;

/// Backward key.
pub const MOVE_S: u32 = 0b00100;

/// Right key.
pub const MOVE_D: u32 = 0b01000;

/// Mouse button held.
pub const MOUSE_PRESSED: u32 = 0b10000;

/// A set of the flags above.
#[derive(Copy, Clone, Debug, PartialEq, Eq, Structural)]
pub struct MovementState {
    pub bits: u32,
}

impl MovementState {
    /// No flag set.
    pub fn empty() -> (m: Self)
        ensures
            m.bits == 0,
    {
        MovementState { bits: 0 }
    }

    /// Whether every flag of `flags` is set.
    pub fn contains(&self, flags: u32) -> (r: bool)
        ensures
            r == (self.bits & flags == flags),
    {
        self.bits & flags == flags
    }

    /// Sets or clears every flag of `flags`, keeping the others.
    pub fn set(&mut self, flags: u32, value: bool)
        ensures
            final(self).bits == if value {
                old(self).bits | flags
            } else {
                old(self).bits & !flags
            },
    {
        if value {
            self.bits = self.bits | flags;
        } else {
            self.bits = self.bits & !flags;
        }
    }
}

/// Unit steps of the camera along x and z for the keys held: right minus
/// left, forward minus backward.
pub open spec fn movement_steps(m: MovementState) -> (int, int) {
    let right: int = if m.bits & MOVE_D == MOVE_D { 1 } else { 0 };
    let left: int = if m.bits & MOVE_A == MOVE_A { 1 } else { 0 };
    let forward: int = if m.bits & MOVE_W == MOVE_W { 1 } else { 0 };
    let backward: int = if m.bits & MOVE_S == MOVE_S { 1 } else { 0 };
    (right - left, forward - backward)
}

/// The camera's step along x and z for the keys held.
pub fn movement_offset(m: MovementState) -> (r: (i32, i32))
    ensures
        (r.0 as int, r.1 as int) == movement_steps(m),
{
    let mut dx: i32 = 0;
    let mut dz: i32 = 0;
    if m.contains(MOVE_W) {
        dz = dz + 1;
    }
    if m.contains(MOVE_A) {
        dx = dx - 1;
    }
    if m.contains(MOVE_S) {
        dz = dz - 1;
    }
    if m.contains(MOVE_D) {
        dx = dx + 1;
    }
    (dx, dz)
}

} // verus!
