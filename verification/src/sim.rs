//! A board in software: it keeps what the raw pin surface was last told, so
//! that the accesses this library hands out can be run and looked at off
//! the hardware.

use vstd::prelude::*;
use crate::pins::{PinMode, NUM_PINS};
use crate::raw::RawOp;

verus! {

/// What a board was last told about its pins: for each pin the mode it was
/// set to, if any, and whether it was last driven high.
pub struct BoardView {
    pub modes: Seq<Option<PinMode>>,
    pub levels: Seq<bool>,
}

/// The board after one access. An access to a pin that the board does not
/// have, and a delay, leave it as it was.
pub open spec fn apply(board: BoardView, op: RawOp) -> BoardView {
    match op {
        RawOp::SetMode { pin, mode } => if (pin as int) < board.modes.len() {
            BoardView { modes: board.modes.update(pin as int, Some(mode)), levels: board.levels }
        } else {
            board
        },
        RawOp::Write { pin, high } => if (pin as int) < board.levels.len() {
            BoardView { modes: board.modes, levels: board.levels.update(pin as int, high) }
        } else {
            board
        },
        RawOp::Delay { ms } => board,
    }
}

/// The board after the accesses `ops`, performed in order.
pub open spec fn replay(board: BoardView, ops: Seq<RawOp>) -> BoardView
    decreases ops.len(),
{
    if ops.len() == 0 {
        board
    } else {
        apply(replay(board, ops.drop_last()), ops.last())
    }
}

/// A board fresh from reset: no pin was configured, and none is driven high.
pub open spec fn reset_board() -> BoardView {
    BoardView {
        modes: Seq::new(NUM_PINS as nat, |i: int| None::<PinMode>),
        levels: Seq::new(NUM_PINS as nat, |i: int| false),
    }
}

/// A simulated board with `NUM_PINS` pins.
pub struct SimBoard {
    modes: [Option<PinMode>; NUM_PINS],
    levels: [bool; NUM_PINS],
}

impl View for SimBoard {
    type V = BoardView;

    closed spec fn view(&self) -> BoardView {
        BoardView { modes: self.modes@, levels: self.levels@ }
    }
}

impl SimBoard {
    /// A board fresh from reset.
    pub fn new() -> (board: SimBoard)
        ensures
            board@ == reset_board(),
    {
        let board = SimBoard { modes: [None; NUM_PINS], levels: [false; NUM_PINS] };
        assert(board@.modes =~= reset_board().modes);
        assert(board@.levels =~= reset_board().levels);
        board
    }

    /// Performs one access.
    pub fn apply(&mut self, op: RawOp)
        ensures
            final(self)@ == apply(old(self)@, op),
    {
        match op {
            RawOp::SetMode { pin, mode } => {
                if (pin as usize) < NUM_PINS {
                    self.modes[pin as usize] = Some(mode);
                }
            },
            RawOp::Write { pin, high } => {
                if (pin as usize) < NUM_PINS {
                    self.levels[pin as usize] = high;
                }
            },
            RawOp::Delay { ms: _ } => {},
        }
    }

    /// Performs the accesses `ops`, in order.
    pub fn run(&mut self, ops: &Vec<RawOp>)
        ensures
            final(self)@ == replay(old(self)@, ops@),
    {
        let mut i: usize = 0;
        while i < ops.len()
            invariant
                i <= ops@.len(),
                self@ == replay(old(self)@, ops@.take(i as int)),
            decreases ops@.len() - i,
        {
            self.apply(ops[i]);
            proof {
                assert(ops@.take(i + 1).drop_last() =~= ops@.take(i as int));
            }
            i += 1;
        }
        proof {
            assert(ops@.take(i as int) =~= ops@);
        }
    }

    /// The raw level of `pin`: 1 if it was last driven high, else 0, and 0
    /// for a pin that the board does not have.
    pub fn digital_read(&self, pin: u8) -> (raw: u8)
        ensures
            raw == if (pin as int) < NUM_PINS && self@.levels[pin as int] {
                1u8
            } else {
                0u8
            },
    {
        if (pin as usize) < NUM_PINS && self.levels[pin as usize] {
            1
        } else {
            0
        }
    }

    /// The mode that `pin` was last set to, if it was set to any.
    pub fn mode_of(&self, pin: u8) -> (mode: Option<PinMode>)
        ensures
            mode == if (pin as int) < NUM_PINS {
                self@.modes[pin as int]
            } else {
                None::<PinMode>
            },
    {
        if (pin as usize) < NUM_PINS {
            self.modes[pin as usize]
        } else {
            None
        }
    }
}

} // verus!
