//! The ship screen's decisions for one frame: which way the held arrow keys
//! steer, whether the move is diagonal, and which sprite frame shows it.
use vstd::prelude::*;
use crate::input::{Channel, Events};

verus! {

/// Direction along one axis from the two opposing keys: -1 toward the first,
/// 1 toward the second, 0 when both or neither are held.
pub open spec fn axis(toward_low: bool, toward_high: bool) -> int {
    if toward_low && !toward_high {
        -1
    } else if toward_high && !toward_low {
        1
    } else {
        0
    }
}

/// How the held keys steer the ship.
#[derive(Clone, Copy, Debug, PartialEq, Eq, Structural)]
pub struct Steering {
    /// -1 left, 1 right, 0 no horizontal move.
    pub dx: i8,
    /// -1 up, 1 down, 0 no vertical move.
    pub dy: i8,
    /// Both axes move: each component is then scaled by 1/sqrt(2) so that the
    /// move has the same length as a straight one.
    pub diagonal: bool,
}

/// The steering for the held state `held`.
pub open spec fn steering_of(held: Seq<bool>) -> Steering {
    let dx = axis(held[Channel::Left.slot()], held[Channel::Right.slot()]);
    let dy = axis(held[Channel::Up.slot()], held[Channel::Down.slot()]);
    Steering { dx: dx as i8, dy: dy as i8, diagonal: dx != 0 && dy != 0 }
}

fn axis_of(toward_low: bool, toward_high: bool) -> (r: i8)
    ensures
        r == axis(toward_low, toward_high),
{
    if toward_low && !toward_high {
        -1
    } else if toward_high && !toward_low {
        1
    } else {
        0
    }
}

/// How the currently held arrow keys steer the ship.
pub fn steer(events: &Events) -> (r: Steering)
    ensures
        r == steering_of(events@.held),
{
    let dx = axis_of(events.is_held(Channel::Left), events.is_held(Channel::Right));
    let dy = axis_of(events.is_held(Channel::Up), events.is_held(Channel::Down));
    Steering { dx, dy, diagonal: dx != 0 && dy != 0 }
}

/// The nine frames of the ship's sprite sheet: three rows (moving up, level,
/// moving down), each with three columns (steady, forward, backward).
#[derive(Clone, Copy, Debug, PartialEq, Eq, Structural)]
pub enum ShipFrame {
    UpNorm,
    UpFast,
    UpSlow,
    MidNorm,
    MidFast,
    MidSlow,
    DownNorm,
    DownFast,
    DownSlow,
}

/// Row of the sheet for a vertical move.
pub open spec fn frame_row(dy: int) -> int {
    if dy < 0 {
        0
    } else if dy == 0 {
        1
    } else {
        2
    }
}

/// Column of the sheet for a horizontal move.
pub open spec fn frame_column(dx: int) -> int {
    if dx == 0 {
        0
    } else if dx > 0 {
        1
    } else {
        2
    }
}

impl ShipFrame {
    /// Position of the frame on the sheet, row by row.
    pub open spec fn slot(self) -> int {
        match self {
            ShipFrame::UpNorm => 0,
            ShipFrame::UpFast => 1,
            ShipFrame::UpSlow => 2,
            ShipFrame::MidNorm => 3,
            ShipFrame::MidFast => 4,
            ShipFrame::MidSlow => 5,
            ShipFrame::DownNorm => 6,
            ShipFrame::DownFast => 7,
            ShipFrame::DownSlow => 8,
        }
    }

    /// The frame that shows a move with these directions.
    pub fn facing(dx: i8, dy: i8) -> (r: ShipFrame)
        ensures
            r.slot() == 3 * frame_row(dy as int) + frame_column(dx as int),
    {
        if dy < 0 {
            if dx == 0 {
                ShipFrame::UpNorm
            } else if dx > 0 {
                ShipFrame::UpFast
            } else {
                ShipFrame::UpSlow
            }
        } else if dy == 0 {
            if dx == 0 {
                ShipFrame::MidNorm
            } else if dx > 0 {
                ShipFrame::MidFast
            } else {
                ShipFrame::MidSlow
            }
        } else {
            if dx == 0 {
                ShipFrame::DownNorm
            } else if dx > 0 {
                ShipFrame::DownFast
            } else {
                ShipFrame::DownSlow
            }
        }
    }

    /// Position of the frame on the sheet.
    pub fn index(self) -> (r: usize)
        ensures
            r == self.slot(),
            r < 9,
    {
        match self {
            ShipFrame::UpNorm => 0,
            ShipFrame::UpFast => 1,
            ShipFrame::UpSlow => 2,
            ShipFrame::MidNorm => 3,
            ShipFrame::MidFast => 4,
            ShipFrame::MidSlow => 5,
            ShipFrame::DownNorm => 6,
            ShipFrame::DownFast => 7,
            ShipFrame::DownSlow => 8,
        }
    }
}

} // verus!
