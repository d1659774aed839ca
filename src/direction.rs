use vstd::prelude::*;

verus! {

/// Leading byte of an `IOID` field that marks a capture-only device (`I`).
pub const INPUT_MARK: u8 = 73;

/// Leading byte of an `IOID` field that marks a playback-only device (`O`).
pub const OUTPUT_MARK: u8 = 79;

/// Which way audio flows through a device.
#[derive(Clone, Copy, Debug, PartialEq, Eq, Structural)]
pub enum Direction {
    /// Capture.
    Input,
    /// Playback.
    Output,
}

/// The directions that a hint entry's `IOID` field grants, given the
/// field's leading byte (`None` when the field is absent).
pub open spec fn grants(ioid: Option<u8>, dir: Direction) -> bool {
    match ioid {
        None => true,
        Some(b) => match dir {
            Direction::Input => b == INPUT_MARK,
            Direction::Output => b == OUTPUT_MARK,
        },
    }
}

impl Direction {
    /// True for capture.
    pub fn is_input(&self) -> (r: bool)
        ensures
            r == (*self == Direction::Input),
    {
        match self {
            Direction::Input => true,
            Direction::Output => false,
        }
    }
}

/// Whether an entry whose `IOID` field starts with `ioid` (or is absent)
/// serves `dir`: an absent field serves both directions, `I` input only,
/// `O` output only, and any other byte neither.
pub fn serves(ioid: Option<u8>, dir: Direction) -> (r: bool)
    ensures
        r == grants(ioid, dir),
{
    match ioid {
        None => true,
        Some(b) => match dir {
            Direction::Input => b == INPUT_MARK,
            Direction::Output => b == OUTPUT_MARK,
        },
    }
}

} // verus!
