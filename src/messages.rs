use vstd::prelude::*;

verus! {

/// What the server tells its clients.
#[derive(Clone, Debug, PartialEq, Eq)]
pub enum ServerMsg {
    StatusUpdate { value: String },
    PlaySound { name: String },
}

/// The animation a client asks for.
#[derive(Clone, Copy, Debug, PartialEq, Eq, Structural)]
pub enum WorkMode {
    Static,
    Blink,
    Dot,
    Custom,
}

/// The colour a player picked.
#[derive(Clone, Copy, Debug, PartialEq, Eq, Structural)]
pub enum PlayerColors {
    White,
    Green,
    Blue,
    Orange,
}

pub open spec fn player_color(p: PlayerColors) -> (u8, u8, u8) {
    match p {
        PlayerColors::White => (255, 255, 255),
        PlayerColors::Green => (0, 255, 0),
        PlayerColors::Blue => (0, 0, 255),
        PlayerColors::Orange => (255, 147, 15),
    }
}

impl PlayerColors {
    pub fn get_color(&self) -> (r: (u8, u8, u8))
        ensures
            r == player_color(*self),
    {
        match self {
            PlayerColors::White => (255, 255, 255),
            PlayerColors::Green => (0, 255, 0),
            PlayerColors::Blue => (0, 0, 255),
            PlayerColors::Orange => (255, 147, 15),
        }
    }
}

} // verus!
