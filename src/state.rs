use vstd::prelude::*;

verus! {

/// The side to move.
#[derive(Clone, Copy, Debug, PartialEq, Eq, Structural)]
pub enum Side {
    Black,
    White,
}

/// The other side.
pub open spec fn opposite(s: Side) -> Side {
    match s {
        Side::Black => Side::White,
        Side::White => Side::Black,
    }
}

impl Side {
    /// Returns the other side.
    pub fn flip(self) -> (r: Self)
        ensures
            r == opposite(self),
    {
        match self {
            Self::Black => Self::White,
            Self::White => Self::Black,
        }
    }
}

impl Default for Side {
    /// Black moves first.
    fn default() -> (r: Self)
        ensures
            r == Side::Black,
    {
        Self::Black
    }
}

/// The kind of the last move: a pass or a disk played.
#[derive(Clone, Copy, Debug, PartialEq, Eq, Structural)]
pub enum MoveType {
    Pass,
    Play,
}

impl Default for MoveType {
    /// A game starts as if a disk had just been played, so that a first pass
    /// does not end it.
    fn default() -> (r: Self)
        ensures
            r == MoveType::Play,
    {
        Self::Play
    }
}

/// The game state beside the disks: who is to move and how the last move went.
#[derive(Clone, Copy, Debug)]
pub struct GameState {
    side: Side,
    last: MoveType,
}

impl GameState {
    /// The side to move.
    pub closed spec fn side(self) -> Side {
        self.side
    }

    /// The kind of the last move.
    pub closed spec fn last(self) -> MoveType {
        self.last
    }

    /// The state at the start of a game.
    pub closed spec fn opening() -> GameState {
        GameState { side: Side::Black, last: MoveType::Play }
    }

    /// The state after a disk is played.
    pub closed spec fn played(self) -> GameState {
        GameState { side: opposite(self.side), last: MoveType::Play }
    }

    /// The state after a pass.
    pub closed spec fn passed(self) -> GameState {
        GameState { side: opposite(self.side), last: MoveType::Pass }
    }

    /// Returns the state after a disk is played.
    pub fn play(self) -> (r: Self)
        ensures
            r == self.played(),
            r.side() == opposite(self.side()),
            r.last() == MoveType::Play,
    {
        Self { side: self.side.flip(), last: MoveType::Play }
    }

    /// Returns the state after a pass.
    pub fn pass(self) -> (r: Self)
        ensures
            r == self.passed(),
            r.side() == opposite(self.side()),
            r.last() == MoveType::Pass,
    {
        Self { side: self.side.flip(), last: MoveType::Pass }
    }

    /// Returns the side to move.
    pub fn get_side(self) -> (r: Side)
        ensures
            r == self.side(),
    {
        self.side
    }

    /// Returns the kind of the last move.
    pub fn get_last(self) -> (r: MoveType)
        ensures
            r == self.last(),
    {
        self.last
    }
}

impl Default for GameState {
    /// Black to move, as after a played disk.
    fn default() -> (r: Self)
        ensures
            r == GameState::opening(),
            r.side() == Side::Black,
            r.last() == MoveType::Play,
    {
        Self { side: Side::Black, last: MoveType::Play }
    }
}

} // verus!
