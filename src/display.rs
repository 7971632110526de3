use vstd::prelude::*;

verus! {

/// The colors a cell or a piece can be drawn with.
#[derive(Debug, Clone, Copy, PartialEq, Eq, Structural)]
pub enum Color {
    Black,
    SkyBlue,
    Purple,
    Yellow,
    Blue,
    Orange,
    Green,
    Red,
}

/// What a cell of the board holds.
#[derive(Debug, Clone, Copy, PartialEq, Eq, Structural)]
pub enum DisplayAction {
    /// Nothing: the cell is free.
    Empty,
    /// The footprint of the falling piece, painted for one frame only.
    MustClean,
    /// A cell of a piece that has locked.
    Persist,
}

/// One cell of the board: its occupancy and the color it is drawn with.
#[derive(Debug, Clone, Copy, PartialEq, Eq, Structural)]
pub struct DisplayBlock {
    pub color: Option<Color>,
    pub action: DisplayAction,
}

/// The background color of an empty cell.
pub const BACKGROUND: Color = Color::Black;

impl DisplayBlock {
    /// An empty cell on the background color.
    pub open spec fn blank() -> DisplayBlock {
        DisplayBlock { color: Some(Color::Black), action: DisplayAction::Empty }
    }

    /// A cell holds a color whenever it is not empty.
    pub open spec fn wf(self) -> bool {
        self.action != DisplayAction::Empty ==> self.color.is_some()
    }

    /// Whether the cell is drawn as a filled square (a locked or a falling piece)
    /// rather than as an outline.
    pub fn is_filled(&self) -> (r: bool)
        ensures
            r == (self.action != DisplayAction::Empty),
    {
        match self.action {
            DisplayAction::Persist | DisplayAction::MustClean => true,
            DisplayAction::Empty => false,
        }
    }
}

impl Default for DisplayBlock {
    fn default() -> (r: DisplayBlock)
        ensures
            r == DisplayBlock::blank(),
    {
        DisplayBlock { color: Some(BACKGROUND), action: DisplayAction::Empty }
    }
}

} // verus!
