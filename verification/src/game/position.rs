//! The terrain of the grid.
use super::{Cell, Color};
use crate::engine::Component;
use vstd::prelude::*;

verus! {

/// The terrain of one position. A position without a tile counts as wall.
#[derive(Debug, Copy, Clone, PartialEq, Eq, Structural)]
pub enum Tile {
    Wall,
    /// Ground that no terrain feature has claimed yet.
    BoringGround,
    Ground,
    ShallowWater,
    DeepWater,
    ShortGrass,
    LongGrass,
    Tree,
}

impl Component for Tile {
}

impl Tile {
    /// How the tile looks while it is in view.
    pub open spec fn spec_render(&self) -> Cell {
        match self {
            Tile::Wall => Cell { ch: '#', fg: Color::Black, bg: Color::Yellow, bold: false },
            Tile::BoringGround => Cell {
                ch: '.',
                fg: Color::Yellow,
                bg: Color::Black,
                bold: false,
            },
            Tile::Ground => Cell { ch: '.', fg: Color::Yellow, bg: Color::Black, bold: false },
            Tile::ShallowWater => Cell {
                ch: '=',
                fg: Color::Cyan,
                bg: Color::Black,
                bold: false,
            },
            Tile::DeepWater => Cell { ch: '=', fg: Color::Cyan, bg: Color::Blue, bold: false },
            Tile::ShortGrass => Cell { ch: '.', fg: Color::Green, bg: Color::Black, bold: false },
            Tile::LongGrass => Cell { ch: '"', fg: Color::Green, bg: Color::Black, bold: false },
            Tile::Tree => Cell { ch: '#', fg: Color::Green, bg: Color::Black, bold: false },
        }
    }

    /// How the tile looks once it is out of view and only remembered: its
    /// character in white on black, or in black on white where the tile has a
    /// background of its own.
    pub open spec fn spec_render_memory(&self) -> Cell {
        let cell = self.spec_render();
        if cell.bg == Color::Black {
            Cell { ch: cell.ch, fg: Color::White, bg: Color::Black, bold: false }
        } else {
            Cell { ch: cell.ch, fg: Color::Black, bg: Color::White, bold: false }
        }
    }

    /// Whether an actor can stand on the tile.
    pub open spec fn spec_is_walkable(&self) -> bool {
        *self != Tile::Wall && *self != Tile::DeepWater && *self != Tile::Tree
    }

    /// Whether the tile blocks the view.
    pub open spec fn spec_is_obstructed(&self) -> bool {
        *self == Tile::Wall || *self == Tile::Tree
    }

    #[verifier::when_used_as_spec(spec_render)]
    pub fn render(&self) -> (cell: Cell)
        ensures
            cell == self.spec_render(),
    {
        match self {
            Tile::Wall => Cell { ch: '#', fg: Color::Black, bg: Color::Yellow, bold: false },
            Tile::BoringGround => Cell {
                ch: '.',
                fg: Color::Yellow,
                bg: Color::Black,
                bold: false,
            },
            Tile::Ground => Cell { ch: '.', fg: Color::Yellow, bg: Color::Black, bold: false },
            Tile::ShallowWater => Cell {
                ch: '=',
                fg: Color::Cyan,
                bg: Color::Black,
                bold: false,
            },
            Tile::DeepWater => Cell { ch: '=', fg: Color::Cyan, bg: Color::Blue, bold: false },
            Tile::ShortGrass => Cell { ch: '.', fg: Color::Green, bg: Color::Black, bold: false },
            Tile::LongGrass => Cell { ch: '"', fg: Color::Green, bg: Color::Black, bold: false },
            Tile::Tree => Cell { ch: '#', fg: Color::Green, bg: Color::Black, bold: false },
        }
    }

    #[verifier::when_used_as_spec(spec_render_memory)]
    pub fn render_memory(&self) -> (cell: Cell)
        ensures
            cell == self.spec_render_memory(),
    {
        let cell = self.render();
        if cell.bg == Color::Black {
            Cell { ch: cell.ch, fg: Color::White, bg: Color::Black, bold: false }
        } else {
            Cell { ch: cell.ch, fg: Color::Black, bg: Color::White, bold: false }
        }
    }

    #[verifier::when_used_as_spec(spec_is_walkable)]
    pub fn is_walkable(&self) -> (b: bool)
        ensures
            b == self.spec_is_walkable(),
    {
        *self != Tile::Wall && *self != Tile::DeepWater && *self != Tile::Tree
    }

    #[verifier::when_used_as_spec(spec_is_obstructed)]
    pub fn is_obstructed(&self) -> (b: bool)
        ensures
            b == self.spec_is_obstructed(),
    {
        *self == Tile::Wall || *self == Tile::Tree
    }
}

} // verus!
