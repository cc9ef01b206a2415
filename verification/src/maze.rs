//! The tile grid: rows of one-character cells.

use vstd::prelude::*;

verus! {

/// Rows of cells, top to bottom; each row lists its cells left to right.
pub type Maze = Vec<Vec<char>>;

/// What a cell of the grid is.
#[derive(Clone, Copy, Debug, PartialEq, Eq, Structural)]
pub enum Tile {
    /// Open floor.
    Empty,
    /// A wall, with the symbol that selects its texture.
    Wall(char),
    /// The exit, drawn as a sprite.
    Goal,
    /// The place where the key appears.
    KeySpawn,
}

impl Tile {
    pub open spec fn spec_from_symbol(c: char) -> Tile {
        if c == ' ' {
            Tile::Empty
        } else if c == 'g' {
            Tile::Goal
        } else if c == 'k' {
            Tile::KeySpawn
        } else {
            Tile::Wall(c)
        }
    }

    /// The tile a grid symbol stands for: a space is open floor, `g` the
    /// goal, `k` the key spawn, anything else a wall.
    #[verifier::when_used_as_spec(spec_from_symbol)]
    pub fn from_symbol(c: char) -> (t: Tile)
        ensures
            t == Tile::spec_from_symbol(c),
    {
        if c == ' ' {
            Tile::Empty
        } else if c == 'g' {
            Tile::Goal
        } else if c == 'k' {
            Tile::KeySpawn
        } else {
            Tile::Wall(c)
        }
    }
}

/// The grid as a sequence of rows of symbols.
pub open spec fn grid_of(maze: &Maze) -> Seq<Seq<char>> {
    Seq::new(maze@.len(), |j: int| maze@[j]@)
}

/// Whether column `i` of row `j` is a cell of the grid.
pub open spec fn in_grid(grid: Seq<Seq<char>>, i: int, j: int) -> bool {
    0 <= j < grid.len() && 0 <= i < grid[j].len()
}

/// The symbol at column `i` of row `j`, or `None` outside the grid.
pub fn cell(maze: &Maze, i: u64, j: u64) -> (c: Option<char>)
    ensures
        c == (if in_grid(grid_of(maze), i as int, j as int) {
            Some(grid_of(maze)[j as int][i as int])
        } else {
            None
        }),
{
    if j < maze.len() as u64 {
        let row = &maze[j as usize];
        if i < row.len() as u64 {
            return Some(row[i as usize]);
        }
    }
    None
}

} // verus!
