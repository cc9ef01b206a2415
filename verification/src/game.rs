//! The state of a round and the rules that end it.

use vstd::prelude::*;
use crate::key::Key;
use crate::maze::{cell, grid_of, in_grid, Maze, Tile};
use crate::player::{grid_cell, grid_index, Player};

verus! {

/// The time a round lasts, in milliseconds.
pub const MAX_LIFE: i64 = 999000;

/// The state of a round: the time left in milliseconds, whether the key
/// has been picked up, and whether the flashlight is on.
#[derive(Clone, Copy, Debug, PartialEq, Eq, Structural)]
pub struct GameState {
    pub life: i64,
    pub has_key: bool,
    pub flashlight_on: bool,
}

impl GameState {
    /// The state at the start of a round.
    pub open spec fn fresh() -> GameState {
        GameState { life: MAX_LIFE, has_key: false, flashlight_on: false }
    }

    /// The state at the start of a round.
    pub fn new() -> (state: GameState)
        ensures
            state == GameState::fresh(),
    {
        GameState { life: MAX_LIFE, has_key: false, flashlight_on: false }
    }

    /// Sets the time left, `elapsed` milliseconds after the round began.
    pub fn update_life(&mut self, elapsed: u64)
        ensures
            final(self).life == (if elapsed >= MAX_LIFE { 0 } else { MAX_LIFE - elapsed }),
            final(self).has_key == old(self).has_key,
            final(self).flashlight_on == old(self).flashlight_on,
    {
        self.life = if elapsed >= MAX_LIFE as u64 { 0 } else { MAX_LIFE - elapsed as i64 };
    }

    /// Whether any time is left.
    pub fn is_alive(&self) -> (alive: bool)
        ensures
            alive == (self.life > 0),
    {
        self.life > 0
    }

    pub fn collect_key(&mut self)
        ensures
            *final(self) == (GameState { has_key: true, ..*old(self) }),
    {
        self.has_key = true;
    }

    /// Starts the round again.
    pub fn reset(&mut self)
        ensures
            *final(self) == GameState::fresh(),
    {
        self.life = MAX_LIFE;
        self.has_key = false;
        self.flashlight_on = false;
    }
}

/// Whether the camera stands in the cell that `key` lies in.
pub open spec fn key_here(player: Player, key: Key, block_size: int) -> bool {
    grid_index(player.pos.x as int, block_size) == grid_index(key.pos.x as int, block_size)
        && grid_index(player.pos.y as int, block_size) == grid_index(
        key.pos.y as int,
        block_size,
    )
}

/// Picks up the key when the camera stands in the cell of one of `keys`
/// and has none yet. Tells whether it did.
pub fn check_key_collision(
    player: &Player,
    keys: &[Key],
    game_state: &mut GameState,
    block_size: usize,
) -> (taken: bool)
    requires
        block_size > 0,
    ensures
        taken == (!old(game_state).has_key && exists|i: int|
            0 <= i < keys@.len() && key_here(*player, #[trigger] keys@[i], block_size as int)),
        final(game_state).has_key == (old(game_state).has_key || taken),
        final(game_state).life == old(game_state).life,
        final(game_state).flashlight_on == old(game_state).flashlight_on,
{
    let player_grid_x = grid_cell(player.pos.x, block_size);
    let player_grid_y = grid_cell(player.pos.y, block_size);
    let mut i: usize = 0;
    while i < keys.len()
        invariant
            i <= keys@.len(),
            block_size > 0,
            player_grid_x == grid_index(player.pos.x as int, block_size as int),
            player_grid_y == grid_index(player.pos.y as int, block_size as int),
            *game_state == *old(game_state),
            forall|k: int|
                0 <= k < i ==> !(!game_state.has_key && key_here(
                    *player,
                    #[trigger] keys@[k],
                    block_size as int,
                )),
        decreases keys@.len() - i,
    {
        let key_grid_x = grid_cell(keys[i].pos.x, block_size);
        let key_grid_y = grid_cell(keys[i].pos.y, block_size);
        if player_grid_x == key_grid_x && player_grid_y == key_grid_y && !game_state.has_key {
            game_state.collect_key();
            return true;
        }
        i = i + 1;
    }
    false
}

/// Whether the round is won: the camera stands on the goal with the key.
pub fn check_goal_collision(
    player: &Player,
    maze: &Maze,
    game_state: &GameState,
    block_size: usize,
) -> (won: bool)
    requires
        block_size > 0,
    ensures
        won == ({
            let i = grid_index(player.pos.x as int, block_size as int);
            let j = grid_index(player.pos.y as int, block_size as int);
            in_grid(grid_of(maze), i, j) && grid_of(maze)[j][i] == 'g' && game_state.has_key
        }),
{
    let player_grid_x = grid_cell(player.pos.x, block_size);
    let player_grid_y = grid_cell(player.pos.y, block_size);
    match cell(maze, player_grid_x, player_grid_y) {
        Some(symbol) => match Tile::from_symbol(symbol) {
            Tile::Goal => game_state.has_key,
            _ => false,
        },
        None => false,
    }
}

} // verus!
