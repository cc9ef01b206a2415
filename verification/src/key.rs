//! Point sprites.

use vstd::prelude::*;
use crate::player::Vector2;

verus! {

/// A point sprite: where it stands in the world and which image it shows.
#[derive(Clone, Copy, Debug, PartialEq, Eq, Structural)]
pub struct Key {
    pub pos: Vector2,
    pub texture_key: char,
}

impl Key {
    /// The sprite at the fixed-point position `(x, y)`.
    pub fn new(x: i64, y: i64, texture_key: char) -> (key: Key)
        ensures
            key == (Key { pos: Vector2 { x, y }, texture_key }),
    {
        Key { pos: Vector2 { x, y }, texture_key }
    }
}

/// A battery: a sprite that cycles through three images and wanders.
/// Its timers count milliseconds.
pub struct Battery {
    pub pos: Vector2,
    pub texture_keys: [char; 3],
    pub current_frame: usize,
    pub frame_timer: i64,
    pub frame_duration: i64,
    pub move_timer: i64,
    pub move_duration: i64,
    pub target_pos: Vector2,
}

impl Battery {
    /// A battery at rest at the fixed-point position `(x, y)`, on its first
    /// image, that changes image every 200 ms and moves every 2 s.
    pub fn new(x: i64, y: i64, texture_keys: [char; 3]) -> (battery: Battery)
        ensures
            battery.pos == (Vector2 { x, y }),
            battery.target_pos == (Vector2 { x, y }),
            battery.texture_keys == texture_keys,
            battery.current_frame == 0,
            battery.frame_timer == 0,
            battery.frame_duration == 200,
            battery.move_timer == 0,
            battery.move_duration == 2000,
    {
        Battery {
            pos: Vector2 { x, y },
            texture_keys,
            current_frame: 0,
            frame_timer: 0,
            frame_duration: 200,
            move_timer: 0,
            move_duration: 2000,
            target_pos: Vector2 { x, y },
        }
    }
}

} // verus!
