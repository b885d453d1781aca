//! The data that each simulated entity carries.
use vstd::prelude::*;

verus! {

/// The stable handle that the session gave a player (0 or 1).
#[derive(Clone, Copy, Debug, PartialEq, Eq, Structural)]
pub struct Player {
    pub handle: usize,
}

/// Whether the weapon may fire, and the milliseconds of cooldown left.
#[derive(Clone, Copy, Debug, PartialEq, Eq, Structural)]
pub struct BulletReady(pub bool, pub i64);

/// A direction in thousandths of a unit vector.
#[derive(Clone, Copy, Debug, PartialEq, Eq, Structural)]
pub struct MoveDir(pub i64, pub i64);

#[derive(Clone, Copy, Debug, PartialEq, Eq, Structural)]
pub struct Health(pub i32);

/// Milliseconds left before a dead player comes back.
#[derive(Clone, Copy, Debug, PartialEq, Eq, Structural)]
pub struct PlayerTimer(pub i64);

/// The picture a renderer shows for a player.
#[derive(Clone, Copy, Debug, PartialEq, Eq, Structural)]
pub enum SpriteImage {
    Player1,
    Player2,
    Remains,
}

/// Which way a player's sprite is turned, following the aim.
#[derive(Clone, Copy, Debug, PartialEq, Eq, Structural)]
pub enum Facing {
    Right,
    Left,
}

/// A projectile: position in millionths of a unit, and its fixed direction.
#[derive(Clone, Copy, Debug, PartialEq, Eq, Structural)]
pub struct Bullet {
    pub x: i64,
    pub y: i64,
    pub dir: MoveDir,
}

/// Everything the simulation keeps of one player. Positions are in
/// millionths of a unit.
#[derive(Clone, Copy, Debug, PartialEq, Eq, Structural)]
pub struct PlayerEntity {
    pub player: Player,
    pub x: i64,
    pub y: i64,
    pub move_dir: MoveDir,
    pub health: Health,
    pub timer: PlayerTimer,
    pub bullet_ready: BulletReady,
    pub sprite: SpriteImage,
    pub facing: Facing,
}

impl PlayerEntity {
    pub open spec fn alive(self) -> bool {
        self.health.0 > 0
    }
}

} // verus!
