//! The per-tick systems, run in a fixed order by `advance_frame`.
//!
//! Every system is a total function of the state and the tick's inputs: the
//! spec functions below say what it computes, and each executable system is
//! proved to compute exactly that.
use vstd::prelude::*;
use crate::aim::{aim_cos, aim_direction, aim_sin, DIR_ONE};
use crate::components::{
    Bullet, BulletReady, Facing, Health, MoveDir, Player, PlayerEntity, PlayerTimer, SpriteImage,
};
use crate::input::{decode_input, decode_spec, PlayerIntent};
use crate::resources::{RollbackState, Scores};

verus! {

/// Side of the square arena, in map units.
pub const MAP_SIZE: u32 = 41;

/// Half the arena side, in millionths: projectiles beyond it are removed.
pub const HALF_MAP: i64 = 20_500_000;

/// How far a player's centre may go from the origin on each axis.
pub const PLAYER_LIMIT: i64 = HALF_MAP - 500_000;

/// Distance moved per tick, in millionths, for each thousandth of direction
/// (0.13 units per tick).
pub const MOVE_SPEED: i64 = 130;

/// Distance a projectile flies per tick, per thousandth of direction
/// (0.35 units per tick).
pub const BULLET_SPEED: i64 = 350;

pub const PLAYER_RADIUS: i64 = 500_000;

pub const BULLET_RADIUS: i64 = 25_000;

/// Offset of a new projectile from the shooter's centre, per thousandth of
/// direction: the two radii together.
pub const SPAWN_OFFSET: i64 = 525;

/// Component of a diagonal unit direction, in thousandths.
pub const DIAGONAL: i64 = 707;

/// Milliseconds per tick.
pub const DELTA_TIME: i64 = 16;

/// Milliseconds between two shots.
pub const FIRE_RATE: i64 = 100;

/// Milliseconds a dead player waits before coming back.
pub const RESPAWN_TIME: i64 = 1000;

pub const FULL_HEALTH: i32 = 100;

/// Damage of one hit: enough to kill from full health.
pub const HIT_DAMAGE: i32 = 200;

/// Largest coordinate that any entity ever holds, with a wide margin.
pub const COORD_BOUND: i64 = 1_000_000_000_000;

pub open spec fn clamp(v: int, lo: int, hi: int) -> int {
    if v < lo {
        lo
    } else if v > hi {
        hi
    } else {
        v
    }
}

pub open spec fn player_wf(p: PlayerEntity) -> bool {
    &&& -PLAYER_LIMIT <= p.x <= PLAYER_LIMIT
    &&& -PLAYER_LIMIT <= p.y <= PLAYER_LIMIT
    &&& -DIR_ONE <= p.move_dir.0 <= DIR_ONE
    &&& -DIR_ONE <= p.move_dir.1 <= DIR_ONE
    &&& 0 < p.timer.0 <= RESPAWN_TIME
    &&& -DELTA_TIME < p.bullet_ready.1 <= FIRE_RATE
    &&& !p.bullet_ready.0 ==> p.bullet_ready.1 > 0
    &&& p.alive() ==> p.timer.0 == RESPAWN_TIME
    &&& p.health.0 <= FULL_HEALTH
}

pub open spec fn bullet_wf(b: Bullet) -> bool {
    &&& -COORD_BOUND <= b.x <= COORD_BOUND
    &&& -COORD_BOUND <= b.y <= COORD_BOUND
    &&& -DIR_ONE <= b.dir.0 <= DIR_ONE
    &&& -DIR_ONE <= b.dir.1 <= DIR_ONE
}

pub open spec fn players_wf(s: Seq<PlayerEntity>) -> bool {
    forall|i: int| 0 <= i < s.len() ==> player_wf(#[trigger] s[i])
}

pub open spec fn bullets_wf(s: Seq<Bullet>) -> bool {
    forall|i: int| 0 <= i < s.len() ==> bullet_wf(#[trigger] s[i])
}

/// Every player's handle indexes the input set.
pub open spec fn handles_within(s: Seq<PlayerEntity>, n: int) -> bool {
    forall|i: int| 0 <= i < s.len() ==> (#[trigger] s[i]).player.handle < n
}

pub open spec fn input_of(inputs: Seq<u16>, p: PlayerEntity) -> u16 {
    inputs[p.player.handle as int]
}

pub open spec fn default_sprite(handle: usize) -> SpriteImage {
    if handle == 0 {
        SpriteImage::Player1
    } else {
        SpriteImage::Player2
    }
}

// ---------------------------------------------------------------- respawn

/// One tick of the respawn countdown of a dead player; a living player is
/// left alone.
pub open spec fn respawned(p: PlayerEntity) -> PlayerEntity {
    if p.alive() {
        p
    } else if p.timer.0 - DELTA_TIME <= 0 {
        PlayerEntity {
            x: 0,
            y: 0,
            health: Health(FULL_HEALTH),
            timer: PlayerTimer(RESPAWN_TIME),
            sprite: default_sprite(p.player.handle),
            ..p
        }
    } else {
        PlayerEntity { timer: PlayerTimer((p.timer.0 - DELTA_TIME) as i64), ..p }
    }
}

fn respawn_one(p: PlayerEntity) -> (r: PlayerEntity)
    requires
        player_wf(p),
    ensures
        r == respawned(p),
        player_wf(r),
{
    if p.health.0 > 0 {
        p
    } else if p.timer.0 - DELTA_TIME <= 0 {
        let sprite = if p.player.handle == 0 {
            SpriteImage::Player1
        } else {
            SpriteImage::Player2
        };
        PlayerEntity {
            x: 0,
            y: 0,
            health: Health(FULL_HEALTH),
            timer: PlayerTimer(RESPAWN_TIME),
            sprite,
            ..p
        }
    } else {
        PlayerEntity { timer: PlayerTimer(p.timer.0 - DELTA_TIME), ..p }
    }
}

/// Counts down every dead player's timer and brings back, at the origin
/// and with full health, those whose timer ran out.
pub fn respawn_players(players: &mut Vec<PlayerEntity>)
    requires
        players_wf(old(players)@),
    ensures
        final(players)@ == old(players)@.map_values(|p: PlayerEntity| respawned(p)),
        players_wf(final(players)@),
{
    let ghost start = players@;
    let n = players.len();
    let mut i: usize = 0;
    while i < n
        invariant
            n == players.len(),
            n == start.len(),
            0 <= i <= n,
            players_wf(start),
            forall|j: int| 0 <= j < i ==> players@[j] == respawned(start[j]),
            forall|j: int| i <= j < n ==> players@[j] == start[j],
            players_wf(players@),
        decreases n - i,
    {
        let q = respawn_one(players[i]);
        players.set(i, q);
        i = i + 1;
    }
    assert(players@ =~= start.map_values(|p: PlayerEntity| respawned(p)));
}

// --------------------------------------------------------------- movement

/// +1, -1 or 0 along one axis, from the two opposing flags.
pub open spec fn axis(pos: bool, neg: bool) -> int {
    (if pos {
        1int
    } else {
        0int
    }) - (if neg {
        1int
    } else {
        0int
    })
}

/// The normalized direction that an intent asks for; meaningful only where
/// the intent is not zero.
pub open spec fn intent_dir(i: PlayerIntent) -> MoveDir {
    let dx = axis(i.right, i.left);
    let dy = axis(i.up, i.down);
    let k = if dx != 0 && dy != 0 {
        DIAGONAL as int
    } else {
        DIR_ONE as int
    };
    MoveDir((dx * k) as i64, (dy * k) as i64)
}

pub open spec fn intent_is_zero(i: PlayerIntent) -> bool {
    axis(i.right, i.left) == 0 && axis(i.up, i.down) == 0
}

/// One tick of movement: a living player with a non-zero intent turns to it
/// and steps along it, kept inside the arena.
pub open spec fn moved(p: PlayerEntity, input: u16) -> PlayerEntity {
    let i = decode_spec(input);
    if !p.alive() || intent_is_zero(i) {
        p
    } else {
        let d = intent_dir(i);
        PlayerEntity {
            move_dir: d,
            x: clamp(p.x + d.0 * MOVE_SPEED, -PLAYER_LIMIT as int, PLAYER_LIMIT as int) as i64,
            y: clamp(p.y + d.1 * MOVE_SPEED, -PLAYER_LIMIT as int, PLAYER_LIMIT as int) as i64,
            ..p
        }
    }
}

fn axis_exec(pos: bool, neg: bool) -> (r: i64)
    ensures
        r == axis(pos, neg),
{
    let a: i64 = if pos {
        1
    } else {
        0
    };
    let b: i64 = if neg {
        1
    } else {
        0
    };
    a - b
}

fn clamp_exec(v: i64, lo: i64, hi: i64) -> (r: i64)
    requires
        lo <= hi,
    ensures
        r == clamp(v as int, lo as int, hi as int),
{
    if v < lo {
        lo
    } else if v > hi {
        hi
    } else {
        v
    }
}

fn move_one(p: PlayerEntity, input: u16) -> (r: PlayerEntity)
    requires
        player_wf(p),
    ensures
        r == moved(p, input),
        player_wf(r),
{
    let i = decode_input(input);
    let dx = axis_exec(i.right, i.left);
    let dy = axis_exec(i.up, i.down);
    if p.health.0 <= 0 || (dx == 0 && dy == 0) {
        return p;
    }
    let k: i64 = if dx != 0 && dy != 0 {
        DIAGONAL
    } else {
        DIR_ONE
    };
    proof {
        assert(-DIR_ONE <= dx * k <= DIR_ONE) by (nonlinear_arith)
            requires
                -1 <= dx <= 1,
                0 < k <= DIR_ONE,
        ;
        assert(-DIR_ONE <= dy * k <= DIR_ONE) by (nonlinear_arith)
            requires
                -1 <= dy <= 1,
                0 < k <= DIR_ONE,
        ;
    }
    let d = MoveDir(dx * k, dy * k);
    proof {
        assert(-DIR_ONE * MOVE_SPEED <= d.0 * MOVE_SPEED <= DIR_ONE * MOVE_SPEED) by (nonlinear_arith)
            requires
                -DIR_ONE <= d.0 <= DIR_ONE,
        ;
        assert(-DIR_ONE * MOVE_SPEED <= d.1 * MOVE_SPEED <= DIR_ONE * MOVE_SPEED) by (nonlinear_arith)
            requires
                -DIR_ONE <= d.1 <= DIR_ONE,
        ;
    }
    let x = clamp_exec(p.x + d.0 * MOVE_SPEED, -PLAYER_LIMIT, PLAYER_LIMIT);
    let y = clamp_exec(p.y + d.1 * MOVE_SPEED, -PLAYER_LIMIT, PLAYER_LIMIT);
    PlayerEntity { move_dir: d, x, y, ..p }
}

/// Moves every living player one step along the direction its input asks
/// for, clamped to the arena.
pub fn move_player(players: &mut Vec<PlayerEntity>, inputs: &Vec<u16>)
    requires
        players_wf(old(players)@),
        handles_within(old(players)@, inputs.len() as int),
    ensures
        final(players)@ == old(players)@.map_values(
            |p: PlayerEntity| moved(p, input_of(inputs@, p)),
        ),
        players_wf(final(players)@),
        handles_within(final(players)@, inputs.len() as int),
{
    let ghost start = players@;
    let n = players.len();
    let mut i: usize = 0;
    while i < n
        invariant
            n == players.len(),
            n == start.len(),
            0 <= i <= n,
            players_wf(start),
            handles_within(start, inputs.len() as int),
            forall|j: int| 0 <= j < i ==> players@[j] == moved(start[j], input_of(inputs@, start[j])),
            forall|j: int| i <= j < n ==> players@[j] == start[j],
            players_wf(players@),
        decreases n - i,
    {
        let p = players[i];
        let q = move_one(p, inputs[p.player.handle]);
        players.set(i, q);
        i = i + 1;
    }
    assert(players@ =~= start.map_values(|p: PlayerEntity| moved(p, input_of(inputs@, p))));
}

// ----------------------------------------------------------------- weapon

/// One tick of a living player's reload: the cooldown runs down, and the
/// weapon is ready once it is used up.
pub open spec fn reloaded(p: PlayerEntity) -> PlayerEntity {
    if p.alive() && !p.bullet_ready.0 {
        let c = p.bullet_ready.1 - DELTA_TIME;
        PlayerEntity { bullet_ready: BulletReady(c <= 0, c as i64), ..p }
    } else {
        p
    }
}

fn reload_one(p: PlayerEntity) -> (r: PlayerEntity)
    requires
        player_wf(p),
    ensures
        r == reloaded(p),
        player_wf(r),
{
    if p.health.0 > 0 && !p.bullet_ready.0 {
        let c = p.bullet_ready.1 - DELTA_TIME;
        PlayerEntity { bullet_ready: BulletReady(c <= 0, c), ..p }
    } else {
        p
    }
}

/// Runs down the cooldown of every living player whose weapon is not ready.
pub fn reload_bullet(players: &mut Vec<PlayerEntity>)
    requires
        players_wf(old(players)@),
    ensures
        final(players)@ == old(players)@.map_values(|p: PlayerEntity| reloaded(p)),
        players_wf(final(players)@),
{
    let ghost start = players@;
    let n = players.len();
    let mut i: usize = 0;
    while i < n
        invariant
            n == players.len(),
            n == start.len(),
            0 <= i <= n,
            players_wf(start),
            forall|j: int| 0 <= j < i ==> players@[j] == reloaded(start[j]),
            forall|j: int| i <= j < n ==> players@[j] == start[j],
            players_wf(players@),
        decreases n - i,
    {
        let q = reload_one(players[i]);
        players.set(i, q);
        i = i + 1;
    }
    assert(players@ =~= start.map_values(|p: PlayerEntity| reloaded(p)));
}

/// A living player with a ready weapon fires when its input asks to.
pub open spec fn fires(p: PlayerEntity, input: u16) -> bool {
    p.alive() && decode_spec(input).fire && p.bullet_ready.0
}

/// The projectile that `p` fires with `input`: just outside the shooter,
/// heading along the aim.
pub open spec fn shot(p: PlayerEntity, input: u16) -> Bullet {
    let level = decode_spec(input).angle_level;
    let c = aim_cos(level);
    let s = aim_sin(level);
    Bullet {
        x: (p.x + c * SPAWN_OFFSET) as i64,
        y: (p.y + s * SPAWN_OFFSET) as i64,
        dir: MoveDir(c as i64, s as i64),
    }
}

/// The shooter after a shot: not ready, with a full cooldown.
pub open spec fn after_fire(p: PlayerEntity, input: u16) -> PlayerEntity {
    if fires(p, input) {
        PlayerEntity { bullet_ready: BulletReady(false, FIRE_RATE), ..p }
    } else {
        p
    }
}

/// The projectiles that the players fire this tick, in player order.
pub open spec fn spawned(players: Seq<PlayerEntity>, inputs: Seq<u16>) -> Seq<Bullet>
    decreases players.len(),
{
    if players.len() == 0 {
        Seq::empty()
    } else {
        let r = spawned(players.drop_last(), inputs);
        let p = players.last();
        if fires(p, input_of(inputs, p)) {
            r.push(shot(p, input_of(inputs, p)))
        } else {
            r
        }
    }
}

/// Spawns a projectile for each living player that asks to fire with a
/// ready weapon, and starts that player's cooldown.
pub fn fire_bullets(players: &mut Vec<PlayerEntity>, bullets: &mut Vec<Bullet>, inputs: &Vec<u16>)
    requires
        players_wf(old(players)@),
        bullets_wf(old(bullets)@),
        handles_within(old(players)@, inputs.len() as int),
    ensures
        final(players)@ == old(players)@.map_values(
            |p: PlayerEntity| after_fire(p, input_of(inputs@, p)),
        ),
        final(bullets)@ == old(bullets)@ + spawned(old(players)@, inputs@),
        players_wf(final(players)@),
        bullets_wf(final(bullets)@),
        handles_within(final(players)@, inputs.len() as int),
{
    let ghost start = players@;
    let ghost first = bullets@;
    let n = players.len();
    let mut i: usize = 0;
    while i < n
        invariant
            n == players.len(),
            n == start.len(),
            0 <= i <= n,
            players_wf(start),
            handles_within(start, inputs.len() as int),
            forall|j: int|
                0 <= j < i ==> players@[j] == after_fire(start[j], input_of(inputs@, start[j])),
            forall|j: int| i <= j < n ==> players@[j] == start[j],
            players_wf(players@),
            bullets@ == first + spawned(start.subrange(0, i as int), inputs@),
            bullets_wf(bullets@),
        decreases n - i,
    {
        let p = players[i];
        let input = inputs[p.player.handle];
        let intent = decode_input(input);
        proof {
            assert(start.subrange(0, i + 1).drop_last() =~= start.subrange(0, i as int));
            assert(start.subrange(0, i + 1).last() == p);
        }
        if p.health.0 > 0 && intent.fire && p.bullet_ready.0 {
            let (c, s) = aim_direction(intent.angle_level);
            proof {
                assert(-DIR_ONE * SPAWN_OFFSET <= c * SPAWN_OFFSET <= DIR_ONE * SPAWN_OFFSET)
                    by (nonlinear_arith)
                    requires
                        -DIR_ONE <= c <= DIR_ONE,
                ;
                assert(-DIR_ONE * SPAWN_OFFSET <= s * SPAWN_OFFSET <= DIR_ONE * SPAWN_OFFSET)
                    by (nonlinear_arith)
                    requires
                        -DIR_ONE <= s <= DIR_ONE,
                ;
            }
            let b = Bullet { x: p.x + c * SPAWN_OFFSET, y: p.y + s * SPAWN_OFFSET, dir: MoveDir(c, s) };
            bullets.push(b);
            players.set(i, PlayerEntity { bullet_ready: BulletReady(false, FIRE_RATE), ..p });
            proof {
                assert(bullets@ =~= first + spawned(start.subrange(0, i + 1), inputs@));
            }
        } else {
            proof {
                assert(bullets@ =~= first + spawned(start.subrange(0, i + 1), inputs@));
            }
        }
        i = i + 1;
    }
    assert(start.subrange(0, n as int) =~= start);
    assert(players@ =~= start.map_values(|p: PlayerEntity| after_fire(p, input_of(inputs@, p))));
}

// ------------------------------------------------------------- projectiles

/// A projectile one tick further along its direction.
pub open spec fn stepped(b: Bullet) -> Bullet {
    Bullet {
        x: (b.x + b.dir.0 * BULLET_SPEED) as i64,
        y: (b.y + b.dir.1 * BULLET_SPEED) as i64,
        ..b
    }
}

pub open spec fn in_arena(b: Bullet) -> bool {
    -HALF_MAP <= b.x <= HALF_MAP && -HALF_MAP <= b.y <= HALF_MAP
}

/// All projectiles one tick further, without those that left the arena.
pub open spec fn advanced(bs: Seq<Bullet>) -> Seq<Bullet>
    decreases bs.len(),
{
    if bs.len() == 0 {
        Seq::empty()
    } else {
        let r = advanced(bs.drop_last());
        let b = stepped(bs.last());
        if in_arena(b) {
            r.push(b)
        } else {
            r
        }
    }
}

/// Moves every projectile one step and removes those outside the arena.
pub fn move_bullet(bullets: &mut Vec<Bullet>)
    requires
        bullets_wf(old(bullets)@),
    ensures
        final(bullets)@ == advanced(old(bullets)@),
        forall|j: int| 0 <= j < final(bullets)@.len() ==> in_arena(#[trigger] final(bullets)@[j]),
        bullets_wf(final(bullets)@),
{
    let ghost start = bullets@;
    let mut kept: Vec<Bullet> = Vec::new();
    let n = bullets.len();
    let mut i: usize = 0;
    while i < n
        invariant
            n == bullets.len(),
            bullets@ == start,
            bullets_wf(start),
            0 <= i <= n,
            kept@ == advanced(start.subrange(0, i as int)),
            forall|j: int| 0 <= j < kept@.len() ==> in_arena(#[trigger] kept@[j]),
            forall|j: int| 0 <= j < kept@.len() ==> -DIR_ONE <= (#[trigger] kept@[j]).dir.0 <= DIR_ONE
                && -DIR_ONE <= kept@[j].dir.1 <= DIR_ONE,
        decreases n - i,
    {
        let b = bullets[i];
        proof {
            assert(start.subrange(0, i + 1).drop_last() =~= start.subrange(0, i as int));
            assert(start.subrange(0, i + 1).last() == b);
            assert(bullet_wf(start[i as int]));
            assert(-DIR_ONE * BULLET_SPEED <= b.dir.0 * BULLET_SPEED <= DIR_ONE * BULLET_SPEED)
                by (nonlinear_arith)
                requires
                    -DIR_ONE <= b.dir.0 <= DIR_ONE,
            ;
            assert(-DIR_ONE * BULLET_SPEED <= b.dir.1 * BULLET_SPEED <= DIR_ONE * BULLET_SPEED)
                by (nonlinear_arith)
                requires
                    -DIR_ONE <= b.dir.1 <= DIR_ONE,
            ;
        }
        let x = b.x + b.dir.0 * BULLET_SPEED;
        let y = b.y + b.dir.1 * BULLET_SPEED;
        if -HALF_MAP <= x && x <= HALF_MAP && -HALF_MAP <= y && y <= HALF_MAP {
            kept.push(Bullet { x, y, ..b });
        }
        i = i + 1;
    }
    assert(start.subrange(0, n as int) =~= start);
    *bullets = kept;
}

// -------------------------------------------------------------- collision

/// The whole simulated state: what a rollback snapshot holds.
pub struct WorldModel {
    pub players: Seq<PlayerEntity>,
    pub bullets: Seq<Bullet>,
    pub scores: Scores,
    pub state: RollbackState,
}

/// A projectile overlaps a player when their centres are closer than the
/// two radii together.
pub open spec fn hits(p: PlayerEntity, b: Bullet) -> bool {
    let dx = p.x - b.x;
    let dy = p.y - b.y;
    dx * dx + dy * dy < (PLAYER_RADIUS + BULLET_RADIUS) * (PLAYER_RADIUS + BULLET_RADIUS)
}

pub open spec fn hit_count(p: PlayerEntity, bs: Seq<Bullet>) -> nat
    decreases bs.len(),
{
    if bs.len() == 0 {
        0
    } else {
        hit_count(p, bs.drop_last()) + if hits(p, bs.last()) {
            1nat
        } else {
            0nat
        }
    }
}

/// The projectiles that do not overlap `p`, in their order.
pub open spec fn survivors(p: PlayerEntity, bs: Seq<Bullet>) -> Seq<Bullet>
    decreases bs.len(),
{
    if bs.len() == 0 {
        Seq::empty()
    } else {
        let r = survivors(p, bs.drop_last());
        if hits(p, bs.last()) {
            r
        } else {
            r.push(bs.last())
        }
    }
}

/// Health after one hit; it saturates at the least `i32`.
pub open spec fn damaged(h: i32) -> i32 {
    if h >= i32::MIN + HIT_DAMAGE {
        (h - HIT_DAMAGE) as i32
    } else {
        i32::MIN
    }
}

/// Health after `k` hits.
pub open spec fn struck(h: i32, k: nat) -> i32
    decreases k,
{
    if k == 0 {
        h
    } else {
        damaged(struck(h, (k - 1) as nat))
    }
}

/// A score after `k` kills; it saturates at the greatest `u32`.
pub open spec fn credited(s: u32, k: nat) -> u32
    decreases k,
{
    if k == 0 {
        s
    } else {
        let t = credited(s, (k - 1) as nat);
        if t < u32::MAX {
            (t + 1) as u32
        } else {
            t
        }
    }
}

/// Each hit on player 0 counts for player 1, and each hit on any other
/// player counts for player 0.
pub open spec fn credit(scores: Scores, victim: usize, k: nat) -> Scores {
    if victim == 0 {
        Scores(scores.0, credited(scores.1, k))
    } else {
        Scores(credited(scores.0, k), scores.1)
    }
}

/// Resolves the hits on player `i`: the overlapping projectiles go, each
/// deals its damage and credits the opponent, and the phase turns to
/// `Respawn` if there was any. A dead player is skipped.
pub open spec fn resolve_player(w: WorldModel, i: int) -> WorldModel {
    let p = w.players[i];
    if !p.alive() {
        w
    } else {
        let k = hit_count(p, w.bullets);
        WorldModel {
            players: w.players.update(
                i,
                if k > 0 {
                    PlayerEntity { health: Health(struck(p.health.0, k)), sprite: SpriteImage::Remains, ..p }
                } else {
                    p
                },
            ),
            bullets: survivors(p, w.bullets),
            scores: credit(w.scores, p.player.handle, k),
            state: if k > 0 {
                RollbackState::Respawn
            } else {
                w.state
            },
        }
    }
}

/// Hits resolved for the first `n` players, in order.
pub open spec fn resolve_upto(w: WorldModel, n: nat) -> WorldModel
    decreases n,
{
    if n == 0 {
        w
    } else {
        resolve_player(resolve_upto(w, (n - 1) as nat), n - 1)
    }
}

pub open spec fn resolve_all(w: WorldModel) -> WorldModel {
    resolve_upto(w, w.players.len())
}

proof fn lemma_struck_lowers(h: i32, k: nat)
    ensures
        struck(h, k) <= h,
    decreases k,
{
    if k > 0 {
        lemma_struck_lowers(h, (k - 1) as nat);
    }
}

proof fn lemma_survivors_wf(p: PlayerEntity, bs: Seq<Bullet>)
    requires
        bullets_wf(bs),
    ensures
        bullets_wf(survivors(p, bs)),
        survivors(p, bs).len() <= bs.len(),
    decreases bs.len(),
{
    if bs.len() > 0 {
        lemma_survivors_wf(p, bs.drop_last());
    }
}

/// Resolving hits moves nobody and keeps every projectile well formed.
proof fn lemma_resolve_frames(w: WorldModel, n: nat)
    requires
        n <= w.players.len(),
        bullets_wf(w.bullets),
    ensures
        resolve_upto(w, n).players.len() == w.players.len(),
        bullets_wf(resolve_upto(w, n).bullets),
        forall|j: int|
            0 <= j < w.players.len() ==> {
                let q = #[trigger] resolve_upto(w, n).players[j];
                let p = w.players[j];
                &&& q == PlayerEntity { health: q.health, sprite: q.sprite, ..p }
                &&& q.health.0 <= p.health.0
            },
    decreases n,
{
    if n > 0 {
        lemma_resolve_frames(w, (n - 1) as nat);
        let v = resolve_upto(w, (n - 1) as nat);
        if v.players[n - 1].alive() {
            lemma_survivors_wf(v.players[n - 1], v.bullets);
            lemma_struck_lowers(v.players[n - 1].health.0, hit_count(v.players[n - 1], v.bullets));
        }
    }
}

fn hits_exec(p: &PlayerEntity, b: &Bullet) -> (r: bool)
    requires
        -COORD_BOUND <= p.x <= COORD_BOUND,
        -COORD_BOUND <= p.y <= COORD_BOUND,
        bullet_wf(*b),
    ensures
        r == hits(*p, *b),
{
    let dx: i128 = p.x as i128 - b.x as i128;
    let dy: i128 = p.y as i128 - b.y as i128;
    proof {
        assert(dx * dx <= 4 * COORD_BOUND * COORD_BOUND) by (nonlinear_arith)
            requires
                -2 * COORD_BOUND <= dx <= 2 * COORD_BOUND,
        ;
        assert(dy * dy <= 4 * COORD_BOUND * COORD_BOUND) by (nonlinear_arith)
            requires
                -2 * COORD_BOUND <= dy <= 2 * COORD_BOUND,
        ;
        assert(0 <= dx * dx) by (nonlinear_arith);
        assert(0 <= dy * dy) by (nonlinear_arith);
    }
    let reach: i128 = (PLAYER_RADIUS + BULLET_RADIUS) as i128;
    dx * dx + dy * dy < reach * reach
}

/// The hits on one living player: the projectiles that remain, the
/// player's health, the scores, and whether there was any hit.
fn resolve_hits(p: &PlayerEntity, bullets: &Vec<Bullet>, scores: Scores) -> (r: (
    Vec<Bullet>,
    i32,
    Scores,
    bool,
))
    requires
        player_wf(*p),
        bullets_wf(bullets@),
    ensures
        r.0@ == survivors(*p, bullets@),
        r.1 == struck(p.health.0, hit_count(*p, bullets@)),
        r.2 == credit(scores, p.player.handle, hit_count(*p, bullets@)),
        r.3 == (hit_count(*p, bullets@) > 0),
{
    let mut kept: Vec<Bullet> = Vec::new();
    let mut health = p.health.0;
    let mut sc = scores;
    let mut any = false;
    let n = bullets.len();
    let mut i: usize = 0;
    while i < n
        invariant
            n == bullets.len(),
            player_wf(*p),
            bullets_wf(bullets@),
            0 <= i <= n,
            kept@ == survivors(*p, bullets@.subrange(0, i as int)),
            health == struck(p.health.0, hit_count(*p, bullets@.subrange(0, i as int))),
            sc == credit(scores, p.player.handle, hit_count(*p, bullets@.subrange(0, i as int))),
            any == (hit_count(*p, bullets@.subrange(0, i as int)) > 0),
        decreases n - i,
    {
        let b = bullets[i];
        let ghost pre = bullets@.subrange(0, i as int);
        proof {
            assert(bullets@.subrange(0, i + 1).drop_last() =~= pre);
            assert(bullets@.subrange(0, i + 1).last() == b);
            assert(bullet_wf(bullets@[i as int]));
        }
        if hits_exec(p, &b) {
            health = if health >= i32::MIN + HIT_DAMAGE {
                health - HIT_DAMAGE
            } else {
                i32::MIN
            };
            if p.player.handle == 0 {
                sc = Scores(sc.0, if sc.1 < u32::MAX { sc.1 + 1 } else { sc.1 });
            } else {
                sc = Scores(if sc.0 < u32::MAX { sc.0 + 1 } else { sc.0 }, sc.1);
            }
            any = true;
        } else {
            kept.push(b);
        }
        i = i + 1;
    }
    assert(bullets@.subrange(0, n as int) =~= bullets@);
    (kept, health, sc, any)
}

/// Resolves projectile hits on every living player, in player order: each
/// overlapping projectile is removed, deals its damage, credits the
/// opponent and turns the phase to `Respawn`.
pub fn kill_players(
    players: &mut Vec<PlayerEntity>,
    bullets: &mut Vec<Bullet>,
    scores: &mut Scores,
    rollback_state: &mut RollbackState,
)
    requires
        players_wf(old(players)@),
        bullets_wf(old(bullets)@),
    ensures
        (WorldModel {
            players: final(players)@,
            bullets: final(bullets)@,
            scores: *final(scores),
            state: *final(rollback_state),
        }) == resolve_all(
            WorldModel {
                players: old(players)@,
                bullets: old(bullets)@,
                scores: *old(scores),
                state: *old(rollback_state),
            },
        ),
{
    let ghost w0 = WorldModel {
        players: players@,
        bullets: bullets@,
        scores: *scores,
        state: *rollback_state,
    };
    let n = players.len();
    let mut i: usize = 0;
    while i < n
        invariant
            n == players.len(),
            n == w0.players.len(),
            0 <= i <= n,
            players_wf(w0.players),
            bullets_wf(w0.bullets),
            (WorldModel { players: players@, bullets: bullets@, scores: *scores, state: *rollback_state })
                == resolve_upto(w0, i as nat),
        decreases n - i,
    {
        proof {
            lemma_resolve_frames(w0, i as nat);
            assert(player_wf(w0.players[i as int]));
        }
        let p = players[i];
        if p.health.0 > 0 {
            let (kept, health, sc, any) = resolve_hits(&p, bullets, *scores);
            *bullets = kept;
            *scores = sc;
            if any {
                players.set(i, PlayerEntity { health: Health(health), sprite: SpriteImage::Remains, ..p });
                *rollback_state = RollbackState::Respawn;
            }
        }
        proof {
            let v = resolve_upto(w0, i as nat);
            let k = hit_count(p, v.bullets);
            if p.alive() && k == 0 {
                assert(v.players.update(i as int, p) =~= v.players);
            }
            assert((WorldModel { players: players@, bullets: bullets@, scores: *scores, state: *rollback_state })
                == resolve_upto(w0, (i + 1) as nat));
        }
        i = i + 1;
    }
}

// ------------------------------------------------------------ presentation

/// Turns a living player's sprite towards the side its aim points to; an
/// aim straight up or down leaves it as it was.
pub open spec fn faced(p: PlayerEntity, input: u16) -> PlayerEntity {
    let c = aim_cos(decode_spec(input).angle_level);
    if !p.alive() {
        p
    } else if c > 0 {
        PlayerEntity { facing: Facing::Right, ..p }
    } else if c < 0 {
        PlayerEntity { facing: Facing::Left, ..p }
    } else {
        p
    }
}

/// Turns every living player's sprite to follow its aim.
pub fn update_sprites(players: &mut Vec<PlayerEntity>, inputs: &Vec<u16>)
    requires
        handles_within(old(players)@, inputs.len() as int),
    ensures
        final(players)@ == old(players)@.map_values(
            |p: PlayerEntity| faced(p, input_of(inputs@, p)),
        ),
{
    let ghost start = players@;
    let n = players.len();
    let mut i: usize = 0;
    while i < n
        invariant
            n == players.len(),
            n == start.len(),
            0 <= i <= n,
            handles_within(start, inputs.len() as int),
            forall|j: int| 0 <= j < i ==> players@[j] == faced(start[j], input_of(inputs@, start[j])),
            forall|j: int| i <= j < n ==> players@[j] == start[j],
        decreases n - i,
    {
        let p = players[i];
        let (c, _) = aim_direction(decode_input(inputs[p.player.handle]).angle_level);
        if p.health.0 > 0 {
            if c > 0 {
                players.set(i, PlayerEntity { facing: Facing::Right, ..p });
            } else if c < 0 {
                players.set(i, PlayerEntity { facing: Facing::Left, ..p });
            }
        }
        i = i + 1;
    }
    assert(players@ =~= start.map_values(|p: PlayerEntity| faced(p, input_of(inputs@, p))));
}

// -------------------------------------------------------------- the tick

/// The whole simulated state of a match.
#[derive(Clone, Debug)]
pub struct World {
    pub players: Vec<PlayerEntity>,
    pub bullets: Vec<Bullet>,
    pub scores: Scores,
    pub rollback_state: RollbackState,
}

impl View for World {
    type V = WorldModel;

    open spec fn view(&self) -> WorldModel {
        WorldModel {
            players: self.players@,
            bullets: self.bullets@,
            scores: self.scores,
            state: self.rollback_state,
        }
    }
}

pub open spec fn world_wf(w: WorldModel) -> bool {
    players_wf(w.players) && bullets_wf(w.bullets)
}

/// One tick: respawn, movement, reload, fire, projectile motion and hits,
/// in this order, each stage seeing what the one before it did.
pub open spec fn tick(w: WorldModel, inputs: Seq<u16>) -> WorldModel {
    let revived = w.players.map_values(|p: PlayerEntity| respawned(p));
    let walked = revived.map_values(|p: PlayerEntity| moved(p, input_of(inputs, p)));
    let armed = walked.map_values(|p: PlayerEntity| reloaded(p));
    let fired = armed.map_values(|p: PlayerEntity| after_fire(p, input_of(inputs, p)));
    let launched = w.bullets + spawned(armed, inputs);
    resolve_all(WorldModel { players: fired, bullets: advanced(launched), scores: w.scores, state: w.state })
}

/// The state after one tick for each input set of `inputs`, in order.
pub open spec fn run(w: WorldModel, inputs: Seq<Seq<u16>>) -> WorldModel
    decreases inputs.len(),
{
    if inputs.len() == 0 {
        w
    } else {
        tick(run(w, inputs.drop_last()), inputs.last())
    }
}

proof fn lemma_respawned_handles(s: Seq<PlayerEntity>, n: int)
    requires
        handles_within(s, n),
    ensures
        handles_within(s.map_values(|p: PlayerEntity| respawned(p)), n),
{
    let t = s.map_values(|p: PlayerEntity| respawned(p));
    assert forall|i: int| 0 <= i < t.len() implies (#[trigger] t[i]).player.handle < n by {
        assert(t[i] == respawned(s[i]));
    }
}

proof fn lemma_reloaded_handles(s: Seq<PlayerEntity>, n: int)
    requires
        handles_within(s, n),
    ensures
        handles_within(s.map_values(|p: PlayerEntity| reloaded(p)), n),
{
    let t = s.map_values(|p: PlayerEntity| reloaded(p));
    assert forall|i: int| 0 <= i < t.len() implies (#[trigger] t[i]).player.handle < n by {
        assert(t[i] == reloaded(s[i]));
    }
}

proof fn lemma_resolve_all_wf(w: WorldModel)
    requires
        world_wf(w),
    ensures
        world_wf(resolve_all(w)),
        resolve_all(w).players.len() == w.players.len(),
        forall|j: int|
            0 <= j < w.players.len() ==> (#[trigger] resolve_all(w).players[j]).player
                == w.players[j].player,
{
    lemma_resolve_frames(w, w.players.len());
    let r = resolve_all(w);
    assert forall|j: int| 0 <= j < r.players.len() implies player_wf(#[trigger] r.players[j]) by {
        assert(player_wf(w.players[j]));
        assert(r.players[j] == PlayerEntity {
            health: r.players[j].health,
            sprite: r.players[j].sprite,
            ..w.players[j]
        });
    }
    assert forall|j: int| 0 <= j < w.players.len() implies (#[trigger] r.players[j]).player
        == w.players[j].player by {
        assert(r.players[j] == PlayerEntity {
            health: r.players[j].health,
            sprite: r.players[j].sprite,
            ..w.players[j]
        });
    }
}

/// Runs one tick of the simulation with the input word of every player,
/// indexed by handle.
pub fn advance_frame(world: &mut World, inputs: &Vec<u16>)
    requires
        world_wf(old(world)@),
        handles_within(old(world)@.players, inputs.len() as int),
    ensures
        final(world)@ == tick(old(world)@, inputs@),
        world_wf(final(world)@),
        final(world)@.players.len() == old(world)@.players.len(),
        forall|j: int|
            0 <= j < old(world)@.players.len() ==> (#[trigger] final(world)@.players[j]).player
                == old(world)@.players[j].player,
{
    let ghost w0 = world@;
    proof {
        lemma_respawned_handles(w0.players, inputs.len() as int);
    }
    respawn_players(&mut world.players);
    move_player(&mut world.players, inputs);
    let ghost walked = world.players@;
    proof {
        lemma_reloaded_handles(walked, inputs.len() as int);
    }
    reload_bullet(&mut world.players);
    fire_bullets(&mut world.players, &mut world.bullets, inputs);
    move_bullet(&mut world.bullets);
    let ghost mid = world@;
    proof {
        assert forall|j: int| 0 <= j < w0.players.len() implies (#[trigger] mid.players[j]).player
            == w0.players[j].player by {
            let a = w0.players[j];
            assert(respawned(a).player == a.player);
            let b = respawned(a);
            assert(moved(b, input_of(inputs@, b)).player == a.player);
            let c = moved(b, input_of(inputs@, b));
            assert(reloaded(c).player == a.player);
            let d = reloaded(c);
            assert(after_fire(d, input_of(inputs@, d)).player == a.player);
        }
    }
    kill_players(
        &mut world.players,
        &mut world.bullets,
        &mut world.scores,
        &mut world.rollback_state,
    );
    proof {
        lemma_resolve_all_wf(mid);
    }
}

pub open spec fn frames_view(frames: Seq<Vec<u16>>) -> Seq<Seq<u16>> {
    frames.map_values(|v: Vec<u16>| v@)
}

/// Runs one tick for each input set of `frames`, in order.
pub fn advance_frames(world: &mut World, frames: &Vec<Vec<u16>>)
    requires
        world_wf(old(world)@),
        forall|f: int|
            0 <= f < frames.len() ==> handles_within(old(world)@.players, (#[trigger] frames@[f]).len() as int),
    ensures
        final(world)@ == run(old(world)@, frames_view(frames@)),
        world_wf(final(world)@),
        final(world)@.players.len() == old(world)@.players.len(),
        forall|j: int|
            0 <= j < old(world)@.players.len() ==> (#[trigger] final(world)@.players[j]).player
                == old(world)@.players[j].player,
{
    let ghost w0 = world@;
    let n = frames.len();
    let mut f: usize = 0;
    while f < n
        invariant
            n == frames.len(),
            0 <= f <= n,
            world_wf(world@),
            world@ == run(w0, frames_view(frames@.subrange(0, f as int))),
            world@.players.len() == w0.players.len(),
            forall|j: int|
                0 <= j < w0.players.len() ==> (#[trigger] world@.players[j]).player == w0.players[j].player,
            forall|g: int|
                0 <= g < frames.len() ==> handles_within(w0.players, (#[trigger] frames@[g]).len() as int),
        decreases n - f,
    {
        proof {
            let m = frames@[f as int].len() as int;
            assert(handles_within(w0.players, m));
            assert forall|j: int| 0 <= j < world@.players.len() implies (#[trigger] world@.players[j]).player.handle
                < m by {
                assert(world@.players[j].player == w0.players[j].player);
                assert(w0.players[j].player.handle < m);
            }
            let pre = frames_view(frames@.subrange(0, f as int));
            let post = frames_view(frames@.subrange(0, f + 1));
            assert(post.drop_last() =~= pre);
            assert(post.last() == frames@[f as int]@);
        }
        advance_frame(world, &frames[f]);
        f = f + 1;
    }
    assert(frames@.subrange(0, n as int) =~= frames@);
}

/// The two players at the start of a match: facing each other two units
/// from the origin, with full health and ready weapons.
pub fn spawn_players() -> (r: Vec<PlayerEntity>)
    ensures
        r@ == seq![start_player(0), start_player(1)],
        players_wf(r@),
{
    let mut r: Vec<PlayerEntity> = Vec::new();
    r.push(PlayerEntity {
        player: Player { handle: 0 },
        x: -2_000_000,
        y: 0,
        move_dir: MoveDir(-DIR_ONE, 0),
        health: Health(FULL_HEALTH),
        timer: PlayerTimer(RESPAWN_TIME),
        bullet_ready: BulletReady(true, 0),
        sprite: SpriteImage::Player1,
        facing: Facing::Left,
    });
    r.push(PlayerEntity {
        player: Player { handle: 1 },
        x: 2_000_000,
        y: 0,
        move_dir: MoveDir(DIR_ONE, 0),
        health: Health(FULL_HEALTH),
        timer: PlayerTimer(RESPAWN_TIME),
        bullet_ready: BulletReady(true, 0),
        sprite: SpriteImage::Player2,
        facing: Facing::Right,
    });
    assert(r@ =~= seq![start_player(0), start_player(1)]);
    r
}

/// Player `handle` (0 or 1) as a match starts.
pub open spec fn start_player(handle: usize) -> PlayerEntity {
    PlayerEntity {
        player: Player { handle },
        x: if handle == 0 { -2_000_000i64 } else { 2_000_000i64 },
        y: 0,
        move_dir: MoveDir(if handle == 0 { (-DIR_ONE) as i64 } else { DIR_ONE }, 0),
        health: Health(FULL_HEALTH),
        timer: PlayerTimer(RESPAWN_TIME),
        bullet_ready: BulletReady(true, 0),
        sprite: default_sprite(handle),
        facing: if handle == 0 { Facing::Left } else { Facing::Right },
    }
}

impl World {
    /// The state as a match starts: both players spawned, no projectile,
    /// no score, and the `Playing` phase.
    pub fn new() -> (r: World)
        ensures
            r@ == (WorldModel {
                players: seq![start_player(0), start_player(1)],
                bullets: Seq::empty(),
                scores: Scores(0, 0),
                state: RollbackState::Playing,
            }),
            world_wf(r@),
    {
        let players = spawn_players();
        let r = World {
            players,
            bullets: Vec::new(),
            scores: Scores(0, 0),
            rollback_state: RollbackState::Playing,
        };
        assert(r.bullets@ =~= Seq::<Bullet>::empty());
        r
    }
}

} // verus!
