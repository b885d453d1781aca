use web_shooter::components::{
    Bullet, BulletReady, Facing, Health, MoveDir, Player, PlayerEntity, PlayerTimer, SpriteImage,
};
use web_shooter::input::{INPUT_FIRE, INPUT_LEFT, INPUT_RIGHT, INPUT_UP};
use web_shooter::resources::{RollbackState, Scores};
use web_shooter::rollback_functions::{
    advance_frame, advance_frames, fire_bullets, kill_players, move_bullet, move_player,
    reload_bullet, respawn_players, spawn_players, update_sprites, World, FIRE_RATE, PLAYER_LIMIT,
    RESPAWN_TIME,
};

fn fire_at(level: u16) -> u16 {
    INPUT_FIRE | (level << 8)
}

fn idle(n: usize) -> Vec<Vec<u16>> {
    vec![vec![0, 0]; n]
}

#[test]
fn match_start() {
    let w = World::new();
    assert_eq!(w.players.len(), 2);
    assert_eq!((w.players[0].x, w.players[0].y), (-2_000_000, 0));
    assert_eq!((w.players[1].x, w.players[1].y), (2_000_000, 0));
    assert_eq!(w.players[0].move_dir, MoveDir(-1000, 0));
    assert_eq!(w.players[1].move_dir, MoveDir(1000, 0));
    assert_eq!(w.players[0].health, Health(100));
    assert_eq!(w.players[1].sprite, SpriteImage::Player2);
    assert!(w.bullets.is_empty());
    assert_eq!(w.scores, Scores(0, 0));
    assert_eq!(w.rollback_state, RollbackState::Playing);
    assert_eq!(spawn_players(), w.players);
}

#[test]
fn moving_up_ten_ticks() {
    let mut w = World::new();
    advance_frames(&mut w, &vec![vec![INPUT_UP, 0]; 10]);
    assert_eq!(w.players[0].x, -2_000_000);
    assert_eq!(w.players[0].y, 1_300_000);
    assert_eq!(w.players[0].move_dir, MoveDir(0, 1000));
    assert_eq!(w.players[1].y, 0);
}

#[test]
fn diagonal_step_is_normalized() {
    let mut w = World::new();
    advance_frame(&mut w, &vec![INPUT_UP | INPUT_RIGHT, INPUT_UP | INPUT_UP]);
    assert_eq!(w.players[0].move_dir, MoveDir(707, 707));
    assert_eq!((w.players[0].x, w.players[0].y), (-2_000_000 + 91_910, 91_910));
    assert_eq!((w.players[1].x, w.players[1].y), (2_000_000, 130_000));
}

#[test]
fn opposing_flags_cancel() {
    let mut w = World::new();
    advance_frame(&mut w, &vec![INPUT_LEFT | INPUT_RIGHT, 0]);
    assert_eq!(w.players, World::new().players);
}

#[test]
fn wall_stops_player_exactly() {
    let mut w = World::new();
    advance_frames(&mut w, &vec![vec![INPUT_RIGHT, INPUT_LEFT]; 200]);
    assert_eq!(w.players[0].x, PLAYER_LIMIT);
    assert_eq!(w.players[0].x, 20_000_000);
    assert_eq!(w.players[1].x, -20_000_000);
    advance_frame(&mut w, &vec![INPUT_RIGHT, INPUT_LEFT]);
    assert_eq!(w.players[0].x, 20_000_000);
    // 18 units at 0.13 per tick: the wall is reached at tick 139, not before
    let mut v = World::new();
    advance_frames(&mut v, &vec![vec![INPUT_LEFT, 0]; 138]);
    assert_eq!(v.players[0].x, -2_000_000 - 138 * 130_000);
    advance_frame(&mut v, &vec![INPUT_LEFT, 0]);
    assert_eq!(v.players[0].x, -20_000_000);
}

#[test]
fn zero_input_changes_nothing_of_position() {
    let mut w = World::new();
    advance_frames(&mut w, &idle(300));
    assert_eq!(w.players, World::new().players);
    assert!(w.bullets.is_empty());
}

#[test]
fn cooldown_blocks_until_seventh_tick() {
    let mut w = World::new();
    let up = fire_at(191);
    advance_frame(&mut w, &vec![up, 0]);
    assert_eq!(w.bullets.len(), 1);
    assert_eq!(w.players[0].bullet_ready, BulletReady(false, FIRE_RATE));
    for t in 1..7 {
        advance_frame(&mut w, &vec![up, 0]);
        assert_eq!(w.bullets.len(), 1, "tick {}", t);
        assert_eq!(w.players[0].bullet_ready, BulletReady(false, FIRE_RATE - 16 * t));
    }
    advance_frame(&mut w, &vec![up, 0]);
    assert_eq!(w.bullets.len(), 2);
}

#[test]
fn spawned_bullet_position() {
    let mut w = World::new();
    advance_frame(&mut w, &vec![fire_at(127), 0]);
    // spawn at -2 + 1.0 * 0.525, then one step of 0.35
    assert_eq!(w.bullets, vec![Bullet { x: -1_125_000, y: -10_500, dir: MoveDir(1000, -12) }]);
}

#[test]
fn kill_then_respawn_after_sixty_three_ticks() {
    let mut w = World::new();
    advance_frame(&mut w, &vec![fire_at(127), 0]);
    advance_frames(&mut w, &idle(7));
    assert_eq!(w.players[1].health, Health(100));
    assert_eq!(w.rollback_state, RollbackState::Playing);
    // tick 9: the projectile reaches player 1
    advance_frame(&mut w, &vec![0, 0]);
    assert_eq!(w.players[1].health, Health(-100));
    assert_eq!(w.players[1].sprite, SpriteImage::Remains);
    assert_eq!(w.scores, Scores(1, 0));
    assert_eq!(w.rollback_state, RollbackState::Respawn);
    assert!(w.bullets.is_empty());
    // dead: no movement and no shot for 62 ticks
    for _ in 0..62 {
        advance_frame(&mut w, &vec![0, INPUT_UP | fire_at(0)]);
        assert_eq!(w.players[1].health, Health(-100));
        assert_eq!((w.players[1].x, w.players[1].y), (2_000_000, 0));
        assert!(w.bullets.is_empty());
    }
    assert_eq!(w.players[1].timer, PlayerTimer(RESPAWN_TIME - 62 * 16));
    advance_frame(&mut w, &vec![0, 0]);
    assert_eq!(w.players[1].health, Health(100));
    assert_eq!((w.players[1].x, w.players[1].y), (0, 0));
    assert_eq!(w.players[1].timer, PlayerTimer(RESPAWN_TIME));
    assert_eq!(w.players[1].sprite, SpriteImage::Player2);
}

#[test]
fn runs_are_deterministic() {
    let frames: Vec<Vec<u16>> = (0..120u16)
        .map(|t| vec![(t * 37) % 0xffff, (t * 101 + 7) % 0xffff])
        .collect();
    let mut a = World::new();
    let mut b = World::new();
    advance_frames(&mut a, &frames);
    advance_frames(&mut b, &frames);
    assert_eq!(a.players, b.players);
    assert_eq!(a.bullets, b.bullets);
    assert_eq!(a.scores, b.scores);
    assert_eq!(a.rollback_state, b.rollback_state);
    let mut c = World::new();
    for f in &frames {
        advance_frame(&mut c, f);
    }
    assert_eq!(a.players, c.players);
    assert_eq!(a.bullets, c.bullets);
}

#[test]
fn projectile_leaving_arena_is_removed() {
    let mut bullets = vec![
        Bullet { x: 20_300_000, y: 0, dir: MoveDir(1000, 0) },
        Bullet { x: 19_800_000, y: 0, dir: MoveDir(1000, 0) },
        Bullet { x: 0, y: -20_400_000, dir: MoveDir(0, -1000) },
    ];
    move_bullet(&mut bullets);
    assert_eq!(bullets, vec![Bullet { x: 20_150_000, y: 0, dir: MoveDir(1000, 0) }]);
    move_bullet(&mut bullets);
    assert_eq!(bullets, vec![Bullet { x: 20_500_000, y: 0, dir: MoveDir(1000, 0) }]);
    move_bullet(&mut bullets);
    assert!(bullets.is_empty());
}

fn player_at(handle: usize, x: i64, y: i64, health: i32) -> PlayerEntity {
    PlayerEntity {
        player: Player { handle },
        x,
        y,
        move_dir: MoveDir(1000, 0),
        health: Health(health),
        timer: PlayerTimer(RESPAWN_TIME),
        bullet_ready: BulletReady(true, 0),
        sprite: if handle == 0 { SpriteImage::Player1 } else { SpriteImage::Player2 },
        facing: Facing::Right,
    }
}

#[test]
fn two_hits_in_one_tick_both_count() {
    let mut players = vec![player_at(0, 0, 0, 100), player_at(1, 5_000_000, 0, 100)];
    let mut bullets = vec![
        Bullet { x: 100_000, y: 0, dir: MoveDir(1000, 0) },
        Bullet { x: 3_000_000, y: 0, dir: MoveDir(1000, 0) },
        Bullet { x: 0, y: -524_999, dir: MoveDir(1000, 0) },
        Bullet { x: 0, y: 525_000, dir: MoveDir(1000, 0) },
    ];
    let mut scores = Scores(0, 0);
    let mut state = RollbackState::Playing;
    kill_players(&mut players, &mut bullets, &mut scores, &mut state);
    assert_eq!(players[0].health, Health(-300));
    assert_eq!(players[0].sprite, SpriteImage::Remains);
    assert_eq!(players[1].health, Health(100));
    assert_eq!(scores, Scores(0, 2));
    assert_eq!(state, RollbackState::Respawn);
    assert_eq!(
        bullets,
        vec![
            Bullet { x: 3_000_000, y: 0, dir: MoveDir(1000, 0) },
            Bullet { x: 0, y: 525_000, dir: MoveDir(1000, 0) },
        ]
    );
}

#[test]
fn dead_player_is_not_hit_and_scores_saturate() {
    let mut players = vec![player_at(0, 0, 0, -100), player_at(1, 0, 0, i32::MIN + 50)];
    let mut bullets = vec![Bullet { x: 0, y: 0, dir: MoveDir(1000, 0) }];
    let mut scores = Scores(u32::MAX, 3);
    let mut state = RollbackState::Playing;
    kill_players(&mut players, &mut bullets, &mut scores, &mut state);
    assert_eq!(players[0].health, Health(-100));
    assert_eq!(players[1].health, Health(i32::MIN + 50));
    assert_eq!(bullets.len(), 1);
    players[1].health = Health(50);
    kill_players(&mut players, &mut bullets, &mut scores, &mut state);
    assert_eq!(players[1].health, Health(-150));
    assert_eq!(scores, Scores(u32::MAX, 3));
    assert!(bullets.is_empty());
}

#[test]
fn stage_functions_one_by_one() {
    let mut players = vec![player_at(0, 0, 0, 100), player_at(1, 1_000_000, 0, -100)];
    players[1].timer = PlayerTimer(16);
    players[0].bullet_ready = BulletReady(false, 10);
    let inputs = vec![INPUT_UP | fire_at(191), INPUT_UP | fire_at(191)];
    respawn_players(&mut players);
    assert_eq!(players[1].health, Health(100));
    assert_eq!((players[1].x, players[1].y), (0, 0));
    move_player(&mut players, &inputs);
    assert_eq!(players[0].y, 130_000);
    assert_eq!(players[1].y, 130_000);
    reload_bullet(&mut players);
    assert_eq!(players[0].bullet_ready, BulletReady(true, -6));
    let mut bullets: Vec<Bullet> = Vec::new();
    fire_bullets(&mut players, &mut bullets, &inputs);
    assert_eq!(bullets.len(), 2);
    assert_eq!(bullets[0], Bullet { x: 3_150, y: 130_000 + 525_000, dir: MoveDir(6, 1000) });
    assert_eq!(players[1].bullet_ready, BulletReady(false, FIRE_RATE));
}

#[test]
fn sprites_follow_aim() {
    let mut players = vec![player_at(0, 0, 0, 100), player_at(1, 0, 0, -100)];
    update_sprites(&mut players, &vec![0, 0]);
    assert_eq!(players[0].facing, Facing::Left);
    assert_eq!(players[1].facing, Facing::Right);
    update_sprites(&mut players, &vec![128 << 8, 0]);
    assert_eq!(players[0].facing, Facing::Right);
}
