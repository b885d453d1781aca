//! Facts about whole runs of the simulation, stated over the spec functions
//! that the systems are proved to compute.
use vstd::prelude::*;
use crate::input::{decode_spec, INPUT_DOWN, INPUT_LEFT, INPUT_RIGHT, INPUT_UP};
use crate::rollback_functions::{
    advanced, after_fire, fires, in_arena, moved, player_wf, reloaded, respawned, run, stepped,
    tick, WorldModel, handles_within, resolve_player, struck, damaged, spawned, input_of, resolve_upto, hit_count, survivors, DELTA_TIME, FIRE_RATE, FULL_HEALTH, MOVE_SPEED, PLAYER_LIMIT, RESPAWN_TIME,
};
use crate::components::{BulletReady, PlayerEntity, PlayerTimer};
use crate::aim::DIR_ONE;
use crate::components::{Bullet, MoveDir};
use crate::resources::RollbackState;

verus! {

/// Two runs that start from the same state and get the same input sets end
/// in the same state.
pub proof fn lemma_deterministic(a: WorldModel, b: WorldModel, frames: Seq<Seq<u16>>)
    requires
        a == b,
    ensures
        run(a, frames) == run(b, frames),
        frames.len() > 0 ==> run(a, frames) == tick(run(b, frames.drop_last()), frames.last()),
{
}

/// `moved` applied `n` times with the same input.
pub open spec fn drive(p: PlayerEntity, input: u16, n: nat) -> PlayerEntity
    decreases n,
{
    if n == 0 {
        p
    } else {
        moved(drive(p, input, (n - 1) as nat), input)
    }
}

pub open spec fn min(a: int, b: int) -> int {
    if a <= b {
        a
    } else {
        b
    }
}

/// The four inputs that push a player straight toward one wall.
pub open spec fn is_wall_push(input: u16) -> bool {
    input == INPUT_UP || input == INPUT_DOWN || input == INPUT_RIGHT || input == INPUT_LEFT
}

/// The coordinate of `p` along the direction of a wall push, signed so that
/// it grows toward the wall.
pub open spec fn along(p: PlayerEntity, input: u16) -> int {
    if input == INPUT_RIGHT {
        p.x as int
    } else if input == INPUT_LEFT {
        -p.x
    } else if input == INPUT_UP {
        p.y as int
    } else {
        -p.y
    }
}

/// The other coordinate of `p`.
pub open spec fn across(p: PlayerEntity, input: u16) -> int {
    if input == INPUT_RIGHT || input == INPUT_LEFT {
        p.y as int
    } else {
        p.x as int
    }
}

proof fn lemma_wall_push_intent(input: u16)
    requires
        is_wall_push(input),
    ensures
        !crate::rollback_functions::intent_is_zero(decode_spec(input)),
        input == INPUT_RIGHT ==> crate::rollback_functions::intent_dir(decode_spec(input)) == MoveDir(1000, 0),
        input == INPUT_LEFT ==> crate::rollback_functions::intent_dir(decode_spec(input)) == MoveDir(-1000i64, 0),
        input == INPUT_UP ==> crate::rollback_functions::intent_dir(decode_spec(input)) == MoveDir(0, 1000),
        input == INPUT_DOWN ==> crate::rollback_functions::intent_dir(decode_spec(input)) == MoveDir(0, -1000i64),
{
    let i = decode_spec(input);
    if input == INPUT_RIGHT {
        assert((2u16 & 0x02u16) != 0 && (2u16 & 0x08u16) == 0 && (2u16 & 0x01u16) == 0 && (2u16
            & 0x04u16) == 0) by (bit_vector);
    } else if input == INPUT_LEFT {
        assert((8u16 & 0x02u16) == 0 && (8u16 & 0x08u16) != 0 && (8u16 & 0x01u16) == 0 && (8u16
            & 0x04u16) == 0) by (bit_vector);
    } else if input == INPUT_UP {
        assert((1u16 & 0x02u16) == 0 && (1u16 & 0x08u16) == 0 && (1u16 & 0x01u16) != 0 && (1u16
            & 0x04u16) == 0) by (bit_vector);
    } else {
        assert((4u16 & 0x02u16) == 0 && (4u16 & 0x08u16) == 0 && (4u16 & 0x01u16) == 0 && (4u16
            & 0x04u16) != 0) by (bit_vector);
    }
    let dx = crate::rollback_functions::axis(i.right, i.left);
    let dy = crate::rollback_functions::axis(i.up, i.down);
    assert(1int * (DIR_ONE as int) == 1000);
    assert(-1int * (DIR_ONE as int) == -1000);
    assert(0int * (DIR_ONE as int) == 0);
}

/// A living player pushed toward a wall moves one step per tick until it
/// stands exactly at the arena's limit, and never goes past it; its other
/// coordinate does not change.
pub proof fn lemma_wall_clamp(p: PlayerEntity, input: u16, n: nat)
    requires
        player_wf(p),
        p.alive(),
        is_wall_push(input),
    ensures
        along(drive(p, input, n), input) == min(along(p, input) + n * (DIR_ONE * MOVE_SPEED), PLAYER_LIMIT as int),
        along(drive(p, input, n), input) <= PLAYER_LIMIT,
        across(drive(p, input, n), input) == across(p, input),
        player_wf(drive(p, input, n)),
        drive(p, input, n).alive(),
        n * (DIR_ONE * MOVE_SPEED) >= PLAYER_LIMIT - along(p, input) ==> along(drive(p, input, n), input) == PLAYER_LIMIT,
    decreases n,
{
    lemma_wall_push_intent(input);
    if n > 0 {
        lemma_wall_clamp(p, input, (n - 1) as nat);
        assert(n * (DIR_ONE * MOVE_SPEED) == (n - 1) * (DIR_ONE * MOVE_SPEED) + DIR_ONE * MOVE_SPEED);
    }
}

/// An input with no direction leaves a player where it is and as it faces,
/// for any number of ticks.
pub proof fn lemma_zero_intent_stays(p: PlayerEntity, n: nat)
    ensures
        drive(p, 0, n) == p,
    decreases n,
{
    let i = decode_spec(0);
    assert(!i.right && !i.left && !i.up && !i.down) by {
        assert((0u16 & 0x02u16) == 0 && (0u16 & 0x08u16) == 0 && (0u16 & 0x01u16) == 0 && (0u16
            & 0x04u16) == 0) by (bit_vector);
    }
    if n > 0 {
        lemma_zero_intent_stays(p, (n - 1) as nat);
    }
}

/// `reloaded` applied `n` times: the weapon over `n` ticks without a shot.
pub open spec fn reload_ticks(p: PlayerEntity, n: nat) -> PlayerEntity
    decreases n,
{
    if n == 0 {
        p
    } else {
        reloaded(reload_ticks(p, (n - 1) as nat))
    }
}

/// Ticks a fresh cooldown lasts: `FIRE_RATE / DELTA_TIME` rounded up.
pub open spec fn cooldown_ticks() -> nat {
    ((FIRE_RATE as int + DELTA_TIME as int - 1) / (DELTA_TIME as int)) as nat
}

/// After a living player fires, its weapon stays unready through the next
/// `cooldown_ticks() - 1` reloads and is ready again at the one after, so
/// that a shot in that very tick goes off.
pub proof fn lemma_cooldown(p: PlayerEntity, input: u16, n: nat)
    requires
        player_wf(p),
        p.alive(),
        fires(p, input),
    ensures
        cooldown_ticks() == 7,
        n < cooldown_ticks() ==> !reload_ticks(after_fire(p, input), n).bullet_ready.0,
        n >= cooldown_ticks() ==> reload_ticks(after_fire(p, input), n).bullet_ready.0,
        n >= cooldown_ticks() && decode_spec(input).fire ==> fires(
            reload_ticks(after_fire(p, input), n),
            input,
        ),
    decreases n,
{
    lemma_reload_count(after_fire(p, input), n);
}

proof fn lemma_reload_count(q: PlayerEntity, n: nat)
    requires
        q.alive(),
        q.bullet_ready == BulletReady(false, FIRE_RATE),
    ensures
        n < 7 ==> reload_ticks(q, n).bullet_ready == BulletReady(false, (FIRE_RATE - n * DELTA_TIME) as i64),
        n >= 7 ==> reload_ticks(q, n).bullet_ready.0,
        reload_ticks(q, n).health == q.health,
    decreases n,
{
    if n > 0 {
        lemma_reload_count(q, (n - 1) as nat);
    }
}

/// `respawned` applied `n` times: a player over `n` ticks of countdown.
pub open spec fn respawn_ticks(p: PlayerEntity, n: nat) -> PlayerEntity
    decreases n,
{
    if n == 0 {
        p
    } else {
        respawned(respawn_ticks(p, (n - 1) as nat))
    }
}

/// Ticks a dead player waits: `RESPAWN_TIME / DELTA_TIME` rounded up.
pub open spec fn respawn_wait_ticks() -> nat {
    ((RESPAWN_TIME as int + DELTA_TIME as int - 1) / (DELTA_TIME as int)) as nat
}

/// `q` is still dead where `p` died, and an input changes nothing of it.
pub open spec fn frozen(p: PlayerEntity, q: PlayerEntity, input: u16) -> bool {
    &&& !q.alive()
    &&& q.x == p.x && q.y == p.y
    &&& moved(q, input) == q
    &&& reloaded(q) == q
    &&& !fires(q, input)
}

/// `q` has come back: full health, at the origin, with a full timer.
pub open spec fn back_in_play(q: PlayerEntity) -> bool {
    &&& q.health.0 == FULL_HEALTH
    &&& q.x == 0 && q.y == 0
    &&& q.timer.0 == RESPAWN_TIME
}

/// `p` after `n` ticks of countdown that did not run out.
pub open spec fn counting_down(p: PlayerEntity, n: nat) -> PlayerEntity {
    PlayerEntity { timer: PlayerTimer((RESPAWN_TIME - n * DELTA_TIME) as i64), ..p }
}

/// A player killed with a full timer stays dead, in place, and can neither
/// move, reload nor fire for `respawn_wait_ticks() - 1` ticks; at the next
/// one it is back at the origin with full health.
pub proof fn lemma_respawn_cycle(p: PlayerEntity, n: nat, input: u16)
    requires
        !p.alive(),
        p.timer.0 == RESPAWN_TIME,
    ensures
        respawn_wait_ticks() == 63,
        n < respawn_wait_ticks() ==> frozen(p, respawn_ticks(p, n), input),
        n == respawn_wait_ticks() ==> back_in_play(respawn_ticks(p, n)),
    decreases n,
{
    lemma_respawn_count(p, n);
}

proof fn lemma_respawn_count(p: PlayerEntity, n: nat)
    requires
        !p.alive(),
        p.timer.0 == RESPAWN_TIME,
    ensures
        n < 63 ==> respawn_ticks(p, n) == counting_down(p, n),
        n == 63 ==> back_in_play(respawn_ticks(p, n)),
    decreases n,
{
    if n > 0 {
        lemma_respawn_count(p, (n - 1) as nat);
    }
}

/// A tick of motion keeps, in order, exactly the stepped projectiles that are
/// inside the arena: every one left is inside, and one whose next step
/// leaves the arena is gone at once.
pub proof fn lemma_projectiles_stay_inside(bs: Seq<Bullet>, b: Bullet)
    ensures
        forall|j: int| 0 <= j < advanced(bs).len() ==> in_arena(#[trigger] advanced(bs)[j]),
        advanced(bs).len() <= bs.len(),
        !in_arena(stepped(b)) ==> advanced(seq![b]).len() == 0,
        in_arena(stepped(b)) ==> advanced(seq![b]) == seq![stepped(b)],
        advanced(bs) == bs.map_values(|c: Bullet| stepped(c)).filter(|c: Bullet| in_arena(c)),
    decreases bs.len(),
{
    reveal(Seq::filter);
    if bs.len() > 0 {
        lemma_projectiles_stay_inside(bs.drop_last(), b);
        let moved_all = bs.map_values(|c: Bullet| stepped(c));
        assert(moved_all.drop_last() =~= bs.drop_last().map_values(|c: Bullet| stepped(c)));
        assert(moved_all.last() == stepped(bs.last()));
    } else {
        assert(bs.map_values(|c: Bullet| stepped(c)) =~= Seq::<Bullet>::empty());
    }
    let one = seq![b];
    assert(one.drop_last() =~= Seq::<Bullet>::empty());
    assert(one.last() == b);
    assert(advanced(Seq::<Bullet>::empty()) == Seq::<Bullet>::empty());
    assert(Seq::<Bullet>::empty().push(stepped(b)) =~= seq![stepped(b)]);
}

/// Every word of every input set is zero.
pub open spec fn all_idle(frames: Seq<Seq<u16>>) -> bool {
    forall|f: int, j: int| 0 <= f < frames.len() && 0 <= j < frames[f].len() ==> #[trigger] frames[f][j] == 0
}

pub open spec fn all_alive(s: Seq<PlayerEntity>) -> bool {
    forall|j: int| 0 <= j < s.len() ==> (#[trigger] s[j]).alive()
}

/// `q` is `p` with at most its weapon state changed.
pub open spec fn same_but_weapon(p: PlayerEntity, q: PlayerEntity) -> bool {
    q == PlayerEntity { bullet_ready: q.bullet_ready, ..p }
}

proof fn lemma_nobody_fires(ps: Seq<PlayerEntity>, inputs: Seq<u16>)
    requires
        handles_within(ps, inputs.len() as int),
        forall|j: int| 0 <= j < inputs.len() ==> #[trigger] inputs[j] == 0,
    ensures
        spawned(ps, inputs) == Seq::<Bullet>::empty(),
    decreases ps.len(),
{
    if ps.len() > 0 {
        let p = ps.last();
        assert(handles_within(ps.drop_last(), inputs.len() as int)) by {
            assert forall|j: int| 0 <= j < ps.drop_last().len() implies (#[trigger] ps.drop_last()[j]).player.handle
                < inputs.len() by {
                assert(ps.drop_last()[j] == ps[j]);
            }
        }
        lemma_nobody_fires(ps.drop_last(), inputs);
        assert(ps[ps.len() - 1] == p);
        assert(input_of(inputs, p) == 0);
        assert((0u16 & 0x10u16) == 0) by (bit_vector);
        assert(!decode_spec(0).fire);
    }
}

proof fn lemma_nothing_hits(w: WorldModel, n: nat)
    requires
        w.bullets == Seq::<Bullet>::empty(),
        n <= w.players.len(),
    ensures
        resolve_upto(w, n) == w,
    decreases n,
{
    if n > 0 {
        lemma_nothing_hits(w, (n - 1) as nat);
        let p = w.players[n - 1];
        assert(hit_count(p, w.bullets) == 0);
        assert(survivors(p, w.bullets) == w.bullets);
        assert(w.players.update(n - 1, p) =~= w.players);
    }
}

/// With no projectile in flight, every player alive and every input zero,
/// no player moves or turns, for any number of ticks.
pub proof fn lemma_idle_run(w: WorldModel, frames: Seq<Seq<u16>>)
    requires
        w.bullets == Seq::<Bullet>::empty(),
        all_alive(w.players),
        all_idle(frames),
        forall|f: int| 0 <= f < frames.len() ==> handles_within(w.players, (#[trigger] frames[f]).len() as int),
    ensures
        run(w, frames).bullets == Seq::<Bullet>::empty(),
        run(w, frames).players.len() == w.players.len(),
        forall|j: int| 0 <= j < w.players.len() ==> same_but_weapon(w.players[j], #[trigger] run(w, frames).players[j]),
    decreases frames.len(),
{
    if frames.len() > 0 {
        let pre = frames.drop_last();
        assert(all_idle(pre)) by {
            assert forall|f: int, j: int| 0 <= f < pre.len() && 0 <= j < pre[f].len() implies #[trigger] pre[f][j] == 0 by {
                assert(pre[f] == frames[f]);
            }
        }
        assert forall|f: int| 0 <= f < pre.len() implies handles_within(w.players, (#[trigger] pre[f]).len() as int) by {
            assert(pre[f] == frames[f]);
        }
        lemma_idle_run(w, pre);
        let v = run(w, pre);
        let inputs = frames.last();
        assert(inputs == frames[frames.len() - 1]);
        assert forall|j: int| 0 <= j < inputs.len() implies #[trigger] inputs[j] == 0 by {
            assert(frames[frames.len() - 1][j] == 0);
        }
        let i0 = decode_spec(0);
        assert(!i0.right && !i0.left && !i0.up && !i0.down && !i0.fire) by {
            assert((0u16 & 0x02u16) == 0 && (0u16 & 0x08u16) == 0 && (0u16 & 0x01u16) == 0 && (0u16
                & 0x04u16) == 0 && (0u16 & 0x10u16) == 0) by (bit_vector);
        }
        assert(handles_within(v.players, inputs.len() as int)) by {
            assert forall|j: int| 0 <= j < v.players.len() implies (#[trigger] v.players[j]).player.handle
                < inputs.len() by {
                assert(same_but_weapon(w.players[j], v.players[j]));
                assert(handles_within(w.players, frames[frames.len() - 1].len() as int));
            }
        }
        let revived = v.players.map_values(|p: PlayerEntity| respawned(p));
        let walked = revived.map_values(|p: PlayerEntity| moved(p, input_of(inputs, p)));
        let armed = walked.map_values(|p: PlayerEntity| reloaded(p));
        let fired = armed.map_values(|p: PlayerEntity| after_fire(p, input_of(inputs, p)));
        assert forall|j: int| 0 <= j < v.players.len() implies same_but_weapon(w.players[j], #[trigger] fired[j])
            && armed[j].player == v.players[j].player by {
            assert(same_but_weapon(w.players[j], v.players[j]));
            assert(w.players[j].alive());
            assert(revived[j] == v.players[j]);
            assert(input_of(inputs, v.players[j]) == 0);
            assert(walked[j] == v.players[j]);
            assert(fired[j] == armed[j]);
        }
        assert(handles_within(armed, inputs.len() as int)) by {
            assert forall|j: int| 0 <= j < armed.len() implies (#[trigger] armed[j]).player.handle < inputs.len() by {
                assert(armed[j].player == v.players[j].player);
            }
        }
        lemma_nobody_fires(armed, inputs);
        assert(v.bullets + spawned(armed, inputs) =~= Seq::<Bullet>::empty());
        assert(advanced(Seq::<Bullet>::empty()) == Seq::<Bullet>::empty());
        let m = WorldModel { players: fired, bullets: Seq::<Bullet>::empty(), scores: v.scores, state: v.state };
        lemma_nothing_hits(m, fired.len());
    }
}

proof fn lemma_hits_only_lower(h: i32, k: nat)
    requires
        k >= 1,
    ensures
        struck(h, k) <= damaged(h),
    decreases k,
{
    let prev = struck(h, (k - 1) as nat);
    assert(damaged(prev) <= prev);
    if k > 1 {
        lemma_hits_only_lower(h, (k - 1) as nat);
    } else {
        assert(prev == h);
    }
}

/// A hit on a living player kills it, keeps its full respawn timer, and
/// turns the phase to `Respawn`.
pub proof fn lemma_lethal_hit(w: WorldModel, i: int)
    requires
        0 <= i < w.players.len(),
        player_wf(w.players[i]),
        w.players[i].alive(),
        hit_count(w.players[i], w.bullets) > 0,
    ensures
        resolve_player(w, i).state == RollbackState::Respawn,
        !resolve_player(w, i).players[i].alive(),
        resolve_player(w, i).players[i].timer.0 == RESPAWN_TIME,
        resolve_player(w, i).players[i].x == w.players[i].x,
        resolve_player(w, i).players[i].y == w.players[i].y,
{
    let p = w.players[i];
    lemma_hits_only_lower(p.health.0, hit_count(p, w.bullets));
}

proof fn lemma_hits_spare_the_dead(w: WorldModel, n: nat, j: int)
    requires
        n <= w.players.len(),
        0 <= j < w.players.len(),
        !w.players[j].alive(),
    ensures
        resolve_upto(w, n).players.len() == w.players.len(),
        resolve_upto(w, n).players[j] == w.players[j],
    decreases n,
{
    if n > 0 {
        lemma_hits_spare_the_dead(w, (n - 1) as nat, j);
    }
}

/// A player in its respawn countdown goes through whole ticks untouched but
/// for its timer, whatever the inputs and projectiles; after
/// `respawn_wait_ticks() - 1` such ticks, the respawn stage of the next one
/// brings it back.
pub proof fn lemma_respawn_over_ticks(w: WorldModel, frames: Seq<Seq<u16>>, j: int)
    requires
        0 <= j < w.players.len(),
        !w.players[j].alive(),
        w.players[j].timer.0 == RESPAWN_TIME,
        frames.len() < respawn_wait_ticks(),
    ensures
        run(w, frames).players.len() == w.players.len(),
        run(w, frames).players[j] == counting_down(w.players[j], frames.len()),
        frames.len() + 1 == respawn_wait_ticks() ==> back_in_play(respawned(run(w, frames).players[j])),
    decreases frames.len(),
{
    let p = w.players[j];
    lemma_respawn_count(p, frames.len());
    lemma_respawn_count(p, (frames.len() + 1) as nat);
    if frames.len() > 0 {
        let pre = frames.drop_last();
        lemma_respawn_over_ticks(w, pre, j);
        lemma_respawn_count(p, pre.len());
        let v = run(w, pre);
        let inputs = frames.last();
        let q = v.players[j];
        assert(q == counting_down(p, pre.len()));
        assert(q == respawn_ticks(p, pre.len()));
        let r = respawned(q);
        assert(r == respawn_ticks(p, frames.len()));
        assert(!r.alive());
        let revived = v.players.map_values(|p: PlayerEntity| respawned(p));
        let walked = revived.map_values(|p: PlayerEntity| moved(p, input_of(inputs, p)));
        let armed = walked.map_values(|p: PlayerEntity| reloaded(p));
        let fired = armed.map_values(|p: PlayerEntity| after_fire(p, input_of(inputs, p)));
        assert(fired[j] == r);
        let launched = v.bullets + spawned(armed, inputs);
        let m = WorldModel { players: fired, bullets: advanced(launched), scores: v.scores, state: v.state };
        lemma_hits_spare_the_dead(m, fired.len(), j);
    } else {
        assert(respawn_ticks(p, 1) == respawned(p));
    }
}

/// Player `j` as the fire stage of the tick after `v` sees it.
pub open spec fn at_fire_stage(v: WorldModel, inputs: Seq<u16>, j: int) -> PlayerEntity {
    let r = respawned(v.players[j]);
    reloaded(moved(r, input_of(inputs, r)))
}

/// After a shot, whatever the inputs, projectiles and deaths, the shooter's
/// weapon is not ready at the fire stage of any of the next
/// `cooldown_ticks() - 1` ticks, so it cannot fire again in them.
pub proof fn lemma_cooldown_over_ticks(w: WorldModel, frames: Seq<Seq<u16>>, inputs: Seq<u16>, j: int)
    requires
        0 <= j < w.players.len(),
        w.players[j].bullet_ready == BulletReady(false, FIRE_RATE),
        frames.len() + 1 < cooldown_ticks(),
    ensures
        run(w, frames).players.len() == w.players.len(),
        !run(w, frames).players[j].bullet_ready.0,
        run(w, frames).players[j].bullet_ready.1 >= FIRE_RATE - frames.len() * DELTA_TIME,
        !at_fire_stage(run(w, frames), inputs, j).bullet_ready.0,
        !fires(at_fire_stage(run(w, frames), inputs, j), input_of(inputs, at_fire_stage(run(w, frames), inputs, j))),
    decreases frames.len(),
{
    if frames.len() > 0 {
        let pre = frames.drop_last();
        lemma_cooldown_over_ticks(w, pre, frames.last(), j);
        let v = run(w, pre);
        let tin = frames.last();
        let revived = v.players.map_values(|p: PlayerEntity| respawned(p));
        let walked = revived.map_values(|p: PlayerEntity| moved(p, input_of(tin, p)));
        let armed = walked.map_values(|p: PlayerEntity| reloaded(p));
        let fired = armed.map_values(|p: PlayerEntity| after_fire(p, input_of(tin, p)));
        assert(armed[j] == at_fire_stage(v, tin, j));
        assert(fired[j] == armed[j]);
        let launched = v.bullets + spawned(armed, tin);
        let m = WorldModel { players: fired, bullets: advanced(launched), scores: v.scores, state: v.state };
        lemma_resolve_keeps_weapons(m, fired.len());
    }
}

proof fn lemma_resolve_keeps_weapons(w: WorldModel, n: nat)
    requires
        n <= w.players.len(),
    ensures
        resolve_upto(w, n).players.len() == w.players.len(),
        forall|j: int|
            0 <= j < w.players.len() ==> (#[trigger] resolve_upto(w, n).players[j]).bullet_ready
                == w.players[j].bullet_ready,
    decreases n,
{
    if n > 0 {
        lemma_resolve_keeps_weapons(w, (n - 1) as nat);
    }
}

} // verus!
