//! One tick of the simulation, and the events delivered between ticks.
use vstd::prelude::*;

use crate::history::{fresh, last_in_state, pruned_from, run_start, CursorEntry, CursorState};
use crate::parabola::{fit, Parabola};
use crate::model::{
    state_of, Config, Event, FloatingText, Held, Model, WeaponAction, WeaponIntent, WeaponSwing, BOUND,
    MAX_STEP, MAX_TILT, TEXT_LIFETIME, WORLD,
};
use crate::vector::{
    abs, between, lemma_len_within, lemma_scale_nonneg, mul_div, scale_toward_zero, Vec2, ONE, WIDE,
};

verus! {

/// Largest pointer motion a single event may carry.
pub const MAX_MOVE: i64 = 0x0800_0000_0000_0000;

/// A coordinate held within `[-WORLD, WORLD]`.
fn saturate_coord(x: i64) -> (r: i64)
    ensures
        r == saturate(x as int),
{
    if x > WORLD {
        WORLD
    } else if x < -WORLD {
        -WORLD
    } else {
        x
    }
}

/// `velocity` moved toward `target` by at most `max_step`.
pub open spec fn pursue_spec(velocity: Vec2, target: Vec2, max_step: int) -> Vec2 {
    velocity.plus_spec(target.minus_spec(velocity).clamp_len_spec(max_step))
}

/// Acceleration-limited pursuit: `velocity` moves toward `target`, by no more than
/// `max_step`, and each coordinate ends between its old value and the target's.
pub fn pursue(velocity: Vec2, target: Vec2, max_step: i64) -> (r: Vec2)
    requires
        velocity.within(2 * BOUND),
        target.within(2 * BOUND),
        0 <= max_step <= WIDE,
    ensures
        r == pursue_spec(velocity, target, max_step as int),
        r.minus_spec(velocity).len_sqr_spec() <= max_step * max_step,
        between(r.x as int, velocity.x as int, target.x as int),
        between(r.y as int, velocity.y as int, target.y as int),
{
    let d = target.minus(velocity);
    let step = d.clamp_len(max_step);
    let r = velocity.plus(step);
    assert(r.minus_spec(velocity) == step);
    r
}

/// The annotations after `dt` milliseconds: each loses `dt` of lifetime, and those
/// with nothing left are gone.
pub open spec fn aged(s: Seq<FloatingText>, dt: int) -> Seq<FloatingText>
    decreases s.len(),
{
    if s.len() == 0 {
        s
    } else {
        let rest = aged(s.drop_last(), dt);
        let t = s.last();
        if t.lifetime - dt > 0 {
            rest.push(FloatingText { lifetime: (t.lifetime - dt) as i64, ..t })
        } else {
            rest
        }
    }
}

proof fn lemma_aged_len(s: Seq<FloatingText>, dt: int)
    ensures
        aged(s, dt).len() <= s.len(),
    decreases s.len(),
{
    if s.len() > 0 {
        lemma_aged_len(s.drop_last(), dt);
    }
}

/// Walking speed along one axis for a direction coordinate of `-ONE`, `0` or `ONE`.
pub open spec fn axis_speed(d: int, walk: int) -> int {
    if d > 0 {
        walk
    } else if d < 0 {
        -walk
    } else {
        0
    }
}

/// `x` held within `[-WORLD, WORLD]`.
pub open spec fn saturate(x: int) -> int {
    if x > WORLD {
        WORLD as int
    } else if x < -WORLD {
        -WORLD
    } else {
        x
    }
}

/// One axis of the movement direction: `ONE` toward `pos`, `-ONE` toward `neg`.
pub open spec fn axis_dir(pos: bool, neg: bool) -> int {
    (if pos { ONE as int } else { 0 }) - (if neg { ONE as int } else { 0 })
}

/// Where a charging weapon is drawn to: the first sample of the cursor's final run in
/// `last`, or the weapon's own position when the trail ends in another state.
pub open spec fn charge_target(h: Seq<CursorEntry>, last: CursorState, weapon_pos: Vec2) -> Vec2 {
    let k = run_start(h, last);
    if k < h.len() {
        h[k].relative_pos
    } else {
        weapon_pos
    }
}

/// The action of a weapon that is not swinging, from the cursor's state.
pub open spec fn rest_action(state: CursorState, cursor_pos: Vec2, target: Vec2) -> WeaponAction {
    match state {
        CursorState::Idle => WeaponAction::Idle { target: cursor_pos },
        CursorState::Attack => WeaponAction::Charging { target, intent: WeaponIntent::Attack },
        CursorState::Defend => WeaponAction::Charging { target, intent: WeaponIntent::Defend },
    }
}

/// Velocity a resting or charging weapon at `position` aims for.
pub open spec fn chase_velocity(position: Vec2, target: Vec2, reach: int, speed_max: int) -> Vec2 {
    target.clamp_len_spec(reach).minus_spec(position).times_spec(10).clamp_len_spec(speed_max)
}

/// Velocity a swinging weapon at `position` aims for: back onto the arc at parameter
/// `t` and along it, faster with more power.
pub open spec fn follow_velocity(arc: Parabola, power: int, position: Vec2, t: int, speed_max: int) -> Vec2 {
    arc.get_spec(t).minus_spec(position).times_spec(5).plus_spec(
        arc.tangent_spec(t).with_len_spec(5 * power),
    ).times_spec(3).clamp_len_spec(speed_max * 3 / 2)
}

/// Velocity after a finished swing: a push toward the cursor, scaled by power.
pub open spec fn recoil_velocity(velocity: Vec2, position: Vec2, cursor: Vec2, power: int, speed_max: int) -> Vec2 {
    velocity.plus_spec(cursor.minus_spec(position).times_spec(5).rescaled(power, ONE as int)).clamp_len_spec(
        speed_max,
    )
}

/// The weapon's action after its step: a swing whose arc parameter at `position` is past
/// 1 ends, and the weapon rests toward the cursor; any other action is kept.
pub open spec fn action_after(action: WeaponAction, position: Vec2, cursor: Vec2) -> WeaponAction {
    match action {
        WeaponAction::Swing(s) => if s.arc.projection_spec(position) > ONE {
            WeaponAction::Idle { target: cursor }
        } else {
            action
        },
        _ => action,
    }
}

/// The step ends a swing: the arc parameter at `position` is past 1.
pub open spec fn ends_swing(action: WeaponAction, position: Vec2) -> bool {
    match action {
        WeaponAction::Swing(s) => s.arc.projection_spec(position) > ONE,
        _ => false,
    }
}

/// The weapon's velocity after its step under `action`.
pub open spec fn velocity_after(
    action: WeaponAction,
    velocity: Vec2,
    position: Vec2,
    cursor: Vec2,
    reach: int,
    speed_max: int,
    max_step: int,
) -> Vec2 {
    match action {
        WeaponAction::Swing(s) => {
            let t = s.arc.projection_spec(position);
            if t > ONE {
                recoil_velocity(velocity, position, cursor, s.power as int, speed_max)
            } else {
                pursue_spec(velocity, follow_velocity(s.arc, s.power as int, position, t, speed_max), max_step)
            }
        },
        WeaponAction::Idle { target } => pursue_spec(
            velocity,
            chase_velocity(position, target, reach, speed_max),
            max_step,
        ),
        WeaponAction::Charging { target, .. } => pursue_spec(
            velocity,
            chase_velocity(position, target, reach, speed_max),
            max_step,
        ),
    }
}

/// Timestamps strictly increase along the sequence.
pub open spec fn strictly_timed(s: Seq<CursorEntry>) -> bool {
    forall|i: int| #![trigger s[i], s[i + 1]] 0 <= i < s.len() - 1 ==> s[i].time < s[i + 1].time
}

/// A trail pruned at `now` and given one sample taken at `now` holds that sample last,
/// only fresh samples, at most one more than before, exactly one more when nothing had
/// gone stale, and keeps strictly increasing times when the old ones were before `now`.
proof fn lemma_trail_push(before: Seq<CursorEntry>, kept: Seq<CursorEntry>, e: CursorEntry, now: int, trail: int)
    requires
        pruned_from(before, kept, now, trail),
        e.time == now,
        trail > 0,
    ensures
        ({
            let after = kept.push(e);
            &&& 1 <= after.len() <= before.len() + 1
            &&& after.last().time == now
            &&& forall|i: int| 0 <= i < after.len() ==> fresh(#[trigger] after[i], now, trail)
            &&& (forall|i: int| 0 <= i < before.len() ==> fresh(#[trigger] before[i], now, trail))
                ==> after.len() == before.len() + 1
            &&& strictly_timed(before) && (before.len() > 0 ==> before.last().time < now)
                ==> strictly_timed(after)
        }),
{
    let off = before.len() - kept.len();
    lemma_pruned_offsets(before, kept, now, trail);
    lemma_trail_push_parts(before, kept, e, now, trail, off);
}

proof fn lemma_pruned_offsets(before: Seq<CursorEntry>, kept: Seq<CursorEntry>, now: int, trail: int)
    requires
        pruned_from(before, kept, now, trail),
    ensures
        forall|i: int| 0 <= i < kept.len() ==> #[trigger] kept[i] == before[before.len() - kept.len() + i],
{
    let off = before.len() - kept.len();
    assert forall|i: int| 0 <= i < kept.len() implies #[trigger] kept[i] == before[off + i] by {
        assert(kept[i] == before.subrange(off, before.len() as int)[i]);
    }
}

proof fn lemma_trail_push_parts(before: Seq<CursorEntry>, kept: Seq<CursorEntry>, e: CursorEntry, now: int, trail: int, off: int)
    requires
        off == before.len() - kept.len(),
        0 <= off,
        forall|i: int| 0 <= i < kept.len() ==> #[trigger] kept[i] == before[before.len() - kept.len() + i],
        forall|i: int| 0 <= i < off ==> !fresh(#[trigger] before[i], now, trail),
        forall|i: int| 0 <= i < kept.len() ==> fresh(#[trigger] kept[i], now, trail),
        e.time == now,
        trail > 0,
    ensures
        ({
            let after = kept.push(e);
            &&& 1 <= after.len() <= before.len() + 1
            &&& after.last().time == now
            &&& forall|i: int| 0 <= i < after.len() ==> fresh(#[trigger] after[i], now, trail)
            &&& (forall|i: int| 0 <= i < before.len() ==> fresh(#[trigger] before[i], now, trail))
                ==> after.len() == before.len() + 1
            &&& strictly_timed(before) && (before.len() > 0 ==> before.last().time < now)
                ==> strictly_timed(after)
        }),
{
    lemma_push_fresh(kept, e, now, trail);
    if forall|i: int| 0 <= i < before.len() ==> fresh(#[trigger] before[i], now, trail) {
        if kept.len() < before.len() {
            assert(!fresh(before[0], now, trail));
        }
    }
    if strictly_timed(before) && (before.len() > 0 ==> before.last().time < now) {
        lemma_push_strict(before, kept, e, now, off);
    }
}

proof fn lemma_push_fresh(kept: Seq<CursorEntry>, e: CursorEntry, now: int, trail: int)
    requires
        forall|i: int| 0 <= i < kept.len() ==> fresh(#[trigger] kept[i], now, trail),
        e.time == now,
        trail > 0,
    ensures
        forall|i: int| 0 <= i < kept.push(e).len() ==> fresh(#[trigger] kept.push(e)[i], now, trail),
{
    assert forall|i: int| 0 <= i < kept.push(e).len() implies fresh(#[trigger] kept.push(e)[i], now, trail) by {
        if i < kept.len() {
            assert(kept.push(e)[i] == kept[i]);
        }
    }
}

proof fn lemma_push_strict(before: Seq<CursorEntry>, kept: Seq<CursorEntry>, e: CursorEntry, now: int, off: int)
    requires
        off == before.len() - kept.len(),
        0 <= off,
        forall|i: int| 0 <= i < kept.len() ==> #[trigger] kept[i] == before[before.len() - kept.len() + i],
        strictly_timed(before),
        before.len() > 0 ==> before.last().time < now,
        e.time == now,
    ensures
        strictly_timed(kept.push(e)),
{
    let after = kept.push(e);
    assert forall|i: int| #![trigger after[i], after[i + 1]] 0 <= i < after.len() - 1 implies after[i].time < after[i + 1].time by {
        assert(after[i] == kept[i]);
        assert(kept[i] == before[off + i]);
        if i + 1 < after.len() - 1 {
            assert(after[i + 1] == kept[i + 1]);
            assert(kept[i + 1] == before[off + i + 1]);
        } else {
            assert(off + i == before.len() - 1);
        }
    }
}

/// The trail state a weapon action is drawn in.
pub open spec fn trail_state(action: WeaponAction) -> CursorState {
    match action {
        WeaponAction::Swing(s) => state_of(s.intent),
        _ => CursorState::Idle,
    }
}

/// The intent a gesture held in `st` expresses.
pub open spec fn intent_of(st: CursorState) -> WeaponIntent {
    match st {
        CursorState::Defend => WeaponIntent::Defend,
        _ => WeaponIntent::Attack,
    }
}

/// Power of a gesture held for `hold` milliseconds: the hold, taken within `[0, trail]`
/// and divided by `trail`, placed linearly between `min` and `max`.
pub open spec fn power_spec(hold: int, trail: int, min: int, max: int) -> int {
    let h = if hold < 0 {
        0
    } else if hold > trail {
        trail
    } else {
        hold
    };
    min + scale_toward_zero(max - min, h, trail)
}

/// A gesture held for half the trail time gets the power halfway between the bounds,
/// rounded down; with an even trail time and bounds at least 2 apart, that is strictly
/// between them.
pub proof fn lemma_half_hold_power(trail: int, min: int, max: int)
    requires
        0 < trail,
        trail % 2 == 0,
        min + 2 <= max,
    ensures
        power_spec(trail / 2, trail, min, max) == min + (max - min) / 2,
        min < power_spec(trail / 2, trail, min, max) < max,
{
    let h = trail / 2;
    let d = max - min;
    assert(h * 2 == trail);
    assert(0 < h);
    vstd::arithmetic::div_mod::lemma_div_multiples_vanish_quotient(h, d, 2);
    assert(d * h == h * d) by (nonlinear_arith);
    assert(d * h >= 0) by (nonlinear_arith)
        requires
            d >= 0,
            h >= 0,
    ;
    assert(scale_toward_zero(d, h, trail) == d / 2);
}

/// The one-shot push a new swing gives the weapon at `position`: toward the arc and
/// along it.
pub open spec fn swing_boost(arc: Parabola, power: int, position: Vec2) -> Vec2 {
    let t = arc.projection_spec(position);
    arc.get_spec(t).minus_spec(position).times_spec(3).plus_spec(
        arc.tangent_spec(t).with_len_spec(5 * power),
    ).times_spec(3)
}

/// A non-negative fixed-point value rounded to the nearest whole number, halves up.
pub open spec fn rounded(p: int) -> int {
    (p + ONE / 2) / (ONE as int)
}

/// The classifier finds a gesture: some entry is in the state just left, and that
/// state is not `Idle`.
pub open spec fn finds_gesture(h: Seq<CursorEntry>, st: CursorState) -> bool {
    last_in_state(h, st) >= 0 && st != CursorState::Idle
}

/// The swing the classifier builds from trail `h` for a gesture held in `st`.
pub open spec fn gesture_swing(h: Seq<CursorEntry>, st: CursorState, config: Config) -> WeaponSwing {
    let end = last_in_state(h, st);
    let start = run_start(h.subrange(0, end + 1), st);
    let mid = (start + end) / 2;
    WeaponSwing {
        intent: intent_of(st),
        power: power_spec(
            h[end].time - h[start].time,
            config.cursor.trail_time as int,
            config.weapon.power_min as int,
            config.weapon.power_max as int,
        ) as i64,
        arc: fit(h[start].relative_pos, h[mid].relative_pos, h[end].relative_pos),
    }
}

/// The annotation the classifier leaves for a gesture held in `st`.
pub open spec fn gesture_text(h: Seq<CursorEntry>, st: CursorState, config: Config, player_pos: Vec2, tilt: int) -> FloatingText {
    let end = last_in_state(h, st);
    let start = run_start(h.subrange(0, end + 1), st);
    let swing = gesture_swing(h, st, config);
    FloatingText {
        intent: swing.intent,
        value: rounded(swing.power as int) as i64,
        pos: player_pos.plus_spec(h[start].relative_pos.plus_spec(h[end].relative_pos).rescaled(1, 2)),
        lifetime: TEXT_LIFETIME,
        lifetime_max: TEXT_LIFETIME,
        initial_scale: ONE,
        rotation: tilt as i64,
    }
}

/// The cursor state after checking which actions are held: a held attack (before a held
/// defence) starts a gesture from idle, and releasing the held action ends it.
pub open spec fn reconciled(state: CursorState, held: Held) -> CursorState {
    match state {
        CursorState::Idle => if held.attack {
            CursorState::Attack
        } else if held.defend {
            CursorState::Defend
        } else {
            CursorState::Idle
        },
        CursorState::Attack => if held.attack {
            CursorState::Attack
        } else {
            CursorState::Idle
        },
        CursorState::Defend => if held.defend {
            CursorState::Defend
        } else {
            CursorState::Idle
        },
    }
}

impl Model {
    /// Advances the simulation by `delta_time` milliseconds, with `held` the actions held
    /// now and `tilt` the tilt of an annotation left by a gesture completed in this tick.
    #[verifier::rlimit(100)]
    pub fn update(&mut self, delta_time: i64, held: Held, tilt: i64)
        requires
            old(self).wf(),
            0 <= delta_time <= MAX_STEP,
            old(self).real_time + delta_time <= i64::MAX,
            -MAX_TILT <= tilt <= MAX_TILT,
        ensures
            final(self).wf(),
            final(self).real_time == old(self).real_time + delta_time,
            final(self).config == old(self).config,
            final(self).player.weapon.reach == old(self).player.weapon.reach,
            final(self).player.weapon.position.len_sqr_spec() <= final(self).player.weapon.reach
                * final(self).player.weapon.reach,
            final(self).player.cursor.pos.len_sqr_spec() <= final(self).player.weapon.reach
                * final(self).player.weapon.reach,
            final(self).mannequins == old(self).mannequins,
            final(self).player.cursor.pos == old(self).player.cursor.pos,
            final(self).player.cursor.state == reconciled(old(self).player.cursor.state, held),
            final(self).player.cursor.last_state == final(self).player.cursor.state,
            ({
                let m = *old(self);
                let now = m.real_time + delta_time;
                let trail = m.config.cursor.trail_time as int;
                let st = reconciled(m.player.cursor.state, held);
                let last = m.player.cursor.last_state;
                let h = m.player.cursor.history@;
                let w = m.player.weapon;
                let fires = st != last && finds_gesture(h, last);
                let swing = gesture_swing(h, last, m.config);
                let armed = if fires { WeaponAction::Swing(swing) } else { w.action };
                let kicked = if fires {
                    w.velocity.plus_spec(swing_boost(swing.arc, swing.power as int, w.position)).clamp_len_spec(
                        w.speed_max as int,
                    )
                } else {
                    w.velocity
                };
                let aged_texts = aged(m.floating_texts@, delta_time as int);
                let trail_now = final(self).player.cursor.history@;
                let action = if armed.is_swing() {
                    armed
                } else {
                    rest_action(st, m.player.cursor.pos, charge_target(trail_now, st, w.position))
                };
                let dir = Vec2 { x: axis_dir(held.right, held.left) as i64, y: axis_dir(held.up, held.down) as i64 };
                let walk = m.config.player.walk_speed as int;
                let target = Vec2 { x: axis_speed(dir.x as int, walk) as i64, y: axis_speed(dir.y as int, walk) as i64 };
                let player_step = scale_toward_zero(m.config.player.acceleration as int, delta_time as int, ONE as int);
                let pv = pursue_spec(m.player.velocity, target, player_step);
                let moved = m.player.position.plus_spec(pv.rescaled(delta_time as int, ONE as int));
                let weapon_step = scale_toward_zero(w.acceleration as int, delta_time as int, ONE as int);
                let wv = velocity_after(
                    action,
                    kicked,
                    w.position,
                    m.player.cursor.pos,
                    w.reach as int,
                    w.speed_max as int,
                    weapon_step,
                );
                let wp = w.position.plus_spec(wv.rescaled(delta_time as int, ONE as int)).clamp_len_spec(w.reach as int);
                let before = w.history@;
                let after = final(self).player.weapon.history@;
                // annotations: aged, plus the new one when a gesture completes
                &&& final(self).floating_texts@ == (if fires {
                    aged_texts.push(gesture_text(h, last, m.config, m.player.position, tilt as int))
                } else {
                    aged_texts
                })
                // cursor trail: pruned at the new time
                &&& pruned_from(h, trail_now, now, trail)
                &&& delta_time >= trail ==> trail_now.len() == 0
                // player
                &&& final(self).player.target_move_dir == dir
                &&& final(self).player.velocity == pv
                &&& final(self).player.velocity.minus_spec(m.player.velocity).len_sqr_spec() <= player_step * player_step
                &&& final(self).player.position == Vec2 { x: saturate(moved.x as int) as i64, y: saturate(moved.y as int) as i64 }
                // weapon
                &&& final(self).player.weapon.action == action_after(action, w.position, m.player.cursor.pos)
                &&& final(self).player.weapon.velocity == wv
                &&& !fires && !ends_swing(action, w.position) ==> wv.minus_spec(w.velocity).len_sqr_spec()
                    <= weapon_step * weapon_step
                &&& final(self).player.weapon.position == wp
                &&& final(self).player.weapon.acceleration == w.acceleration
                &&& final(self).player.weapon.speed_max == w.speed_max
                // weapon trail: pruned at the new time, then one sample there
                &&& exists|kept: Seq<CursorEntry>|
                    pruned_from(before, kept, now, trail) && after == kept.push(
                        CursorEntry {
                            world_pos: final(self).player.position.plus_spec(wp),
                            relative_pos: wp,
                            time: now as i64,
                            state: trail_state(final(self).player.weapon.action),
                        },
                    )
                &&& 1 <= after.len() <= before.len() + 1
                &&& after.last().time == now
                &&& forall|i: int| 0 <= i < after.len() ==> fresh(#[trigger] after[i], now, trail)
                &&& (forall|i: int| 0 <= i < before.len() ==> fresh(#[trigger] before[i], now, trail))
                    ==> after.len() == before.len() + 1
                &&& delta_time > 0 && strictly_timed(before) ==> strictly_timed(after)
                // a state held since the last check classifies nothing
                &&& st == last ==> !fires
            }),
    {
        let ghost h = self.player.cursor.history@;
        self.real_time = self.real_time + delta_time;
        self.update_texts(delta_time);
        self.update_cursor(held, tilt);
        proof {
            let trail_now = self.player.cursor.history@;
            if delta_time >= self.config.cursor.trail_time && trail_now.len() > 0 {
                assert(trail_now[0] == h[h.len() - trail_now.len()]);
                assert(fresh(trail_now[0], self.real_time as int, self.config.cursor.trail_time as int));
            }
        }
        self.control(held);
        self.update_player(delta_time);
        let ghost before = self.player.weapon.history@;
        proof {
            if before.len() > 0 {
                assert(before[before.len() - 1].time <= self.real_time - delta_time);
            }
        }
        self.update_weapon(delta_time);
    }

    fn update_cursor(&mut self, held: Held, tilt: i64)
        requires
            old(self).wf(),
            -MAX_TILT <= tilt <= MAX_TILT,
        ensures
            final(self).wf(),
            ({
                let st = reconciled(old(self).player.cursor.state, held);
                let last = old(self).player.cursor.last_state;
                let h = old(self).player.cursor.history@;
                &&& final(self).player.cursor.state == st
                &&& final(self).player.cursor.last_state == st
                &&& final(self).player.cursor.pos == old(self).player.cursor.pos
                &&& pruned_from(
                    h,
                    final(self).player.cursor.history@,
                    old(self).real_time as int,
                    old(self).config.cursor.trail_time as int,
                )
                &&& if st != last && finds_gesture(h, last) {
                    let swing = gesture_swing(h, last, old(self).config);
                    let w = old(self).player.weapon;
                    &&& final(self).player.weapon.action == WeaponAction::Swing(swing)
                    &&& final(self).player.weapon.velocity == w.velocity.plus_spec(
                        swing_boost(swing.arc, swing.power as int, w.position),
                    ).clamp_len_spec(w.speed_max as int)
                    &&& final(self).floating_texts@ == old(self).floating_texts@.push(
                        gesture_text(h, last, old(self).config, old(self).player.position, tilt as int),
                    )
                    &&& final(self).player.weapon.position == w.position
                    &&& final(self).player.weapon.history == w.history
                    &&& final(self).player.weapon.reach == w.reach
                    &&& final(self).player.weapon.acceleration == w.acceleration
                    &&& final(self).player.weapon.speed_max == w.speed_max
                } else {
                    &&& final(self).player.weapon == old(self).player.weapon
                    &&& final(self).floating_texts == old(self).floating_texts
                }
            }),
            final(self).player.position == old(self).player.position,
            final(self).player.velocity == old(self).player.velocity,
            final(self).player.target_move_dir == old(self).player.target_move_dir,
            final(self).config == old(self).config,
            final(self).real_time == old(self).real_time,
            final(self).mannequins == old(self).mannequins,
    {
        // Held keys are checked again in case an event was missed (e.g. on focus loss).
        let attack = held.attack;
        let defend = held.defend;
        match self.player.cursor.state {
            CursorState::Idle => {
                if attack {
                    self.player.cursor.state = CursorState::Attack;
                } else if defend {
                    self.player.cursor.state = CursorState::Defend;
                }
            },
            CursorState::Attack => {
                if !attack {
                    self.player.cursor.state = CursorState::Idle;
                }
            },
            CursorState::Defend => {
                if !defend {
                    self.player.cursor.state = CursorState::Idle;
                }
            },
        }
        if self.player.cursor.state != self.player.cursor.last_state {
            self.check_action(tilt);
            self.player.cursor.last_state = self.player.cursor.state;
        }
        let now = self.real_time;
        let trail = self.config.cursor.trail_time;
        let ghost before = self.player.cursor.history@;
        self.player.cursor.history.prune(now, trail);
        proof {
            let h = self.player.cursor.history@;
            let reach = self.player.weapon.reach;
            assert forall|i: int| 0 <= i < h.len() implies {
                &&& 0 <= (#[trigger] h[i]).time <= self.real_time
                &&& h[i].relative_pos.len_sqr_spec() <= reach * reach
                &&& h[i].relative_pos.within(reach as int)
            } by {
                assert(h[i] == before[before.len() - h.len() + i]);
            }
        }
    }

    /// Classifies the gesture that just ended: the last run of trail entries in the state
    /// the cursor left. A run in `Attack` or `Defend` becomes a swing along the arc through
    /// the run's first, middle and last samples, gives the weapon a push onto it, and leaves
    /// an annotation tilted by `tilt`. Without such a run nothing changes.
    #[verifier::rlimit(50)]
    pub fn check_action(&mut self, tilt: i64)
        requires
            old(self).wf(),
            -MAX_TILT <= tilt <= MAX_TILT,
        ensures
            final(self).wf(),
            ({
                let h = old(self).player.cursor.history@;
                let st = old(self).player.cursor.last_state;
                let w = old(self).player.weapon;
                if !finds_gesture(h, st) {
                    *final(self) == *old(self)
                } else {
                    let swing = gesture_swing(h, st, old(self).config);
                    &&& final(self).player.weapon.action == WeaponAction::Swing(swing)
                    &&& final(self).player.weapon.velocity == w.velocity.plus_spec(
                        swing_boost(swing.arc, swing.power as int, w.position),
                    ).clamp_len_spec(w.speed_max as int)
                    &&& final(self).floating_texts@ == old(self).floating_texts@.push(
                        gesture_text(h, st, old(self).config, old(self).player.position, tilt as int),
                    )
                    &&& final(self).player.cursor == old(self).player.cursor
                    &&& final(self).player.weapon.position == w.position
                    &&& final(self).player.weapon.history == w.history
                    &&& final(self).player.weapon.reach == w.reach
                    &&& final(self).player.weapon.acceleration == w.acceleration
                    &&& final(self).player.weapon.speed_max == w.speed_max
                    &&& final(self).player.position == old(self).player.position
                    &&& final(self).player.velocity == old(self).player.velocity
                    &&& final(self).player.target_move_dir == old(self).player.target_move_dir
                    &&& final(self).config == old(self).config
                    &&& final(self).real_time == old(self).real_time
                    &&& final(self).mannequins == old(self).mannequins
                }
            }),
    {
        let st = self.player.cursor.last_state;
        let end = match self.player.cursor.history.last_in_state(st) {
            Some(end) => end,
            None => return,
        };
        let intent = match st {
            CursorState::Idle => return,
            CursorState::Attack => WeaponIntent::Attack,
            CursorState::Defend => WeaponIntent::Defend,
        };
        let ghost h = self.player.cursor.history@;
        let reach = self.player.weapon.reach;
        let n = self.player.cursor.history.len();
        assert(end < n);
        let start = self.player.cursor.history.run_start(end + 1, st);
        let mid = start + (end - start) / 2;
        assert(mid == (start + end) / 2);
        let s = self.player.cursor.history.get(start).unwrap();
        let m = self.player.cursor.history.get(mid).unwrap();
        let e = self.player.cursor.history.get(end).unwrap();
        proof {
            assert(h[start as int] == s);
            assert(h[mid as int] == m);
            assert(h[end as int] == e);
        }
        let pos = self.player.position.plus(s.relative_pos.plus(e.relative_pos).mul_div(1, 2));

        let trail = self.config.cursor.trail_time;
        let hold = e.time - s.time;
        let h_clamped = if hold < 0 {
            0
        } else if hold > trail {
            trail
        } else {
            hold
        };
        let min = self.config.weapon.power_min;
        let max = self.config.weapon.power_max;
        let spread = max - min;
        proof {
            assert(abs(spread as int) * h_clamped <= (WIDE as int) * trail) by (nonlinear_arith)
                requires
                    abs(spread as int) <= BOUND,
                    0 <= h_clamped <= trail,
            ;
            let d = abs(spread as int);
            lemma_scale_nonneg(d, h_clamped as int, trail as int);
        }
        let power = min + mul_div(spread, h_clamped, trail);
        let value = (power + ONE / 2) / ONE;

        let arc = Parabola::new([s.relative_pos, m.relative_pos, e.relative_pos]);
        let swing = WeaponSwing { intent, power, arc };
        let position = self.player.weapon.position;
        let t = arc.project(position);
        let projection = arc.get(t);
        let tangent = arc.tangent(t);
        let normal = projection.minus(position);
        let boost = normal.times(3).plus(tangent.with_len(5 * power)).times(3);
        let v = self.player.weapon.velocity.plus(boost).clamp_len(self.player.weapon.speed_max);
        proof {
            lemma_len_within(v, self.player.weapon.speed_max as int);
        }
        self.player.weapon.action = WeaponAction::Swing(swing);
        self.player.weapon.velocity = v;
        self.floating_texts.push(
            FloatingText {
                intent,
                value,
                pos,
                lifetime: TEXT_LIFETIME,
                lifetime_max: TEXT_LIFETIME,
                initial_scale: ONE,
                rotation: tilt,
            },
        );
    }

    fn update_texts(&mut self, dt: i64)
        requires
            0 <= dt,
        ensures
            final(self).floating_texts@ == aged(old(self).floating_texts@, dt as int),
            final(self).floating_texts@.len() <= old(self).floating_texts@.len(),
            final(self).player == old(self).player,
            final(self).config == old(self).config,
            final(self).real_time == old(self).real_time,
            final(self).mannequins == old(self).mannequins,
    {
        let ghost s = self.floating_texts@;
        let mut kept: Vec<FloatingText> = Vec::new();
        let mut i: usize = 0;
        proof {
            assert(s.subrange(0, 0) =~= Seq::<FloatingText>::empty());
        }
        while i < self.floating_texts.len()
            invariant
                s == self.floating_texts@,
                0 <= dt,
                i <= s.len(),
                kept@ == aged(s.subrange(0, i as int), dt as int),
            decreases s.len() - i,
        {
            let t = self.floating_texts[i];
            proof {
                assert(s.subrange(0, i + 1).drop_last() =~= s.subrange(0, i as int));
                assert(s.subrange(0, i + 1).last() == t);
            }
            if (t.lifetime as i128) - (dt as i128) > 0 {
                kept.push(FloatingText { lifetime: t.lifetime - dt, ..t });
            }
            i = i + 1;
        }
        proof {
            assert(s.subrange(0, s.len() as int) =~= s);
            lemma_aged_len(s, dt as int);
        }
        self.floating_texts = kept;
    }

    fn update_player(&mut self, dt: i64)
        requires
            old(self).wf(),
            0 <= dt <= MAX_STEP,
        ensures
            final(self).wf(),
            ({
                let p = old(self).player;
                let walk = old(self).config.player.walk_speed as int;
                let target = Vec2 {
                    x: axis_speed(p.target_move_dir.x as int, walk) as i64,
                    y: axis_speed(p.target_move_dir.y as int, walk) as i64,
                };
                let max_step = scale_toward_zero(old(self).config.player.acceleration as int, dt as int, ONE as int);
                let v = pursue_spec(p.velocity, target, max_step);
                let moved = p.position.plus_spec(v.rescaled(dt as int, ONE as int));
                &&& final(self).player.velocity == v
                &&& final(self).player.velocity.minus_spec(p.velocity).len_sqr_spec() <= max_step * max_step
                &&& final(self).player.position == Vec2 {
                    x: saturate(moved.x as int) as i64,
                    y: saturate(moved.y as int) as i64,
                }
            }),
            final(self).player.cursor == old(self).player.cursor,
            final(self).player.weapon == old(self).player.weapon,
            final(self).player.target_move_dir == old(self).player.target_move_dir,
            final(self).config == old(self).config,
            final(self).real_time == old(self).real_time,
            final(self).floating_texts == old(self).floating_texts,
            final(self).mannequins == old(self).mannequins,
    {
        let walk = self.config.player.walk_speed;
        let dir = self.player.target_move_dir;
        let target = Vec2 {
            x: if dir.x > 0 { walk } else if dir.x < 0 { -walk } else { 0 },
            y: if dir.y > 0 { walk } else if dir.y < 0 { -walk } else { 0 },
        };
        let acc = self.config.player.acceleration;
        proof {
            assert(acc * dt <= (WIDE as int) * ONE) by (nonlinear_arith)
                requires
                    0 <= acc <= BOUND,
                    0 <= dt <= MAX_STEP,
            ;
        }
        let max_step = mul_div(acc, dt, ONE);
        let v = pursue(self.player.velocity, target, max_step);
        proof {
            assert(abs(v.x as int) * dt <= (WIDE as int) * ONE) by (nonlinear_arith)
                requires
                    -BOUND <= v.x <= BOUND,
                    0 <= dt <= MAX_STEP,
            ;
            assert(abs(v.y as int) * dt <= (WIDE as int) * ONE) by (nonlinear_arith)
                requires
                    -BOUND <= v.y <= BOUND,
                    0 <= dt <= MAX_STEP,
            ;
        }
        let step = v.mul_div(dt, ONE);
        proof {
            assert(abs(step.x as int) * ONE <= BOUND * MAX_STEP) by (nonlinear_arith)
                requires
                    abs(step.x as int) * ONE <= abs(v.x as int) * dt,
                    abs(v.x as int) <= BOUND,
                    0 <= dt <= MAX_STEP,
            ;
            assert(abs(step.y as int) * ONE <= BOUND * MAX_STEP) by (nonlinear_arith)
                requires
                    abs(step.y as int) * ONE <= abs(v.y as int) * dt,
                    abs(v.y as int) <= BOUND,
                    0 <= dt <= MAX_STEP,
            ;
        }
        let moved = self.player.position.plus(step);
        self.player.velocity = v;
        self.player.position = Vec2 { x: saturate_coord(moved.x), y: saturate_coord(moved.y) };
    }

    fn control(&mut self, held: Held)
        requires
            old(self).wf(),
        ensures
            final(self).wf(),
            old(self).player.weapon.action.is_swing() ==> final(self).player.weapon.action == old(self).player.weapon.action,
            !old(self).player.weapon.action.is_swing() ==> final(self).player.weapon.action == rest_action(
                old(self).player.cursor.state,
                old(self).player.cursor.pos,
                charge_target(
                    old(self).player.cursor.history@,
                    old(self).player.cursor.last_state,
                    old(self).player.weapon.position,
                ),
            ),
            final(self).player.target_move_dir == (Vec2 {
                x: axis_dir(held.right, held.left) as i64,
                y: axis_dir(held.up, held.down) as i64,
            }),
            final(self).player.cursor == old(self).player.cursor,
            final(self).player.position == old(self).player.position,
            final(self).player.velocity == old(self).player.velocity,
            final(self).player.weapon.position == old(self).player.weapon.position,
            final(self).player.weapon.velocity == old(self).player.weapon.velocity,
            final(self).player.weapon.history == old(self).player.weapon.history,
            final(self).player.weapon.reach == old(self).player.weapon.reach,
            final(self).player.weapon.acceleration == old(self).player.weapon.acceleration,
            final(self).player.weapon.speed_max == old(self).player.weapon.speed_max,
            final(self).config == old(self).config,
            final(self).real_time == old(self).real_time,
            final(self).floating_texts == old(self).floating_texts,
            final(self).mannequins == old(self).mannequins,
    {
        if !self.player.weapon.action.swinging() {
            let h = &self.player.cursor.history;
            let start = h.run_start(h.len(), self.player.cursor.last_state);
            proof {
                assert(h@.subrange(0, h@.len() as int) =~= h@);
            }
            let target = match h.get(start) {
                Some(e) => e.relative_pos,
                None => self.player.weapon.position,
            };
            self.player.weapon.action = match self.player.cursor.state {
                CursorState::Idle => WeaponAction::Idle { target: self.player.cursor.pos },
                CursorState::Attack => WeaponAction::Charging { target, intent: WeaponIntent::Attack },
                CursorState::Defend => WeaponAction::Charging { target, intent: WeaponIntent::Defend },
            };
        }
        let x: i64 = (if held.right { ONE } else { 0 }) - (if held.left { ONE } else { 0 });
        let y: i64 = (if held.up { ONE } else { 0 }) - (if held.down { ONE } else { 0 });
        self.player.target_move_dir = Vec2 { x, y };
    }

    #[verifier::rlimit(50)]
    fn update_weapon(&mut self, dt: i64)
        requires
            old(self).wf(),
            0 <= dt <= MAX_STEP,
        ensures
            final(self).wf(),
            ({
                let w = old(self).player.weapon;
                let max_step = scale_toward_zero(w.acceleration as int, dt as int, ONE as int);
                let v = final(self).player.weapon.velocity;
                &&& match w.action {
                    WeaponAction::Swing(s) => {
                        let t = s.arc.projection_spec(w.position);
                        if t > ONE {
                            &&& v == recoil_velocity(
                                w.velocity,
                                w.position,
                                old(self).player.cursor.pos,
                                s.power as int,
                                w.speed_max as int,
                            )
                            &&& final(self).player.weapon.action == (WeaponAction::Idle {
                                target: old(self).player.cursor.pos,
                            })
                        } else {
                            &&& v == pursue_spec(
                                w.velocity,
                                follow_velocity(s.arc, s.power as int, w.position, t, w.speed_max as int),
                                max_step,
                            )
                            &&& v.minus_spec(w.velocity).len_sqr_spec() <= max_step * max_step
                            &&& final(self).player.weapon.action == w.action
                        }
                    },
                    WeaponAction::Idle { target } => {
                        &&& v == pursue_spec(
                            w.velocity,
                            chase_velocity(w.position, target, w.reach as int, w.speed_max as int),
                            max_step,
                        )
                        &&& v.minus_spec(w.velocity).len_sqr_spec() <= max_step * max_step
                        &&& final(self).player.weapon.action == w.action
                    },
                    WeaponAction::Charging { target, .. } => {
                        &&& v == pursue_spec(
                            w.velocity,
                            chase_velocity(w.position, target, w.reach as int, w.speed_max as int),
                            max_step,
                        )
                        &&& v.minus_spec(w.velocity).len_sqr_spec() <= max_step * max_step
                        &&& final(self).player.weapon.action == w.action
                    },
                }
                &&& final(self).player.weapon.position == w.position.plus_spec(
                    v.rescaled(dt as int, ONE as int),
                ).clamp_len_spec(w.reach as int)
                &&& exists|kept: Seq<CursorEntry>|
                    pruned_from(
                        w.history@,
                        kept,
                        old(self).real_time as int,
                        old(self).config.cursor.trail_time as int,
                    ) && final(self).player.weapon.history@ == kept.push(
                        CursorEntry {
                            world_pos: old(self).player.position.plus_spec(
                                final(self).player.weapon.position,
                            ),
                            relative_pos: final(self).player.weapon.position,
                            time: old(self).real_time,
                            state: trail_state(final(self).player.weapon.action),
                        },
                    )
            }),
            !old(self).player.weapon.action.is_swing() ==> !final(self).player.weapon.action.is_swing(),
            final(self).player.weapon.action == action_after(
                old(self).player.weapon.action,
                old(self).player.weapon.position,
                old(self).player.cursor.pos,
            ),
            final(self).player.weapon.velocity == velocity_after(
                old(self).player.weapon.action,
                old(self).player.weapon.velocity,
                old(self).player.weapon.position,
                old(self).player.cursor.pos,
                old(self).player.weapon.reach as int,
                old(self).player.weapon.speed_max as int,
                scale_toward_zero(old(self).player.weapon.acceleration as int, dt as int, ONE as int),
            ),
            ({
                let before = old(self).player.weapon.history@;
                let after = final(self).player.weapon.history@;
                let now = old(self).real_time as int;
                let trail = old(self).config.cursor.trail_time as int;
                &&& 1 <= after.len() <= before.len() + 1
                &&& after.last().time == now
                &&& forall|i: int| 0 <= i < after.len() ==> fresh(#[trigger] after[i], now, trail)
                &&& (forall|i: int| 0 <= i < before.len() ==> fresh(#[trigger] before[i], now, trail))
                    ==> after.len() == before.len() + 1
                &&& strictly_timed(before) && (before.len() > 0 ==> before.last().time < now)
                    ==> strictly_timed(after)
            }),
            final(self).player.weapon.reach == old(self).player.weapon.reach,
            final(self).player.weapon.acceleration == old(self).player.weapon.acceleration,
            final(self).player.weapon.speed_max == old(self).player.weapon.speed_max,
            final(self).player.cursor == old(self).player.cursor,
            final(self).player.position == old(self).player.position,
            final(self).player.velocity == old(self).player.velocity,
            final(self).player.target_move_dir == old(self).player.target_move_dir,
            final(self).config == old(self).config,
            final(self).real_time == old(self).real_time,
            final(self).floating_texts == old(self).floating_texts,
            final(self).mannequins == old(self).mannequins,
    {
        let reach = self.player.weapon.reach;
        let speed_max = self.player.weapon.speed_max;
        let position = self.player.weapon.position;
        let velocity = self.player.weapon.velocity;
        let acc = self.player.weapon.acceleration;
        proof {
            assert(acc * dt <= (WIDE as int) * ONE) by (nonlinear_arith)
                requires
                    0 <= acc <= BOUND,
                    0 <= dt <= MAX_STEP,
            ;
        }
        let max_step = mul_div(acc, dt, ONE);
        match self.player.weapon.action {
            WeaponAction::Swing(swing) => {
                let t = swing.arc.project(position);
                if t > ONE {
                    let cursor = self.player.cursor.pos;
                    let push = cursor.minus(position).times(5);
                    proof {
                        let p = swing.power as int;
                        assert(abs(push.x as int) * p <= (WIDE as int) * ONE) by (nonlinear_arith)
                            requires
                                abs(push.x as int) <= 20 * BOUND,
                                0 <= p <= BOUND,
                        ;
                        assert(abs(push.y as int) * p <= (WIDE as int) * ONE) by (nonlinear_arith)
                            requires
                                abs(push.y as int) <= 20 * BOUND,
                                0 <= p <= BOUND,
                        ;
                    }
                    let boost = push.mul_div(swing.power, ONE);
                    proof {
                        assert(abs(push.x as int) * swing.power <= 20 * BOUND * BOUND) by (nonlinear_arith)
                            requires
                                0 <= abs(push.x as int) <= 20 * BOUND,
                                0 <= swing.power <= BOUND,
                        ;
                        assert(abs(boost.x as int) <= WIDE / 2);
                        assert(abs(push.y as int) * swing.power <= 20 * BOUND * BOUND) by (nonlinear_arith)
                            requires
                                0 <= abs(push.y as int) <= 20 * BOUND,
                                0 <= swing.power <= BOUND,
                        ;
                        assert(abs(boost.y as int) <= WIDE / 2);
                    }
                    let v = velocity.plus(boost).clamp_len(speed_max);
                    proof {
                        lemma_len_within(v, speed_max as int);
                    }
                    self.player.weapon.velocity = v;
                    self.player.weapon.action = WeaponAction::Idle { target: cursor };
                } else {
                    let projection = swing.arc.get(t);
                    let tangent = swing.arc.tangent(t);
                    let normal = projection.minus(position);
                    let along = tangent.with_len(5 * swing.power);
                    let aim = normal.times(5).plus(along).times(3);
                    let target_vel = aim.clamp_len(speed_max * 3 / 2);
                    proof {
                        lemma_len_within(target_vel, speed_max * 3 / 2);
                    }
                    self.player.weapon.velocity = pursue(velocity, target_vel, max_step);
                }
            },
            WeaponAction::Idle { target } => {
                let target = target.clamp_len(reach);
                proof {
                    lemma_len_within(target, reach as int);
                }
                let target_vel = target.minus(position).times(10).clamp_len(speed_max);
                proof {
                    lemma_len_within(target_vel, speed_max as int);
                }
                self.player.weapon.velocity = pursue(velocity, target_vel, max_step);
            },
            WeaponAction::Charging { target, .. } => {
                let target = target.clamp_len(reach);
                proof {
                    lemma_len_within(target, reach as int);
                }
                let target_vel = target.minus(position).times(10).clamp_len(speed_max);
                proof {
                    lemma_len_within(target_vel, speed_max as int);
                }
                self.player.weapon.velocity = pursue(velocity, target_vel, max_step);
            },
        }
        let v = self.player.weapon.velocity;
        proof {
            assert(abs(v.x as int) * dt <= (WIDE as int) * ONE) by (nonlinear_arith)
                requires
                    abs(v.x as int) <= 2 * BOUND,
                    0 <= dt <= MAX_STEP,
            ;
            assert(abs(v.y as int) * dt <= (WIDE as int) * ONE) by (nonlinear_arith)
                requires
                    abs(v.y as int) <= 2 * BOUND,
                    0 <= dt <= MAX_STEP,
            ;
        }
        let step = v.mul_div(dt, ONE);
        proof {
            assert(abs(step.x as int) <= 2 * BOUND * MAX_STEP) by (nonlinear_arith)
                requires
                    abs(step.x as int) * ONE <= abs(v.x as int) * dt,
                    abs(v.x as int) <= 2 * BOUND,
                    0 <= dt <= MAX_STEP,
            ;
            assert(abs(step.y as int) <= 2 * BOUND * MAX_STEP) by (nonlinear_arith)
                requires
                    abs(step.y as int) * ONE <= abs(v.y as int) * dt,
                    abs(v.y as int) <= 2 * BOUND,
                    0 <= dt <= MAX_STEP,
            ;
        }
        let new_position = position.plus(step).clamp_len(reach);
        proof {
            lemma_len_within(new_position, reach as int);
        }
        self.player.weapon.position = new_position;
        let now = self.real_time;
        let ghost before = self.player.weapon.history@;
        self.player.weapon.history.prune(now, self.config.cursor.trail_time);
        let ghost kept = self.player.weapon.history@;
        let state = match self.player.weapon.action {
            WeaponAction::Swing(s) => match s.intent {
                WeaponIntent::Attack => CursorState::Attack,
                WeaponIntent::Defend => CursorState::Defend,
            },
            _ => CursorState::Idle,
        };
        let entry = CursorEntry {
            world_pos: self.player.position.plus(new_position),
            relative_pos: new_position,
            time: now,
            state,
        };
        proof {
            if kept.len() > 0 {
                assert(kept.last() == before[before.len() - 1]);
            }
        }
        self.player.weapon.history.push(entry);
        proof {
            let h = self.player.weapon.history@;
            assert forall|i: int| 0 <= i < h.len() implies {
                &&& (#[trigger] h[i]).time <= self.real_time
                &&& h[i].relative_pos.len_sqr_spec() <= reach * reach
                &&& h[i].relative_pos.within(reach as int)
            } by {
                if i < h.len() - 1 {
                    assert(h[i] == kept[i]);
                    assert(kept[i] == before[before.len() - kept.len() + i]);
                }
            }
            lemma_trail_push(before, kept, entry, now as int, self.config.cursor.trail_time as int);
        }
    }

    /// The key of `intent` was let go: a gesture of that intent ends, any other stays.
    pub fn release_intent(&mut self, intent: WeaponIntent)
        requires
            old(self).wf(),
        ensures
            final(self).wf(),
            final(self).player.cursor.state == (if old(self).player.cursor.state == state_of(intent) {
                CursorState::Idle
            } else {
                old(self).player.cursor.state
            }),
            final(self).player.cursor.pos == old(self).player.cursor.pos,
            final(self).player.cursor.history@ == old(self).player.cursor.history@,
            final(self).player.cursor.last_state == old(self).player.cursor.last_state,
            final(self).player.weapon == old(self).player.weapon,
            final(self).player.position == old(self).player.position,
            final(self).player.velocity == old(self).player.velocity,
            final(self).player.target_move_dir == old(self).player.target_move_dir,
            final(self).config == old(self).config,
            final(self).real_time == old(self).real_time,
            final(self).floating_texts == old(self).floating_texts,
            final(self).mannequins == old(self).mannequins,
    {
        let held = match intent {
            WeaponIntent::Attack => CursorState::Attack,
            WeaponIntent::Defend => CursorState::Defend,
        };
        if self.player.cursor.state == held {
            self.handle_event(Event::Release);
        }
    }

    /// Applies one input event.
    pub fn handle_event(&mut self, event: Event)
        requires
            old(self).wf(),
            event matches Event::CursorMove { delta } ==> delta.within(MAX_MOVE as int),
        ensures
            final(self).wf(),
            match event {
                Event::CursorMove { delta } => {
                    let pos = old(self).player.cursor.pos.plus_spec(delta).clamp_len_spec(
                        old(self).player.weapon.reach as int,
                    );
                    &&& final(self).player.cursor.pos == pos
                    &&& final(self).player.cursor.history@ == old(self).player.cursor.history@.push(
                        CursorEntry {
                            world_pos: old(self).player.position.plus_spec(pos),
                            relative_pos: pos,
                            time: old(self).real_time,
                            state: old(self).player.cursor.state,
                        },
                    )
                    &&& final(self).player.cursor.state == old(self).player.cursor.state
                },
                Event::Charge(intent) => {
                    &&& final(self).player.cursor.pos == old(self).player.cursor.pos
                    &&& final(self).player.cursor.history@ == old(self).player.cursor.history@
                    &&& final(self).player.cursor.state == state_of(intent)
                },
                Event::Release => {
                    &&& final(self).player.cursor.pos == old(self).player.cursor.pos
                    &&& final(self).player.cursor.history@ == old(self).player.cursor.history@
                    &&& final(self).player.cursor.state == CursorState::Idle
                },
            },
            final(self).player.cursor.last_state == old(self).player.cursor.last_state,
            final(self).player.weapon == old(self).player.weapon,
            final(self).player.position == old(self).player.position,
            final(self).player.velocity == old(self).player.velocity,
            final(self).player.target_move_dir == old(self).player.target_move_dir,
            final(self).config == old(self).config,
            final(self).real_time == old(self).real_time,
            final(self).floating_texts == old(self).floating_texts,
            final(self).mannequins == old(self).mannequins,
    {
        match event {
            Event::CursorMove { delta } => {
                let reach = self.player.weapon.reach;
                let position = self.player.cursor.pos.plus(delta);
                let position = position.clamp_len(reach);
                proof {
                    lemma_len_within(position, reach as int);
                }
                self.player.cursor.pos = position;
                let entry = CursorEntry {
                    world_pos: self.player.position.plus(position),
                    relative_pos: position,
                    time: self.real_time,
                    state: self.player.cursor.state,
                };
                self.player.cursor.history.push(entry);
                proof {
                    let h = self.player.cursor.history@;
                    assert forall|i: int| 0 <= i < h.len() implies {
                        &&& (#[trigger] h[i]).time <= self.real_time
                        &&& h[i].relative_pos.len_sqr_spec() <= reach * reach
                        &&& h[i].relative_pos.within(reach as int)
                    } by {
                        if i < h.len() - 1 {
                            assert(h[i] == old(self).player.cursor.history@[i]);
                        }
                    }
                }
            },
            Event::Charge(intent) => {
                self.player.cursor.state = match intent {
                    WeaponIntent::Attack => CursorState::Attack,
                    WeaponIntent::Defend => CursorState::Defend,
                };
            },
            Event::Release => {
                self.player.cursor.state = CursorState::Idle;
            },
        }
    }
}

} // verus!
