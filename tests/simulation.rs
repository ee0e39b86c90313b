use swordplay::model::{DEFAULT_REACH, TEXT_LIFETIME};
use swordplay::{
    Config, CursorConfig, CursorState, Event, FloatingText, Held, Model, PlayerConfig, Vec2, WeaponAction,
    WeaponConfig, WeaponIntent, ONE,
};

const TICK: i64 = 16;

fn config() -> Config {
    Config {
        cursor: CursorConfig { sensitivity: ONE, trail_time: 1000, fade_time: 500 },
        player: PlayerConfig { walk_speed: 3 * ONE, acceleration: 20 * ONE },
        weapon: WeaponConfig {
            acceleration: 100 * ONE,
            speed_max: 10 * ONE,
            power_min: ONE,
            power_max: 3 * ONE,
        },
    }
}

fn none() -> Held {
    Held { attack: false, defend: false, up: false, down: false, left: false, right: false }
}

fn attack() -> Held {
    Held { attack: true, ..none() }
}

fn len_sqr(v: Vec2) -> i128 {
    (v.x as i128) * (v.x as i128) + (v.y as i128) * (v.y as i128)
}

fn step_bound(acc: i64, dt: i64) -> i128 {
    let m = (acc as i128) * (dt as i128) / (ONE as i128);
    m * m
}

/// Holds attack while the cursor sweeps for `ticks` ticks, then releases.
fn gesture(m: &mut Model, ticks: i64) {
    m.update(TICK, attack(), 0);
    for i in 0..ticks {
        m.handle_event(Event::CursorMove { delta: Vec2::new(60, 45 - 3 * i) });
        m.update(TICK, attack(), 0);
    }
}

#[test]
fn new_model_is_at_rest() {
    let m = Model::new(config());
    assert_eq!(m.real_time, 0);
    assert_eq!(m.player.weapon.reach, DEFAULT_REACH);
    assert_eq!(m.player.weapon.action, WeaponAction::Idle { target: Vec2::new(0, 0) });
    assert!(m.player.cursor.history.is_empty());
    assert_eq!(m.mannequins.len(), 1);
    assert!(!m.player.weapon.action.swinging());
}

#[test]
fn cursor_move_is_clamped_and_recorded() {
    let mut m = Model::new(config());
    m.handle_event(Event::CursorMove { delta: Vec2::new(300, 400) });
    assert_eq!(m.player.cursor.pos, Vec2::new(300, 400));
    m.handle_event(Event::CursorMove { delta: Vec2::new(6000, 8000) });
    assert_eq!(m.player.cursor.pos, Vec2::new(1200, 1600));
    assert_eq!(m.player.cursor.history.len(), 2);
    let e = m.player.cursor.history.get(1).unwrap();
    assert_eq!(e.relative_pos, Vec2::new(1200, 1600));
    assert_eq!(e.state, CursorState::Idle);
}

#[test]
fn charge_and_release_events_set_state() {
    let mut m = Model::new(config());
    m.handle_event(Event::Charge(WeaponIntent::Defend));
    assert_eq!(m.player.cursor.state, CursorState::Defend);
    m.handle_event(Event::Release);
    assert_eq!(m.player.cursor.state, CursorState::Idle);
    m.handle_event(Event::Charge(WeaponIntent::Attack));
    assert_eq!(m.player.cursor.state, CursorState::Attack);
}

#[test]
fn reach_holds_over_many_ticks() {
    let mut m = Model::new(config());
    let reach = m.player.weapon.reach as i128;
    for i in 0..400i64 {
        let d = Vec2::new(((i * 7919) % 3001) - 1500, ((i * 104729) % 2001) - 1000);
        m.handle_event(Event::CursorMove { delta: d });
        let held = Held { attack: (i / 40) % 2 == 1, defend: (i / 60) % 3 == 2, up: i % 5 == 0, down: false, left: i % 7 == 0, right: true };
        m.update(TICK + (i % 20), held, (i % 31) * 1000 - 15000);
        assert!(len_sqr(m.player.weapon.position) <= reach * reach);
        assert!(len_sqr(m.player.cursor.pos) <= reach * reach);
    }
}

#[test]
fn swing_completes_after_half_trail_gesture() {
    let mut m = Model::new(config());
    let cfg = config();
    // Held for half the trail time (about 500 ms), then released.
    gesture(&mut m, cfg.cursor.trail_time / 2 / TICK);
    assert!(matches!(m.player.weapon.action, WeaponAction::Charging { intent: WeaponIntent::Attack, .. }));
    assert!(m.floating_texts.is_empty());
    m.update(TICK, none(), 0);
    let swing = match m.player.weapon.action {
        WeaponAction::Swing(s) => s,
        other => panic!("expected a swing, got {:?}", other),
    };
    assert_eq!(swing.intent, WeaponIntent::Attack);
    assert!(cfg.weapon.power_min < swing.power && swing.power < cfg.weapon.power_max);
    assert_eq!(m.floating_texts.len(), 1);
    assert_eq!(m.floating_texts[0].text(), "Slash 2");
    assert_eq!(m.floating_texts[0].lifetime, TEXT_LIFETIME);
    let mut exited = false;
    for _ in 0..500 {
        let t = swing.arc.project(m.player.weapon.position);
        m.update(TICK, none(), 0);
        if !m.player.weapon.action.swinging() {
            assert!(t > ONE);
            assert_eq!(m.player.weapon.action, WeaponAction::Idle { target: m.player.cursor.pos });
            exited = true;
            break;
        }
    }
    assert!(exited);
    assert_eq!(m.floating_texts.len(), 1);
}

#[test]
fn power_follows_hold_time() {
    let mut m = Model::new(config());
    gesture(&mut m, 10);
    m.update(TICK, none(), 0);
    let e = m.player.cursor.history.len();
    assert!(e > 0);
    match m.player.weapon.action {
        WeaponAction::Swing(s) => {
            // Samples at 32, 48, ..., 176 ms: held for 144 ms of a 1000 ms trail.
            assert_eq!(s.power, ONE + 2 * ONE * 144 / 1000);
        }
        other => panic!("expected a swing, got {:?}", other),
    }
    assert_eq!(m.floating_texts[0].text(), "Slash 1");
}

#[test]
fn defend_gesture_gives_parry() {
    let mut m = Model::new(config());
    let defend = Held { defend: true, ..none() };
    m.update(TICK, defend, 0);
    for _ in 0..5 {
        m.handle_event(Event::CursorMove { delta: Vec2::new(-40, 70) });
        m.update(TICK, defend, 7000);
    }
    m.update(TICK, none(), 7000);
    match m.player.weapon.action {
        WeaponAction::Swing(s) => assert_eq!(s.intent, WeaponIntent::Defend),
        other => panic!("expected a swing, got {:?}", other),
    }
    assert_eq!(m.floating_texts[0].text(), "Parry 1");
    assert_eq!(m.floating_texts[0].rotation, 7000);
}

#[test]
fn holding_a_state_classifies_once() {
    let mut m = Model::new(config());
    gesture(&mut m, 20);
    for _ in 0..10 {
        m.update(TICK, attack(), 0);
        assert!(m.floating_texts.is_empty());
        assert!(!m.player.weapon.action.swinging());
        assert_eq!(m.player.cursor.state, m.player.cursor.last_state);
    }
    m.update(TICK, none(), 0);
    assert_eq!(m.floating_texts.len(), 1);
    for _ in 0..10 {
        m.update(TICK, none(), 0);
        assert_eq!(m.floating_texts.len(), 1);
    }
}

#[test]
fn idle_run_is_not_classified() {
    let mut m = Model::new(config());
    for _ in 0..5 {
        m.handle_event(Event::CursorMove { delta: Vec2::new(50, 10) });
        m.update(TICK, none(), 0);
    }
    let before = m.player.weapon.action;
    let v = m.player.weapon.velocity;
    assert_eq!(m.player.cursor.last_state, CursorState::Idle);
    m.check_action(3000);
    assert!(m.floating_texts.is_empty());
    assert_eq!(m.player.weapon.action, before);
    assert_eq!(m.player.weapon.velocity, v);
}

#[test]
fn empty_history_is_not_classified() {
    let mut m = Model::new(config());
    m.player.cursor.last_state = CursorState::Attack;
    m.check_action(0);
    assert!(m.floating_texts.is_empty());
    assert!(!m.player.weapon.action.swinging());
}

#[test]
fn pursuit_changes_velocity_by_at_most_one_step() {
    let mut m = Model::new(config());
    let cfg = config();
    for i in 0..200i64 {
        let held = Held { up: i % 3 != 0, down: false, left: i % 4 == 0, right: i % 9 == 0, attack: false, defend: false };
        m.handle_event(Event::CursorMove { delta: Vec2::new(((i * 37) % 401) - 200, ((i * 53) % 301) - 150) });
        let dt = 10 + (i % 13);
        let pv = m.player.velocity;
        let wv = m.player.weapon.velocity;
        m.update(dt, held, 0);
        let d = Vec2::new(m.player.velocity.x - pv.x, m.player.velocity.y - pv.y);
        assert!(len_sqr(d) <= step_bound(cfg.player.acceleration, dt));
        let dw = Vec2::new(m.player.weapon.velocity.x - wv.x, m.player.weapon.velocity.y - wv.y);
        assert!(len_sqr(dw) <= step_bound(cfg.weapon.acceleration, dt));
    }
}

#[test]
fn player_walks_and_stops() {
    let mut m = Model::new(config());
    let up = Held { up: true, ..none() };
    m.update(100, up, 0);
    assert_eq!(m.player.target_move_dir, Vec2::new(0, ONE));
    // 20 units/s² for 0.1 s: 2 units/s, then 0.2 units moved.
    assert_eq!(m.player.velocity, Vec2::new(0, 2000));
    assert_eq!(m.player.position, Vec2::new(0, 200));
    for _ in 0..20 {
        m.update(100, up, 0);
    }
    assert_eq!(m.player.velocity, Vec2::new(0, 3000));
    for _ in 0..20 {
        m.update(100, none(), 0);
    }
    assert_eq!(m.player.velocity, Vec2::new(0, 0));
}

#[test]
fn texts_fade_out() {
    let mut m = Model::new(config());
    gesture(&mut m, 5);
    m.update(TICK, none(), 0);
    assert_eq!(m.floating_texts.len(), 1);
    m.update(400, none(), 0);
    assert_eq!(m.floating_texts[0].lifetime, TEXT_LIFETIME - 400);
    m.update(100, none(), 0);
    assert!(m.floating_texts.is_empty());
}

#[test]
fn release_only_ends_its_own_gesture() {
    let mut m = Model::new(config());
    m.handle_event(Event::Charge(WeaponIntent::Attack));
    m.release_intent(WeaponIntent::Defend);
    assert_eq!(m.player.cursor.state, CursorState::Attack);
    m.release_intent(WeaponIntent::Attack);
    assert_eq!(m.player.cursor.state, CursorState::Idle);
}

#[test]
fn long_tick_empties_quiet_cursor_trail() {
    let mut m = Model::new(config());
    for _ in 0..5 {
        m.handle_event(Event::CursorMove { delta: Vec2::new(20, 20) });
        m.update(TICK, none(), 0);
    }
    assert!(m.player.cursor.history.len() > 0);
    m.update(config().cursor.trail_time, none(), 0);
    assert!(m.player.cursor.history.is_empty());
}

#[test]
fn weapon_trail_grows_then_stays_bounded() {
    let mut m = Model::new(config());
    let trail = config().cursor.trail_time;
    let mut last = 0;
    for n in 1..200usize {
        m.update(TICK, none(), 0);
        let len = m.player.weapon.history.len();
        let cap = ((trail + TICK - 1) / TICK) as usize;
        assert_eq!(len, n.min(cap));
        assert!(len >= last || len == cap);
        last = len;
    }
}

#[test]
fn annotation_text_in_decimal() {
    let mut t = FloatingText {
        intent: WeaponIntent::Attack,
        value: 0,
        pos: Vec2::new(0, 0),
        lifetime: TEXT_LIFETIME,
        lifetime_max: TEXT_LIFETIME,
        initial_scale: ONE,
        rotation: 0,
    };
    assert_eq!(t.text(), "Slash 0");
    t.value = 1234;
    assert_eq!(t.text(), "Slash 1234");
    t.intent = WeaponIntent::Defend;
    t.value = -57;
    assert_eq!(t.text(), "Parry -57");
    t.value = i64::MIN;
    assert_eq!(t.text(), format!("Parry {}", i64::MIN));
}
