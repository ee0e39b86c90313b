use swordplay::{CursorEntry, CursorState, History, Vec2};

fn entry(time: i64, state: CursorState) -> CursorEntry {
    CursorEntry { world_pos: Vec2::new(time, 0), relative_pos: Vec2::new(time, 0), time, state }
}

fn filled(times: &[(i64, CursorState)]) -> History {
    let mut h = History::new();
    for &(t, s) in times {
        h.push(entry(t, s));
    }
    h
}

#[test]
fn prune_drops_only_stale_entries() {
    let mut h = filled(&[(0, CursorState::Idle), (100, CursorState::Idle), (200, CursorState::Idle)]);
    h.prune(250, 200);
    assert_eq!(h.len(), 2);
    assert_eq!(h.get(0).unwrap().time, 100);
    h.prune(300, 200);
    assert_eq!(h.len(), 1);
    assert_eq!(h.get(0).unwrap().time, 200);
    assert!(h.get(1).is_none());
}

#[test]
fn quiet_trail_empties_after_horizon() {
    let mut h = filled(&[(10, CursorState::Attack), (20, CursorState::Attack)]);
    h.prune(500, 1000);
    assert_eq!(h.len(), 2);
    h.prune(1021, 1000);
    assert!(h.is_empty());
}

#[test]
fn trail_fed_each_tick_grows_then_stays_bounded() {
    let mut h = History::new();
    let horizon = 100;
    let mut last_len = 0;
    for tick in 0..300i64 {
        let now = tick * 16;
        h.prune(now, horizon);
        h.push(entry(now, CursorState::Idle));
        for i in 0..h.len() {
            assert!(now - h.get(i).unwrap().time < horizon);
        }
        if now < horizon {
            assert!(h.len() > last_len);
        }
        assert!(h.len() <= 7);
        last_len = h.len();
    }
    assert_eq!(h.len(), 7);
}

#[test]
fn run_start_and_last_in_state() {
    let h = filled(&[
        (0, CursorState::Idle),
        (1, CursorState::Attack),
        (2, CursorState::Attack),
        (3, CursorState::Idle),
    ]);
    assert_eq!(h.run_start(h.len(), CursorState::Idle), 3);
    assert_eq!(h.run_start(h.len(), CursorState::Attack), 4);
    assert_eq!(h.run_start(3, CursorState::Attack), 1);
    assert_eq!(h.last_in_state(CursorState::Attack), Some(2));
    assert_eq!(h.last_in_state(CursorState::Idle), Some(3));
    assert_eq!(h.last_in_state(CursorState::Defend), None);
    let all = filled(&[(0, CursorState::Defend), (1, CursorState::Defend)]);
    assert_eq!(all.run_start(all.len(), CursorState::Defend), 0);
}
