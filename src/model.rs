//! The simulation state: cursor, player, weapon and the annotations they leave.
use vstd::prelude::*;
use vstd::string::*;

use crate::history::{CursorEntry, CursorState, History};
use crate::parabola::{Parabola, ARC_BOUND};
use crate::shape::Shape;
use crate::vector::{Vec2, ONE};

verus! {

/// Bound on configured rates and on every position relative to the player.
pub const BOUND: i64 = ARC_BOUND;

/// Bound on a coordinate of the player's world position.
pub const WORLD: i64 = 0x10_0000_0000_0000;

/// Longest tick, in milliseconds.
pub const MAX_STEP: i64 = 0x10_0000;

/// How long a floating annotation stays, in milliseconds.
pub const TEXT_LIFETIME: i64 = 500;

/// Largest tilt of a floating annotation, in `1 / ONE` degrees.
pub const MAX_TILT: i64 = 15000;

/// Reach of the weapon tip from the player.
pub const DEFAULT_REACH: i64 = 2000;

/// What a completed gesture asks of the weapon.
#[derive(Clone, Copy, Debug, PartialEq, Eq, Structural)]
pub enum WeaponIntent {
    Attack,
    Defend,
}

#[derive(Clone, Copy, Debug, PartialEq, Eq, Structural)]
pub struct CursorConfig {
    /// World units moved per unit of pointer motion, times `ONE`.
    pub sensitivity: i64,
    /// Horizon of the trails, in milliseconds.
    pub trail_time: i64,
    /// How long a trail takes to fade when drawn, in milliseconds.
    pub fade_time: i64,
}

#[derive(Clone, Copy, Debug, PartialEq, Eq, Structural)]
pub struct WeaponConfig {
    pub acceleration: i64,
    pub speed_max: i64,
    pub power_min: i64,
    pub power_max: i64,
}

#[derive(Clone, Copy, Debug, PartialEq, Eq, Structural)]
pub struct PlayerConfig {
    pub walk_speed: i64,
    pub acceleration: i64,
}

/// The numbers the simulation is tuned with.
#[derive(Clone, Copy, Debug, PartialEq, Eq, Structural)]
pub struct Config {
    pub cursor: CursorConfig,
    pub player: PlayerConfig,
    pub weapon: WeaponConfig,
}

/// Key bindings of each logical action; any bound key held counts as the action held.
#[derive(Debug)]
pub struct Controls<K> {
    pub attack: Vec<K>,
    pub defend: Vec<K>,
    pub up: Vec<K>,
    pub down: Vec<K>,
    pub left: Vec<K>,
    pub right: Vec<K>,
}

/// Which logical actions are held at the start of a tick.
#[derive(Clone, Copy, Debug, PartialEq, Eq, Structural)]
pub struct Held {
    pub attack: bool,
    pub defend: bool,
    pub up: bool,
    pub down: bool,
    pub left: bool,
    pub right: bool,
}

/// Input delivered to the model between ticks.
#[derive(Clone, Copy, Debug, PartialEq, Eq, Structural)]
pub enum Event {
    /// The pointer moved by `delta`, already in world fixed-point units.
    CursorMove { delta: Vec2 },
    Charge(WeaponIntent),
    Release,
}

#[derive(Debug)]
pub struct Cursor {
    /// Position relative to the player.
    pub pos: Vec2,
    pub history: History,
    pub state: CursorState,
    /// State as of the last transition check.
    pub last_state: CursorState,
}

#[derive(Clone, Copy, Debug, PartialEq, Eq, Structural)]
pub struct WeaponSwing {
    pub intent: WeaponIntent,
    /// Strength of the swing, times `ONE`.
    pub power: i64,
    pub arc: Parabola,
}

#[derive(Clone, Copy, Debug, PartialEq, Eq, Structural)]
pub enum WeaponAction {
    Idle { target: Vec2 },
    Charging { target: Vec2, intent: WeaponIntent },
    Swing(WeaponSwing),
}

#[derive(Debug)]
pub struct WeaponControl {
    pub history: History,
    pub reach: i64,
    pub acceleration: i64,
    pub speed_max: i64,
    /// Position of the weapon tip relative to the player.
    pub position: Vec2,
    /// Velocity of the weapon tip relative to the player, per second.
    pub velocity: Vec2,
    pub action: WeaponAction,
}

#[derive(Debug)]
pub struct Player {
    pub cursor: Cursor,
    pub position: Vec2,
    pub velocity: Vec2,
    /// Each coordinate is `-ONE`, `0` or `ONE`.
    pub target_move_dir: Vec2,
    pub weapon: WeaponControl,
}

/// A short-lived annotation left where a gesture was classified.
#[derive(Clone, Copy, Debug, PartialEq, Eq, Structural)]
pub struct FloatingText {
    pub intent: WeaponIntent,
    /// The power shown, rounded to a whole number.
    pub value: i64,
    pub pos: Vec2,
    /// Remaining lifetime in milliseconds.
    pub lifetime: i64,
    pub lifetime_max: i64,
    /// Scale at birth, times `ONE`.
    pub initial_scale: i64,
    /// Tilt in `1 / ONE` degrees.
    pub rotation: i64,
}

/// A stationary target.
#[derive(Clone, Copy, Debug, PartialEq, Eq, Structural)]
pub struct Mannequin {
    pub shape: Shape,
    pub position: Vec2,
    /// Last time the mannequin got hit.
    pub hit_time: i64,
}

#[derive(Debug)]
pub struct Model {
    pub config: Config,
    pub real_time: i64,
    pub game_time: i64,
    pub player: Player,
    pub mannequins: Vec<Mannequin>,
    pub floating_texts: Vec<FloatingText>,
}

/// The cursor state that holding an intent puts the cursor in.
pub open spec fn state_of(intent: WeaponIntent) -> CursorState {
    match intent {
        WeaponIntent::Attack => CursorState::Attack,
        WeaponIntent::Defend => CursorState::Defend,
    }
}

impl Config {
    pub open spec fn wf(self) -> bool {
        &&& 0 < self.cursor.trail_time <= BOUND
        &&& 0 <= self.player.walk_speed <= BOUND
        &&& 0 <= self.player.acceleration <= BOUND
        &&& 0 <= self.weapon.acceleration <= BOUND
        &&& 0 <= self.weapon.speed_max <= BOUND
        &&& 0 <= self.weapon.power_min <= BOUND
        &&& 0 <= self.weapon.power_max <= BOUND
    }
}

impl WeaponAction {
    pub open spec fn is_swing(self) -> bool {
        self is Swing
    }

    pub open spec fn wf(self) -> bool {
        match self {
            WeaponAction::Idle { target } => target.within(BOUND as int),
            WeaponAction::Charging { target, .. } => target.within(BOUND as int),
            WeaponAction::Swing(s) => s.arc.wf() && 0 <= s.power <= BOUND,
        }
    }

    /// Whether the weapon is following an arc.
    pub fn swinging(&self) -> (r: bool)
        ensures
            r == self.is_swing(),
    {
        match self {
            WeaponAction::Swing(_) => true,
            _ => false,
        }
    }
}

/// Every entry was recorded no later than `now`, relative to the player within `reach`.
pub open spec fn trail_wf(h: Seq<CursorEntry>, now: int, reach: int) -> bool {
    forall|i: int| 0 <= i < h.len() ==> {
        &&& 0 <= (#[trigger] h[i]).time <= now
        &&& h[i].relative_pos.len_sqr_spec() <= reach * reach
        &&& h[i].relative_pos.within(reach)
    }
}

/// Each coordinate is `-ONE`, `0` or `ONE`.
pub open spec fn unit_dir(v: Vec2) -> bool {
    (v.x == -ONE || v.x == 0 || v.x == ONE) && (v.y == -ONE || v.y == 0 || v.y == ONE)
}

/// The word an annotation shows for an intent.
pub open spec fn word_of(intent: WeaponIntent) -> Seq<char> {
    match intent {
        WeaponIntent::Attack => seq!['S', 'l', 'a', 's', 'h'],
        WeaponIntent::Defend => seq!['P', 'a', 'r', 'r', 'y'],
    }
}

pub open spec fn digit_char(d: int) -> char {
    seq!['0', '1', '2', '3', '4', '5', '6', '7', '8', '9'][d]
}

/// Decimal digits of `n`, most significant first.
pub open spec fn digits(n: nat) -> Seq<char>
    decreases n,
{
    if n < 10 {
        seq![digit_char(n as int)]
    } else {
        digits(n / 10).push(digit_char((n % 10) as int))
    }
}

/// `v` written in decimal, with a leading minus sign when negative.
pub open spec fn decimal(v: int) -> Seq<char> {
    if v < 0 {
        seq!['-'] + digits((-v) as nat)
    } else {
        digits(v as nat)
    }
}

/// The one-character text of a decimal digit.
fn digit_str(d: u64) -> (r: &'static str)
    requires
        d < 10,
    ensures
        r@ == seq![digit_char(d as int)],
{
    proof {
        reveal_strlit("0");
        reveal_strlit("1");
        reveal_strlit("2");
        reveal_strlit("3");
        reveal_strlit("4");
        reveal_strlit("5");
        reveal_strlit("6");
        reveal_strlit("7");
        reveal_strlit("8");
        reveal_strlit("9");
    }
    let r = match d {
        0 => "0",
        1 => "1",
        2 => "2",
        3 => "3",
        4 => "4",
        5 => "5",
        6 => "6",
        7 => "7",
        8 => "8",
        _ => "9",
    };
    assert(r@ =~= seq![digit_char(d as int)]);
    r
}

/// Appends the decimal digits of `n`.
fn push_digits(s: &mut String, n: u64)
    ensures
        final(s)@ == old(s)@ + digits(n as nat),
    decreases n,
{
    if n >= 10 {
        push_digits(s, n / 10);
    }
    s.append(digit_str(n % 10));
    proof {
        if n >= 10 {
            assert(digits(n as nat) == digits((n / 10) as nat).push(digit_char((n % 10) as int)));
        }
        assert(s@ =~= old(s)@ + digits(n as nat));
    }
}

impl FloatingText {
    /// The annotation's text: "Slash" or "Parry", then the power shown.
    pub fn text(&self) -> (r: String)
        ensures
            r@ == word_of(self.intent) + seq![' '] + decimal(self.value as int),
    {
        let word = match self.intent {
            WeaponIntent::Attack => "Slash",
            WeaponIntent::Defend => "Parry",
        };
        proof {
            reveal_strlit("Slash");
            reveal_strlit("Parry");
            reveal_strlit(" ");
            reveal_strlit("-");
            assert(word@ =~= word_of(self.intent));
        }
        let mut r = String::from_str(word);
        r.append(" ");
        let v = self.value;
        let magnitude: u64 = if v < 0 {
            r.append("-");
            (-(v as i128)) as u64
        } else {
            v as u64
        };
        push_digits(&mut r, magnitude);
        proof {
            assert(" "@ =~= seq![' ']);
            assert("-"@ =~= seq!['-']);
            assert(r@ =~= word_of(self.intent) + seq![' '] + decimal(self.value as int));
        }
        r
    }
}

impl Model {
    /// The invariant that every tick and every event preserves.
    pub open spec fn wf(&self) -> bool {
        let w = self.player.weapon;
        let c = self.player.cursor;
        &&& self.config.wf()
        &&& 0 <= self.real_time
        &&& 0 < w.reach <= BOUND
        &&& 0 <= w.acceleration <= BOUND
        &&& 0 <= w.speed_max <= BOUND
        &&& w.position.len_sqr_spec() <= w.reach * w.reach
        &&& w.position.within(w.reach as int)
        &&& w.velocity.within(2 * BOUND)
        &&& w.action.wf()
        &&& w.history.wf()
        &&& trail_wf(w.history@, self.real_time as int, w.reach as int)
        &&& c.pos.len_sqr_spec() <= w.reach * w.reach
        &&& c.pos.within(w.reach as int)
        &&& c.history.wf()
        &&& trail_wf(c.history@, self.real_time as int, w.reach as int)
        &&& self.player.position.within(WORLD as int)
        &&& self.player.velocity.within(BOUND as int)
        &&& unit_dir(self.player.target_move_dir)
    }

    /// The model at time zero: everything at rest at the origin, one mannequin standing by.
    pub fn new(config: Config) -> (r: Model)
        requires
            config.wf(),
        ensures
            r.wf(),
            r.config == config,
            r.real_time == 0,
            r.player.position == Vec2::zero_spec(),
            r.player.cursor.pos == Vec2::zero_spec(),
            r.player.cursor.history@.len() == 0,
            r.player.cursor.state == CursorState::Idle,
            r.player.cursor.last_state == CursorState::Idle,
            r.player.weapon.position == Vec2::zero_spec(),
            r.player.weapon.velocity == Vec2::zero_spec(),
            r.player.weapon.reach == DEFAULT_REACH,
            r.player.weapon.acceleration == config.weapon.acceleration,
            r.player.weapon.speed_max == config.weapon.speed_max,
            r.player.weapon.action == (WeaponAction::Idle { target: Vec2::zero_spec() }),
            r.player.weapon.history@.len() == 0,
            r.floating_texts@.len() == 0,
            r.mannequins@.len() == 1,
    {
        let mut mannequins = Vec::new();
        mannequins.push(
            Mannequin { shape: Shape::rectangle(Vec2::new(600, 600)), position: Vec2::new(3000, 2000), hit_time: 0 },
        );
        Model {
            config,
            real_time: 0,
            game_time: 0,
            player: Player {
                cursor: Cursor {
                    pos: Vec2::zero(),
                    history: History::new(),
                    state: CursorState::Idle,
                    last_state: CursorState::Idle,
                },
                position: Vec2::zero(),
                velocity: Vec2::zero(),
                target_move_dir: Vec2::zero(),
                weapon: WeaponControl {
                    history: History::new(),
                    reach: DEFAULT_REACH,
                    acceleration: config.weapon.acceleration,
                    speed_max: config.weapon.speed_max,
                    position: Vec2::zero(),
                    velocity: Vec2::zero(),
                    action: WeaponAction::Idle { target: Vec2::zero() },
                },
            },
            mannequins,
            floating_texts: Vec::new(),
        }
    }
}

} // verus!
