//! Combat-motion simulation: pointer gestures become weapon swings along fitted arcs.
//!
//! All quantities are fixed-point integers: `ONE` steps make one world unit, one second
//! (time is counted in milliseconds), one unit of power and one unit of arc parameter.
pub mod history;
pub mod logic;
pub mod model;
pub mod parabola;
pub mod shape;
pub mod vector;

pub use history::{CursorEntry, CursorState, History};
pub use model::{
    Config, Controls, Cursor, CursorConfig, Event, FloatingText, Held, Mannequin, Model, Player,
    PlayerConfig, WeaponAction, WeaponConfig, WeaponControl, WeaponIntent, WeaponSwing,
};
pub use parabola::Parabola;
pub use shape::Shape;
pub use vector::{Vec2, ONE};
