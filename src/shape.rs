//! Outlines of stationary targets.
use vstd::prelude::*;

use crate::vector::Vec2;

verus! {

/// A collision outline, centred on its owner.
#[derive(Clone, Copy, Debug, PartialEq, Eq, Structural)]
pub enum Shape {
    Circle { radius: i64 },
    Rectangle { width: i64, height: i64 },
}

impl Shape {
    pub fn circle(radius: i64) -> (r: Shape)
        ensures
            r == (Shape::Circle { radius }),
    {
        Shape::Circle { radius }
    }

    /// An axis-aligned rectangle of the given width and height.
    pub fn rectangle(size: Vec2) -> (r: Shape)
        ensures
            r == (Shape::Rectangle { width: size.x, height: size.y }),
    {
        Shape::Rectangle { width: size.x, height: size.y }
    }
}

} // verus!
