//! Typed handles and the action constructors hung off them.
//!
//! Each shape gets a thin wrapper around the arena handle; the wrapper
//! (and the bare handle) offer constructors that pair the handle with a
//! transform descriptor, ready to be applied instantly or promoted into a
//! timed animation.  Start states are dummies here: they are captured on
//! the animation's first tick, never at construction time.

use vstd::prelude::*;

use crate::action::{Action, ChangeSize, Direction, TextAction};
use crate::animation::TargetAction;
use crate::arena::Id;
use crate::geom::{Dimension, Point, Vector};
use crate::units::{clamp_coord, clamp_size, spec_clamp_coord, spec_clamp_size};

verus! {

/// The action built by a relative move.
pub open spec fn spec_move_by(id: Id, by: Vector) -> TargetAction {
    TargetAction {
        target: id,
        action: Action::MoveBy {
            from: Point { x: 0, y: 0 },
            by: Point {
                x: spec_clamp_coord(by.x as int) as i64,
                y: spec_clamp_coord(by.y as int) as i64,
            },
        },
        finish_on_drop: true,
    }
}

/// The action built by an absolute move.
pub open spec fn spec_move_to(id: Id, to: Point) -> TargetAction {
    TargetAction {
        target: id,
        action: Action::MoveTo {
            from: Point { x: 0, y: 0 },
            to: Point {
                x: spec_clamp_coord(to.x as int) as i64,
                y: spec_clamp_coord(to.y as int) as i64,
            },
        },
        finish_on_drop: true,
    }
}

/// The action built by an edge-relative move.
pub open spec fn spec_to_edge(id: Id, direction: Direction, buffer: int) -> TargetAction {
    TargetAction {
        target: id,
        action: Action::ToEdge {
            from: Point { x: 0, y: 0 },
            to: Point { x: 0, y: 0 },
            buffer: spec_clamp_coord(buffer) as i64,
            direction,
        },
        finish_on_drop: true,
    }
}

impl Id {
    /// Move the object by the given displacement (each component clamped
    /// into the storable range).
    pub fn move_by(&self, by: Vector) -> (r: TargetAction)
        ensures
            r == spec_move_by(*self, by),
            r.action.inv(),
    {
        TargetAction::new(
            *self,
            Action::MoveBy {
                from: Point { x: 0, y: 0 },
                by: Point { x: clamp_coord(by.x), y: clamp_coord(by.y) },
            },
            true,
        )
    }

    /// Alias for [`Id::move_by`], under the name animations use.
    pub fn shift(&self, by: Vector) -> (r: TargetAction)
        ensures
            r == spec_move_by(*self, by),
            r.action.inv(),
    {
        self.move_by(by)
    }

    /// Move the object to the given position (each component clamped into
    /// the storable range).
    pub fn move_to(&self, to: Point) -> (r: TargetAction)
        ensures
            r == spec_move_to(*self, to),
            r.action.inv(),
    {
        TargetAction::new(
            *self,
            Action::MoveTo {
                from: Point { x: 0, y: 0 },
                to: Point { x: clamp_coord(to.x), y: clamp_coord(to.y) },
            },
            true,
        )
    }

    /// Move the object to the chosen scene edge, offset inward by
    /// `buffer`; the edge is resolved on the animation's first tick.
    pub fn to_edge(&self, direction: Direction, buffer: i64) -> (r: TargetAction)
        ensures
            r == spec_to_edge(*self, direction, buffer as int),
            r.action.inv(),
    {
        TargetAction::new(
            *self,
            Action::ToEdge {
                from: Point { x: 0, y: 0 },
                to: Point { x: 0, y: 0 },
                buffer: clamp_coord(buffer),
                direction,
            },
            true,
        )
    }

    /// Draw the object on: make it visible and sweep its path completion
    /// from zero to one.
    pub fn show_creation(&self) -> (r: TargetAction)
        ensures
            r == (TargetAction { target: *self, action: Action::ShowCreation, finish_on_drop: true }),
            r.action.inv(),
    {
        TargetAction::new(*self, Action::ShowCreation, true)
    }

    /// Fade the object in from fully transparent.
    pub fn fade_in(&self) -> (r: TargetAction)
        ensures
            r == (TargetAction { target: *self, action: Action::FadeIn, finish_on_drop: true }),
            r.action.inv(),
    {
        TargetAction::new(*self, Action::FadeIn, true)
    }

    /// Scale both size components by the fixed-point factor `by`.
    pub fn scale_by(&self, by: u64) -> (r: TargetAction)
        ensures
            r == (TargetAction {
                target: *self,
                action: Action::ChangeSize(
                    ChangeSize::ScaleDimension {
                        from: Dimension { width: 0i64, height: 0i64 },
                        to: Dimension { width: 0i64, height: 0i64 },
                        by,
                    },
                ),
                finish_on_drop: true,
            }),
            r.action.inv(),
    {
        TargetAction::new(*self, Action::ChangeSize(ChangeSize::scale_by(by)), true)
    }

    /// Animate the width toward `to`.
    pub fn set_width(&self, to: i64) -> (r: TargetAction)
        ensures
            r == (TargetAction {
                target: *self,
                action: Action::ChangeSize(
                    ChangeSize::SetWidth { from: 0i64, to: spec_clamp_size(to as int) as i64 },
                ),
                finish_on_drop: true,
            }),
            r.action.inv(),
    {
        TargetAction::new(*self, Action::ChangeSize(ChangeSize::set_width(to)), true)
    }

    /// Animate the height toward `to`.
    pub fn set_height(&self, to: i64) -> (r: TargetAction)
        ensures
            r == (TargetAction {
                target: *self,
                action: Action::ChangeSize(
                    ChangeSize::SetHeight { from: 0i64, to: spec_clamp_size(to as int) as i64 },
                ),
                finish_on_drop: true,
            }),
            r.action.inv(),
    {
        TargetAction::new(*self, Action::ChangeSize(ChangeSize::set_height(to)), true)
    }

    /// Rotate the object by the given angle.
    pub fn rotate_by(&self, by: i64) -> (r: TargetAction)
        ensures
            r == (TargetAction {
                target: *self,
                action: Action::RotateBy { from: 0i64, by: spec_clamp_coord(by as int) as i64 },
                finish_on_drop: true,
            }),
            r.action.inv(),
    {
        TargetAction::new(*self, Action::RotateBy { from: 0, by: clamp_coord(by) }, true)
    }

    /// Rotate the object to the given angle.
    pub fn rotate_to(&self, to: i64) -> (r: TargetAction)
        ensures
            r == (TargetAction {
                target: *self,
                action: Action::RotateTo { from: 0i64, to: spec_clamp_coord(to as int) as i64 },
                finish_on_drop: true,
            }),
            r.action.inv(),
    {
        TargetAction::new(*self, Action::RotateTo { from: 0, to: clamp_coord(to) }, true)
    }
}

/// Handle to a circle in the arena.
#[derive(Debug, Clone, Copy, PartialEq, Eq, Structural)]
pub struct CircleId(pub Id);

impl CircleId {
    /// The untyped handle.
    pub fn id(&self) -> (r: Id)
        ensures
            r == self.0,
    {
        self.0
    }

    /// Move the circle by the given displacement.
    pub fn shift(&self, by: Vector) -> (r: TargetAction)
        ensures
            r == spec_move_by(self.0, by),
            r.action.inv(),
    {
        self.0.move_by(by)
    }

    /// Move the circle by the given displacement.
    pub fn move_by(&self, by: Vector) -> (r: TargetAction)
        ensures
            r == spec_move_by(self.0, by),
            r.action.inv(),
    {
        self.0.move_by(by)
    }

    /// Move the circle to the given position.
    pub fn move_to(&self, to: Point) -> (r: TargetAction)
        ensures
            r == spec_move_to(self.0, to),
            r.action.inv(),
    {
        self.0.move_to(to)
    }

    /// Move the circle to the chosen scene edge.
    pub fn to_edge(&self, direction: Direction, buffer: i64) -> (r: TargetAction)
        ensures
            r == spec_to_edge(self.0, direction, buffer as int),
            r.action.inv(),
    {
        self.0.to_edge(direction, buffer)
    }

    /// Draw the circle on.
    pub fn show_creation(&self) -> (r: TargetAction)
        ensures
            r == (TargetAction {
                target: self.0,
                action: Action::ShowCreation,
                finish_on_drop: true,
            }),
            r.action.inv(),
    {
        self.0.show_creation()
    }

    /// Fade the circle in.
    pub fn fade_in(&self) -> (r: TargetAction)
        ensures
            r == (TargetAction { target: self.0, action: Action::FadeIn, finish_on_drop: true }),
            r.action.inv(),
    {
        self.0.fade_in()
    }

    /// Scale the circle by the fixed-point factor `by`.
    pub fn scale_by(&self, by: u64) -> (r: TargetAction)
        ensures
            r.target == self.0,
            r.action.inv(),
            r.action == Action::ChangeSize(
                ChangeSize::ScaleDimension {
                    from: Dimension { width: 0i64, height: 0i64 },
                    to: Dimension { width: 0i64, height: 0i64 },
                    by,
                },
            ),
    {
        self.0.scale_by(by)
    }

    /// Animate the width toward `to`; a circle stays square when the
    /// change is applied.
    pub fn set_width(&self, to: i64) -> (r: TargetAction)
        ensures
            r.target == self.0,
            r.action.inv(),
    {
        self.0.set_width(to)
    }

    /// Animate the height toward `to`; a circle stays square when the
    /// change is applied.
    pub fn set_height(&self, to: i64) -> (r: TargetAction)
        ensures
            r.target == self.0,
            r.action.inv(),
    {
        self.0.set_height(to)
    }

    /// Animate the radius toward `to`: both size components move to twice
    /// the radius.
    pub fn set_radius(&self, to: i64) -> (r: TargetAction)
        ensures
            r.target == self.0,
            r.action.inv(),
            ({
                let size = spec_clamp_size(2 * spec_clamp_size(to as int));
                r.action == Action::ChangeSize(
                    ChangeSize::SetDimension {
                        from: Dimension { width: 0i64, height: 0i64 },
                        to: Dimension { width: size as i64, height: size as i64 },
                    },
                )
            }),
    {
        let c = clamp_size(to);
        let size = clamp_size(2 * c);
        TargetAction::new(
            self.0,
            Action::ChangeSize(
                ChangeSize::SetDimension {
                    from: Dimension { width: 0, height: 0 },
                    to: Dimension { width: size, height: size },
                },
            ),
            true,
        )
    }
}

/// Handle to a rectangle in the arena.
#[derive(Debug, Clone, Copy, PartialEq, Eq, Structural)]
pub struct RectangleId(pub Id);

impl RectangleId {
    /// The untyped handle.
    pub fn id(&self) -> (r: Id)
        ensures
            r == self.0,
    {
        self.0
    }

    /// Move the rectangle by the given displacement.
    pub fn shift(&self, by: Vector) -> (r: TargetAction)
        ensures
            r == spec_move_by(self.0, by),
            r.action.inv(),
    {
        self.0.move_by(by)
    }

    /// Move the rectangle by the given displacement.
    pub fn move_by(&self, by: Vector) -> (r: TargetAction)
        ensures
            r == spec_move_by(self.0, by),
            r.action.inv(),
    {
        self.0.move_by(by)
    }

    /// Move the rectangle to the given position.
    pub fn move_to(&self, to: Point) -> (r: TargetAction)
        ensures
            r == spec_move_to(self.0, to),
            r.action.inv(),
    {
        self.0.move_to(to)
    }

    /// Move the rectangle to the chosen scene edge.
    pub fn to_edge(&self, direction: Direction, buffer: i64) -> (r: TargetAction)
        ensures
            r == spec_to_edge(self.0, direction, buffer as int),
            r.action.inv(),
    {
        self.0.to_edge(direction, buffer)
    }

    /// Draw the rectangle on.
    pub fn show_creation(&self) -> (r: TargetAction)
        ensures
            r == (TargetAction {
                target: self.0,
                action: Action::ShowCreation,
                finish_on_drop: true,
            }),
            r.action.inv(),
    {
        self.0.show_creation()
    }

    /// Fade the rectangle in.
    pub fn fade_in(&self) -> (r: TargetAction)
        ensures
            r == (TargetAction { target: self.0, action: Action::FadeIn, finish_on_drop: true }),
            r.action.inv(),
    {
        self.0.fade_in()
    }

    /// Scale the rectangle by the fixed-point factor `by`.
    pub fn scale_by(&self, by: u64) -> (r: TargetAction)
        ensures
            r.target == self.0,
            r.action.inv(),
            r.action == Action::ChangeSize(
                ChangeSize::ScaleDimension {
                    from: Dimension { width: 0i64, height: 0i64 },
                    to: Dimension { width: 0i64, height: 0i64 },
                    by,
                },
            ),
    {
        self.0.scale_by(by)
    }

    /// Animate the width toward `to`.
    pub fn set_width(&self, to: i64) -> (r: TargetAction)
        ensures
            r.target == self.0,
            r.action.inv(),
    {
        self.0.set_width(to)
    }

    /// Animate the height toward `to`.
    pub fn set_height(&self, to: i64) -> (r: TargetAction)
        ensures
            r.target == self.0,
            r.action.inv(),
    {
        self.0.set_height(to)
    }

    /// Rotate the rectangle by the given angle.
    pub fn rotate_by(&self, by: i64) -> (r: TargetAction)
        ensures
            r.target == self.0,
            r.action.inv(),
    {
        self.0.rotate_by(by)
    }

    /// Rotate the rectangle to the given angle.
    pub fn rotate_to(&self, to: i64) -> (r: TargetAction)
        ensures
            r.target == self.0,
            r.action.inv(),
    {
        self.0.rotate_to(to)
    }
}

/// Handle to a text object in the arena.
#[derive(Debug, Clone, Copy, PartialEq, Eq, Structural)]
pub struct TextId(pub Id);

impl TextId {
    /// The untyped handle.
    pub fn id(&self) -> (r: Id)
        ensures
            r == self.0,
    {
        self.0
    }

    /// Move the text by the given displacement.
    pub fn shift(&self, by: Vector) -> (r: TargetAction)
        ensures
            r == spec_move_by(self.0, by),
            r.action.inv(),
    {
        self.0.move_by(by)
    }

    /// Move the text by the given displacement.
    pub fn move_by(&self, by: Vector) -> (r: TargetAction)
        ensures
            r == spec_move_by(self.0, by),
            r.action.inv(),
    {
        self.0.move_by(by)
    }

    /// Move the text to the given position.
    pub fn move_to(&self, to: Point) -> (r: TargetAction)
        ensures
            r == spec_move_to(self.0, to),
            r.action.inv(),
    {
        self.0.move_to(to)
    }

    /// Move the text to the chosen scene edge.
    pub fn to_edge(&self, direction: Direction, buffer: i64) -> (r: TargetAction)
        ensures
            r == spec_to_edge(self.0, direction, buffer as int),
            r.action.inv(),
    {
        self.0.to_edge(direction, buffer)
    }

    /// Draw the text on.
    pub fn show_creation(&self) -> (r: TargetAction)
        ensures
            r == (TargetAction {
                target: self.0,
                action: Action::ShowCreation,
                finish_on_drop: true,
            }),
            r.action.inv(),
    {
        self.0.show_creation()
    }

    /// Fade the text in.
    pub fn fade_in(&self) -> (r: TargetAction)
        ensures
            r == (TargetAction { target: self.0, action: Action::FadeIn, finish_on_drop: true }),
            r.action.inv(),
    {
        self.0.fade_in()
    }

    /// Scale the font size by the fixed-point factor `by`.
    pub fn scale_by(&self, by: u64) -> (r: TargetAction)
        ensures
            r == (TargetAction {
                target: self.0,
                action: Action::TextAction(TextAction::ScaleSize { from: 1u32, to: 1u32, by }),
                finish_on_drop: true,
            }),
            r.action.inv(),
    {
        TargetAction::new(
            self.0,
            Action::TextAction(TextAction::ScaleSize { from: 1, to: 1, by }),
            true,
        )
    }

    /// Animate the font size toward `to`.
    pub fn set_font_size(&self, to: u32) -> (r: TargetAction)
        ensures
            r == (TargetAction {
                target: self.0,
                action: Action::TextAction(TextAction::SetSize { from: 1u32, to }),
                finish_on_drop: true,
            }),
            r.action.inv(),
    {
        TargetAction::new(self.0, Action::TextAction(TextAction::SetSize { from: 1, to }), true)
    }

    /// Rotate the text by the given angle.
    pub fn rotate_by(&self, by: i64) -> (r: TargetAction)
        ensures
            r.target == self.0,
            r.action.inv(),
    {
        self.0.rotate_by(by)
    }

    /// Rotate the text to the given angle.
    pub fn rotate_to(&self, to: i64) -> (r: TargetAction)
        ensures
            r.target == self.0,
            r.action.inv(),
    {
        self.0.rotate_to(to)
    }
}

} // verus!
