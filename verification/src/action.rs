//! Transform descriptors: what a single animation does to one object.
//!
//! Every variant stores a lazily captured "from" value and a target ("to"
//! or "by") value.  `init` captures "from" from the object's current state
//! (and resolves edge-relative targets against the scene boundaries);
//! `update` writes the interpolation between "from" and the target through
//! the object's setters, as a pure function of the action and the progress;
//! `complete` is `update` at full progress.  Composite variants delegate to
//! an inner shape-specific action.

use vstd::prelude::*;

use crate::geom::{Dimension, Point, spec_point_interp};
use crate::object::{
    Object, ShapeKind, spec_font_size, spec_set_font_size, spec_set_height, spec_set_radius,
    spec_set_width,
};
use crate::opacity::{Opacity, spec_set_opacity};
use crate::resource::Resource;
use crate::units::{
    MAX_COORD, MAX_ENDPOINT, UNIT, clamp_size, lerp, spec_clamp_coord, spec_clamp_size,
    spec_clamp_unit, spec_lerp,
};

verus! {

/// Which scene edge an edge-relative move resolves against.
#[derive(Debug, Clone, Copy, PartialEq, Eq, Structural)]
pub enum Direction {
    Up,
    Down,
    Left,
    Right,
}

/// `v * by / UNIT`, clamped into the storable size range.
pub open spec fn spec_scale_size(v: int, by: int) -> int {
    let scaled = v * by / (UNIT as int);
    if scaled > MAX_COORD as int {
        MAX_COORD as int
    } else {
        scaled
    }
}

/// Scale a size by a fixed-point factor, saturating at [`MAX_COORD`].
fn scale_size(v: i64, by: u64) -> (r: i64)
    requires
        0 <= v <= MAX_COORD,
    ensures
        r == spec_scale_size(v as int, by as int),
        0 <= r <= MAX_COORD,
{
    proof {
        assert((v as int) * (by as int) <= u128::MAX as int) by (nonlinear_arith)
            requires
                0 <= v <= 1000000000000int,
                0 <= by <= 18446744073709551615int,
        ;
    }
    let prod: u128 = (v as u128) * (by as u128);
    let scaled: u128 = prod / (UNIT as u128);
    proof {
        vstd::arithmetic::mul::lemma_mul_nonnegative(v as int, by as int);
        vstd::arithmetic::div_mod::lemma_div_pos_is_pos(v as int * by as int, UNIT as int);
    }
    if scaled > MAX_COORD as u128 {
        MAX_COORD
    } else {
        scaled as i64
    }
}

/// `size * by / UNIT`, clamped into `u32`.
pub open spec fn spec_scale_font(size: int, by: int) -> int {
    let scaled = size * by / (UNIT as int);
    if scaled > u32::MAX as int {
        u32::MAX as int
    } else {
        scaled
    }
}

/// Scale a font size by a fixed-point factor, saturating at `u32::MAX`.
fn scale_font(size: u32, by: u64) -> (r: u32)
    ensures
        r == spec_scale_font(size as int, by as int),
{
    proof {
        assert((size as int) * (by as int) <= u128::MAX as int) by (nonlinear_arith)
            requires
                0 <= size <= 4294967295int,
                0 <= by <= 18446744073709551615int,
        ;
    }
    let prod: u128 = (size as u128) * (by as u128);
    let scaled: u128 = prod / (UNIT as u128);
    proof {
        vstd::arithmetic::mul::lemma_mul_nonnegative(size as int, by as int);
        vstd::arithmetic::div_mod::lemma_div_pos_is_pos(size as int * by as int, UNIT as int);
    }
    if scaled > u32::MAX as u128 {
        u32::MAX
    } else {
        scaled as u32
    }
}

/// Size-change descriptor shared by every shape.
#[derive(Debug, Clone, Copy, PartialEq, Eq, Structural)]
pub enum ChangeSize {
    SetWidth { from: i64, to: i64 },
    SetHeight { from: i64, to: i64 },
    SetDimension { from: Dimension, to: Dimension },
    ScaleDimension { from: Dimension, to: Dimension, by: u64 },
}

impl ChangeSize {
    /// Every stored size is storable.
    pub open spec fn inv(self) -> bool {
        match self {
            ChangeSize::SetWidth { from, to } => 0 <= from <= MAX_COORD && 0 <= to <= MAX_COORD,
            ChangeSize::SetHeight { from, to } => 0 <= from <= MAX_COORD && 0 <= to <= MAX_COORD,
            ChangeSize::SetDimension { from, to } => from.inv() && to.inv(),
            ChangeSize::ScaleDimension { from, to, .. } => from.inv() && to.inv(),
        }
    }

    /// Change the width to `to` (clamped non-negative); "from" is captured
    /// on the first tick.
    pub fn set_width(to: i64) -> (r: ChangeSize)
        ensures
            r == (ChangeSize::SetWidth { from: 0i64, to: spec_clamp_size(to as int) as i64 }),
            r.inv(),
    {
        ChangeSize::SetWidth { from: 0, to: clamp_size(to) }
    }

    /// Change the height to `to` (clamped non-negative); "from" is captured
    /// on the first tick.
    pub fn set_height(to: i64) -> (r: ChangeSize)
        ensures
            r == (ChangeSize::SetHeight { from: 0i64, to: spec_clamp_size(to as int) as i64 }),
            r.inv(),
    {
        ChangeSize::SetHeight { from: 0, to: clamp_size(to) }
    }

    /// Scale both size components by the fixed-point factor `by`; "from"
    /// and "to" are resolved on the first tick.
    pub fn scale_by(by: u64) -> (r: ChangeSize)
        ensures
            r == (ChangeSize::ScaleDimension {
                from: Dimension { width: 0i64, height: 0i64 },
                to: Dimension { width: 0i64, height: 0i64 },
                by,
            }),
            r.inv(),
    {
        ChangeSize::ScaleDimension {
            from: Dimension { width: 0, height: 0 },
            to: Dimension { width: 0, height: 0 },
            by,
        }
    }

    /// Capture "from" (and for scaling, resolve "to") from the object.
    pub fn init(&mut self, object: &Object)
        requires
            old(self).inv(),
            object.inv(),
        ensures
            *final(self) == spec_change_size_init(*old(self), *object),
            final(self).inv(),
    {
        match self {
            ChangeSize::SetWidth { from, .. } => {
                *from = object.width();
            },
            ChangeSize::SetHeight { from, .. } => {
                *from = object.height();
            },
            ChangeSize::SetDimension { from, .. } => {
                *from = Dimension { width: object.width(), height: object.height() };
            },
            ChangeSize::ScaleDimension { from, to, by } => {
                let w = object.width();
                let h = object.height();
                *from = Dimension { width: w, height: h };
                *to = Dimension { width: scale_size(w, *by), height: scale_size(h, *by) };
            },
        }
    }

    /// Write the interpolated size through the object's setters.
    pub fn update(&self, object: &mut Object, progress: u64)
        requires
            self.inv(),
            old(object).inv(),
            progress <= UNIT,
        ensures
            *final(object) == spec_change_size_update(*self, *old(object), progress as int),
            final(object).inv(),
    {
        match self {
            ChangeSize::SetWidth { from, to } => {
                object.set_width(lerp(*from, *to, progress));
            },
            ChangeSize::SetHeight { from, to } => {
                object.set_height(lerp(*from, *to, progress));
            },
            ChangeSize::SetDimension { from, to } => {
                let now = from.interp(to, progress);
                object.set_size(now);
            },
            ChangeSize::ScaleDimension { from, to, .. } => {
                let now = from.interp(to, progress);
                object.set_size(now);
            },
        }
    }
}

/// The size-change descriptor after capturing its start state from `o`.
pub open spec fn spec_change_size_init(cs: ChangeSize, o: Object) -> ChangeSize {
    match cs {
        ChangeSize::SetWidth { to, .. } => ChangeSize::SetWidth { from: o.dimension.width, to },
        ChangeSize::SetHeight { to, .. } => ChangeSize::SetHeight { from: o.dimension.height, to },
        ChangeSize::SetDimension { to, .. } => ChangeSize::SetDimension { from: o.dimension, to },
        ChangeSize::ScaleDimension { by, .. } => ChangeSize::ScaleDimension {
            from: o.dimension,
            to: Dimension {
                width: spec_scale_size(o.dimension.width as int, by as int) as i64,
                height: spec_scale_size(o.dimension.height as int, by as int) as i64,
            },
            by,
        },
    }
}

/// The object after one size-change interpolation step.
pub open spec fn spec_change_size_update(cs: ChangeSize, o: Object, p: int) -> Object {
    match cs {
        ChangeSize::SetWidth { from, to } => spec_set_width(
            o,
            spec_lerp(from as int, to as int, p),
        ),
        ChangeSize::SetHeight { from, to } => spec_set_height(
            o,
            spec_lerp(from as int, to as int, p),
        ),
        ChangeSize::SetDimension { from, to } => Object {
            dimension: crate::geom::spec_dimension_interp(from, to, p),
            ..o
        },
        ChangeSize::ScaleDimension { from, to, .. } => Object {
            dimension: crate::geom::spec_dimension_interp(from, to, p),
            ..o
        },
    }
}

/// Circle-specific transform descriptor.
#[derive(Debug, Clone, Copy, PartialEq, Eq, Structural)]
pub enum CircleAction {
    SetRadius { from: i64, to: i64 },
    Inert,
}

impl CircleAction {
    /// Every stored radius is storable.
    pub open spec fn inv(self) -> bool {
        match self {
            CircleAction::SetRadius { from, to } => 0 <= from <= MAX_COORD && 0 <= to <= MAX_COORD,
            CircleAction::Inert => true,
        }
    }

    /// Capture the current radius as "from" if the object is a circle.
    pub fn init(&mut self, object: &Object)
        requires
            old(self).inv(),
            object.inv(),
        ensures
            *final(self) == spec_circle_action_init(*old(self), *object),
            final(self).inv(),
    {
        if let ShapeKind::Circle = object.kind {
            match self {
                CircleAction::SetRadius { from, .. } => {
                    *from = object.radius();
                },
                CircleAction::Inert => {},
            }
        }
    }

    /// Write the interpolated radius if the object is a circle.
    pub fn update(&self, object: &mut Object, progress: u64)
        requires
            self.inv(),
            old(object).inv(),
            progress <= UNIT,
        ensures
            *final(object) == spec_circle_action_update(*self, *old(object), progress as int),
            final(object).inv(),
    {
        if let ShapeKind::Circle = object.kind {
            match self {
                CircleAction::SetRadius { from, to } => {
                    object.set_radius(lerp(*from, *to, progress));
                },
                CircleAction::Inert => {},
            }
        }
    }
}

/// The circle action after capturing its start state from `o`.
pub open spec fn spec_circle_action_init(ca: CircleAction, o: Object) -> CircleAction {
    if o.kind is Circle {
        match ca {
            CircleAction::SetRadius { to, .. } => CircleAction::SetRadius {
                from: (o.dimension.width as int / 2) as i64,
                to,
            },
            CircleAction::Inert => ca,
        }
    } else {
        ca
    }
}

/// The object after one circle-action interpolation step.
pub open spec fn spec_circle_action_update(ca: CircleAction, o: Object, p: int) -> Object {
    if o.kind is Circle {
        match ca {
            CircleAction::SetRadius { from, to } => spec_set_radius(
                o,
                spec_lerp(from as int, to as int, p),
            ),
            CircleAction::Inert => o,
        }
    } else {
        o
    }
}

/// Rectangle-specific transform descriptor.
#[derive(Debug, Clone, Copy, PartialEq, Eq, Structural)]
pub enum RectangleAction {
    SetWidth { from: i64, to: i64 },
    SetHeight { from: i64, to: i64 },
    Scale { from: Dimension, to: Dimension },
}

impl RectangleAction {
    /// Every stored size is storable.
    pub open spec fn inv(self) -> bool {
        match self {
            RectangleAction::SetWidth { from, to } => 0 <= from <= MAX_COORD && 0 <= to
                <= MAX_COORD,
            RectangleAction::SetHeight { from, to } => 0 <= from <= MAX_COORD && 0 <= to
                <= MAX_COORD,
            RectangleAction::Scale { from, to } => from.inv() && to.inv(),
        }
    }

    /// Capture the current size as "from" if the object is a rectangle.
    pub fn init(&mut self, object: &Object)
        requires
            old(self).inv(),
            object.inv(),
        ensures
            *final(self) == spec_rectangle_action_init(*old(self), *object),
            final(self).inv(),
    {
        if let ShapeKind::Rectangle = object.kind {
            match self {
                RectangleAction::SetWidth { from, .. } => {
                    *from = object.width();
                },
                RectangleAction::SetHeight { from, .. } => {
                    *from = object.height();
                },
                RectangleAction::Scale { from, .. } => {
                    *from = Dimension { width: object.width(), height: object.height() };
                },
            }
        }
    }

    /// Write the interpolated size if the object is a rectangle.
    pub fn update(&self, object: &mut Object, progress: u64)
        requires
            self.inv(),
            old(object).inv(),
            progress <= UNIT,
        ensures
            *final(object) == spec_rectangle_action_update(*self, *old(object), progress as int),
            final(object).inv(),
    {
        if let ShapeKind::Rectangle = object.kind {
            match self {
                RectangleAction::SetWidth { from, to } => {
                    object.set_width(lerp(*from, *to, progress));
                },
                RectangleAction::SetHeight { from, to } => {
                    object.set_height(lerp(*from, *to, progress));
                },
                RectangleAction::Scale { from, to } => {
                    object.set_width(lerp(from.width, to.width, progress));
                    object.set_height(lerp(from.height, to.height, progress));
                },
            }
        }
    }
}

/// The rectangle action after capturing its start state from `o`.
pub open spec fn spec_rectangle_action_init(ra: RectangleAction, o: Object) -> RectangleAction {
    if o.kind is Rectangle {
        match ra {
            RectangleAction::SetWidth { to, .. } => RectangleAction::SetWidth {
                from: o.dimension.width,
                to,
            },
            RectangleAction::SetHeight { to, .. } => RectangleAction::SetHeight {
                from: o.dimension.height,
                to,
            },
            RectangleAction::Scale { to, .. } => RectangleAction::Scale { from: o.dimension, to },
        }
    } else {
        ra
    }
}

/// The object after one rectangle-action interpolation step.
pub open spec fn spec_rectangle_action_update(ra: RectangleAction, o: Object, p: int) -> Object {
    if o.kind is Rectangle {
        match ra {
            RectangleAction::SetWidth { from, to } => spec_set_width(
                o,
                spec_lerp(from as int, to as int, p),
            ),
            RectangleAction::SetHeight { from, to } => spec_set_height(
                o,
                spec_lerp(from as int, to as int, p),
            ),
            RectangleAction::Scale { from, to } => spec_set_height(
                spec_set_width(o, spec_lerp(from.width as int, to.width as int, p)),
                spec_lerp(from.height as int, to.height as int, p),
            ),
        }
    } else {
        o
    }
}

/// Text-specific transform descriptor.
#[derive(Debug, Clone, Copy, PartialEq, Eq, Structural)]
pub enum TextAction {
    SetSize { from: u32, to: u32 },
    ScaleSize { from: u32, to: u32, by: u64 },
}

impl TextAction {
    /// Capture the current font size as "from" (and for scaling, resolve
    /// "to") if the object is text.
    pub fn init(&mut self, object: &Object)
        requires
            object.inv(),
        ensures
            *final(self) == spec_text_action_init(*old(self), *object),
    {
        if let ShapeKind::Text { .. } = object.kind {
            match self {
                TextAction::SetSize { from, .. } => {
                    *from = object.font_size();
                },
                TextAction::ScaleSize { from, to, by } => {
                    let size = object.font_size();
                    *from = size;
                    *to = scale_font(size, *by);
                },
            }
        }
    }

    /// Write the interpolated font size if the object is text.
    pub fn update(&self, object: &mut Object, progress: u64)
        requires
            old(object).inv(),
            progress <= UNIT,
        ensures
            *final(object) == spec_text_action_update(*self, *old(object), progress as int),
            final(object).inv(),
    {
        if let ShapeKind::Text { .. } = object.kind {
            match self {
                TextAction::SetSize { from, to } => {
                    let now = lerp(*from as i64, *to as i64, progress);
                    object.set_font_size(now as u32);
                },
                TextAction::ScaleSize { from, to, .. } => {
                    let now = lerp(*from as i64, *to as i64, progress);
                    object.set_font_size(now as u32);
                },
            }
        }
    }
}

/// The text action after capturing its start state from `o`.
pub open spec fn spec_text_action_init(ta: TextAction, o: Object) -> TextAction {
    if o.kind is Text {
        match ta {
            TextAction::SetSize { to, .. } => TextAction::SetSize { from: spec_font_size(o), to },
            TextAction::ScaleSize { by, .. } => TextAction::ScaleSize {
                from: spec_font_size(o),
                to: spec_scale_font(spec_font_size(o) as int, by as int) as u32,
                by,
            },
        }
    } else {
        ta
    }
}

/// The object after one text-action interpolation step.
pub open spec fn spec_text_action_update(ta: TextAction, o: Object, p: int) -> Object {
    if o.kind is Text {
        match ta {
            TextAction::SetSize { from, to } => spec_set_font_size(
                o,
                spec_lerp(from as int, to as int, p) as u32,
            ),
            TextAction::ScaleSize { from, to, .. } => spec_set_font_size(
                o,
                spec_lerp(from as int, to as int, p) as u32,
            ),
        }
    } else {
        o
    }
}

/// A transform descriptor for one object.
#[derive(Debug, Clone, Copy, PartialEq, Eq, Structural)]
pub enum Action {
    MoveBy { from: Point, by: Point },
    MoveTo { from: Point, to: Point },
    ToEdge { from: Point, to: Point, buffer: i64, direction: Direction },
    NextTo { from: Point, to: Point },
    ChangeSize(ChangeSize),
    RotateTo { from: i64, to: i64 },
    RotateBy { from: i64, by: i64 },
    ShowCreation,
    Write,
    FadeIn,
    FadeOut,
    Transform,
    CircleAction(CircleAction),
    RectangleAction(RectangleAction),
    TextAction(TextAction),
}

impl Action {
    /// Every stored scalar is inside the range interpolation can handle.
    pub open spec fn inv(self) -> bool {
        match self {
            Action::MoveBy { from, by } => from.bounded(MAX_COORD as int) && by.bounded(
                MAX_COORD as int,
            ),
            Action::MoveTo { from, to } => from.bounded(MAX_COORD as int) && to.bounded(
                MAX_COORD as int,
            ),
            Action::ToEdge { from, to, buffer, .. } => from.bounded(MAX_COORD as int) && to.bounded(
                MAX_ENDPOINT as int,
            ) && -MAX_COORD as int <= buffer as int <= MAX_COORD as int,
            Action::NextTo { from, to } => from.bounded(MAX_COORD as int) && to.bounded(
                MAX_COORD as int,
            ),
            Action::ChangeSize(cs) => cs.inv(),
            Action::RotateTo { from, to } => -MAX_COORD <= from <= MAX_COORD && -MAX_COORD <= to
                <= MAX_COORD,
            Action::RotateBy { from, by } => -MAX_COORD <= from <= MAX_COORD && -MAX_COORD <= by
                <= MAX_COORD,
            Action::CircleAction(ca) => ca.inv(),
            Action::RectangleAction(ra) => ra.inv(),
            _ => true,
        }
    }

    /// Capture the start state from the object; resolve edge targets
    /// against the scene boundaries; prime creation and fade effects.
    pub fn init(&mut self, object: &mut Object, resource: &Resource)
        requires
            old(self).inv(),
            old(object).inv(),
            resource.inv(),
        ensures
            *final(self) == spec_action_init_action(*old(self), *old(object), *resource),
            *final(object) == spec_action_init_object(*old(self), *old(object)),
            final(self).inv(),
            final(object).inv(),
    {
        match self {
            Action::MoveBy { from, .. } => {
                *from = object.position();
            },
            Action::MoveTo { from, .. } => {
                *from = object.position();
            },
            Action::ToEdge { from, to, buffer, direction } => {
                let mut p = object.position();
                match direction {
                    Direction::Up => {
                        p.y = resource.edge_upper() - *buffer;
                    },
                    Direction::Down => {
                        p.y = resource.edge_lower() + *buffer;
                    },
                    Direction::Right => {
                        p.x = resource.edge_right() - *buffer;
                    },
                    Direction::Left => {
                        p.x = resource.edge_left() + *buffer;
                    },
                }
                *from = object.position();
                *to = p;
            },
            Action::ShowCreation => {
                object.show();
                object.set_completion(0);
            },
            Action::FadeIn => {
                object.set_alpha(0);
            },
            Action::ChangeSize(cs) => {
                cs.init(object);
            },
            Action::RotateTo { from, .. } => {
                *from = object.orientation();
            },
            Action::RotateBy { from, .. } => {
                *from = object.orientation();
            },
            Action::CircleAction(ca) => {
                ca.init(object);
            },
            Action::RectangleAction(ra) => {
                ra.init(object);
            },
            Action::TextAction(ta) => {
                ta.init(object);
            },
            _ => {},
        }
    }

    /// Write the state interpolated at `progress` through the object's
    /// setters.  A pure function of the action and the progress: the same
    /// action at the same progress always produces the same object state.
    pub fn update(&self, object: &mut Object, progress: u64)
        requires
            self.inv(),
            old(object).inv(),
            progress <= UNIT,
        ensures
            *final(object) == spec_action_update(*self, *old(object), progress as int),
            final(object).inv(),
    {
        match self {
            Action::MoveBy { from, by } => {
                let to = Point { x: from.x + by.x, y: from.y + by.y };
                let now = from.interp(&to, progress);
                object.move_to(now.x, now.y);
            },
            Action::MoveTo { from, to } => {
                let now = from.interp(to, progress);
                object.move_to(now.x, now.y);
            },
            Action::ToEdge { from, to, .. } => {
                let now = from.interp(to, progress);
                object.move_to(now.x, now.y);
            },
            Action::ShowCreation => {
                object.set_completion(progress as i64);
            },
            Action::FadeIn => {
                object.set_alpha(progress as i64);
            },
            Action::ChangeSize(cs) => {
                cs.update(object, progress);
            },
            Action::RotateTo { from, to } => {
                let deg = lerp(*from, *to, progress);
                object.rotate_to(deg);
            },
            Action::RotateBy { from, by } => {
                let to = *from + *by;
                let deg = lerp(*from, to, progress);
                object.rotate_to(deg);
            },
            Action::CircleAction(ca) => {
                ca.update(object, progress);
            },
            Action::RectangleAction(ra) => {
                ra.update(object, progress);
            },
            Action::TextAction(ta) => {
                ta.update(object, progress);
            },
            _ => {},
        }
    }

    /// Fast-forward: `update` at full progress.
    pub fn complete(&self, object: &mut Object)
        requires
            self.inv(),
            old(object).inv(),
        ensures
            *final(object) == spec_action_update(*self, *old(object), UNIT as int),
            final(object).inv(),
    {
        self.update(object, UNIT);
    }
}

/// The action after capturing its start state from `o` under scene
/// boundaries `res`.
pub open spec fn spec_action_init_action(a: Action, o: Object, res: Resource) -> Action {
    match a {
        Action::MoveBy { by, .. } => Action::MoveBy { from: o.position, by },
        Action::MoveTo { to, .. } => Action::MoveTo { from: o.position, to },
        Action::ToEdge { buffer, direction, .. } => Action::ToEdge {
            from: o.position,
            to: spec_edge_target(o.position, res, buffer as int, direction),
            buffer,
            direction,
        },
        Action::ChangeSize(cs) => Action::ChangeSize(spec_change_size_init(cs, o)),
        Action::RotateTo { to, .. } => Action::RotateTo { from: o.orientation, to },
        Action::RotateBy { by, .. } => Action::RotateBy { from: o.orientation, by },
        Action::CircleAction(ca) => Action::CircleAction(spec_circle_action_init(ca, o)),
        Action::RectangleAction(ra) => Action::RectangleAction(spec_rectangle_action_init(ra, o)),
        Action::TextAction(ta) => Action::TextAction(spec_text_action_init(ta, o)),
        _ => a,
    }
}

/// The point an edge-relative move resolves to: the object's position with
/// one coordinate replaced by the chosen scene edge offset by the buffer.
pub open spec fn spec_edge_target(pos: Point, res: Resource, buffer: int, dir: Direction) -> Point {
    match dir {
        Direction::Up => Point { x: pos.x, y: (res.upper as int - buffer) as i64 },
        Direction::Down => Point { x: pos.x, y: (res.lower as int + buffer) as i64 },
        Direction::Right => Point { x: (res.right as int - buffer) as i64, y: pos.y },
        Direction::Left => Point { x: (res.left as int + buffer) as i64, y: pos.y },
    }
}

/// The object after `init`: unchanged except that creation effects show
/// the object with zero completion and fades start fully transparent.
pub open spec fn spec_action_init_object(a: Action, o: Object) -> Object {
    match a {
        Action::ShowCreation => Object {
            opacity: Opacity { visible: true, alpha: UNIT as u64 },
            completion: 0u64,
            ..o
        },
        Action::FadeIn => Object { opacity: Opacity { visible: false, alpha: 0u64 }, ..o },
        _ => o,
    }
}

/// The object after `update` at progress `p`: the targeted property is a
/// function of the action and `p` alone; everything else passes through.
pub open spec fn spec_action_update(a: Action, o: Object, p: int) -> Object {
    match a {
        Action::MoveBy { from, by } => spec_move_update(
            o,
            from,
            Point { x: (from.x + by.x) as i64, y: (from.y + by.y) as i64 },
            p,
        ),
        Action::MoveTo { from, to } => spec_move_update(o, from, to, p),
        Action::ToEdge { from, to, .. } => spec_move_update(o, from, to, p),
        Action::ShowCreation => Object { completion: spec_clamp_unit(p) as u64, ..o },
        Action::FadeIn => Object { opacity: spec_set_opacity(p), ..o },
        Action::ChangeSize(cs) => spec_change_size_update(cs, o, p),
        Action::RotateTo { from, to } => Object {
            orientation: spec_clamp_coord(spec_lerp(from as int, to as int, p)) as i64,
            ..o
        },
        Action::RotateBy { from, by } => Object {
            orientation: spec_clamp_coord(spec_lerp(from as int, from as int + by as int, p)) as i64,
            ..o
        },
        Action::CircleAction(ca) => spec_circle_action_update(ca, o, p),
        Action::RectangleAction(ra) => spec_rectangle_action_update(ra, o, p),
        Action::TextAction(ta) => spec_text_action_update(ta, o, p),
        _ => o,
    }
}

/// The object moved to the interpolation between `from` and `to` at
/// progress `p`, with each coordinate clamped into the storable range.
pub open spec fn spec_move_update(o: Object, from: Point, to: Point, p: int) -> Object {
    let now = spec_point_interp(from, to, p);
    Object {
        position: Point {
            x: spec_clamp_coord(now.x as int) as i64,
            y: spec_clamp_coord(now.y as int) as i64,
        },
        ..o
    }
}

} // verus!
