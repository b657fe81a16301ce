//! Drawable objects and their capability accessors.
//!
//! An [`Object`] is a tagged shape (circle, rectangle or text) together
//! with the state every animation can touch: position, size, orientation,
//! opacity/visibility and a path-completion ratio used for draw-on effects.
//! All mutation goes through setters that clamp into the storable ranges,
//! so a well-formed object stays well-formed.
//!
//! Text content and glyph layout belong to the rendering host; the engine
//! tracks only the typographic state (the font size) that animations drive.

use vstd::prelude::*;

use crate::geom::{Dimension, Point};
use crate::opacity::{Opacity, spec_set_opacity};
use crate::units::{
    MAX_COORD, UNIT, clamp_coord, clamp_size, clamp_unit, spec_clamp_coord, spec_clamp_size,
    spec_clamp_unit,
};

verus! {

/// The shape of an object, with shape-specific fields.
#[derive(Debug, Clone, Copy, PartialEq, Eq, Structural)]
pub enum ShapeKind {
    Circle,
    Rectangle,
    Text { font_size: u32 },
}

/// A drawable object: a shape plus the animatable state.
#[derive(Debug, Clone, Copy, PartialEq, Eq, Structural)]
pub struct Object {
    pub kind: ShapeKind,
    pub position: Point,
    pub dimension: Dimension,
    pub orientation: i64,
    pub completion: u64,
    pub opacity: Opacity,
}

/// A hidden circle of default size at the origin.
pub fn circle() -> (r: Object)
    ensures
        r.kind == ShapeKind::Circle,
        r == spec_default_object(ShapeKind::Circle, 12, 12),
{
    Object {
        kind: ShapeKind::Circle,
        position: Point { x: 0, y: 0 },
        dimension: Dimension { width: 12, height: 12 },
        orientation: 0,
        completion: UNIT,
        opacity: Opacity::new(false),
    }
}

/// A hidden rectangle of default size at the origin.
pub fn rectangle() -> (r: Object)
    ensures
        r.kind == ShapeKind::Rectangle,
        r == spec_default_object(ShapeKind::Rectangle, 30, 30),
{
    Object {
        kind: ShapeKind::Rectangle,
        position: Point { x: 0, y: 0 },
        dimension: Dimension { width: 30, height: 30 },
        orientation: 0,
        completion: UNIT,
        opacity: Opacity::new(false),
    }
}

/// A hidden text object with the default font size.  The content string is
/// rendering data owned by the host; only the typographic state lives here.
pub fn text() -> (r: Object)
    ensures
        r.kind == (ShapeKind::Text { font_size: 90u32 }),
        r == spec_default_object(ShapeKind::Text { font_size: 90u32 }, 2000, 2000),
{
    Object {
        kind: ShapeKind::Text { font_size: 90 },
        position: Point { x: 0, y: 0 },
        dimension: Dimension { width: 2000, height: 2000 },
        orientation: 0,
        completion: UNIT,
        opacity: Opacity::new(false),
    }
}

/// The state every fresh object starts from: origin, full completion,
/// hidden.
pub open spec fn spec_default_object(kind: ShapeKind, width: i64, height: i64) -> Object {
    Object {
        kind,
        position: Point { x: 0, y: 0 },
        dimension: Dimension { width, height },
        orientation: 0,
        completion: UNIT as u64,
        opacity: Opacity { visible: false, alpha: 0u64 },
    }
}

impl Object {
    /// Every stored scalar is inside its range: coordinates and the angle
    /// within [`MAX_COORD`], sizes non-negative, completion and opacity
    /// within `[0, UNIT]`, opacity coupled to visibility.
    pub open spec fn inv(self) -> bool {
        &&& self.position.bounded(MAX_COORD as int)
        &&& self.dimension.inv()
        &&& -MAX_COORD as int <= self.orientation as int <= MAX_COORD as int
        &&& self.completion <= UNIT
        &&& self.opacity.inv()
    }

    /// The current position.
    pub fn position(&self) -> (r: Point)
        ensures
            r == self.position,
    {
        self.position
    }

    /// Move to the given coordinates, clamped into the storable range.
    pub fn move_to(&mut self, x: i64, y: i64)
        ensures
            *final(self) == (Object {
                position: Point {
                    x: spec_clamp_coord(x as int) as i64,
                    y: spec_clamp_coord(y as int) as i64,
                },
                ..*old(self)
            }),
    {
        self.position = Point { x: clamp_coord(x), y: clamp_coord(y) };
    }

    /// The current orientation angle.
    pub fn orientation(&self) -> (r: i64)
        ensures
            r == self.orientation,
    {
        self.orientation
    }

    /// Rotate to the given angle, clamped into the storable range.
    pub fn rotate_to(&mut self, angle: i64)
        ensures
            *final(self) == (Object {
                orientation: spec_clamp_coord(angle as int) as i64,
                ..*old(self)
            }),
    {
        self.orientation = clamp_coord(angle);
    }

    /// The current width.
    pub fn width(&self) -> (r: i64)
        ensures
            r == self.dimension.width,
    {
        self.dimension.width
    }

    /// The current height.
    pub fn height(&self) -> (r: i64)
        ensures
            r == self.dimension.height,
    {
        self.dimension.height
    }

    /// Set the width (clamped non-negative).  A circle stays square: both
    /// components change together.
    pub fn set_width(&mut self, width: i64)
        ensures
            *final(self) == spec_set_width(*old(self), width as int),
    {
        let w = clamp_size(width);
        if let ShapeKind::Circle = self.kind {
            self.dimension = Dimension { width: w, height: w };
        } else {
            self.dimension = Dimension { width: w, ..self.dimension };
        }
    }

    /// Set the height (clamped non-negative).  A circle stays square: both
    /// components change together.
    pub fn set_height(&mut self, height: i64)
        ensures
            *final(self) == spec_set_height(*old(self), height as int),
    {
        let h = clamp_size(height);
        if let ShapeKind::Circle = self.kind {
            self.dimension = Dimension { width: h, height: h };
        } else {
            self.dimension = Dimension { height: h, ..self.dimension };
        }
    }

    /// Replace both size components at once.
    pub fn set_size(&mut self, size: Dimension)
        requires
            size.inv(),
        ensures
            *final(self) == (Object { dimension: size, ..*old(self) }),
    {
        self.dimension = size;
    }

    /// The current path-completion ratio.
    pub fn completion(&self) -> (r: u64)
        ensures
            r == self.completion,
    {
        self.completion
    }

    /// Set the path-completion ratio, clamped into `[0, UNIT]`.
    pub fn set_completion(&mut self, completion: i64)
        ensures
            *final(self) == (Object {
                completion: spec_clamp_unit(completion as int) as u64,
                ..*old(self)
            }),
            final(self).completion <= UNIT,
    {
        self.completion = clamp_unit(completion);
    }

    /// The current alpha.
    pub fn alpha(&self) -> (r: u64)
        ensures
            r == self.opacity.alpha,
    {
        self.opacity.alpha
    }

    /// Whether the object is drawn at all.
    pub fn is_visible(&self) -> (r: bool)
        ensures
            r == self.opacity.visible,
    {
        self.opacity.visible
    }

    /// Make fully opaque and visible.
    pub fn show(&mut self)
        ensures
            *final(self) == (Object {
                opacity: Opacity { visible: true, alpha: UNIT as u64 },
                ..*old(self)
            }),
    {
        self.opacity.show();
    }

    /// Make fully transparent and hidden.
    pub fn conceal(&mut self)
        ensures
            *final(self) == (Object {
                opacity: Opacity { visible: false, alpha: 0u64 },
                ..*old(self)
            }),
    {
        self.opacity.conceal();
    }

    /// Set alpha; at or below zero the object is also hidden, above zero it
    /// becomes visible.
    pub fn set_opacity(&mut self, alpha: i64)
        ensures
            *final(self) == (Object { opacity: spec_set_opacity(alpha as int), ..*old(self) }),
            final(self).opacity.inv(),
    {
        self.opacity.set_opacity(alpha);
    }

    /// Alias for [`Object::set_opacity`], matching the fade actions.
    pub fn set_alpha(&mut self, alpha: i64)
        ensures
            *final(self) == (Object { opacity: spec_set_opacity(alpha as int), ..*old(self) }),
            final(self).opacity.inv(),
    {
        self.set_opacity(alpha);
    }

    /// Half the width; meaningful for circles, whose two size components
    /// always agree.
    pub fn radius(&self) -> (r: i64)
        requires
            self.inv(),
        ensures
            r == self.dimension.width as int / 2,
    {
        ((self.dimension.width as u64) / 2) as i64
    }

    /// Set both size components to twice the given radius.
    pub fn set_radius(&mut self, radius: i64)
        ensures
            *final(self) == spec_set_radius(*old(self), radius as int),
    {
        let r = clamp_size(radius);
        let d = clamp_size(2 * r);
        self.dimension = Dimension { width: d, height: d };
    }

    /// The font size, or zero for shapes without one.
    pub fn font_size(&self) -> (r: u32)
        ensures
            r == spec_font_size(*self),
    {
        match self.kind {
            ShapeKind::Text { font_size } => font_size,
            _ => 0,
        }
    }

    /// Set the font size of a text object; other shapes are unchanged.
    pub fn set_font_size(&mut self, size: u32)
        ensures
            *final(self) == spec_set_font_size(*old(self), size),
    {
        if let ShapeKind::Text { .. } = self.kind {
            self.kind = ShapeKind::Text { font_size: size };
        }
    }
}

/// Showing and hiding a drawable thing.
///
/// The implementations delegate to the inherent accessors, which carry the
/// exact contracts.
pub trait Visibility {
    /// Whether the receiver is drawn at all.
    fn is_visible(&self) -> bool;

    /// Make the receiver fully opaque and visible.
    fn show(&mut self);

    /// Make the receiver fully transparent and hidden.
    fn conceal(&mut self);
}

impl Visibility for Object {
    fn is_visible(&self) -> bool {
        Object::is_visible(self)
    }

    fn show(&mut self) {
        Object::show(self);
    }

    fn conceal(&mut self) {
        Object::conceal(self);
    }
}

/// The object after a width change; circles keep both components equal.
pub open spec fn spec_set_width(o: Object, width: int) -> Object {
    let w = spec_clamp_size(width) as i64;
    match o.kind {
        ShapeKind::Circle => Object { dimension: Dimension { width: w, height: w }, ..o },
        _ => Object { dimension: Dimension { width: w, ..o.dimension }, ..o },
    }
}

/// The object after a height change; circles keep both components equal.
pub open spec fn spec_set_height(o: Object, height: int) -> Object {
    let h = spec_clamp_size(height) as i64;
    match o.kind {
        ShapeKind::Circle => Object { dimension: Dimension { width: h, height: h }, ..o },
        _ => Object { dimension: Dimension { height: h, ..o.dimension }, ..o },
    }
}

/// The object after a radius change: both size components become twice the
/// clamped radius.
pub open spec fn spec_set_radius(o: Object, radius: int) -> Object {
    let d = spec_clamp_size(2 * spec_clamp_size(radius)) as i64;
    Object { dimension: Dimension { width: d, height: d }, ..o }
}

/// The font size of a text object, zero otherwise.
pub open spec fn spec_font_size(o: Object) -> u32 {
    match o.kind {
        ShapeKind::Text { font_size } => font_size,
        _ => 0u32,
    }
}

/// The object after a font-size change; non-text shapes are unchanged.
pub open spec fn spec_set_font_size(o: Object, size: u32) -> Object {
    match o.kind {
        ShapeKind::Text { .. } => Object { kind: ShapeKind::Text { font_size: size }, ..o },
        _ => o,
    }
}

} // verus!
