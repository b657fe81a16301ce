//! A 2D animation timeline engine.
//!
//! The crate schedules, interpolates, and replays time-stamped visual
//! transformations against a pool of drawable objects.  A `Scene` owns an
//! append-ordered command timeline and an arena of objects addressed by
//! generation-checked handles; repeated calls to `Scene::update` with a
//! non-decreasing scene time advance playback, catching up every skipped
//! command before interpolating the currently active batch.
//!
//! All quantities are integers: coordinates, sizes and angles are plain
//! `i64` units, scene time is `u64` ticks, and progress, opacity and path
//! completion are fixed-point fractions with denominator [`units::UNIT`].
//! Rendering, windowing and text layout are left to the host application.

pub mod action;
pub mod animation;
pub mod arena;
pub mod builder;
pub mod ease;
pub mod geom;
pub mod ids;
pub mod object;
pub mod opacity;
pub mod post;
pub mod resource;
pub mod scene;
pub mod timeline;
pub mod units;

pub use crate::action::{Action, Direction};
pub use crate::animation::{Animation, Status, TargetAction};
pub use crate::arena::{Arena, Id, Node};
pub use crate::builder::AnimBuilder;
pub use crate::ease::EaseType;
pub use crate::geom::{Point, Vector};
pub use crate::ids::{CircleId, RectangleId, TextId};
pub use crate::object::Object;
pub use crate::resource::Resource;
pub use crate::scene::{AddObject, Construct, Scene};
pub use crate::timeline::{Command, TimedCommand, Timeline};
