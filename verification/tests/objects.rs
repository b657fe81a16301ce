//! Objects, capability accessors, opacity coupling, and the arena.

use tweenline::arena::{Arena, Node};
use tweenline::object::{circle, rectangle, text, ShapeKind, Visibility};
use tweenline::opacity::Opacity;
use tweenline::units::{MAX_COORD, UNIT};

#[test]
fn defaults_match_the_stock_shapes() {
    let c = circle();
    assert_eq!(c.width(), 12);
    assert_eq!(c.height(), 12);
    assert_eq!(c.completion(), UNIT);
    assert!(!c.is_visible());

    let r = rectangle();
    assert_eq!(r.width(), 30);
    assert_eq!(r.orientation(), 0);

    let t = text();
    assert_eq!(t.font_size(), 90);
    assert!(matches!(t.kind, ShapeKind::Text { font_size: 90 }));
}

#[test]
fn circle_stays_square_under_size_changes() {
    let mut c = circle();
    c.set_width(40);
    assert_eq!((c.width(), c.height()), (40, 40));
    c.set_height(18);
    assert_eq!((c.width(), c.height()), (18, 18));
    c.set_radius(7);
    assert_eq!((c.width(), c.height()), (14, 14));
    assert_eq!(c.radius(), 7);

    let mut r = rectangle();
    r.set_width(40);
    assert_eq!((r.width(), r.height()), (40, 30));
}

#[test]
fn sizes_clamp_non_negative() {
    let mut r = rectangle();
    r.set_width(-5);
    assert_eq!(r.width(), 0);
    r.set_height(MAX_COORD + 1);
    assert_eq!(r.height(), MAX_COORD);
}

#[test]
fn completion_clamps_into_the_unit_interval() {
    let mut c = circle();
    c.set_completion(-3);
    assert_eq!(c.completion(), 0);
    c.set_completion(2 * UNIT as i64);
    assert_eq!(c.completion(), UNIT);
    c.set_completion(123_456);
    assert_eq!(c.completion(), 123_456);
}

#[test]
fn opacity_couples_alpha_and_visibility() {
    let mut o = Opacity::new(false);
    assert!(!o.visible);
    assert_eq!(o.alpha, 0);

    o.set_opacity(300_000);
    assert!(o.visible);
    assert_eq!(o.alpha, 300_000);

    o.set_opacity(0);
    assert!(!o.visible);
    assert_eq!(o.alpha, 0);

    o.set_opacity(-40);
    assert!(!o.visible);
    assert_eq!(o.alpha, 0);

    o.set_opacity(3 * UNIT as i64);
    assert!(o.visible);
    assert_eq!(o.alpha, UNIT);
}

#[test]
fn visibility_trait_delegates_to_the_setters() {
    let mut n = Node::new(circle());
    assert!(!n.is_visible());
    n.show();
    assert!(n.is_visible());
    assert_eq!(n.inner.alpha(), UNIT);
    n.conceal();
    assert!(!n.is_visible());
    assert_eq!(n.inner.alpha(), 0);
}

#[test]
fn text_font_size_only_changes_text() {
    let mut t = text();
    t.set_font_size(44);
    assert_eq!(t.font_size(), 44);

    let mut c = circle();
    c.set_font_size(44);
    assert_eq!(c.font_size(), 0);
    assert!(matches!(c.kind, ShapeKind::Circle));
}

#[test]
fn position_clamps_into_the_storable_range() {
    let mut c = circle();
    c.move_to(MAX_COORD + 7, -(MAX_COORD + 7));
    assert_eq!(c.position().x, MAX_COORD);
    assert_eq!(c.position().y, -MAX_COORD);
}

#[test]
fn arena_handles_are_generation_checked() {
    let mut arena = Arena::new();
    let a = arena.insert(Node::new(circle()));
    let b = arena.insert(Node::new(rectangle()));
    assert!(arena.contains(a));
    assert!(arena.contains(b));

    let removed = arena.remove(a);
    assert!(removed.is_some());
    assert!(!arena.contains(a));
    assert!(arena.get(a).is_none());
    assert!(arena.remove(a).is_none());

    // The slot is reused, but the stale handle never aliases the new
    // occupant.
    let c = arena.insert(Node::new(text()));
    assert_eq!(c.slot, a.slot);
    assert_ne!(c, a);
    assert!(arena.get(a).is_none());
    assert!(matches!(arena.get(c).unwrap().inner.kind, ShapeKind::Text { .. }));
}

#[test]
fn arena_parent_links_resolve_one_level() {
    let mut arena = Arena::new();
    let parent = arena.insert(Node::new(rectangle()));
    let mut child_node = Node::new(circle());
    child_node.set_parent(parent);
    let child = arena.insert(child_node);

    let p = arena.get_parent(child).unwrap();
    assert!(matches!(p.inner.kind, ShapeKind::Rectangle));
    assert!(arena.get_parent(parent).is_none());
}

#[test]
fn arena_handles_walks_live_objects() {
    let mut arena = Arena::new();
    let a = arena.insert(Node::new(circle()));
    let b = arena.insert(Node::new(circle()));
    let c = arena.insert(Node::new(circle()));
    arena.remove(b);
    let ids = arena.handles();
    assert_eq!(ids.len(), 2);
    assert!(ids.contains(&a));
    assert!(ids.contains(&c));
    assert!(!ids.contains(&b));
}
