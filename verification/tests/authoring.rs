//! Authoring-side pieces: fades, rotations, text sizing, captions, and
//! family-link editing.

use tweenline::arena::{modify, modify_child, Arena, Node};
use tweenline::geom::point_at;
use tweenline::object::{circle, rectangle, text, ShapeKind};
use tweenline::post::{Post, State};
use tweenline::resource::Resource;
use tweenline::scene::{AddObject, Scene};
use tweenline::units::UNIT;

fn stage() -> Scene {
    Scene::new(Resource::new(-320, 320, -240, 240))
}

#[test]
fn fade_in_sweeps_alpha_from_transparent() {
    let mut scene = stage();
    let c = scene.circle();
    scene.play(c.fade_in()).run_time(1000).build(&mut scene);

    scene.update(250);
    let quarter = scene.get(c.id()).unwrap().inner;
    assert!(quarter.is_visible());
    assert_eq!(quarter.alpha(), UNIT / 4);

    scene.update(1000);
    let done = scene.get(c.id()).unwrap().inner;
    assert_eq!(done.alpha(), UNIT);
}

#[test]
fn show_creation_shows_and_sweeps_completion() {
    let mut scene = stage();
    let c = scene.circle();
    scene.play(c.show_creation()).run_time(1000).build(&mut scene);

    scene.update(500);
    let half = scene.get(c.id()).unwrap().inner;
    assert!(half.is_visible());
    // The builder picks the quadratic ease-in-out for creation effects,
    // which passes exactly through the centre.
    assert_eq!(half.completion(), UNIT / 2);

    scene.update(1000);
    assert_eq!(scene.get(c.id()).unwrap().inner.completion(), UNIT);
}

#[test]
fn rotation_interpolates_the_angle() {
    let mut scene = stage();
    let r = scene.rectangle();
    scene.play(r.rotate_by(540)).run_time(1000).build(&mut scene);

    scene.update(500);
    assert_eq!(scene.get(r.id()).unwrap().inner.orientation(), 270);
    scene.update(1000);
    assert_eq!(scene.get(r.id()).unwrap().inner.orientation(), 540);
}

#[test]
fn text_scaling_animates_the_font_size() {
    let mut scene = stage();
    let t = scene.text("headline");
    scene.play(t.scale_by(2 * UNIT)).run_time(1000).build(&mut scene);

    scene.update(500);
    assert_eq!(scene.get(t.id()).unwrap().inner.font_size(), 135);
    scene.update(1000);
    assert_eq!(scene.get(t.id()).unwrap().inner.font_size(), 180);
}

#[test]
fn set_radius_animates_both_components() {
    let mut scene = stage();
    let c = scene.circle();
    scene.play(c.set_radius(30)).run_time(1000).build(&mut scene);
    scene.update(1000);
    let done = scene.get(c.id()).unwrap().inner;
    assert_eq!((done.width(), done.height()), (60, 60));
    assert_eq!(done.radius(), 30);
}

#[test]
fn scale_by_resolves_against_the_size_at_first_tick() {
    let mut scene = stage();
    let r = scene.rectangle();
    scene.act(r.set_width(40));
    scene.act(r.set_height(20));
    scene.play(r.scale_by(UNIT / 2)).run_time(1000).build(&mut scene);
    scene.update(1000);
    let done = scene.get(r.id()).unwrap().inner;
    assert_eq!((done.width(), done.height()), (20, 10));
}

#[test]
fn post_content_is_gated_by_review() {
    let mut post = Post::new();
    post.add_text("Some content");
    assert_eq!("", post.content());

    post.request_review();
    assert_eq!("", post.content());
    assert_eq!(post.state, State::PendingReview);

    post.approve();
    assert_eq!("Some content", post.content());
    assert_eq!(post.state, State::Published);
}

#[test]
fn approve_skips_unreviewed_drafts() {
    let mut post = Post::new();
    post.add_text("draft only");
    post.approve();
    assert_eq!(post.state, State::Draft);
    assert_eq!("", post.content());
}

#[test]
fn modify_child_replaces_only_the_drawable_state() {
    let mut arena = Arena::new();
    let parent = arena.insert(Node::new(rectangle()));
    let mut child_node = Node::new(circle());
    child_node.set_parent(parent);
    let child = arena.insert(child_node);

    assert!(modify_child(&mut arena, child, text()));
    let n = arena.get(child).unwrap();
    assert!(matches!(n.inner.kind, ShapeKind::Text { .. }));
    assert_eq!(n.parent, Some(parent));

    arena.remove(child);
    assert!(!modify_child(&mut arena, child, circle()));
}

#[test]
fn modify_writes_through_the_parent_link() {
    let mut arena = Arena::new();
    let child = arena.insert(Node::new(circle()));
    let mut parent_node = Node::new(rectangle());
    parent_node.set_child(child);
    let parent = arena.insert(parent_node);

    let mut moved = circle();
    moved.move_to(44, -44);
    assert!(modify(&mut arena, parent, moved));
    let p = arena.get(child).unwrap().inner.position();
    assert_eq!((p.x, p.y), (44, -44));

    // A parent without a child link writes nothing.
    assert!(!modify(&mut arena, child, rectangle()));
}

#[test]
fn move_to_action_replays_exactly() {
    let mut scene = stage();
    let c = scene.circle();
    scene.act(c.move_to(point_at(-50, -50)));
    scene.play(c.move_to(point_at(50, 150))).run_time(1000).build(&mut scene);
    scene.update(500);
    let p = scene.get(c.id()).unwrap().inner.position();
    assert_eq!((p.x, p.y), (0, 50));
    scene.update(1000);
    let q = scene.get(c.id()).unwrap().inner.position();
    assert_eq!((q.x, q.y), (50, 150));
}
