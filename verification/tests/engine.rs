//! Timeline authoring, playhead lookup and the animation state machine.

use tweenline::action::{Action, Direction};
use tweenline::animation::{Animation, Status, TargetAction};
use tweenline::ease::EaseType;
use tweenline::geom::point_at;
use tweenline::object::{circle, Object};
use tweenline::resource::Resource;
use tweenline::scene::{scene, AddObject, Scene};
use tweenline::timeline::{Command, Timeline};
use tweenline::units::{DEFAULT_RUN_TIME, UNIT};

fn stage() -> Scene {
    scene(Resource::new(0, 300, 0, 300))
}

#[test]
fn animation_simple_shift() {
    let mut scene = stage();
    let c = scene.circle();
    scene.wait(1000);
    scene
        .play(c.shift(point_at(100, 0)))
        .run_time(1000)
        .rate_func(EaseType::Bounce)
        .build(&mut scene);
}

#[test]
fn mod_simple_shift() {
    let mut scene = scene(Resource::new(0, 300, 0, 300));
    let c = scene.circle();
    scene.wait(1000);
    scene
        .play(c.shift(point_at(100, 0)))
        .run_time(1000)
        .rate_func(EaseType::Bounce)
        .build(&mut scene);
    scene.update(1500);
    let node = scene.get(c.id()).unwrap();
    assert_eq!(node.inner.position().x, 50);
}

#[test]
fn timeline_starts_with_a_sentinel_wait() {
    let scene = stage();
    assert_eq!(scene.commands.cmds.len(), 1);
    assert_eq!(scene.commands.cmds[0].event_time, 0);
    assert!(matches!(scene.commands.cmds[0].inner, Command::Wait(0)));
    assert_eq!(scene.commands.end_time(), 0);
}

#[test]
fn appends_stamp_commands_at_the_running_end_time() {
    let mut tl = Timeline::new();
    tl.wait(0);
    tl.wait(250);
    let id = tweenline::arena::Id { slot: 0, generation: 0 };
    tl.show(id);
    let mut anim = Animation::new(id, id.shift(point_at(1, 1)).action);
    anim.run_time = 400;
    tl.play(vec![anim]);
    tl.wait(100);

    assert_eq!(tl.time_stamps(), vec![0, 0, 250, 250, 650]);
    assert_eq!(tl.run_times(), vec![0, 250, 0, 400, 100]);
    assert_eq!(tl.end_time(), 750);
}

#[test]
fn find_index_picks_the_batch_and_its_first_timed_member() {
    let mut tl = Timeline::new();
    tl.wait(0);
    let id = tweenline::arena::Id { slot: 0, generation: 0 };
    tl.show(id);
    let mut a = Animation::new(id, id.shift(point_at(4, 0)).action);
    a.run_time = 1000;
    tl.play(vec![a]);

    // All three commands share start time zero; the play is the first
    // with nonzero duration.
    let (start, istart, iend) = tl.find_index(600);
    assert_eq!(start, 0);
    assert_eq!(istart, 2);
    assert_eq!(iend, 2);

    let (start2, istart2, iend2) = tl.find_index(0);
    assert_eq!(start2, 0);
    assert_eq!(istart2, 2);
    assert_eq!(iend2, 2);
}

#[test]
fn zero_duration_animation_completes_immediately() {
    let mut scene = stage();
    let c = scene.circle();
    scene
        .play(c.shift(point_at(60, 0)))
        .run_time(0)
        .build(&mut scene);
    scene.wait(10);
    scene.update(5);
    let node = scene.get(c.id()).unwrap();
    assert_eq!(node.inner.position().x, 60);
}

#[test]
fn act_applies_in_timeline_order_when_passed() {
    let mut scene = stage();
    let c = scene.circle();
    scene.wait(100);
    scene.act(c.move_to(point_at(30, 40)));
    scene.wait(100);

    scene.update(50);
    assert_eq!(scene.get(c.id()).unwrap().inner.position().x, 0);

    scene.update(150);
    let p = scene.get(c.id()).unwrap().inner.position();
    assert_eq!((p.x, p.y), (30, 40));
}

#[test]
fn show_command_makes_the_object_visible() {
    let mut scene = stage();
    let c = scene.circle();
    assert!(!scene.get(c.id()).unwrap().inner.is_visible());
    scene.wait(100);
    scene.show(c.id());
    scene.wait(100);
    scene.update(150);
    assert!(scene.get(c.id()).unwrap().inner.is_visible());
    assert_eq!(scene.get(c.id()).unwrap().inner.alpha(), UNIT);
}

#[test]
fn builder_defaults_follow_the_batch() {
    let scene = stage();
    let id = tweenline::arena::Id { slot: 0, generation: 0 };
    let plain = scene.play(id.shift(point_at(1, 0)));
    assert_eq!(plain.run_time, DEFAULT_RUN_TIME);
    assert_eq!(plain.rate_func, EaseType::Linear);

    let creation = scene.play(id.show_creation());
    assert_eq!(creation.rate_func, EaseType::Quad);
}

#[test]
fn builder_commits_one_concurrent_batch() {
    let mut scene = stage();
    let a = scene.circle();
    let b = scene.circle();
    scene.wait(500);
    scene
        .play_many(vec![a.shift(point_at(10, 0)), b.shift(point_at(0, 10))])
        .run_time(800)
        .build(&mut scene);

    let n = scene.commands.cmds.len();
    assert_eq!(scene.commands.cmds[n - 1].event_time, 500);
    assert_eq!(scene.commands.cmds[n - 2].event_time, 500);
    assert_eq!(scene.commands.end_time(), 1300);
}

#[test]
fn update_is_idempotent_at_a_fixed_time() {
    let mut scene = stage();
    let c = scene.circle();
    scene
        .play(c.shift(point_at(100, 0)))
        .run_time(1000)
        .build(&mut scene);
    scene.update(400);
    let once = scene.get(c.id()).unwrap().inner;
    scene.update(400);
    let twice = scene.get(c.id()).unwrap().inner;
    assert_eq!(once, twice);
}

#[test]
fn animation_two_step_update_matches_direct_update() {
    let res = Resource::new(0, 300, 0, 300);
    let id = tweenline::arena::Id { slot: 0, generation: 0 };
    let action = id.shift(point_at(90, -30)).action;

    let mut stepped = Animation::new(id, action);
    stepped.run_time = 1000;
    let mut direct = stepped;

    let mut obj_stepped = circle();
    let mut obj_direct = circle();

    stepped.update(&mut obj_stepped, 300, &res);
    stepped.update(&mut obj_stepped, 700, &res);
    direct.update(&mut obj_direct, 700, &res);

    assert_eq!(obj_stepped, obj_direct);
    assert_eq!(stepped, direct);
}

#[test]
fn finish_is_idempotent_and_exact() {
    let res = Resource::new(0, 300, 0, 300);
    let id = tweenline::arena::Id { slot: 0, generation: 0 };
    let mut anim = Animation::new(id, id.shift(point_at(25, 0)).action);
    let mut obj = circle();
    anim.finish(&mut obj, &res);
    assert_eq!(obj.position().x, 25);
    assert_eq!(anim.status, Status::Complete);
    let snapshot = obj;
    anim.finish(&mut obj, &res);
    assert_eq!(obj, snapshot);
}

#[test]
fn action_update_is_idempotent() {
    let a = Action::MoveTo { from: point_at(0, 0), to: point_at(100, 60) };
    let mut once: Object = circle();
    a.update(&mut once, 250_000);
    let mut twice: Object = circle();
    a.update(&mut twice, 250_000);
    a.update(&mut twice, 250_000);
    assert_eq!(once, twice);
    assert_eq!(once.position().x, 25);
    assert_eq!(once.position().y, 15);
}

#[test]
fn target_action_finish_applies_the_full_effect() {
    let res = Resource::new(-320, 320, -240, 240);
    let id = tweenline::arena::Id { slot: 0, generation: 0 };
    let mut ta: TargetAction = id.to_edge(Direction::Up, 10);
    let mut obj = circle();
    ta.finish(&mut obj, &res);
    assert_eq!(obj.position().y, 230);
    assert_eq!(obj.position().x, 0);
}
