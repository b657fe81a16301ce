//! End-to-end playback scenarios against the scheduler.

use tweenline::action::Direction;
use tweenline::animation::{Animation, Status};
use tweenline::geom::point_at;
use tweenline::resource::Resource;
use tweenline::scene::{AddObject, Scene};
use tweenline::timeline::Command;
use tweenline::units::UNIT;

fn stage() -> Scene {
    Scene::new(Resource::new(-320, 320, -240, 240))
}

fn position_of(scene: &Scene, id: tweenline::arena::Id) -> (i64, i64) {
    let node = scene.get(id).expect("object should be present");
    let p = node.inner.position();
    (p.x, p.y)
}

#[test]
fn shift_interpolates_halfway_and_lands_exactly() {
    let mut scene = stage();
    let c = scene.circle();
    scene.act(c.move_to(point_at(7, -3)));
    scene
        .play(c.shift(point_at(100, 0)))
        .run_time(1000)
        .build(&mut scene);

    scene.update(500);
    assert_eq!(position_of(&scene, c.id()), (57, -3));

    scene.update(1200);
    assert_eq!(position_of(&scene, c.id()), (107, -3));
    let last = scene.commands.cmds.len() - 1;
    match scene.commands.cmds[last].inner {
        Command::Play(anim) => assert_eq!(anim.status, Status::Complete),
        _ => panic!("expected a play command at the end of the timeline"),
    }
}

#[test]
fn removing_the_target_mid_animation_is_harmless() {
    let mut scene = stage();
    let kept = scene.circle();
    let doomed = scene.circle();
    scene
        .play(doomed.shift(point_at(100, 0)))
        .run_time(1000)
        .build(&mut scene);

    scene.update(500);
    scene.remove(doomed.id());
    scene.update(2000);

    assert!(scene.get(doomed.id()).is_none());
    assert!(scene.get(kept.id()).is_some());
    let drawn = scene.objects.handles();
    assert!(!drawn.contains(&doomed.id()));
    assert!(drawn.contains(&kept.id()));
}

#[test]
fn to_edge_down_lands_on_the_buffered_lower_edge() {
    let mut scene = stage();
    let c = scene.circle();
    scene.act(c.move_to(point_at(10, 100)));
    scene
        .play(c.to_edge(Direction::Down, 25))
        .run_time(1000)
        .build(&mut scene);

    scene.update(1500);
    assert_eq!(position_of(&scene, c.id()), (10, -215));
}

#[test]
fn batch_members_with_different_durations_share_one_start() {
    let mut scene = stage();
    let quick = scene.circle();
    let slow = scene.circle();
    let mut a1 = Animation::new(quick.id(), quick.shift(point_at(100, 0)).action);
    a1.run_time = 1000;
    let mut a2 = Animation::new(slow.id(), slow.shift(point_at(100, 0)).action);
    a2.run_time = 2000;
    scene.commands.play(vec![a1, a2]);
    assert_eq!(scene.commands.end_time(), 2000);

    scene.update(1000);
    let n = scene.commands.cmds.len();
    match scene.commands.cmds[n - 2].inner {
        Command::Play(anim) => assert_eq!(anim.status, Status::Complete),
        _ => panic!("expected the shorter play command"),
    }
    match scene.commands.cmds[n - 1].inner {
        Command::Play(anim) => assert_eq!(anim.status, Status::Animating(UNIT / 2)),
        _ => panic!("expected the longer play command"),
    }
    assert_eq!(position_of(&scene, quick.id()).0, 100);
    assert_eq!(position_of(&scene, slow.id()).0, 50);
}

#[test]
fn catch_up_starts_from_the_state_the_object_actually_had() {
    let mut scene = stage();
    let c = scene.circle();
    scene.act(c.move_to(point_at(5, 5)));
    scene
        .play(c.shift(point_at(100, 0)))
        .run_time(1000)
        .build(&mut scene);
    scene.wait(1000);
    let d = scene.circle();
    scene
        .play(d.shift(point_at(-10, 0)))
        .run_time(1000)
        .build(&mut scene);

    // Jump far past everything in one call: the skipped shift must end
    // exactly where playing it to completion would have ended.
    scene.update(10_000);
    assert_eq!(position_of(&scene, c.id()), (105, 5));
    assert_eq!(position_of(&scene, d.id()), (-10, 0));
}

#[test]
fn coarse_and_fine_replay_reach_the_same_state() {
    let build = |scene: &mut Scene| {
        let c = scene.circle();
        scene.act(c.move_to(point_at(-40, 12)));
        scene
            .play(c.shift(point_at(200, -24)))
            .run_time(2000)
            .build(scene);
        scene.wait(500);
        scene
            .play(c.set_width(99))
            .run_time(1000)
            .build(scene);
        c
    };

    let mut fine = stage();
    let c1 = build(&mut fine);
    let mut t = 0;
    while t <= 4000 {
        fine.update(t);
        t += 100;
    }

    let mut coarse = stage();
    let c2 = build(&mut coarse);
    coarse.update(4000);

    let a = fine.get(c1.id()).unwrap().inner;
    let b = coarse.get(c2.id()).unwrap().inner;
    assert_eq!(position_of(&fine, c1.id()), position_of(&coarse, c2.id()));
    assert_eq!(a.width(), b.width());
    assert_eq!(a.height(), b.height());
    assert_eq!(a.completion(), b.completion());
    assert_eq!(a.alpha(), b.alpha());
}

#[test]
fn every_elapsed_play_is_complete_after_an_update() {
    let mut scene = stage();
    let c = scene.circle();
    let d = scene.circle();
    scene
        .play(c.shift(point_at(10, 0)))
        .run_time(1000)
        .build(&mut scene);
    scene
        .play(d.show_creation())
        .run_time(500)
        .build(&mut scene);
    scene.wait(2000);
    scene
        .play(c.shift(point_at(0, 10)))
        .run_time(1000)
        .build(&mut scene);

    scene.update(3200);
    for cmd in scene.commands.cmds.iter() {
        if let Command::Play(anim) = cmd.inner {
            if cmd.event_time + anim.run_time <= 3200 {
                assert_eq!(anim.status, Status::Complete);
            }
        }
    }
}
