use scene_actions::action::Action;
use scene_actions::action::Layer;
use scene_actions::geom::Color;
use scene_actions::geom::Point;
use scene_actions::scheduler::Scheduler;
use scene_actions::view::GameView;

fn empty_view() -> GameView {
    GameView::new(10)
}

#[test]
fn sleep_duration_is_fixed() {
    let a = Action::sleep(700);
    assert_eq!(a.duration(), 700);
}

#[test]
fn sequence_duration_is_sum_of_children() {
    let children = vec![Action::sleep(100), Action::sleep(250), Action::sleep(3)];
    let seq = Action::sequence(children);
    assert_eq!(seq.duration(), 353);
}

#[test]
fn fork_duration_is_zero_but_child_time_is_kept_by_translator() {
    let fork = Action::fork(Action::sleep(5000));
    assert_eq!(fork.duration(), 0);
    let seq = Action::sequence(vec![fork, Action::sleep(10)]);
    assert_eq!(seq.duration(), 10);
}

#[test]
fn uniform_sequence_finishes_after_exactly_n_times_d() {
    // Three sleeps of 300 ms each: finished after exactly 900 ms, fed as
    // arbitrary tick sizes that sum to that total.
    let mut view = empty_view();
    let mut spawned = Vec::new();
    let mut seq = Action::sequence(vec![
        Action::sleep(300),
        Action::sleep(300),
        Action::sleep(300),
    ]);
    assert_eq!(seq.duration(), 900);
    let (fin, _) = seq.advance(100, &mut view, &mut spawned);
    assert!(!fin);
    let (fin, _) = seq.advance(450, &mut view, &mut spawned);
    assert!(!fin);
    let (fin, _) = seq.advance(349, &mut view, &mut spawned);
    assert!(!fin);
    let (fin, sur) = seq.advance(1, &mut view, &mut spawned);
    assert!(fin);
    assert_eq!(sur, 0);
    assert!(seq.is_finished());
}

#[test]
fn surplus_time_carries_over_within_one_call() {
    // One call spanning two children finishes both; nothing is lost at the
    // boundary.
    let mut view = empty_view();
    let mut spawned = Vec::new();
    let mut seq = Action::sequence(vec![Action::sleep(100), Action::sleep(100)]);
    let (fin, sur) = seq.advance(150, &mut view, &mut spawned);
    assert!(!fin);
    assert_eq!(sur, 0);
    let (fin, sur) = seq.advance(75, &mut view, &mut spawned);
    assert!(fin);
    assert_eq!(sur, 25);
}

#[test]
fn advance_after_finished_is_a_noop() {
    let mut view = empty_view();
    let mut spawned = Vec::new();
    let mut a = Action::sleep(10);
    let (fin, _) = a.advance(10, &mut view, &mut spawned);
    assert!(fin);
    for _ in 0..4 {
        let (fin, sur) = a.advance(999, &mut view, &mut spawned);
        assert!(fin);
        assert_eq!(sur, 999);
        assert!(a.is_finished());
    }
}

#[test]
fn zero_duration_move_resolves_instantly() {
    let mut view = empty_view();
    let h = view.new_sprite(Point { x: 5, y: 5 }, Color { r: 0, g: 0, b: 0, a: 0 }, "");
    let mut spawned = Vec::new();
    let mut a = Action::move_by(h, Point { x: 7, y: -2 }, 0);
    let (fin, sur) = a.advance(0, &mut view, &mut spawned);
    assert!(fin);
    assert_eq!(sur, 0);
    assert_eq!(view.sprite_pos(h), Point { x: 12, y: 3 });
}

#[test]
fn move_by_ends_exactly_on_target_without_drift() {
    let mut view = empty_view();
    let h = view.new_sprite(Point { x: 100, y: 200 }, Color { r: 0, g: 0, b: 0, a: 0 }, "");
    let mut spawned = Vec::new();
    let mut a = Action::move_by(h, Point { x: 33, y: -77 }, 100);
    let (fin, _) = a.advance(40, &mut view, &mut spawned);
    assert!(!fin);
    // linear interpolation, magnitude rounded down
    assert_eq!(view.sprite_pos(h), Point { x: 100 + 33 * 40 / 100, y: 200 - 77 * 40 / 100 });
    let (fin, _) = a.advance(60, &mut view, &mut spawned);
    assert!(fin);
    assert_eq!(view.sprite_pos(h), Point { x: 133, y: 123 });
}

#[test]
fn change_color_ends_exactly_on_target() {
    let mut view = empty_view();
    let h = view.new_sprite(Point { x: 0, y: 0 }, Color { r: 0, g: 0, b: 0, a: 0 }, "");
    let mut spawned = Vec::new();
    let target = Color { r: 1000, g: 500, b: 3, a: 999 };
    let mut a = Action::change_color_to(h, target, 7);
    let (fin, _) = a.advance(3, &mut view, &mut spawned);
    assert!(!fin);
    let (fin, _) = a.advance(11, &mut view, &mut spawned);
    assert!(fin);
    assert_eq!(view.sprite_color(h), target);
}

#[test]
fn show_and_hide_toggle_layer_membership() {
    let mut view = empty_view();
    let h = view.new_sprite(Point { x: 0, y: 0 }, Color { r: 0, g: 0, b: 0, a: 0 }, "");
    let mut spawned = Vec::new();
    let mut show = Action::show(Layer::Fg, h);
    let (fin, _) = show.advance(0, &mut view, &mut spawned);
    assert!(fin);
    assert_eq!(view.fg, vec![h]);
    let mut show_again = Action::show(Layer::Fg, h);
    show_again.advance(0, &mut view, &mut spawned);
    assert_eq!(view.fg, vec![h], "attach is idempotent");
    let mut hide = Action::hide_from(Layer::Fg, h);
    let (fin, _) = hide.advance(0, &mut view, &mut spawned);
    assert!(fin);
    assert!(view.fg.is_empty());
    assert!(spawned.is_empty());
}

#[test]
fn fork_spawns_child_and_finishes_in_the_same_tick() {
    // A fork inside a sequence contributes no execution time: the next step
    // starts in the same tick, while the forked child runs on its own track.
    let mut view = empty_view();
    let mut spawned = Vec::new();
    let mut seq = Action::sequence(vec![
        Action::fork(Action::sleep(1_000_000)),
        Action::sleep(50),
    ]);
    assert_eq!(seq.duration(), 50);
    let (fin, sur) = seq.advance(50, &mut view, &mut spawned);
    assert!(fin);
    assert_eq!(sur, 0);
    assert_eq!(spawned.len(), 1);
    assert_eq!(spawned[0].duration(), 1_000_000);
}

#[test]
fn scheduler_tracks_forked_subtrees_until_they_finish() {
    let mut view = empty_view();
    let mut scheduler = Scheduler::new();
    assert!(scheduler.done());
    scheduler.add(Action::sequence(vec![
        Action::fork(Action::sleep(300)),
        Action::sleep(100),
    ]));
    assert!(!scheduler.done());
    // tick 1: the main sequence finishes (fork fires, sleep of 100 elapses)
    // and the forked sleep becomes a track of its own.
    scheduler.tick(100, &mut view);
    assert!(!scheduler.done());
    // two more ticks cover the forked child's 300 ms.
    scheduler.tick(200, &mut view);
    assert!(!scheduler.done());
    scheduler.tick(100, &mut view);
    assert!(scheduler.done());
}
