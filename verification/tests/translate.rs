use scene_actions::action::Action;
use scene_actions::event::ActiveEvent;
use scene_actions::event::AttackEvent;
use scene_actions::event::BeginTurnEvent;
use scene_actions::event::CreateEvent;
use scene_actions::event::EndTurnEvent;
use scene_actions::event::Effect;
use scene_actions::event::Event;
use scene_actions::event::MoveToEvent;
use scene_actions::event::State;
use scene_actions::event::Unit;
use scene_actions::geom::Color;
use scene_actions::geom::PosHex;
use scene_actions::geom::hex_to_point;
use scene_actions::scheduler::Scheduler;
use scene_actions::view::GameView;
use scene_actions::visualize::message;
use scene_actions::visualize::visualize;
use scene_actions::visualize::visualize_event;
use scene_actions::visualize::visualize_effect;

const TILE: i64 = 10;

fn view_with_unit(id: u64, pos: PosHex) -> (GameView, State) {
    let mut view = GameView::new(TILE);
    let p = hex_to_point(TILE, pos);
    let h = view.new_sprite(p, Color { r: 1000, g: 1000, b: 1000, a: 1000 }, "unit.png");
    view.add_object(id, h);
    let state = State { units: vec![(id, Unit { pos, player_id: 0 })] };
    (view, state)
}

#[test]
fn move_to_with_three_tile_path_gives_two_moves_of_300ms() {
    let start = PosHex { q: 0, r: 0 };
    let (mut view, state) = view_with_unit(7, start);
    let path = vec![start, PosHex { q: 1, r: 0 }, PosHex { q: 1, r: 1 }];
    let event = ActiveEvent::MoveTo(MoveToEvent { id: 7, path });
    let (action, time) = visualize_event(&state, &mut view, &event);
    assert_eq!(time, 600);
    assert_eq!(action.duration(), 600);
    match action {
        Action::Sequence { children, index } => {
            assert_eq!(index, 0);
            assert_eq!(children.len(), 2);
            for c in &children {
                match c {
                    Action::MoveBy { duration, .. } => assert_eq!(*duration, 300),
                    _ => panic!("expected a move"),
                }
            }
        },
        _ => panic!("expected a sequence"),
    }
}

#[test]
fn attack_moves_sum_to_300ms_with_zero_net_displacement() {
    let (mut view, mut state) = view_with_unit(1, PosHex { q: 0, r: 0 });
    state.units.push((2, Unit { pos: PosHex { q: 3, r: -2 }, player_id: 1 }));
    let event = ActiveEvent::Attack(AttackEvent { attacker_id: 1, target_id: 2 });
    let (action, time) = visualize_event(&state, &mut view, &event);
    assert_eq!(time, 300);
    match action {
        Action::Sequence { children, .. } => {
            assert_eq!(children.len(), 2);
            let (d0, d1) = match (&children[0], &children[1]) {
                (
                    Action::MoveBy { delta: d0, duration: u0, .. },
                    Action::MoveBy { delta: d1, duration: u1, .. },
                ) => {
                    assert_eq!(*u0, 150);
                    assert_eq!(*u1, 150);
                    (*d0, *d1)
                },
                _ => panic!("expected two moves"),
            };
            assert_eq!(d0.x + d1.x, 0, "net displacement is the zero vector");
            assert_eq!(d0.y + d1.y, 0);
        },
        _ => panic!("expected a sequence"),
    }
}

#[test]
fn end_turn_event_with_no_effects_costs_only_its_pause() {
    let mut view = GameView::new(TILE);
    let state = State { units: vec![] };
    let event = Event {
        active_event: ActiveEvent::EndTurn(EndTurnEvent { player_id: 0 }),
        effects: vec![],
    };
    let (action, total) = visualize(&state, &mut view, &event);
    assert_eq!(total, 200);
    // the wrapping sequence of forks takes no time of its own
    assert_eq!(action.duration(), 0);
}

#[test]
fn create_then_kill_aggregates_to_3850ms() {
    // fade-in 0.5 s + label 3.0 s + pause 0.25 s + fade-out 0.1 s
    let mut view = GameView::new(TILE);
    let pos = PosHex { q: 2, r: 2 };
    let state = State { units: vec![(9, Unit { pos, player_id: 0 })] };
    let event = Event {
        active_event: ActiveEvent::Create(CreateEvent { id: 9, unit: Unit { pos, player_id: 0 } }),
        effects: vec![(9, vec![Effect::Kill])],
    };
    let (_, total) = visualize(&state, &mut view, &event);
    assert_eq!(total, 3850);
    assert!(!view.is_registered(9));
}

#[test]
fn create_event_fades_in_for_half_a_second_and_registers_the_sprite() {
    let mut view = GameView::new(TILE);
    let state = State { units: vec![] };
    let pos = PosHex { q: -1, r: 2 };
    let event = ActiveEvent::Create(CreateEvent { id: 11, unit: Unit { pos, player_id: 0 } });
    let (action, time) = visualize_event(&state, &mut view, &event);
    assert_eq!(time, 500);
    assert_eq!(action.duration(), 500);
    assert!(view.is_registered(11));
    assert_eq!(view.sprites.last().unwrap().label, "swordsman.png");
    assert_eq!(view.sprites.last().unwrap().color.a, 0, "spawned fully transparent");
}

#[test]
fn begin_turn_banner_runs_for_two_seconds() {
    let mut view = GameView::new(TILE);
    let state = State { units: vec![] };
    let event = ActiveEvent::BeginTurn(BeginTurnEvent { player_id: 1 });
    let (action, time) = visualize_event(&state, &mut view, &event);
    assert_eq!(time, 2000);
    assert_eq!(action.duration(), 2000);
    assert_eq!(view.sprites.last().unwrap().label, "ENEMY TURN");
}

#[test]
fn miss_effect_is_a_floating_label_of_three_seconds() {
    let (mut view, state) = view_with_unit(4, PosHex { q: 0, r: 1 });
    let (action, time) = visualize_effect(&state, &mut view, 4, &Effect::Miss);
    assert_eq!(time, 3000);
    // the label subtree is forked, so the action's own duration is zero
    assert_eq!(action.duration(), 0);
    assert_eq!(view.sprites.last().unwrap().label, "missed");
}

#[test]
fn kill_effect_charges_label_plus_pause_plus_fade() {
    let (mut view, state) = view_with_unit(4, PosHex { q: 0, r: 1 });
    let (action, time) = visualize_effect(&state, &mut view, 4, &Effect::Kill);
    assert_eq!(time, 3350);
    assert_eq!(action.duration(), 350);
    assert_eq!(view.sprites.last().unwrap().label, "killed");
}

#[test]
fn message_label_drifts_up_and_fades_out_completely() {
    let mut view = GameView::new(TILE);
    let pos = PosHex { q: 1, r: 1 };
    let (action, time) = message(&mut view, pos, "ouch");
    assert_eq!(time, 3000);
    let h = view.sprites.len() - 1;
    let origin = hex_to_point(TILE, pos);
    let mut scheduler = Scheduler::new();
    scheduler.add(action);
    let mut guard = 0;
    while !scheduler.done() {
        scheduler.tick(250, &mut view);
        guard += 1;
        assert!(guard < 100, "label playback must terminate");
    }
    let end = view.sprite_pos(h);
    assert_eq!(end.x, origin.x);
    assert_eq!(end.y, origin.y + 300, "label drifted up by exactly its delta");
    assert_eq!(view.sprite_color(h).a, 0, "label faded out exactly");
    assert!(view.text.is_empty(), "label was detached from the text layer");
}

#[test]
fn whole_event_playback_runs_to_completion() {
    let (mut view, mut state) = view_with_unit(1, PosHex { q: 0, r: 0 });
    state.units.push((2, Unit { pos: PosHex { q: 1, r: 0 }, player_id: 1 }));
    let p2 = hex_to_point(TILE, PosHex { q: 1, r: 0 });
    let h = view.new_sprite(p2, Color { r: 1000, g: 1000, b: 1000, a: 1000 }, "imp.png");
    view.add_object(2, h);
    let event = Event {
        active_event: ActiveEvent::Attack(AttackEvent { attacker_id: 1, target_id: 2 }),
        effects: vec![(2, vec![Effect::Kill])],
    };
    let (action, total) = visualize(&state, &mut view, &event);
    assert_eq!(total, 300 + 3350);
    let mut scheduler = Scheduler::new();
    scheduler.add(action);
    let mut guard = 0;
    while !scheduler.done() {
        scheduler.tick(100, &mut view);
        guard += 1;
        assert!(guard < 200);
    }
    // the killed unit's sprite is gone from the foreground and unregistered
    assert!(!view.is_registered(2));
}
