use wasm4_gol::{
    start, update, CellState, Engine, Game, RawInput, Surface, BUTTON_1, BUTTON_2, FPS,
    MOUSE_LEFT, MOUSE_RIGHT,
};

fn idle() -> RawInput {
    RawInput { gamepads: [0; 4], mouse_x: 0, mouse_y: 0, mouse_buttons: 0 }
}

#[test]
fn counter_advances_on_skipped_ticks() {
    let mut engine = Engine::new();
    engine.set_frame_skip(3);
    assert_eq!(engine.frame_skipped(), 3);
    let mut ran = Vec::new();
    for _ in 0..7 {
        ran.push(engine.run_frame(idle()).is_some());
    }
    assert_eq!(engine.frame_count(), 7);
    assert_eq!(ran, vec![true, false, false, true, false, false, true]);
}

#[test]
fn no_skip_runs_every_tick() {
    let mut engine = Engine::new();
    for i in 0..5u64 {
        let ctx = engine.run_frame(idle()).expect("body runs");
        assert_eq!(ctx.frame(), i);
    }
    assert_eq!(FPS, 60);
}

#[test]
fn skipped_tick_still_commits_input() {
    let mut engine = Engine::new();
    engine.set_frame_skip(2);
    let mut raw = idle();
    assert!(engine.run_frame(raw).is_some());
    raw.gamepads[0] = BUTTON_1;
    // Tick 1 is skipped, yet its press is committed.
    assert!(engine.run_frame(raw).is_none());
    let ctx = engine.run_frame(raw).expect("tick 2 runs");
    assert!(ctx.gamepads()[0].pressed & BUTTON_1 != 0);
    assert_eq!(ctx.gamepads()[0].just_pressed, 0);
}

#[test]
fn context_reports_edges_against_previous_tick() {
    let mut engine = Engine::new();
    let mut raw = idle();
    raw.gamepads[1] = BUTTON_2;
    raw.mouse_buttons = MOUSE_LEFT;
    raw.mouse_x = 12;
    raw.mouse_y = 30;
    let ctx = engine.run_frame(raw).unwrap();
    assert_eq!(ctx.gamepads()[1].just_pressed, BUTTON_2);
    assert_eq!(ctx.mouse().just_pressed, MOUSE_LEFT);
    assert_eq!(ctx.mouse().position(), (12, 30));
    assert_eq!(ctx.screen().width, 160);
    let ctx = engine.run_frame(raw).unwrap();
    assert_eq!(ctx.gamepad(wasm4_gol::GamepadIndex::I2).just_pressed, 0);
    assert_eq!(ctx.mouse().just_pressed, 0);
}

#[test]
fn update_paints_and_erases_under_pointer() {
    let mut engine = Engine::new();
    let mut game = Game::with_size(10, 10);
    let mut surface = Surface::new();
    // Pause first so that the painted cell is not stepped away.
    let mut raw = idle();
    raw.gamepads[0] = BUTTON_1;
    assert!(update(&mut engine, &mut game, &mut surface, raw));
    assert!(!game.get_simulation_running_state());
    let mut raw = idle();
    raw.mouse_x = 7;
    raw.mouse_y = 5;
    raw.mouse_buttons = MOUSE_LEFT;
    update(&mut engine, &mut game, &mut surface, raw);
    assert_eq!(game.cell_state(3, 2), CellState::Alive);
    raw.mouse_buttons = MOUSE_LEFT | MOUSE_RIGHT;
    raw.mouse_x = 1;
    update(&mut engine, &mut game, &mut surface, raw);
    assert_eq!(game.cell_state(0, 2), CellState::Alive);
    raw.mouse_buttons = MOUSE_RIGHT;
    raw.mouse_x = 7;
    update(&mut engine, &mut game, &mut surface, raw);
    assert_eq!(game.cell_state(3, 2), CellState::Dead);
}

#[test]
fn pointer_outside_grid_changes_nothing() {
    let mut engine = Engine::new();
    let mut game = Game::with_size(10, 10);
    game.set_simulation_running_state(false);
    let mut surface = Surface::new();
    for (x, y) in [(-40, 500), (-1, 3), (20, 3), (3, 20), (200, 10)] {
        let raw = RawInput { gamepads: [0; 4], mouse_x: x, mouse_y: y, mouse_buttons: MOUSE_LEFT };
        update(&mut engine, &mut game, &mut surface, raw);
    }
    for y in 0..10 {
        for x in 0..10 {
            assert_eq!(game.cell_state(x, y), CellState::Dead);
        }
    }
    let raw = RawInput { gamepads: [0; 4], mouse_x: 19, mouse_y: 19, mouse_buttons: MOUSE_LEFT };
    update(&mut engine, &mut game, &mut surface, raw);
    assert_eq!(game.cell_state(9, 9), CellState::Alive);
}

#[test]
fn pause_and_clear_are_edge_triggered() {
    let mut engine = Engine::new();
    let mut game = Game::with_size(8, 8);
    let mut surface = Surface::new();
    let mut raw = idle();
    raw.gamepads[0] = BUTTON_1;
    for _ in 0..4 {
        update(&mut engine, &mut game, &mut surface, raw);
    }
    // Held over four ticks, the pause button toggled once.
    assert!(!game.get_simulation_running_state());
    game.set_cell_state(4, 4, CellState::Alive);
    raw.gamepads[0] = BUTTON_1 | BUTTON_2;
    update(&mut engine, &mut game, &mut surface, raw);
    assert_eq!(game.cell_state(4, 4), CellState::Dead);
    assert!(!game.get_simulation_running_state());
}

#[test]
fn start_seeds_grid() {
    let mut game = Game::new();
    start(&mut game);
    assert_eq!(game.width(), 80);
}

#[test]
fn skipped_tick_leaves_game_alone() {
    let mut engine = Engine::new();
    engine.set_frame_skip(2);
    let mut game = Game::with_size(4, 4);
    let mut surface = Surface::new();
    assert!(update(&mut engine, &mut game, &mut surface, idle()));
    let drawn = surface.commands.len();
    let mut raw = idle();
    raw.mouse_buttons = MOUSE_LEFT;
    assert!(!update(&mut engine, &mut game, &mut surface, raw));
    assert_eq!(surface.commands.len(), drawn);
    assert_eq!(game.cell_state(0, 0), CellState::Dead);
}
