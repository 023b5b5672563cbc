use wasm4_gol::{CellState, Game, GameCell, GRID_HEIGHT, GRID_WIDTH};

fn alive_cells(game: &Game) -> Vec<(u32, u32)> {
    let mut out = Vec::new();
    for y in 0..game.height() {
        for x in 0..game.width() {
            if game.cell_state(x, y) == CellState::Alive {
                out.push((x, y));
            }
        }
    }
    out
}

#[test]
fn new_grid_is_dead_and_running() {
    let game = Game::new();
    assert_eq!(game.width(), GRID_WIDTH);
    assert_eq!(game.height(), GRID_HEIGHT);
    assert_eq!(game.width(), 80);
    assert!(game.get_simulation_running_state());
    assert!(alive_cells(&game).is_empty());
}

#[test]
fn new_cell_is_dead() {
    let c = GameCell::new();
    assert_eq!(c.state, CellState::Dead);
    assert_eq!(c.age, 0);
    assert_eq!(CellState::default(), CellState::Dead);
}

#[test]
fn set_from_roll_compares_with_chance() {
    let mut c = GameCell::new();
    c.age = 9;
    c.set_from_roll(2, 3);
    assert_eq!(c.state, CellState::Alive);
    assert_eq!(c.age, 0);
    c.set_from_roll(3, 3);
    assert_eq!(c.state, CellState::Dead);
}

#[test]
fn dead_grid_stays_dead() {
    let mut game = Game::with_size(6, 5);
    for _ in 0..3 {
        game.step_grid();
    }
    assert!(alive_cells(&game).is_empty());
}

#[test]
fn isolated_cell_dies() {
    let mut game = Game::with_size(5, 5);
    game.set_cell_state(2, 2, CellState::Alive);
    assert_eq!(game.alive_neighbors_count(&vec![GameCell::new(); 25], 2, 2), 0);
    game.step_grid();
    assert!(alive_cells(&game).is_empty());
}

#[test]
fn three_neighbors_give_birth() {
    let mut game = Game::with_size(6, 6);
    game.set_cell_state(1, 1, CellState::Alive);
    game.set_cell_state(2, 1, CellState::Alive);
    game.set_cell_state(3, 1, CellState::Alive);
    game.step_grid();
    // The blinker turns vertical: (2, 2) and (2, 0) are born, the ends die.
    assert_eq!(alive_cells(&game), vec![(2, 0), (2, 1), (2, 2)]);
}

#[test]
fn eight_neighbors_keep_cell_dead() {
    let mut game = Game::with_size(5, 5);
    for y in 1..4 {
        for x in 1..4 {
            if (x, y) != (2, 2) {
                game.set_cell_state(x, y, CellState::Alive);
            }
        }
    }
    game.step_grid();
    assert_eq!(game.cell_state(2, 2), CellState::Dead);
}

#[test]
fn four_neighbors_keep_cell_dead() {
    let mut game = Game::with_size(5, 5);
    game.set_cell_state(1, 1, CellState::Alive);
    game.set_cell_state(3, 1, CellState::Alive);
    game.set_cell_state(1, 3, CellState::Alive);
    game.set_cell_state(3, 3, CellState::Alive);
    game.step_grid();
    assert_eq!(game.cell_state(2, 2), CellState::Dead);
}

#[test]
fn corner_wraps_to_opposite_corner() {
    let mut game = Game::with_size(5, 4);
    game.set_cell_state(4, 3, CellState::Alive);
    let mut buffer = vec![GameCell::new(); 20];
    buffer[4 + 3 * 5].state = CellState::Alive;
    assert_eq!(game.alive_neighbors_count(&buffer, 0, 0), 1);
    assert_eq!(game.wrap_position((0, 0), (-1, -1)), (4, 3));
    assert_eq!(game.wrap_position((4, 3), (1, 1)), (0, 0));
    // Three live cells around (0, 0) across both seams give it life.
    game.set_cell_state(0, 3, CellState::Alive);
    game.set_cell_state(4, 0, CellState::Alive);
    game.step_grid();
    assert_eq!(game.cell_state(0, 0), CellState::Alive);
}

#[test]
fn index_and_coordinates_round_trip() {
    let game = Game::with_size(7, 3);
    assert_eq!(game.xy_to_index(3, 2), 17);
    assert_eq!(game.index_to_xy(17), (3, 2));
    for i in 0..21usize {
        let (x, y) = game.index_to_xy(i);
        assert_eq!(game.xy_to_index(x, y), i);
    }
}

#[test]
fn manual_cell_is_counted_by_next_step() {
    let mut game = Game::with_size(6, 6);
    game.set_cell_state(1, 1, CellState::Alive);
    game.set_cell_state(1, 2, CellState::Alive);
    assert_eq!(game.cell_state(1, 1), CellState::Alive);
    // The third cell, set just before the step, completes a birth at (2, 2).
    game.set_cell_state(3, 3, CellState::Alive);
    game.step_grid();
    assert_eq!(game.cell_state(2, 2), CellState::Alive);
}

#[test]
fn paused_grid_does_not_step_but_can_be_edited() {
    let mut game = Game::with_size(6, 6);
    game.set_cell_state(2, 2, CellState::Alive);
    game.set_simulation_running_state(false);
    for _ in 0..4 {
        game.step_grid();
    }
    assert_eq!(alive_cells(&game), vec![(2, 2)]);
    game.set_cell_state(3, 3, CellState::Alive);
    game.set_cell_state(2, 2, CellState::Dead);
    assert_eq!(alive_cells(&game), vec![(3, 3)]);
    game.clear_grid();
    assert!(alive_cells(&game).is_empty());
    assert!(!game.get_simulation_running_state());
}

#[test]
fn randomize_with_no_chance_kills_all() {
    let mut game = Game::with_size(10, 10);
    game.set_cell_state(4, 4, CellState::Alive);
    game.randomize_grid(0, 100);
    assert!(alive_cells(&game).is_empty());
}

#[test]
fn randomize_with_full_chance_fills_all() {
    let mut game = Game::with_size(10, 10);
    game.randomize_grid(1, 1);
    assert_eq!(alive_cells(&game).len(), 100);
    game.randomize_grid(7, 7);
    assert_eq!(alive_cells(&game).len(), 100);
    // Both buffers agree: a step of a full grid kills every cell.
    game.step_grid();
    assert!(alive_cells(&game).is_empty());
}

#[test]
fn randomize_cell_extremes() {
    let mut c = GameCell::new();
    c.randomize(5, 5);
    assert_eq!(c.state, CellState::Alive);
    c.randomize(0, 5);
    assert_eq!(c.state, CellState::Dead);
}

#[test]
fn l_tromino_golden_generation() {
    let mut game = Game::with_size(4, 4);
    game.set_cell_state(1, 1, CellState::Alive);
    game.set_cell_state(2, 1, CellState::Alive);
    game.set_cell_state(1, 2, CellState::Alive);
    game.step_grid();
    assert_eq!(alive_cells(&game), vec![(1, 1), (2, 1), (1, 2), (2, 2)]);
    // The block is still life.
    game.step_grid();
    assert_eq!(alive_cells(&game), vec![(1, 1), (2, 1), (1, 2), (2, 2)]);
}

#[test]
fn clear_kills_every_cell() {
    let mut game = Game::with_size(3, 3);
    game.randomize_grid(1, 1);
    game.clear_grid();
    assert!(alive_cells(&game).is_empty());
}

#[test]
fn longer_buffer_counts_grid_cells_only() {
    let game = Game::with_size(3, 3);
    let mut buffer = vec![GameCell::new(); 12];
    buffer[0].state = CellState::Alive;
    buffer[10].state = CellState::Alive;
    assert_eq!(game.alive_neighbors_count(&buffer, 1, 1), 1);
}
