use cellular_automata::board::Board;
use cellular_automata::config::SimulationConfig;
use cellular_automata::controller::SimulationController;
use cellular_automata::render::{cell_shape, CellShape};
use cellular_automata::rules::{Rules, RulesError};
use cellular_automata::step::{check_neighbor_sums_bounded, count_neighbors, next_step};

fn table(on: &[usize]) -> Vec<bool> {
    let mut entries = vec![false; 9];
    for &i in on {
        entries[i] = true;
    }
    entries
}

/// Conway-like rules: birth at 3 neighbors, survival at 2 or 3.
fn life_rules() -> Rules {
    Rules::new(table(&[3]), table(&[2, 3]), 1).unwrap()
}

fn cells(board: &Board) -> Vec<(i32, i32)> {
    let mut alive = Vec::new();
    for y in 0..board.cy {
        for x in 0..board.cx {
            if board.get_cell_at_position(x, y) != 0 {
                alive.push((x, y));
            }
        }
    }
    alive
}

#[test]
fn get_wraps_whole_grid_widths() {
    let mut board = Board::new(5, 4);
    board.set_cell_at_position(1, 1, 1);
    assert_eq!(board.get_cell_at_position(1, 1), 1);
    assert_eq!(board.get_cell_at_position(1 + 5, 1), 1);
    assert_eq!(board.get_cell_at_position(1 + 3 * 5, 1), 1);
    assert_eq!(board.get_cell_at_position(1 - 5, 1), 1);
    assert_eq!(board.get_cell_at_position(1 - 2 * 5, 1), 1);
    assert_eq!(board.get_cell_at_position(1, 1 + 4), 1);
    assert_eq!(board.get_cell_at_position(1, 1 - 4), 1);
}

#[test]
fn get_wraps_negative_probes_to_opposite_edge() {
    let mut board = Board::new(4, 3);
    board.set_cell_at_position(3, 2, 7);
    assert_eq!(board.get_cell_at_position(-1, -1), 7);
    assert_eq!(board.get_cell_at_position(3, -1), 7);
    assert_eq!(board.get_cell_at_position(-1, 2), 7);
}

#[test]
fn new_board_is_all_dead() {
    let board = Board::new(6, 5);
    assert_eq!(board.cx, 6);
    assert_eq!(board.cy, 5);
    assert_eq!(board.states.len(), 30);
    assert!(cells(&board).is_empty());
}

#[test]
fn set_then_get_round_trip() {
    let mut board = Board::new(3, 3);
    board.set_cell_at_position(2, 0, 5);
    assert_eq!(board.get_cell_at_position(2, 0), 5);
    assert_eq!(board.get_cell_at_position(0, 2), 0);
}

#[test]
fn lower_cell_lifetime_clamps_at_zero() {
    let mut board = Board::new(3, 3);
    board.set_cell_at_position(0, 0, 1);
    board.lower_cell_lifetime(0, 0, 3);
    assert_eq!(board.get_cell_at_position(0, 0), 0);
    board.set_cell_at_position(1, 1, 5);
    board.lower_cell_lifetime(1, 1, 2);
    assert_eq!(board.get_cell_at_position(1, 1), 3);
}

#[test]
fn clear_kills_every_cell() {
    let mut board = Board::new(4, 4);
    board.set_cell_at_position(1, 2, 3);
    board.set_cell_at_position(3, 3, 1);
    board.clear();
    assert_eq!(board.cx, 4);
    assert_eq!(board.cy, 4);
    assert!(cells(&board).is_empty());
}

#[test]
fn randomize_leaves_only_boolean_states() {
    let mut board = Board::new(10, 10);
    board.set_cell_at_position(5, 5, 9);
    board.randomize();
    assert_eq!(board.cx, 10);
    assert_eq!(board.cy, 10);
    for &state in board.states.iter() {
        assert!(state == 0 || state == 1);
    }
}

#[test]
fn rules_require_nine_entries() {
    assert_eq!(
        Rules::new(vec![false; 8], table(&[2, 3]), 1).unwrap_err(),
        RulesError::BadTableLength
    );
    assert_eq!(
        Rules::new(table(&[3]), vec![false; 10], 1).unwrap_err(),
        RulesError::BadTableLength
    );
    assert_eq!(
        Rules::new(table(&[3]), table(&[2, 3]), -1).unwrap_err(),
        RulesError::NegativeLifetime
    );
    let rules = Rules::new(table(&[3]), table(&[2, 3]), 2).unwrap();
    assert_eq!(rules.adding_lifetime, 2);
    assert!(rules.birth[3]);
    assert!(!rules.survive[0]);
}

#[test]
fn empty_board_stays_dead() {
    let mut board = Board::new(4, 4);
    next_step(&mut board, &life_rules());
    assert!(cells(&board).is_empty());
    assert_eq!(board.cx, 4);
    assert_eq!(board.cy, 4);
}

#[test]
fn blinker_oscillates_back_after_two_steps() {
    let rules = life_rules();
    let mut board = Board::new(5, 5);
    board.set_cell_at_position(1, 1, 1);
    board.set_cell_at_position(2, 1, 1);
    board.set_cell_at_position(3, 1, 1);

    next_step(&mut board, &rules);
    assert_eq!(cells(&board), vec![(2, 0), (2, 1), (2, 2)]);

    next_step(&mut board, &rules);
    assert_eq!(cells(&board), vec![(1, 1), (2, 1), (3, 1)]);
}

#[test]
fn neighbor_count_stays_within_table_on_degenerate_grids() {
    let mut single = Board::new(1, 1);
    single.set_cell_at_position(0, 0, 1);
    let count = count_neighbors(&single, 0, 0);
    assert_eq!(count, 8);

    let mut square = Board::new(2, 2);
    for y in 0..2 {
        for x in 0..2 {
            square.set_cell_at_position(x, y, 1);
        }
    }
    for y in 0..2 {
        for x in 0..2 {
            let count = count_neighbors(&square, x, y);
            assert!((0..=8).contains(&count));
        }
    }
}

#[test]
fn lifetime_value_contributes_directly_to_neighbor_count() {
    let mut board = Board::new(5, 5);
    board.set_cell_at_position(2, 2, 3);
    assert_eq!(count_neighbors(&board, 1, 2), 3);
    assert_eq!(count_neighbors(&board, 3, 3), 3);
    assert_eq!(count_neighbors(&board, 2, 2), 0);
}

#[test]
fn lifetime_cell_decays_by_one_when_not_surviving() {
    let no_survival = Rules::new(table(&[]), table(&[]), 3).unwrap();
    let mut board = Board::new(5, 5);
    board.set_cell_at_position(2, 2, 3);
    next_step(&mut board, &no_survival);
    assert_eq!(board.get_cell_at_position(2, 2), 2);
    assert_eq!(cells(&board), vec![(2, 2)]);
}

#[test]
fn born_cells_start_at_the_configured_lifetime() {
    let rules = Rules::new(table(&[3]), table(&[2, 3]), 4).unwrap();
    let mut board = Board::new(5, 5);
    board.set_cell_at_position(1, 1, 1);
    board.set_cell_at_position(2, 1, 1);
    board.set_cell_at_position(3, 1, 1);
    next_step(&mut board, &rules);
    assert_eq!(board.get_cell_at_position(2, 0), 4);
    assert_eq!(board.get_cell_at_position(2, 2), 4);
    assert_eq!(board.get_cell_at_position(2, 1), 1);
}

#[test]
fn neighbor_sum_check_accepts_boolean_grids_only() {
    let mut board = Board::new(3, 3);
    board.set_cell_at_position(1, 1, 1);
    assert!(check_neighbor_sums_bounded(&board));

    let mut hot = Board::new(1, 1);
    hot.set_cell_at_position(0, 0, 2);
    assert!(!check_neighbor_sums_bounded(&hot));
}

#[test]
fn resize_discards_content_and_takes_exact_dimensions() {
    let mut controller = SimulationController::new(4, 4);
    controller.paint(0, 0, 1);
    controller.paint(3, 3, 5);
    controller.resize(6, 3);
    assert_eq!(controller.board.cx, 6);
    assert_eq!(controller.board.cy, 3);
    assert_eq!(controller.board.states.len(), 18);
    assert!(cells(&controller.board).is_empty());
}

#[test]
fn resize_to_the_largest_configured_size() {
    let mut controller = SimulationController::new(4, 4);
    controller.resize(500, 500);
    assert_eq!(controller.board.cx, 500);
    assert_eq!(controller.board.cy, 500);
    assert_eq!(controller.board.states.len(), 250_000);
    assert_eq!(controller.board.get_cell_at_position(499, 499), 0);
    assert_eq!(controller.board.get_cell_at_position(-1, 500), 0);
}

#[test]
fn idle_tick_starts_nothing() {
    let mut controller = SimulationController::new(3, 3);
    assert!(!controller.tick(false));
    assert_eq!(controller.steps_in_flight, 0);
    assert!(!controller.step_requested);
}

#[test]
fn tick_keeps_at_most_one_step_in_flight() {
    let mut controller = SimulationController::new(3, 3);
    assert!(!controller.tick(false));

    controller.request_step();
    assert!(controller.tick(false));
    assert_eq!(controller.steps_in_flight, 1);

    assert!(!controller.tick(true));
    assert!(!controller.tick(true));
    assert_eq!(controller.steps_in_flight, 1);

    controller.run_step(&life_rules());
    assert_eq!(controller.steps_in_flight, 0);
    assert!(controller.tick(true));
    assert_eq!(controller.steps_in_flight, 1);
}

#[test]
fn request_survives_a_busy_tick() {
    let mut controller = SimulationController::new(3, 3);
    assert!(controller.tick(true));
    controller.request_step();
    assert!(!controller.tick(false));
    assert!(controller.step_requested);
    controller.run_step(&life_rules());
    assert!(controller.tick(false));
}

#[test]
fn conflicting_tools_suppress_all_mutation() {
    let mut controller = SimulationController::new(4, 4);
    controller.paint(2, 2, 1);
    let mut config = SimulationConfig::new(7, 7);
    config.drawing = true;
    config.erasing = true;
    config.auto_run = true;
    config.check_conflict();
    assert!(config.error);

    let started = controller.frame(&config, true, 1, 1);
    assert!(!started);
    assert_eq!(controller.board.cx, 4);
    assert_eq!(controller.board.cy, 4);
    assert_eq!(cells(&controller.board), vec![(2, 2)]);
    assert_eq!(controller.steps_in_flight, 0);
}

#[test]
fn frame_resizes_paints_and_schedules() {
    let mut controller = SimulationController::new(4, 4);
    controller.paint(0, 0, 1);
    let mut config = SimulationConfig::new(5, 5);
    config.drawing = true;
    config.auto_run = true;

    let started = controller.frame(&config, true, 2, 3);
    assert!(started);
    assert_eq!(controller.board.cx, 5);
    assert_eq!(controller.board.cy, 5);
    assert_eq!(cells(&controller.board), vec![(2, 3)]);
    assert_eq!(controller.steps_in_flight, 1);

    let started_again = controller.frame(&config, false, 0, 0);
    assert!(!started_again);
}

#[test]
fn frame_erases_under_the_pointer() {
    let mut controller = SimulationController::new(4, 4);
    controller.paint(1, 2, 1);
    controller.paint(2, 2, 1);
    let mut config = SimulationConfig::new(4, 4);
    config.erasing = true;
    controller.frame(&config, true, 1, 2);
    assert_eq!(cells(&controller.board), vec![(2, 2)]);
}

#[test]
fn frame_ignores_painting_over_the_settings_window() {
    let mut controller = SimulationController::new(4, 4);
    let mut config = SimulationConfig::new(4, 4);
    config.drawing = true;
    config.hovered = true;
    controller.frame(&config, true, 1, 1);
    assert!(cells(&controller.board).is_empty());
}

#[test]
fn config_starts_idle_with_borders_on() {
    let config = SimulationConfig::new(26, 20);
    assert_eq!(config.board_width, 26);
    assert_eq!(config.board_height, 20);
    assert!(!config.auto_run);
    assert!(!config.should_simulate_next_frame);
    assert!(!config.drawing);
    assert!(!config.erasing);
    assert!(config.draw_borders);
    assert!(!config.hovered);
    assert!(!config.error);
    assert_eq!(config.wait_millis, 0);
}

#[test]
fn cell_shapes_follow_state_and_border_flag() {
    assert_eq!(cell_shape(1, true), CellShape::Filled);
    assert_eq!(cell_shape(3, false), CellShape::Filled);
    assert_eq!(cell_shape(0, true), CellShape::Outlined);
    assert_eq!(cell_shape(0, false), CellShape::Hidden);
}
