use termsweeper::game_logic::Board;
use termsweeper::shuffle::shuffled_places;
use termsweeper::types::{CellBox, CellKind, CellState, GameConfig, GameState};

/// An order of the places `0 .. n` that starts with `first` and goes on
/// with the remaining places in rising order.
fn order_starting_with(first: &[usize], n: usize) -> Vec<usize> {
    let mut order: Vec<usize> = first.to_vec();
    for place in 0..n {
        if !first.contains(&place) {
            order.push(place);
        }
    }
    order
}

fn board_with_mines(width: usize, height: usize, mines: &[usize]) -> Board {
    let mut board = Board::new_with_config(GameConfig { width, height, mines: mines.len() });
    let order = order_starting_with(mines, width * height);
    board.place_mines(&order, -1, -1);
    board
}

fn kind_at(board: &Board, x: isize, y: isize) -> CellKind {
    board.get_cell(x, y).unwrap().kind
}

fn state_at(board: &Board, x: isize, y: isize) -> CellState {
    board.get_cell(x, y).unwrap().state
}

fn kinds(board: &Board) -> Vec<CellKind> {
    let mut all: Vec<CellKind> = Vec::new();
    for y in 0..board.height as isize {
        for x in 0..board.width as isize {
            all.push(kind_at(board, x, y));
        }
    }
    all
}

fn count_states(board: &Board, state: CellState) -> usize {
    let mut n: usize = 0;
    for y in 0..board.height as isize {
        for x in 0..board.width as isize {
            if state_at(board, x, y) == state {
                n += 1;
            }
        }
    }
    n
}

fn mines_around(board: &Board, x: isize, y: isize) -> u8 {
    let mut n: u8 = 0;
    for dy in -1..=1 {
        for dx in -1..=1 {
            if dx == 0 && dy == 0 {
                continue;
            }
            if let Some(cell) = board.get_cell(x + dx, y + dy) {
                if cell.kind == CellKind::Mine {
                    n += 1;
                }
            }
        }
    }
    n
}

fn assert_numbers_right(board: &Board) {
    for y in 0..board.height as isize {
        for x in 0..board.width as isize {
            if let CellKind::Number(n) = kind_at(board, x, y) {
                assert_eq!(n, mines_around(board, x, y), "at ({}, {})", x, y);
            }
        }
    }
}

#[test]
fn new_board_has_default_size_and_hidden_cells() {
    let board = Board::new();
    assert_eq!(board.width, 20);
    assert_eq!(board.height, 20);
    assert_eq!(board.size(), (20, 20));
    assert_eq!(board.get_remaining_mines(), 25);
    assert_eq!(count_states(&board, CellState::Hidden), 400);
    assert!(kinds(&board).iter().all(|k| *k == CellKind::Number(0)));
    assert_eq!(board.timer.get_elapsed_seconds(), 0);
}

#[test]
fn new_with_config_keeps_the_configuration() {
    let board = Board::new_with_config(GameConfig { width: 7, height: 5, mines: 6 });
    assert_eq!(board.width, 7);
    assert_eq!(board.height, 5);
    assert_eq!(board.get_remaining_mines(), 6);
    assert_eq!(count_states(&board, CellState::Hidden), 35);
    assert_eq!(
        board.get_cell(6, 4),
        Some(&CellBox { kind: CellKind::Number(0), state: CellState::Hidden })
    );
}

#[test]
fn get_cell_is_none_off_the_board() {
    let board = Board::new_with_config(GameConfig { width: 7, height: 5, mines: 6 });
    assert!(board.get_cell(0, 0).is_some());
    assert!(board.get_cell(6, 4).is_some());
    assert!(board.get_cell(7, 0).is_none());
    assert!(board.get_cell(0, 5).is_none());
    assert!(board.get_cell(-1, 0).is_none());
    assert!(board.get_cell(0, -1).is_none());
    assert!(board.get_cell(isize::MAX, isize::MAX).is_none());
    assert!(board.get_cell(isize::MIN, isize::MIN).is_none());
}

#[test]
fn get_cell_mut_changes_that_cell_only() {
    let mut board = Board::new_with_config(GameConfig { width: 5, height: 5, mines: 1 });
    {
        let cell = board.get_cell_mut(2, 3).unwrap();
        cell.state = CellState::Flagged;
    }
    assert_eq!(state_at(&board, 2, 3), CellState::Flagged);
    assert_eq!(count_states(&board, CellState::Hidden), 24);
    assert!(board.get_cell_mut(5, 0).is_none());
    assert!(board.get_cell_mut(0, -1).is_none());
}

#[test]
fn place_mines_takes_the_first_places_of_the_order() {
    let mut board = Board::new_with_config(GameConfig { width: 5, height: 5, mines: 3 });
    let order = order_starting_with(&[], 25);
    board.place_mines(&order, 4, 4);
    let m = CellKind::Mine;
    let n = CellKind::Number;
    assert_eq!(
        kinds(&board),
        vec![
            m, m, m, n(1), n(0),
            n(2), n(3), n(2), n(1), n(0),
            n(0), n(0), n(0), n(0), n(0),
            n(0), n(0), n(0), n(0), n(0),
            n(0), n(0), n(0), n(0), n(0),
        ]
    );
    assert_eq!(count_states(&board, CellState::Hidden), 25);
}

#[test]
fn place_mines_moves_the_mine_off_the_cell_to_avoid() {
    let mut board = Board::new_with_config(GameConfig { width: 5, height: 5, mines: 3 });
    let order = order_starting_with(&[], 25);
    board.place_mines(&order, 1, 0);
    let m = CellKind::Mine;
    let n = CellKind::Number;
    assert_eq!(
        kinds(&board),
        vec![
            m, n(2), m, m, n(1),
            n(1), n(2), n(2), n(2), n(1),
            n(0), n(0), n(0), n(0), n(0),
            n(0), n(0), n(0), n(0), n(0),
            n(0), n(0), n(0), n(0), n(0),
        ]
    );
}

#[test]
fn place_mines_follows_the_order_given() {
    let mut board = Board::new_with_config(GameConfig { width: 5, height: 5, mines: 2 });
    let order = order_starting_with(&[24, 12], 25);
    board.place_mines(&order, 0, 0);
    let m = CellKind::Mine;
    let n = CellKind::Number;
    assert_eq!(
        kinds(&board),
        vec![
            n(0), n(0), n(0), n(0), n(0),
            n(0), n(1), n(1), n(1), n(0),
            n(0), n(1), m, n(1), n(0),
            n(0), n(1), n(1), n(2), n(1),
            n(0), n(0), n(0), n(1), m,
        ]
    );
}

#[test]
fn place_mines_counts_up_to_eight() {
    let board = board_with_mines(3, 3, &[0, 1, 2, 3, 5, 6, 7, 8]);
    assert_eq!(kind_at(&board, 1, 1), CellKind::Number(8));
    assert_eq!(board.get_remaining_mines(), 8);
    assert_numbers_right(&board);
}

#[test]
fn place_mines_starts_the_timer() {
    let mut board = Board::new_with_config(GameConfig { width: 5, height: 5, mines: 3 });
    board.place_mines(&order_starting_with(&[], 25), 0, 0);
    assert_eq!(board.timer.elapsed_after(std::time::Duration::from_secs(7)).as_secs(), 7);
}

#[test]
fn numbers_are_right_after_random_placement() {
    for _ in 0..50 {
        let mut board = Board::new_with_config(GameConfig { width: 9, height: 9, mines: 10 });
        board.initialize_board(4, 4);
        assert_numbers_right(&board);
        let mines = kinds(&board).iter().filter(|k| **k == CellKind::Mine).count();
        assert_eq!(mines, 10);
        assert_eq!(count_states(&board, CellState::Hidden), 81);
    }
}

#[test]
fn random_placement_avoids_the_first_click() {
    for _ in 0..200 {
        let mut board = Board::new_with_config(GameConfig { width: 9, height: 9, mines: 10 });
        board.initialize_board(4, 4);
        assert_ne!(kind_at(&board, 4, 4), CellKind::Mine);
    }
}

#[test]
fn random_placement_avoids_the_click_on_a_crowded_board() {
    for _ in 0..100 {
        let mut board = Board::new_with_config(GameConfig { width: 5, height: 5, mines: 24 });
        board.initialize_board(2, 3);
        assert_eq!(kind_at(&board, 2, 3), CellKind::Number(8));
        let mines = kinds(&board).iter().filter(|k| **k == CellKind::Mine).count();
        assert_eq!(mines, 24);
    }
}

#[test]
fn first_reveal_on_beginner_board_never_hits_a_mine() {
    for _ in 0..200 {
        let mut board = Board::new_with_config(GameConfig { width: 9, height: 9, mines: 10 });
        let signal = board.reveal_cell(4, 4);
        assert_ne!(signal, Some(GameState::Lost));
        assert_ne!(kind_at(&board, 4, 4), CellKind::Mine);
        assert_eq!(state_at(&board, 4, 4), CellState::Revealed);
        assert_numbers_right(&board);
    }
}

#[test]
fn shuffled_places_lists_every_place_once() {
    let order = shuffled_places(100);
    let mut sorted = order.clone();
    sorted.sort();
    let expected: Vec<usize> = (0..100).collect();
    assert_eq!(sorted, expected);
    assert!(shuffled_places(0).is_empty());
    assert_eq!(shuffled_places(1), vec![0]);
}

#[test]
fn shuffled_places_changes_the_order() {
    let natural: Vec<usize> = (0..100).collect();
    assert_ne!(shuffled_places(100), natural);
}

#[test]
fn flood_on_empty_board_reveals_everything() {
    let mut board = Board::new_with_config(GameConfig { width: 3, height: 3, mines: 0 });
    let signal = board.reveal_cell(1, 1);
    assert_eq!(signal, Some(GameState::Won));
    assert_eq!(count_states(&board, CellState::Revealed), 9);
    assert!(kinds(&board).iter().all(|k| *k == CellKind::Number(0)));
}

#[test]
fn flood_fills_a_large_empty_region() {
    let mut board = board_with_mines(50, 50, &[0]);
    let signal = board.reveal_adjacent_empty(49, 49);
    assert_eq!(signal, Some(GameState::Won));
    assert_eq!(count_states(&board, CellState::Revealed), 2499);
    assert_eq!(state_at(&board, 0, 0), CellState::Hidden);
}

#[test]
fn flood_stops_at_numbers() {
    // A wall of mines across the middle row parts the board in two.
    let mut board = board_with_mines(5, 5, &[10, 11, 12, 13, 14]);
    let signal = board.reveal_adjacent_empty(0, 0);
    assert_eq!(signal, None);
    for x in 0..5 {
        assert_eq!(state_at(&board, x, 0), CellState::Revealed);
        assert_eq!(state_at(&board, x, 1), CellState::Revealed);
        assert_eq!(state_at(&board, x, 2), CellState::Hidden);
        assert_eq!(state_at(&board, x, 3), CellState::Hidden);
        assert_eq!(state_at(&board, x, 4), CellState::Hidden);
    }
    assert_eq!(kind_at(&board, 0, 1), CellKind::Number(2));
    assert_eq!(kind_at(&board, 2, 1), CellKind::Number(3));
}

#[test]
fn flood_from_a_number_reveals_that_cell_only() {
    let mut board = board_with_mines(5, 5, &[10, 11, 12, 13, 14]);
    let signal = board.reveal_adjacent_empty(2, 1);
    assert_eq!(signal, None);
    assert_eq!(state_at(&board, 2, 1), CellState::Revealed);
    assert_eq!(count_states(&board, CellState::Revealed), 1);
}

#[test]
fn flood_does_not_pass_flags() {
    let mut board = board_with_mines(5, 1, &[4]);
    board.toggle_flag(2, 0);
    let signal = board.reveal_adjacent_empty(0, 0);
    assert_eq!(signal, None);
    assert_eq!(state_at(&board, 0, 0), CellState::Revealed);
    assert_eq!(state_at(&board, 1, 0), CellState::Revealed);
    assert_eq!(state_at(&board, 2, 0), CellState::Flagged);
    assert_eq!(state_at(&board, 3, 0), CellState::Hidden);
    assert_eq!(state_at(&board, 4, 0), CellState::Hidden);
}

#[test]
fn flood_spreads_across_corners() {
    // Mines at (1, 0) and (0, 1) leave (0, 0) reachable from nowhere, and
    // the zero at (2, 2) reaches (1, 1) across the corner.
    let mut board = board_with_mines(4, 4, &[1, 4]);
    let signal = board.reveal_adjacent_empty(3, 3);
    assert_eq!(signal, None);
    assert_eq!(state_at(&board, 1, 1), CellState::Revealed);
    assert_eq!(kind_at(&board, 1, 1), CellKind::Number(2));
    assert_eq!(state_at(&board, 0, 0), CellState::Hidden);
    assert_eq!(count_states(&board, CellState::Revealed), 13);
    assert_eq!(board.reveal_adjacent_empty(0, 0), Some(GameState::Won));
}

#[test]
fn flood_off_the_board_changes_nothing() {
    let mut board = board_with_mines(5, 5, &[10, 11, 12, 13, 14]);
    assert_eq!(board.reveal_adjacent_empty(-1, 0), None);
    assert_eq!(board.reveal_adjacent_empty(5, 5), None);
    assert_eq!(board.reveal_adjacent_empty(isize::MAX, isize::MIN), None);
    assert_eq!(count_states(&board, CellState::Hidden), 25);
}

#[test]
fn revealing_every_safe_cell_wins_on_the_last_reveal() {
    let mut board = board_with_mines(5, 5, &[10, 11, 12, 13, 14]);
    assert_eq!(board.check_win_condition(), None);
    assert_eq!(board.reveal_cell(0, 0), None);
    assert_eq!(board.check_win_condition(), None);
    assert_eq!(board.reveal_cell(0, 3), None);
    assert_eq!(board.reveal_cell(1, 3), None);
    assert_eq!(board.reveal_cell(2, 3), None);
    assert_eq!(board.reveal_cell(3, 3), None);
    assert_eq!(board.reveal_cell(4, 3), None);
    assert_eq!(board.reveal_cell(0, 4), Some(GameState::Won));
    assert_eq!(board.check_win_condition(), Some(GameState::Won));
    assert_eq!(count_states(&board, CellState::Hidden), 5);
}

#[test]
fn a_flag_on_a_safe_cell_keeps_the_game_from_being_won() {
    let mut board = board_with_mines(2, 1, &[0]);
    board.toggle_flag(1, 0);
    assert_eq!(board.check_win_condition(), None);
    board.toggle_flag(1, 0);
    assert_eq!(board.reveal_cell(1, 0), Some(GameState::Won));
}

#[test]
fn revealing_a_mine_loses_and_changes_no_other_cell() {
    let mut board = board_with_mines(5, 5, &[10, 11, 12, 13, 14]);
    board.toggle_flag(4, 4);
    let signal = board.reveal_cell(2, 2);
    assert_eq!(signal, Some(GameState::Lost));
    assert_eq!(state_at(&board, 2, 2), CellState::Revealed);
    assert_eq!(count_states(&board, CellState::Revealed), 1);
    assert_eq!(count_states(&board, CellState::Flagged), 1);
    assert_eq!(count_states(&board, CellState::Hidden), 23);
}

#[test]
fn revealing_twice_changes_nothing_the_second_time() {
    let mut board = board_with_mines(5, 5, &[10, 11, 12, 13, 14]);
    assert_eq!(board.reveal_cell(0, 0), None);
    let after_first: Vec<CellState> =
        (0..25).map(|i| state_at(&board, i % 5, i / 5)).collect();
    assert_eq!(board.reveal_cell(0, 0), None);
    let after_second: Vec<CellState> =
        (0..25).map(|i| state_at(&board, i % 5, i / 5)).collect();
    assert_eq!(after_first, after_second);
}

#[test]
fn revealing_a_revealed_mine_again_tells_nothing() {
    let mut board = board_with_mines(5, 5, &[10, 11, 12, 13, 14]);
    assert_eq!(board.reveal_cell(2, 2), Some(GameState::Lost));
    assert_eq!(board.reveal_cell(2, 2), None);
    assert_eq!(count_states(&board, CellState::Revealed), 1);
}

#[test]
fn revealing_a_revealed_zero_on_a_won_board_tells_nothing() {
    let mut board = Board::new_with_config(GameConfig { width: 3, height: 3, mines: 0 });
    assert_eq!(board.reveal_cell(1, 1), Some(GameState::Won));
    assert_eq!(board.reveal_cell(1, 1), None);
    assert_eq!(board.reveal_cell(0, 2), None);
}

#[test]
fn reveal_of_a_flagged_cell_does_nothing() {
    let mut board = board_with_mines(5, 5, &[10, 11, 12, 13, 14]);
    board.toggle_flag(0, 0);
    assert_eq!(board.reveal_cell(0, 0), None);
    assert_eq!(state_at(&board, 0, 0), CellState::Flagged);
    assert_eq!(count_states(&board, CellState::Revealed), 0);
}

#[test]
fn reveal_off_the_board_does_nothing_and_lays_no_mines() {
    let mut board = Board::new_with_config(GameConfig { width: 5, height: 5, mines: 24 });
    assert_eq!(board.reveal_cell(5, 0), None);
    assert_eq!(board.reveal_cell(-1, 2), None);
    assert!(kinds(&board).iter().all(|k| *k == CellKind::Number(0)));
    assert_eq!(board.timer.elapsed_after(std::time::Duration::from_secs(7)).as_secs(), 0);
}

#[test]
fn chord_reveals_the_cells_around_that_bear_no_flag() {
    let mut board = board_with_mines(3, 3, &[0]);
    assert_eq!(board.reveal_cell(1, 1), None);
    assert_eq!(kind_at(&board, 1, 1), CellKind::Number(1));
    board.toggle_flag(0, 0);
    let signal = board.reveal_cell(1, 1);
    assert_eq!(signal, Some(GameState::Won));
    assert_eq!(state_at(&board, 0, 0), CellState::Flagged);
    assert_eq!(count_states(&board, CellState::Revealed), 8);
}

#[test]
fn chord_on_an_unflagged_mine_loses() {
    let mut board = board_with_mines(3, 3, &[0]);
    assert_eq!(board.reveal_cell(1, 1), None);
    let signal = board.reveal_cell(1, 1);
    assert_eq!(signal, Some(GameState::Lost));
    assert_eq!(state_at(&board, 0, 0), CellState::Revealed);
    assert_eq!(count_states(&board, CellState::Revealed), 9);
}

#[test]
fn chord_leaves_a_wrongly_flagged_cell_alone() {
    let mut board = board_with_mines(3, 3, &[0]);
    assert_eq!(board.reveal_cell(1, 1), None);
    board.toggle_flag(2, 2);
    let signal = board.reveal_non_flagged(1, 1);
    assert_eq!(signal, Some(GameState::Lost));
    assert_eq!(state_at(&board, 2, 2), CellState::Flagged);
    assert_eq!(state_at(&board, 0, 0), CellState::Revealed);
    assert_eq!(count_states(&board, CellState::Revealed), 8);
}

#[test]
fn chord_does_not_spread_from_zeros() {
    let mut board = board_with_mines(5, 1, &[0]);
    assert_eq!(board.reveal_adjacent_empty(1, 0), None);
    board.toggle_flag(0, 0);
    let signal = board.reveal_non_flagged(1, 0);
    assert_eq!(signal, None);
    assert_eq!(state_at(&board, 2, 0), CellState::Revealed);
    assert_eq!(state_at(&board, 3, 0), CellState::Hidden);
    assert_eq!(state_at(&board, 4, 0), CellState::Hidden);
}

#[test]
fn chord_at_the_corner_stays_on_the_board() {
    let mut board = board_with_mines(3, 3, &[8]);
    let signal = board.reveal_non_flagged(0, 0);
    assert_eq!(signal, None);
    assert_eq!(state_at(&board, 0, 0), CellState::Hidden);
    assert_eq!(state_at(&board, 1, 0), CellState::Revealed);
    assert_eq!(state_at(&board, 0, 1), CellState::Revealed);
    assert_eq!(state_at(&board, 1, 1), CellState::Revealed);
    assert_eq!(count_states(&board, CellState::Revealed), 3);
    assert_eq!(board.reveal_non_flagged(-1, -1), None);
    assert_eq!(state_at(&board, 0, 0), CellState::Revealed);
    assert_eq!(count_states(&board, CellState::Revealed), 4);
}

#[test]
fn toggle_flag_round_trip() {
    let mut board = Board::new_with_config(GameConfig { width: 5, height: 5, mines: 3 });
    assert_eq!(state_at(&board, 2, 2), CellState::Hidden);
    board.toggle_flag(2, 2);
    assert_eq!(state_at(&board, 2, 2), CellState::Flagged);
    board.toggle_flag(2, 2);
    assert_eq!(state_at(&board, 2, 2), CellState::Hidden);
    assert_eq!(count_states(&board, CellState::Hidden), 25);
}

#[test]
fn toggle_flag_leaves_revealed_cells_and_positions_off_the_board() {
    let mut board = board_with_mines(5, 5, &[10, 11, 12, 13, 14]);
    assert_eq!(board.reveal_cell(2, 1), None);
    board.toggle_flag(2, 1);
    assert_eq!(state_at(&board, 2, 1), CellState::Revealed);
    board.toggle_flag(5, 5);
    board.toggle_flag(-1, 0);
    assert_eq!(count_states(&board, CellState::Flagged), 0);
}

#[test]
fn remaining_mines_follow_the_flags() {
    let mut board = board_with_mines(5, 5, &[10, 11]);
    assert_eq!(board.get_remaining_mines(), 2);
    assert_eq!(board.get_flags_count(), 0);
    board.toggle_flag(0, 0);
    assert_eq!(board.get_remaining_mines(), 1);
    board.toggle_flag(1, 0);
    assert_eq!(board.get_remaining_mines(), 0);
    board.toggle_flag(2, 0);
    assert_eq!(board.get_remaining_mines(), -1);
    assert_eq!(board.get_flags_count(), 3);
    board.toggle_flag(2, 0);
    assert_eq!(board.get_remaining_mines(), 0);
}

#[test]
fn remaining_mines_ignore_revealed_cells() {
    let mut board = board_with_mines(5, 5, &[10, 11, 12, 13, 14]);
    board.toggle_flag(4, 4);
    assert_eq!(board.get_remaining_mines(), 4);
    assert_eq!(board.reveal_cell(0, 0), None);
    assert_eq!(count_states(&board, CellState::Revealed), 10);
    assert_eq!(board.get_remaining_mines(), 4);
    assert_eq!(board.reveal_cell(2, 3), None);
    assert_eq!(count_states(&board, CellState::Revealed), 11);
    assert_eq!(board.get_remaining_mines(), 4);
}

#[test]
fn reset_restores_a_fresh_board() {
    let mut board = board_with_mines(5, 5, &[10, 11, 12, 13, 14]);
    board.toggle_flag(4, 4);
    assert_eq!(board.reveal_cell(2, 2), Some(GameState::Lost));
    board.reset();
    assert_eq!(board.width, 5);
    assert_eq!(board.height, 5);
    assert_eq!(board.get_remaining_mines(), 5);
    assert_eq!(count_states(&board, CellState::Hidden), 25);
    assert!(kinds(&board).iter().all(|k| *k == CellKind::Number(0)));
    assert_eq!(board.timer.elapsed_after(std::time::Duration::from_secs(7)).as_secs(), 0);
    // The next click lays the mines anew, off the cell clicked.
    assert_ne!(board.reveal_cell(2, 2), Some(GameState::Lost));
    let mines = kinds(&board).iter().filter(|k| **k == CellKind::Mine).count();
    assert_eq!(mines, 5);
}

#[test]
fn reveal_all_mines_shows_mines_only() {
    let mut board = board_with_mines(5, 5, &[10, 11, 12, 13, 14]);
    board.toggle_flag(0, 2);
    board.toggle_flag(0, 0);
    board.reveal_all_mines();
    for x in 0..5 {
        assert_eq!(state_at(&board, x, 2), CellState::Revealed);
    }
    assert_eq!(count_states(&board, CellState::Revealed), 5);
    assert_eq!(state_at(&board, 0, 0), CellState::Flagged);
    assert_eq!(board.check_win_condition(), None);
}

#[test]
fn clamp_config_holds_values_within_the_limits() {
    assert_eq!(Board::clamp_config(9, 9, 10), GameConfig { width: 9, height: 9, mines: 10 });
    assert_eq!(Board::clamp_config(0, 0, 0), GameConfig { width: 5, height: 5, mines: 1 });
    assert_eq!(Board::clamp_config(4, 51, 3), GameConfig { width: 5, height: 50, mines: 3 });
    assert_eq!(
        Board::clamp_config(1000, 1000, 100000),
        GameConfig { width: 50, height: 50, mines: 2499 }
    );
    assert_eq!(Board::clamp_config(5, 5, 25), GameConfig { width: 5, height: 5, mines: 24 });
    assert_eq!(Board::clamp_config(5, 5, 24), GameConfig { width: 5, height: 5, mines: 24 });
    assert_eq!(
        Board::clamp_config(usize::MAX, usize::MAX, usize::MAX),
        GameConfig { width: 50, height: 50, mines: 2499 }
    );
    assert_eq!(Board::clamp_config(3, 3, 20), GameConfig { width: 5, height: 5, mines: 20 });
}

#[test]
fn playable_configurations() {
    assert!(GameConfig { width: 9, height: 9, mines: 10 }.is_playable());
    assert!(GameConfig { width: 3, height: 3, mines: 0 }.is_playable());
    assert!(GameConfig { width: 1, height: 1, mines: 0 }.is_playable());
    assert!(!GameConfig { width: 3, height: 3, mines: 9 }.is_playable());
    assert!(!GameConfig { width: 0, height: 3, mines: 0 }.is_playable());
    assert!(!GameConfig { width: usize::MAX, height: 2, mines: 0 }.is_playable());
    assert!(!GameConfig { width: usize::MAX, height: 1, mines: 0 }.is_playable());
}

#[test]
fn board_start_is_centred() {
    let board = Board::new_with_config(GameConfig { width: 9, height: 9, mines: 10 });
    assert_eq!(board.get_board_start_pos(80, 24), (30, 7));
    assert_eq!(board.get_board_start_pos(81, 25), (30, 8));
    assert_eq!(board.get_board_start_pos(20, 9), (0, 0));
    assert_eq!(board.get_board_start_pos(22, 11), (1, 1));
    assert_eq!(board.get_board_start_pos(u16::MAX, u16::MAX), (32757, 32763));
}

#[test]
fn board_start_is_zero_where_the_board_does_not_fit() {
    let board = Board::new_with_config(GameConfig { width: 9, height: 9, mines: 10 });
    assert_eq!(board.get_board_start_pos(19, 8), (0, 0));
    assert_eq!(board.get_board_start_pos(0, 0), (0, 0));
    assert_eq!(board.get_board_start_pos(10, 24), (0, 7));
}

#[test]
fn clicks_map_to_cells() {
    let board = Board::new_with_config(GameConfig { width: 9, height: 9, mines: 10 });
    // The board starts at column 30 and row 7; its first cell takes the
    // columns 32 and 33 of row 8.
    assert_eq!(board.cell_coords_from_mouse(32, 8, 80, 24), Some((0, 0)));
    assert_eq!(board.cell_coords_from_mouse(33, 8, 80, 24), Some((0, 0)));
    assert_eq!(board.cell_coords_from_mouse(34, 8, 80, 24), Some((1, 0)));
    assert_eq!(board.cell_coords_from_mouse(49, 16, 80, 24), Some((8, 8)));
    assert_eq!(board.cell_coords_from_mouse(40, 12, 80, 24), Some((4, 4)));
}

#[test]
fn clicks_left_of_or_above_the_board_count_as_its_edge() {
    let board = Board::new_with_config(GameConfig { width: 9, height: 9, mines: 10 });
    assert_eq!(board.cell_coords_from_mouse(0, 12, 80, 24), Some((0, 4)));
    assert_eq!(board.cell_coords_from_mouse(31, 12, 80, 24), Some((0, 4)));
    assert_eq!(board.cell_coords_from_mouse(40, 0, 80, 24), Some((4, 0)));
    assert_eq!(board.cell_coords_from_mouse(0, 0, 80, 24), Some((0, 0)));
}

#[test]
fn clicks_right_of_or_below_the_board_fall_on_no_cell() {
    let board = Board::new_with_config(GameConfig { width: 9, height: 9, mines: 10 });
    assert_eq!(board.cell_coords_from_mouse(50, 8, 80, 24), None);
    assert_eq!(board.cell_coords_from_mouse(79, 8, 80, 24), None);
    assert_eq!(board.cell_coords_from_mouse(40, 17, 80, 24), None);
    assert_eq!(board.cell_coords_from_mouse(u16::MAX, u16::MAX, 80, 24), None);
}

#[test]
fn left_click_reveals_the_cell_under_the_pointer() {
    let mut board = board_with_mines(9, 9, &[0]);
    let signal = board.handle_mouse_left(34, 8, 80, 24);
    assert_eq!(signal, None);
    assert_eq!(state_at(&board, 1, 0), CellState::Revealed);
    assert_eq!(count_states(&board, CellState::Revealed), 1);
    assert_eq!(board.handle_mouse_left(32, 8, 80, 24), Some(GameState::Lost));
}

#[test]
fn left_click_beside_the_board_does_nothing() {
    let mut board = Board::new_with_config(GameConfig { width: 9, height: 9, mines: 10 });
    assert_eq!(board.handle_mouse_left(60, 8, 80, 24), None);
    assert_eq!(board.handle_mouse_left(40, 20, 80, 24), None);
    assert_eq!(count_states(&board, CellState::Hidden), 81);
    assert!(kinds(&board).iter().all(|k| *k == CellKind::Number(0)));
}

#[test]
fn first_left_click_lays_the_mines_and_is_safe() {
    for _ in 0..100 {
        let mut board = Board::new_with_config(GameConfig { width: 9, height: 9, mines: 10 });
        let signal = board.handle_mouse_left(40, 12, 80, 24);
        assert_ne!(signal, Some(GameState::Lost));
        assert_eq!(state_at(&board, 4, 4), CellState::Revealed);
        let mines = kinds(&board).iter().filter(|k| **k == CellKind::Mine).count();
        assert_eq!(mines, 10);
    }
}

#[test]
fn right_click_toggles_the_flag_under_the_pointer() {
    let mut board = Board::new_with_config(GameConfig { width: 9, height: 9, mines: 10 });
    board.handle_mouse_right(40, 12, 80, 24);
    assert_eq!(state_at(&board, 4, 4), CellState::Flagged);
    assert_eq!(board.get_remaining_mines(), 9);
    board.handle_mouse_right(41, 12, 80, 24);
    assert_eq!(state_at(&board, 4, 4), CellState::Hidden);
    board.handle_mouse_right(70, 12, 80, 24);
    assert_eq!(count_states(&board, CellState::Flagged), 0);
    // A right click lays no mines.
    assert!(kinds(&board).iter().all(|k| *k == CellKind::Number(0)));
}

#[test]
fn winning_or_losing_stops_the_timer() {
    let mut board = board_with_mines(2, 1, &[0]);
    assert_eq!(board.timer.elapsed_after(std::time::Duration::from_secs(3)).as_secs(), 3);
    assert_eq!(board.reveal_cell(1, 0), Some(GameState::Won));
    let after_win = board.timer.get_elapsed();
    assert_eq!(board.timer.elapsed_after(std::time::Duration::from_secs(3)), after_win);

    let mut board = board_with_mines(2, 1, &[0]);
    assert_eq!(board.reveal_cell(0, 0), Some(GameState::Lost));
    let after_loss = board.timer.get_elapsed();
    assert_eq!(board.timer.elapsed_after(std::time::Duration::from_secs(3)), after_loss);
}

/// A board of two cells side by side whose layout is written cell by cell:
/// a mine on the left, the number 1 on the right.
fn written_board() -> Board {
    let mut board = Board::new_with_config(GameConfig { width: 2, height: 1, mines: 1 });
    board.get_cell_mut(0, 0).unwrap().kind = CellKind::Mine;
    board.get_cell_mut(1, 0).unwrap().kind = CellKind::Number(1);
    board
}

#[test]
fn reveal_of_the_mine_on_a_written_board_loses() {
    let mut board = written_board();
    assert_eq!(board.reveal_adjacent_empty(0, 0), Some(GameState::Lost));
    assert_eq!(state_at(&board, 0, 0), CellState::Revealed);
    assert_eq!(
        board.get_cell(1, 0).unwrap(),
        &CellBox { kind: CellKind::Number(1), state: CellState::Hidden }
    );
}

#[test]
fn reveal_of_the_number_on_a_written_board_wins() {
    let mut board = written_board();
    assert_eq!(board.reveal_adjacent_empty(1, 0), Some(GameState::Won));
    assert_eq!(state_at(&board, 1, 0), CellState::Revealed);
    assert_eq!(
        board.get_cell(0, 0).unwrap(),
        &CellBox { kind: CellKind::Mine, state: CellState::Hidden }
    );
}

#[test]
fn flags_chords_and_mines_shown_on_a_written_board() {
    let mut board = written_board();
    board.toggle_flag(0, 0);
    assert_eq!(board.get_remaining_mines(), 0);
    assert_eq!(board.reveal_adjacent_empty(1, 0), Some(GameState::Won));
    assert_eq!(board.reveal_non_flagged(1, 0), Some(GameState::Won));
    assert_eq!(state_at(&board, 0, 0), CellState::Flagged);
    assert_eq!(board.get_remaining_mines(), 0);
    board.reveal_all_mines();
    assert_eq!(state_at(&board, 0, 0), CellState::Revealed);
    board.reset();
    assert_eq!(count_states(&board, CellState::Hidden), 2);
    assert!(kinds(&board).iter().all(|k| *k == CellKind::Number(0)));
}

#[test]
fn clicks_are_mapped_on_a_terminal_without_room_for_the_border() {
    let mut board = board_with_mines(9, 9, &[80]);
    // With 100 columns and 10 rows the board starts at column 40 and row
    // 0: its bottom border has no room, its cells have.
    assert_eq!(board.get_board_start_pos(100, 10), (40, 0));
    assert!(!board.fits_terminal(100, 10));
    assert_eq!(board.cell_coords_from_mouse(42, 1, 100, 10), Some((0, 0)));
    assert_eq!(board.cell_coords_from_mouse(59, 9, 100, 10), Some((8, 8)));
    assert_eq!(board.cell_coords_from_mouse(60, 9, 100, 10), None);
    assert_eq!(board.cell_coords_from_mouse(42, 10, 100, 10), None);
    // With 9 rows the board starts at row 0 as well; so it does with 8,
    // where half a row is missing above it.
    assert_eq!(board.cell_coords_from_mouse(42, 1, 100, 9), Some((0, 0)));
    assert_eq!(board.cell_coords_from_mouse(42, 1, 100, 8), Some((0, 0)));
    // With 19 columns it starts at column 0.
    assert_eq!(board.cell_coords_from_mouse(4, 8, 19, 24), Some((1, 0)));
    board.handle_mouse_right(42, 1, 100, 10);
    assert_eq!(state_at(&board, 0, 0), CellState::Flagged);
    assert_eq!(board.handle_mouse_left(44, 1, 100, 10), None);
    assert_eq!(state_at(&board, 1, 0), CellState::Revealed);
}

#[test]
fn clicks_fall_on_no_cell_where_the_board_would_start_off_the_terminal() {
    let mut board = board_with_mines(9, 9, &[0]);
    // 9 cells across take 20 columns: with 18 the centred board would start
    // one column left of the terminal; with 7 rows, one row above it.
    assert_eq!(board.cell_coords_from_mouse(4, 8, 18, 24), None);
    assert_eq!(board.cell_coords_from_mouse(4, 3, 80, 7), None);
    assert_eq!(board.cell_coords_from_mouse(0, 0, 0, 0), None);
    assert_eq!(board.handle_mouse_left(4, 3, 18, 24), None);
    assert_eq!(board.handle_mouse_left(4, 3, 80, 7), None);
    board.handle_mouse_right(4, 3, 18, 7);
    assert_eq!(count_states(&board, CellState::Hidden), 81);
}

#[test]
fn a_click_where_the_board_starts_off_the_terminal_lays_no_mines() {
    let mut board = Board::new_with_config(GameConfig { width: 9, height: 9, mines: 10 });
    assert_eq!(board.handle_mouse_left(4, 3, 18, 7), None);
    assert!(kinds(&board).iter().all(|k| *k == CellKind::Number(0)));
    assert_eq!(count_states(&board, CellState::Hidden), 81);
}

#[test]
fn reveals_leave_the_remaining_mines_as_they_were() {
    let mut board = board_with_mines(5, 5, &[10, 11, 12, 13, 14]);
    board.toggle_flag(4, 4);
    board.toggle_flag(0, 2);
    let remaining = board.get_remaining_mines();
    assert_eq!(remaining, 3);
    assert_eq!(board.reveal_adjacent_empty(0, 0), None);
    assert_eq!(board.get_remaining_mines(), remaining);
    assert_eq!(board.reveal_non_flagged(0, 0), None);
    assert_eq!(board.get_remaining_mines(), remaining);
    assert_eq!(board.reveal_non_flagged(4, 3), Some(GameState::Lost));
    assert_eq!(board.get_remaining_mines(), remaining);
}

#[test]
fn the_timer_of_a_board_is_its_public_field() {
    let mut board = Board::new_with_config(GameConfig { width: 5, height: 5, mines: 3 });
    assert_eq!(board.timer().get_elapsed(), board.timer.get_elapsed());
    board.place_mines(&order_starting_with(&[], 25), 0, 0);
    let far = std::time::Instant::now() + std::time::Duration::from_secs(100);
    assert_eq!(board.timer().elapsed_at(far), board.timer.elapsed_at(far));
    assert!(board.timer().elapsed_at(far) >= std::time::Duration::from_secs(99));
}
