use termsweeper::game_logic::Board;
use termsweeper::input::{InputEvent, Key, Modifiers};
use termsweeper::menu::{handle_menu_event, process_menu_selection, Menu};
use termsweeper::types::{CellState, GameConfig, GameState, MenuItem, MenuItemType};

fn no_modifiers() -> Modifiers {
    Modifiers { shift: false, control: false, alt: false, logo: false, hyper: false, meta: false }
}

fn key(code: Key) -> InputEvent {
    InputEvent::KeyPress { code, modifiers: no_modifiers() }
}

fn custom_menu_with(width: usize, height: usize, mines: usize) -> Menu {
    Menu::new(vec![
        MenuItem::Custom { item_type: MenuItemType::Width, name: "Width", value: width },
        MenuItem::Custom { item_type: MenuItemType::Height, name: "Height", value: height },
        MenuItem::Custom { item_type: MenuItemType::Mines, name: "Mines", value: mines },
        MenuItem::Main { item_type: MenuItemType::Confirm, name: "Confirm", config: None },
    ])
}

fn value_of(menu: &Menu, index: usize) -> usize {
    match menu.items[index] {
        MenuItem::Custom { value, .. } => value,
        MenuItem::Main { .. } => panic!("entry {} takes no value", index),
    }
}

fn hidden_cells(board: &Board) -> usize {
    let mut n: usize = 0;
    for y in 0..board.height as isize {
        for x in 0..board.width as isize {
            if board.get_cell(x, y).unwrap().state == CellState::Hidden {
                n += 1;
            }
        }
    }
    n
}

#[test]
fn main_menu_has_presets_custom_and_exit() {
    let menu = Menu::new_main_menu();
    assert_eq!(
        menu.items,
        vec![
            MenuItem::Main {
                item_type: MenuItemType::Beginnner,
                name: "Beginner",
                config: Some(GameConfig { width: 9, height: 9, mines: 10 }),
            },
            MenuItem::Main {
                item_type: MenuItemType::Intermediate,
                name: "Intermediate",
                config: Some(GameConfig { width: 16, height: 16, mines: 40 }),
            },
            MenuItem::Main {
                item_type: MenuItemType::Expert,
                name: "Expert",
                config: Some(GameConfig { width: 30, height: 16, mines: 99 }),
            },
            MenuItem::Main { item_type: MenuItemType::Custom, name: "Custom", config: None },
            MenuItem::Main { item_type: MenuItemType::Exit, name: "Exit", config: None },
        ]
    );
    assert_eq!(menu.hovered_index, 0);
    assert_eq!(menu.selected, None);
    assert_eq!(menu.len(), 5);
}

#[test]
fn custom_menu_has_three_values_and_confirm() {
    let menu = Menu::new_custom_menu();
    assert_eq!(
        menu.items,
        vec![
            MenuItem::Custom { item_type: MenuItemType::Width, name: "Width", value: 30 },
            MenuItem::Custom { item_type: MenuItemType::Height, name: "Height", value: 30 },
            MenuItem::Custom { item_type: MenuItemType::Mines, name: "Mines", value: 150 },
            MenuItem::Main { item_type: MenuItemType::Confirm, name: "Confirm", config: None },
        ]
    );
    assert_eq!(menu.hovered_index, 0);
    assert_eq!(menu.selected, None);
    assert_eq!(menu.len(), 4);
}

#[test]
fn new_menu_hovers_the_first_entry() {
    let items = vec![
        MenuItem::Main { item_type: MenuItemType::Exit, name: "Leave", config: None },
        MenuItem::Custom { item_type: MenuItemType::Mines, name: "Mines", value: 3 },
    ];
    let menu = Menu::new(items.clone());
    assert_eq!(menu.items, items);
    assert_eq!(menu.hovered_index, 0);
    assert_eq!(menu.selected, None);
    assert_eq!(menu.len(), 2);
    assert_eq!(*menu.get_hovered_item(), items[0]);
    assert_eq!(Menu::new(Vec::new()).len(), 0);
}

#[test]
fn next_wraps_around() {
    let mut menu = Menu::new_main_menu();
    for expected in [1usize, 2, 3, 4, 0, 1] {
        menu.next();
        assert_eq!(menu.hovered_index, expected);
    }
    assert_eq!(menu.selected, None);
    assert_eq!(menu.len(), 5);
}

#[test]
fn previous_wraps_around() {
    let mut menu = Menu::new_main_menu();
    for expected in [4usize, 3, 2, 1, 0, 4] {
        menu.previous();
        assert_eq!(menu.hovered_index, expected);
    }
    assert_eq!(menu.selected, None);
}

#[test]
fn next_and_previous_on_a_single_entry_stay() {
    let mut menu = Menu::new(vec![MenuItem::Main {
        item_type: MenuItemType::Exit,
        name: "Exit",
        config: None,
    }]);
    menu.next();
    assert_eq!(menu.hovered_index, 0);
    menu.previous();
    assert_eq!(menu.hovered_index, 0);
}

#[test]
fn select_copies_the_hovered_entry() {
    let mut menu = Menu::new_main_menu();
    menu.next();
    menu.select();
    assert_eq!(
        menu.selected,
        Some(MenuItem::Main {
            item_type: MenuItemType::Intermediate,
            name: "Intermediate",
            config: Some(GameConfig { width: 16, height: 16, mines: 40 }),
        })
    );
    assert_eq!(menu.hovered_index, 1);
    assert_eq!(*menu.get_hovered_item(), menu.selected.unwrap());
}

#[test]
fn adjust_moves_the_hovered_value() {
    let mut menu = Menu::new_custom_menu();
    menu.adjust(1);
    assert_eq!(value_of(&menu, 0), 31);
    menu.adjust(-11);
    assert_eq!(value_of(&menu, 0), 20);
    menu.adjust(100);
    assert_eq!(value_of(&menu, 0), 120);
    assert_eq!(value_of(&menu, 1), 30);
    assert_eq!(value_of(&menu, 2), 150);
    assert_eq!(menu.hovered_index, 0);
    assert_eq!(menu.selected, None);
}

#[test]
fn adjust_never_goes_below_one() {
    let mut menu = custom_menu_with(2, 5, 5);
    menu.adjust(-1);
    assert_eq!(value_of(&menu, 0), 1);
    menu.adjust(-1);
    assert_eq!(value_of(&menu, 0), 1);
    menu.adjust(-100);
    assert_eq!(value_of(&menu, 0), 1);
    menu.adjust(isize::MIN);
    assert_eq!(value_of(&menu, 0), 1);
    menu.adjust(0);
    assert_eq!(value_of(&menu, 0), 1);
}

#[test]
fn adjust_raises_a_zero_to_one() {
    let mut menu = custom_menu_with(0, 5, 5);
    menu.adjust(0);
    assert_eq!(value_of(&menu, 0), 1);
}

#[test]
fn adjust_has_no_upper_limit_but_the_largest_number() {
    let mut menu = custom_menu_with(50, 5, 5);
    menu.adjust(1000);
    assert_eq!(value_of(&menu, 0), 1050);
    menu.adjust(isize::MAX);
    menu.adjust(isize::MAX);
    assert_eq!(value_of(&menu, 0), usize::MAX);
    menu.adjust(1);
    assert_eq!(value_of(&menu, 0), usize::MAX);
    menu.adjust(isize::MIN);
    assert_eq!(value_of(&menu, 0), usize::MAX / 2);
}

#[test]
fn adjust_leaves_entries_to_choose_alone() {
    let mut menu = Menu::new_main_menu();
    let before = menu.items.clone();
    menu.adjust(5);
    assert_eq!(menu.items, before);
    let mut menu = Menu::new_custom_menu();
    menu.previous();
    let before = menu.items.clone();
    menu.adjust(-5);
    assert_eq!(menu.items, before);
}

#[test]
fn custom_config_gathers_the_values() {
    let menu = Menu::new_custom_menu();
    assert_eq!(menu.get_custom_config(), Some(GameConfig { width: 30, height: 30, mines: 150 }));
    let menu = custom_menu_with(7, 8, 0);
    assert_eq!(menu.get_custom_config(), Some(GameConfig { width: 7, height: 8, mines: 0 }));
}

#[test]
fn custom_config_needs_width_and_height() {
    assert_eq!(Menu::new_main_menu().get_custom_config(), None);
    assert_eq!(custom_menu_with(0, 8, 3).get_custom_config(), None);
    assert_eq!(custom_menu_with(8, 0, 3).get_custom_config(), None);
    let menu = Menu::new(vec![
        MenuItem::Custom { item_type: MenuItemType::Width, name: "Width", value: 6 },
        MenuItem::Custom { item_type: MenuItemType::Mines, name: "Mines", value: 6 },
    ]);
    assert_eq!(menu.get_custom_config(), None);
    assert_eq!(Menu::new(Vec::new()).get_custom_config(), None);
}

#[test]
fn custom_config_takes_the_last_value_of_a_kind() {
    let menu = Menu::new(vec![
        MenuItem::Custom { item_type: MenuItemType::Width, name: "Width", value: 6 },
        MenuItem::Custom { item_type: MenuItemType::Height, name: "Height", value: 7 },
        MenuItem::Custom { item_type: MenuItemType::Width, name: "Width", value: 9 },
        MenuItem::Custom { item_type: MenuItemType::Exit, name: "Odd", value: 77 },
        MenuItem::Main {
            item_type: MenuItemType::Width,
            name: "Width",
            config: Some(GameConfig { width: 1, height: 1, mines: 1 }),
        },
    ]);
    assert_eq!(menu.get_custom_config(), Some(GameConfig { width: 9, height: 7, mines: 0 }));
}

#[test]
fn keys_move_choose_and_adjust() {
    let mut menu = Menu::new_custom_menu();
    handle_menu_event(&key(Key::Down), &mut menu);
    assert_eq!(menu.hovered_index, 1);
    handle_menu_event(&key(Key::Right), &mut menu);
    assert_eq!(value_of(&menu, 1), 31);
    handle_menu_event(&key(Key::Left), &mut menu);
    handle_menu_event(&key(Key::Left), &mut menu);
    assert_eq!(value_of(&menu, 1), 29);
    handle_menu_event(&key(Key::Up), &mut menu);
    handle_menu_event(&key(Key::Up), &mut menu);
    assert_eq!(menu.hovered_index, 3);
    assert_eq!(menu.selected, None);
    handle_menu_event(&key(Key::Enter), &mut menu);
    assert_eq!(
        menu.selected,
        Some(MenuItem::Main { item_type: MenuItemType::Confirm, name: "Confirm", config: None })
    );
}

#[test]
fn left_key_stops_at_one() {
    let mut menu = custom_menu_with(2, 5, 5);
    handle_menu_event(&key(Key::Left), &mut menu);
    handle_menu_event(&key(Key::Left), &mut menu);
    handle_menu_event(&key(Key::Left), &mut menu);
    assert_eq!(value_of(&menu, 0), 1);
}

#[test]
fn right_key_stops_at_the_largest_number() {
    let mut menu = custom_menu_with(usize::MAX - 1, 5, 5);
    handle_menu_event(&key(Key::Right), &mut menu);
    handle_menu_event(&key(Key::Right), &mut menu);
    assert_eq!(value_of(&menu, 0), usize::MAX);
}

#[test]
fn other_events_leave_the_menu_alone() {
    let mut menu = Menu::new_main_menu();
    menu.next();
    for event in [
        key(Key::Char('x')),
        key(Key::Esc),
        key(Key::Other),
        InputEvent::Resize,
        InputEvent::Other,
        InputEvent::Pointer {
            kind: termsweeper::input::PointerKind::Down(termsweeper::input::Button::Left),
            column: 3,
            row: 3,
        },
    ] {
        handle_menu_event(&event, &mut menu);
        assert_eq!(menu.hovered_index, 1);
        assert_eq!(menu.selected, None);
        assert_eq!(menu.items, Menu::new_main_menu().items);
    }
}

#[test]
fn choosing_a_preset_starts_a_game() {
    let expected = [(9usize, 9usize, 10isize), (16, 16, 40), (30, 16, 99)];
    for (index, (width, height, mines)) in expected.iter().enumerate() {
        let mut menu = Menu::new_main_menu();
        for _ in 0..index {
            menu.next();
        }
        menu.select();
        let mut board = Board::new();
        let mut state = GameState::Menu;
        process_menu_selection(&mut menu, &mut board, &mut state);
        assert_eq!(state, GameState::Ongoing);
        assert_eq!(board.width, *width);
        assert_eq!(board.height, *height);
        assert_eq!(board.get_remaining_mines(), *mines);
        assert_eq!(hidden_cells(&board), width * height);
    }
}

#[test]
fn choosing_custom_opens_the_custom_menu() {
    let mut menu = Menu::new_main_menu();
    menu.previous();
    menu.previous();
    menu.select();
    let mut board = Board::new();
    let mut state = GameState::Menu;
    process_menu_selection(&mut menu, &mut board, &mut state);
    assert_eq!(state, GameState::Menu);
    assert_eq!(menu.items, Menu::new_custom_menu().items);
    assert_eq!(menu.hovered_index, 0);
    assert_eq!(menu.selected, None);
    assert_eq!(board.width, 20);
}

#[test]
fn choosing_exit_ends_the_game() {
    let mut menu = Menu::new_main_menu();
    menu.previous();
    menu.select();
    let mut board = Board::new();
    let mut state = GameState::Menu;
    process_menu_selection(&mut menu, &mut board, &mut state);
    assert_eq!(state, GameState::Exit);
    assert_eq!(menu.items, Menu::new_main_menu().items);
    assert_eq!(board.width, 20);
}

#[test]
fn nothing_chosen_changes_nothing() {
    let mut menu = Menu::new_main_menu();
    menu.next();
    let mut board = Board::new();
    let mut state = GameState::Menu;
    process_menu_selection(&mut menu, &mut board, &mut state);
    assert_eq!(state, GameState::Menu);
    assert_eq!(menu.hovered_index, 1);
    assert_eq!(menu.selected, None);
    assert_eq!(board.width, 20);
    assert_eq!(board.get_remaining_mines(), 25);
}

#[test]
fn choosing_a_value_entry_changes_nothing() {
    let mut menu = Menu::new_custom_menu();
    menu.select();
    let mut board = Board::new();
    let mut state = GameState::Menu;
    process_menu_selection(&mut menu, &mut board, &mut state);
    assert_eq!(state, GameState::Menu);
    assert_eq!(menu.items, Menu::new_custom_menu().items);
    assert!(menu.selected.is_some());
    assert_eq!(board.width, 20);
}

#[test]
fn confirming_too_many_mines_resets_the_custom_menu() {
    let mut menu = custom_menu_with(5, 5, 25);
    menu.previous();
    menu.select();
    let mut board = Board::new();
    let mut state = GameState::Menu;
    process_menu_selection(&mut menu, &mut board, &mut state);
    assert_eq!(state, GameState::Menu);
    assert_eq!(menu.items, Menu::new_custom_menu().items);
    assert_eq!(menu.get_custom_config(), Some(GameConfig { width: 30, height: 30, mines: 150 }));
    assert_eq!(menu.hovered_index, 0);
    assert_eq!(menu.selected, None);
    // The board is the one that was there before.
    assert_eq!(board.width, 20);
    assert_eq!(board.height, 20);
    assert_eq!(board.get_remaining_mines(), 25);
}

#[test]
fn confirming_more_mines_than_cells_resets_the_custom_menu() {
    let mut menu = custom_menu_with(6, 5, 1000);
    menu.previous();
    menu.select();
    let mut board = Board::new();
    let mut state = GameState::Menu;
    process_menu_selection(&mut menu, &mut board, &mut state);
    assert_eq!(state, GameState::Menu);
    assert_eq!(menu.items, Menu::new_custom_menu().items);
    assert_eq!(board.width, 20);
}

#[test]
fn confirming_a_good_configuration_starts_a_game() {
    let mut menu = custom_menu_with(12, 7, 20);
    menu.previous();
    menu.select();
    let mut board = Board::new();
    let mut state = GameState::Menu;
    process_menu_selection(&mut menu, &mut board, &mut state);
    assert_eq!(state, GameState::Ongoing);
    assert_eq!(board.width, 12);
    assert_eq!(board.height, 7);
    assert_eq!(board.get_remaining_mines(), 20);
    assert_eq!(hidden_cells(&board), 84);
}

#[test]
fn confirming_clamps_the_size_to_the_limits() {
    let mut menu = custom_menu_with(120, 2, 100);
    menu.previous();
    menu.select();
    let mut board = Board::new();
    let mut state = GameState::Menu;
    process_menu_selection(&mut menu, &mut board, &mut state);
    assert_eq!(state, GameState::Ongoing);
    assert_eq!(board.width, 50);
    assert_eq!(board.height, 5);
    assert_eq!(board.get_remaining_mines(), 100);
}

#[test]
fn confirming_clamps_the_mines_to_the_clamped_size() {
    // 300 mines are fewer than 100 * 4 cells, but more than 50 * 5 hold.
    let mut menu = custom_menu_with(100, 4, 300);
    menu.previous();
    menu.select();
    let mut board = Board::new();
    let mut state = GameState::Menu;
    process_menu_selection(&mut menu, &mut board, &mut state);
    assert_eq!(state, GameState::Ongoing);
    assert_eq!(board.width, 50);
    assert_eq!(board.height, 5);
    assert_eq!(board.get_remaining_mines(), 249);
}

#[test]
fn confirming_huge_sides_does_not_overflow() {
    let mut menu = custom_menu_with(usize::MAX, usize::MAX, usize::MAX);
    menu.previous();
    menu.select();
    let mut board = Board::new();
    let mut state = GameState::Menu;
    process_menu_selection(&mut menu, &mut board, &mut state);
    assert_eq!(state, GameState::Ongoing);
    assert_eq!(board.width, 50);
    assert_eq!(board.height, 50);
    assert_eq!(board.get_remaining_mines(), 2499);
}

#[test]
fn confirming_without_values_changes_nothing() {
    let mut menu = Menu::new(vec![MenuItem::Main {
        item_type: MenuItemType::Confirm,
        name: "Confirm",
        config: None,
    }]);
    menu.select();
    let mut board = Board::new();
    let mut state = GameState::Menu;
    process_menu_selection(&mut menu, &mut board, &mut state);
    assert_eq!(state, GameState::Menu);
    assert_eq!(menu.len(), 1);
    assert!(menu.selected.is_some());
    assert_eq!(board.width, 20);
}

#[test]
fn a_preset_without_a_playable_configuration_starts_nothing() {
    for config in [None, Some(GameConfig { width: 3, height: 3, mines: 9 })] {
        let mut menu = Menu::new(vec![MenuItem::Main {
            item_type: MenuItemType::Expert,
            name: "Expert",
            config,
        }]);
        menu.select();
        let mut board = Board::new();
        let mut state = GameState::Menu;
        process_menu_selection(&mut menu, &mut board, &mut state);
        assert_eq!(state, GameState::Menu);
        assert_eq!(board.width, 20);
        assert_eq!(board.get_remaining_mines(), 25);
    }
}
