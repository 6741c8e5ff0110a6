//! The menus: a list of entries, one of them hovered, and what choosing an
//! entry does to the game.

use crate::game_logic::{clamped_config, Board, BoardView};
use crate::input::{InputEvent, Key};
use crate::types::{GameConfig, GameState, MenuItem, MenuItemType};
use vstd::prelude::*;

verus! {

/// The entries of the main menu: three presets, the way to the custom
/// menu, and the way out.
pub open spec fn main_menu_items() -> Seq<MenuItem> {
    seq![
        MenuItem::Main {
            item_type: MenuItemType::Beginnner,
            name: "Beginner",
            config: Some(GameConfig { width: 9, height: 9, mines: 10 }),
        },
        MenuItem::Main {
            item_type: MenuItemType::Intermediate,
            name: "Intermediate",
            config: Some(GameConfig { width: 16, height: 16, mines: 40 }),
        },
        MenuItem::Main {
            item_type: MenuItemType::Expert,
            name: "Expert",
            config: Some(GameConfig { width: 30, height: 16, mines: 99 }),
        },
        MenuItem::Main { item_type: MenuItemType::Custom, name: "Custom", config: None },
        MenuItem::Main { item_type: MenuItemType::Exit, name: "Exit", config: None },
    ]
}

/// The entries of the custom menu: width, height and mines to adjust, and
/// the entry that confirms them.
pub open spec fn custom_menu_items() -> Seq<MenuItem> {
    seq![
        MenuItem::Custom { item_type: MenuItemType::Width, name: "Width", value: 30 },
        MenuItem::Custom { item_type: MenuItemType::Height, name: "Height", value: 30 },
        MenuItem::Custom { item_type: MenuItemType::Mines, name: "Mines", value: 150 },
        MenuItem::Main { item_type: MenuItemType::Confirm, name: "Confirm", config: None },
    ]
}

/// The value of the last entry to adjust among `items` that is for
/// `which`; 0 if there is none.
pub open spec fn custom_value(items: Seq<MenuItem>, which: MenuItemType) -> usize
    decreases items.len(),
{
    if items.len() == 0 {
        0
    } else {
        match items.last() {
            MenuItem::Custom { item_type, value, .. } => if item_type == which {
                value
            } else {
                custom_value(items.drop_last(), which)
            },
            MenuItem::Main { .. } => custom_value(items.drop_last(), which),
        }
    }
}

/// The configuration that the entries to adjust make up, if they give a
/// width and a height.
pub open spec fn custom_config(items: Seq<MenuItem>) -> Option<GameConfig> {
    let width = custom_value(items, MenuItemType::Width);
    let height = custom_value(items, MenuItemType::Height);
    let mines = custom_value(items, MenuItemType::Mines);
    if width > 0 && height > 0 {
        Some(GameConfig { width, height, mines })
    } else {
        None
    }
}

/// An entry after its value was moved by `delta`: the value of an entry to
/// adjust never falls below 1 nor leaves the range of `usize`; an entry to
/// choose stays as it is.
pub open spec fn adjusted(item: MenuItem, delta: int) -> MenuItem {
    match item {
        MenuItem::Custom { item_type, name, value } => MenuItem::Custom {
            item_type,
            name,
            value: if value + delta < 1 {
                1usize
            } else if value + delta > usize::MAX {
                usize::MAX
            } else {
                (value + delta) as usize
            },
        },
        MenuItem::Main { .. } => item,
    }
}

/// A menu: its entries, the one that is hovered, and the one that was
/// chosen, if any.
#[derive(Debug, Clone)]
pub struct Menu {
    /// List of menu items displayed in the menu.
    pub items: Vec<MenuItem>,
    /// Index of the currently hovered menu item.
    pub hovered_index: usize,
    /// The currently selected menu item, if any.
    pub selected: Option<MenuItem>,
}

impl Menu {
    /// The hovered entry exists.
    pub open spec fn wf(&self) -> bool {
        self.hovered_index < self.items@.len()
    }

    /// A menu as it is when it is built: the first entry hovered, none
    /// chosen.
    pub open spec fn is_new(&self, items: Seq<MenuItem>) -> bool {
        &&& self.items@ == items
        &&& self.hovered_index == 0
        &&& self.selected.is_none()
    }

    /// Creates a new menu from a list of menu items.
    pub fn new(items: Vec<MenuItem>) -> (menu: Menu)
        ensures
            menu.is_new(items@),
            menu.wf() <==> items@.len() > 0,
    {
        Menu { items, hovered_index: 0, selected: None }
    }

    /// Creates the main menu.
    pub fn new_main_menu() -> (menu: Menu)
        ensures
            menu.is_new(main_menu_items()),
            menu.items@.len() == 5,
            menu.wf(),
    {
        let mut items: Vec<MenuItem> = Vec::new();
        items.push(
            MenuItem::Main {
                item_type: MenuItemType::Beginnner,
                name: "Beginner",
                config: Some(GameConfig { width: 9, height: 9, mines: 10 }),
            },
        );
        items.push(
            MenuItem::Main {
                item_type: MenuItemType::Intermediate,
                name: "Intermediate",
                config: Some(GameConfig { width: 16, height: 16, mines: 40 }),
            },
        );
        items.push(
            MenuItem::Main {
                item_type: MenuItemType::Expert,
                name: "Expert",
                config: Some(GameConfig { width: 30, height: 16, mines: 99 }),
            },
        );
        items.push(
            MenuItem::Main { item_type: MenuItemType::Custom, name: "Custom", config: None },
        );
        items.push(MenuItem::Main { item_type: MenuItemType::Exit, name: "Exit", config: None });
        assert(items@ =~= main_menu_items());
        Menu::new(items)
    }

    /// Creates the custom configuration menu.
    pub fn new_custom_menu() -> (menu: Menu)
        ensures
            menu.is_new(custom_menu_items()),
            menu.items@.len() == 4,
            menu.wf(),
    {
        let mut items: Vec<MenuItem> = Vec::new();
        items.push(MenuItem::Custom { item_type: MenuItemType::Width, name: "Width", value: 30 });
        items.push(MenuItem::Custom { item_type: MenuItemType::Height, name: "Height", value: 30 });
        items.push(MenuItem::Custom { item_type: MenuItemType::Mines, name: "Mines", value: 150 });
        items.push(
            MenuItem::Main { item_type: MenuItemType::Confirm, name: "Confirm", config: None },
        );
        assert(items@ =~= custom_menu_items());
        Menu::new(items)
    }

    /// Returns a reference to the currently hovered menu item.
    pub fn get_hovered_item(&self) -> (item: &MenuItem)
        requires
            self.wf(),
        ensures
            *item == self.items@[self.hovered_index as int],
    {
        &self.items[self.hovered_index]
    }

    /// Selects the currently hovered menu item.
    pub fn select(&mut self)
        requires
            old(self).wf(),
        ensures
            final(self).items == old(self).items,
            final(self).hovered_index == old(self).hovered_index,
            final(self).selected == Some(old(self).items@[old(self).hovered_index as int]),
    {
        let selected_item = *self.get_hovered_item();
        self.selected = Some(selected_item);
    }

    /// Moves the hovered index to the next item; after the last comes the
    /// first.
    pub fn next(&mut self)
        requires
            old(self).wf(),
        ensures
            final(self).wf(),
            final(self).items == old(self).items,
            final(self).selected == old(self).selected,
            final(self).hovered_index == (old(self).hovered_index + 1) % (old(
                self,
            ).items@.len() as int),
    {
        let n: usize = self.items.len();
        self.hovered_index = (self.hovered_index + 1) % n;
    }

    /// Moves the hovered index to the previous item; before the first comes
    /// the last.
    pub fn previous(&mut self)
        requires
            old(self).wf(),
        ensures
            final(self).wf(),
            final(self).items == old(self).items,
            final(self).selected == old(self).selected,
            final(self).hovered_index == if old(self).hovered_index == 0 {
                old(self).items@.len() - 1
            } else {
                old(self).hovered_index - 1
            },
    {
        if self.hovered_index == 0 {
            self.hovered_index = self.items.len() - 1;
        } else {
            self.hovered_index -= 1;
        }
    }

    /// Returns the number of items in the menu.
    pub fn len(&self) -> (n: usize)
        ensures
            n == self.items@.len(),
    {
        self.items.len()
    }

    /// Moves the value of the hovered entry by `delta`, if it is an entry
    /// to adjust. The value never falls below 1.
    pub fn adjust(&mut self, delta: isize)
        requires
            old(self).wf(),
        ensures
            final(self).wf(),
            final(self).hovered_index == old(self).hovered_index,
            final(self).selected == old(self).selected,
            final(self).items@ == old(self).items@.update(
                old(self).hovered_index as int,
                adjusted(old(self).items@[old(self).hovered_index as int], delta as int),
            ),
    {
        let hovered = self.hovered_index;
        match self.items[hovered] {
            MenuItem::Custom { item_type, name, value } => {
                let moved: usize = if delta >= 0 {
                    value.saturating_add(delta as usize)
                } else {
                    let down: usize = if delta == isize::MIN {
                        usize::MAX / 2 + 1
                    } else {
                        (-delta) as usize
                    };
                    value.saturating_sub(down)
                };
                let new_value: usize = if moved < 1 {
                    1
                } else {
                    moved
                };
                self.items[hovered] = MenuItem::Custom { item_type, name, value: new_value };
            },
            MenuItem::Main { .. } => {
                assert(self.items@ =~= old(self).items@.update(
                    hovered as int,
                    old(self).items@[hovered as int],
                ));
            },
        }
    }

    /// Returns the configuration that the entries to adjust make up, if
    /// they give a width and a height.
    pub fn get_custom_config(&self) -> (found: Option<GameConfig>)
        ensures
            found == custom_config(self.items@),
    {
        let mut config = GameConfig { width: 0, height: 0, mines: 0 };
        let n: usize = self.items.len();
        let mut i: usize = 0;
        while i < n
            invariant
                i <= n,
                n == self.items@.len(),
                config.width == custom_value(self.items@.take(i as int), MenuItemType::Width),
                config.height == custom_value(self.items@.take(i as int), MenuItemType::Height),
                config.mines == custom_value(self.items@.take(i as int), MenuItemType::Mines),
            decreases n - i,
        {
            proof {
                assert(self.items@.take(i + 1).drop_last() =~= self.items@.take(i as int));
            }
            match self.items[i] {
                MenuItem::Custom { item_type, value, .. } => {
                    match item_type {
                        MenuItemType::Width => {
                            config.width = value;
                        },
                        MenuItemType::Height => {
                            config.height = value;
                        },
                        MenuItemType::Mines => {
                            config.mines = value;
                        },
                        _ => {},
                    }
                },
                MenuItem::Main { .. } => {},
            }
            i += 1;
        }
        proof {
            assert(self.items@.take(n as int) =~= self.items@);
        }
        if config.width > 0 && config.height > 0 {
            Some(config)
        } else {
            None
        }
    }
}

/// The menu after a key: down and up move the hover, enter chooses the
/// hovered entry, right and left raise and lower its value by one. Any
/// other event leaves the menu as it is.
pub open spec fn menu_after_key(before: Menu, event: InputEvent, after: Menu) -> bool {
    let n = before.items@.len() as int;
    let hovered = before.hovered_index as int;
    match event {
        InputEvent::KeyPress { code: Key::Down, .. } => {
            &&& after.items == before.items
            &&& after.selected == before.selected
            &&& after.hovered_index == (hovered + 1) % n
        },
        InputEvent::KeyPress { code: Key::Up, .. } => {
            &&& after.items == before.items
            &&& after.selected == before.selected
            &&& after.hovered_index == if hovered == 0 {
                n - 1
            } else {
                hovered - 1
            }
        },
        InputEvent::KeyPress { code: Key::Enter, .. } => {
            &&& after.items == before.items
            &&& after.hovered_index == before.hovered_index
            &&& after.selected == Some(before.items@[hovered])
        },
        InputEvent::KeyPress { code: Key::Right, .. } => {
            &&& after.items@ == before.items@.update(hovered, adjusted(before.items@[hovered], 1))
            &&& after.hovered_index == before.hovered_index
            &&& after.selected == before.selected
        },
        InputEvent::KeyPress { code: Key::Left, .. } => {
            &&& after.items@ == before.items@.update(hovered, adjusted(before.items@[hovered], -1))
            &&& after.hovered_index == before.hovered_index
            &&& after.selected == before.selected
        },
        _ => after == before,
    }
}

/// Handles keyboard events for menu navigation and selection.
pub fn handle_menu_event(event: &InputEvent, menu: &mut Menu)
    requires
        old(menu).wf(),
    ensures
        final(menu).wf(),
        menu_after_key(*old(menu), *event, *final(menu)),
{
    match event {
        InputEvent::KeyPress { code, .. } => {
            match code {
                Key::Down => {
                    menu.next();
                },
                Key::Up => {
                    menu.previous();
                },
                Key::Enter => {
                    menu.select();
                },
                Key::Right => {
                    menu.adjust(1);
                },
                Key::Left => {
                    menu.adjust(-1);
                },
                _ => {},
            }
        },
        _ => {},
    }
}

/// What choosing an entry does. `menu0`, `board0` and `state0` are the
/// menu with its chosen entry, the board and the state of the game before;
/// `menu1`, `board1` and `state1` are they afterwards.
///
/// A preset starts a game on a fresh board of its configuration. The entry
/// for the custom menu opens that menu, the entry for leaving ends the
/// game. Confirming the custom menu starts a game on a fresh board of the
/// configuration that the menu gives, brought within the limits; where that
/// configuration has no fewer mines than cells, the custom menu is built
/// anew instead. Anything else, as no entry chosen, changes nothing.
pub open spec fn selection_outcome(
    menu0: Menu,
    board0: BoardView,
    state0: GameState,
    menu1: Menu,
    board1: BoardView,
    state1: GameState,
) -> bool {
    let unchanged = menu1 == menu0 && board1 == board0 && state1 == state0;
    match menu0.selected {
        Some(MenuItem::Main { item_type, config, .. }) => match item_type {
            MenuItemType::Beginnner
            | MenuItemType::Intermediate
            | MenuItemType::Expert => match config {
                Some(c) => if c.playable() {
                    menu1 == menu0 && board1 == BoardView::fresh(c) && state1 == GameState::Ongoing
                } else {
                    unchanged
                },
                None => unchanged,
            },
            MenuItemType::Custom => menu1.is_new(custom_menu_items()) && board1 == board0 && state1
                == state0,
            MenuItemType::Exit => menu1 == menu0 && board1 == board0 && state1 == GameState::Exit,
            MenuItemType::Confirm => match custom_config(menu0.items@) {
                Some(c) => if c.mines >= c.width * c.height {
                    menu1.is_new(custom_menu_items()) && board1 == board0 && state1 == state0
                } else {
                    menu1 == menu0 && board1 == BoardView::fresh(
                        clamped_config(c.width, c.height, c.mines),
                    ) && state1 == GameState::Ongoing
                },
                None => unchanged,
            },
            _ => unchanged,
        },
        _ => unchanged,
    }
}

/// Processes the selected menu item and updates the game state accordingly.
pub fn process_menu_selection(
    current_menu: &mut Menu,
    board: &mut Board,
    game_state: &mut GameState,
)
    requires
        old(current_menu).wf(),
        old(board).wf(),
    ensures
        final(current_menu).wf(),
        final(board).wf(),
        selection_outcome(
            *old(current_menu),
            old(board)@,
            *old(game_state),
            *final(current_menu),
            final(board)@,
            *final(game_state),
        ),
{
    match current_menu.selected {
        Some(MenuItem::Main { item_type, config, .. }) => {
            match item_type {
                MenuItemType::Beginnner | MenuItemType::Intermediate | MenuItemType::Expert => {
                    match config {
                        Some(c) => {
                            if c.is_playable() {
                                *board = Board::new_with_config(c);
                                *game_state = GameState::Ongoing;
                            }
                        },
                        None => {},
                    }
                },
                MenuItemType::Custom => {
                    *current_menu = Menu::new_custom_menu();
                },
                MenuItemType::Exit => {
                    *game_state = GameState::Exit;
                },
                MenuItemType::Confirm => {
                    match current_menu.get_custom_config() {
                        Some(c) => {
                            let too_many = match c.width.checked_mul(c.height) {
                                Some(cells) => c.mines >= cells,
                                None => false,
                            };
                            if too_many {
                                *current_menu = Menu::new_custom_menu();
                            } else {
                                *board = Board::new_with_config(
                                    Board::clamp_config(c.width, c.height, c.mines),
                                );
                                *game_state = GameState::Ongoing;
                            }
                        },
                        None => {},
                    }
                },
                _ => {},
            }
        },
        _ => {},
    }
}

} // verus!
