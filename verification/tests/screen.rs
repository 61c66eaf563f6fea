use explore::bots::{BotKind, BotSnapshot, BotStatus};
use explore::map::{MineralKind, Point, Terrain, TileColor, WorldMap};
use explore::state::game_world::KnownMineral;
use explore::state::input::{key_command, Key, KeyCommand};
use explore::bots::BotConfig;
use explore::map::MapOptions;
use explore::state::panels::{
    bot_counts, bots_tile, map_tile, mineral_row, minerals_scroll, option_row, option_value, MineralRow, MineralStatus, OPTION_ENTRY_COUNT,
};
use explore::state::{Action, GameFocus, Screen};

fn pt(x: usize, y: usize) -> Point {
    Point { x, y }
}

#[test]
fn keys_on_the_home_screen() {
    let k = |key| key_command(Screen::Home, GameFocus::MapPanel, false, key);
    assert_eq!(k(Key::Char('g')), KeyCommand::Update(Action::StartGame));
    assert_eq!(k(Key::Char('o')), KeyCommand::Update(Action::GoOptions));
    assert_eq!(k(Key::Char('q')), KeyCommand::Quit);
    assert_eq!(k(Key::Enter), KeyCommand::Ignore);
}

#[test]
fn keys_on_the_options_screen() {
    let k = |key| key_command(Screen::Options, GameFocus::MapPanel, false, key);
    assert_eq!(k(Key::Char('7')), KeyCommand::Update(Action::SeedDigit(7)));
    assert_eq!(k(Key::Backspace), KeyCommand::Update(Action::DeleteSeedDigit));
    assert_eq!(k(Key::Esc), KeyCommand::Update(Action::GoHome));
    assert_eq!(k(Key::Char('j')), KeyCommand::Update(Action::SelectNextOption));
    assert_eq!(k(Key::Up), KeyCommand::Update(Action::SelectPreviousOption));
    assert_eq!(k(Key::Char('h')), KeyCommand::Update(Action::DecreaseOption));
    assert_eq!(k(Key::Right), KeyCommand::Update(Action::IncreaseOption));
    assert_eq!(k(Key::Enter), KeyCommand::Update(Action::StartGame));
}

#[test]
fn keys_in_a_game() {
    assert_eq!(key_command(Screen::Game, GameFocus::MapPanel, true, Key::Right), KeyCommand::StepPaused);
    assert_eq!(key_command(Screen::Game, GameFocus::MapPanel, false, Key::Right), KeyCommand::Ignore);
    assert_eq!(key_command(Screen::Game, GameFocus::MapPanel, false, Key::Char(' ')), KeyCommand::Update(Action::TogglePause));
    assert_eq!(key_command(Screen::Game, GameFocus::MapPanel, false, Key::Char('2')), KeyCommand::Update(Action::FocusMinerals));
    assert_eq!(key_command(Screen::Game, GameFocus::Minerals, false, Key::Char('2')), KeyCommand::Ignore);
    assert_eq!(key_command(Screen::Game, GameFocus::Minerals, false, Key::Char('1')), KeyCommand::Update(Action::FocusMap));
    assert_eq!(key_command(Screen::Game, GameFocus::Minerals, false, Key::Char('r')), KeyCommand::Update(Action::StartGame));
    assert_eq!(key_command(Screen::Game, GameFocus::Minerals, false, Key::Char('h')), KeyCommand::Update(Action::GoHome));
    assert_eq!(key_command(Screen::Game, GameFocus::Minerals, false, Key::Down), KeyCommand::Update(Action::ScrollMineralsDown));
}

#[test]
fn mineral_rows_show_what_is_known() {
    let known = vec![
        KnownMineral { pos: pt(1, 1), kind: MineralKind::Energy, remaining: 4, max_value: 6, assigned_miners: 2 },
        KnownMineral { pos: pt(2, 2), kind: MineralKind::Diamond, remaining: 0, max_value: 3, assigned_miners: 0 },
    ];
    assert_eq!(mineral_row(&known, pt(1, 1), 6), MineralRow { status: MineralStatus::Known, left: 4, assigned: 2 });
    assert_eq!(mineral_row(&known, pt(2, 2), 3), MineralRow { status: MineralStatus::Empty, left: 0, assigned: 0 });
    assert_eq!(mineral_row(&known, pt(3, 3), 5), MineralRow { status: MineralStatus::Unknown, left: 5, assigned: 0 });
}

#[test]
fn bots_are_drawn_above_the_map() {
    let map = WorldMap::from_terrain_for_tests(2, 1, vec![Terrain::Plains, Terrain::Mountains]);
    let scout = BotSnapshot { id: 0, kind: BotKind::Scout, pos: pt(0, 0), status: BotStatus::Exploring };
    let miner = BotSnapshot { id: 1, kind: BotKind::Miner, pos: pt(0, 0), status: BotStatus::Moving };
    assert_eq!(bots_tile(&vec![scout]), ("S".to_string(), TileColor::White));
    assert_eq!(bots_tile(&vec![scout, miner]), ("M".to_string(), TileColor::LightRed));
    assert_eq!(map_tile(&map, &Vec::new(), &vec![scout], pt(0, 0)).0, "S");
    assert_eq!(map_tile(&map, &Vec::new(), &Vec::new(), pt(0, 0)), (".".to_string(), TileColor::Green));
    assert_eq!(map_tile(&map, &Vec::new(), &Vec::new(), pt(1, 0)), ("\u{25b2}".to_string(), TileColor::DarkGray));
    assert_eq!(map_tile(&map, &Vec::new(), &Vec::new(), pt(5, 0)), (" ".to_string(), TileColor::Reset));
}

#[test]
fn mineral_list_scroll_follows_the_highlight() {
    // Ten rows, four visible, highlight on row 6: scroll so that it is the last shown.
    assert_eq!(minerals_scroll(10, Some(6), 0, 4, 10), 3);
    // Highlight above the view: scroll up to it.
    assert_eq!(minerals_scroll(10, Some(1), 3, 4, 10), 1);
    // Highlight inside the view: keep the scroll.
    assert_eq!(minerals_scroll(10, Some(4), 3, 4, 10), 3);
    // A highlight past the list is clamped to the last row.
    assert_eq!(minerals_scroll(10, Some(50), 0, 4, 10), 6);
    // Without a highlight the scroll is kept, but never past the last screenful.
    assert_eq!(minerals_scroll(10, None, 9, 4, 10), 6);
    assert_eq!(minerals_scroll(0, Some(0), 2, 4, 3), 0);
}

#[test]
fn option_values_as_shown() {
    let options = MapOptions { seed: Some(1234), frequency_milli: 25, ..MapOptions::default() };
    let config = BotConfig::default();
    let values: Vec<String> = (0..OPTION_ENTRY_COUNT).map(|i| option_value(options, config, i)).collect();
    assert_eq!(values[0], options.energy_count.to_string());
    assert_eq!(values[1], options.diamond_count.to_string());
    assert_eq!(values[2], options.octaves.to_string());
    assert_eq!(values[3], format!("{:.3}", 25.0f64 / 1000.0));
    assert_eq!(values[4], "1234");
    assert_eq!(values[5], "3");
    assert_eq!(values[6], "2");
    assert_eq!(values[7], config.scout_algorithm.label());
    assert_eq!(values[8], config.miner_algorithm.label());
    assert_eq!(values[9], config.assignment_strategy.label());
    assert_eq!(option_value(MapOptions { seed: None, ..options }, config, 4), "");
    assert_eq!(option_value(MapOptions { frequency_milli: 1050, ..options }, config, 3), "1.050");
    assert_eq!(option_value(options, config, 10), "");
}

#[test]
fn bots_are_counted_by_kind() {
    let scout = BotSnapshot { id: 0, kind: BotKind::Scout, pos: pt(0, 0), status: BotStatus::Exploring };
    let miner = BotSnapshot { id: 1, kind: BotKind::Miner, pos: pt(0, 0), status: BotStatus::Idle };
    assert_eq!(bot_counts(&vec![scout, miner, scout]), (2, 1));
    assert_eq!(bot_counts(&Vec::new()), (0, 0));
}

#[test]
fn highlighted_option_entry_skips_the_seed() {
    assert_eq!(option_row(0), 0);
    assert_eq!(option_row(3), 3);
    assert_eq!(option_row(4), 5);
    assert_eq!(option_row(7), 8);
    assert_eq!(option_row(8), 9);
    assert_eq!(option_row(20), 9);
}
