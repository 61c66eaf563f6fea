use explore::map::{MapOptions, Terrain, WorldMap};
use explore::state::game_world::GameWorld;
use explore::bots::AssignmentStrategy;
use explore::state::{Action, GameFocus, Screen, State, StoreEffect};

fn make_state() -> State {
    let mut state = State::new();
    state.terminal_size = (80, 24);
    state
}

#[test]
fn test_new_state_initializes_with_home_screen() {
    let state = State::new();
    assert_eq!(state.current_screen, Screen::Home);
}

#[test]
fn test_current_screen_returns_current_screen() {
    let state = State::new();
    assert_eq!(state.current_screen(), Screen::Home);
}

#[test]
fn test_update_with_start_game_action() {
    let mut state = make_state();
    state.update(Action::StartGame);
    assert_eq!(state.current_screen, Screen::Game);
}

#[test]
fn test_update_with_go_home_action() {
    let mut state = make_state();
    state.update(Action::StartGame);
    assert_eq!(state.current_screen, Screen::Game);
    state.update(Action::GoHome);
    assert_eq!(state.current_screen, Screen::Home);
}

#[test]
fn test_multiple_updates() {
    let mut state = make_state();
    state.update(Action::StartGame);
    assert_eq!(state.current_screen(), Screen::Game);
    state.update(Action::GoHome);
    assert_eq!(state.current_screen(), Screen::Home);
    state.update(Action::StartGame);
    assert_eq!(state.current_screen(), Screen::Game);
}

#[test]
fn test_adjusts_bot_counts_from_options() {
    let mut state = make_state();
    state.update(Action::GoOptions);

    state.selected_option = 4;
    state.update(Action::IncreaseOption);
    assert_eq!(state.bot_config.scout_count, 4);
    state.update(Action::DecreaseOption);
    assert_eq!(state.bot_config.scout_count, 3);

    state.selected_option = 5;
    state.update(Action::IncreaseOption);
    assert_eq!(state.bot_config.miner_count, 3);
    state.update(Action::DecreaseOption);
    assert_eq!(state.bot_config.miner_count, 2);
}

#[test]
fn start_game_asks_for_a_world_of_the_terminal_size() {
    let mut state = make_state();
    assert_eq!(state.update(Action::StartGame), StoreEffect::NewWorld { width: 80, height: 24 });
    assert!(state.game_world.is_none());
    assert_eq!(state.game_focus(), GameFocus::MapPanel);
    assert_eq!(state.update(Action::GoHome), StoreEffect::WorldClosed);
}

#[test]
fn settings_are_clamped_to_their_ranges() {
    let mut state = make_state();
    state.update(Action::GoOptions);
    for _ in 0..50 {
        state.update(Action::IncreaseOption);
    }
    assert_eq!(state.options.energy_count, 40);
    for _ in 0..50 {
        state.update(Action::DecreaseOption);
    }
    assert_eq!(state.options.energy_count, 1);

    state.selected_option = 2;
    for _ in 0..10 {
        state.update(Action::IncreaseOption);
    }
    assert_eq!(state.options.octaves, 6);
    for _ in 0..10 {
        state.update(Action::DecreaseOption);
    }
    assert_eq!(state.options.octaves, 1);

    state.selected_option = 3;
    for _ in 0..20 {
        state.update(Action::IncreaseOption);
    }
    assert_eq!(state.options.frequency_milli, 50);
    for _ in 0..20 {
        state.update(Action::DecreaseOption);
    }
    assert_eq!(state.options.frequency_milli, 5);

    state.selected_option = 4;
    for _ in 0..10 {
        state.update(Action::IncreaseOption);
    }
    assert_eq!(state.bot_config.scout_count, 8);
}

#[test]
fn option_selection_wraps_around() {
    let mut state = make_state();
    state.update(Action::GoOptions);
    state.update(Action::SelectPreviousOption);
    assert_eq!(state.selected_option, 8);
    state.update(Action::SelectNextOption);
    assert_eq!(state.selected_option, 0);
}

#[test]
fn algorithms_cycle_from_the_options_screen() {
    let mut state = make_state();
    state.selected_option = 6;
    state.update(Action::IncreaseOption);
    assert_eq!(state.bot_config.scout_algorithm.label(), "A* explore");
    state.update(Action::DecreaseOption);
    state.update(Action::DecreaseOption);
    assert_eq!(state.bot_config.scout_algorithm.label(), "DFS");
    state.selected_option = 8;
    state.update(Action::IncreaseOption);
    assert_eq!(state.bot_config.assignment_strategy, AssignmentStrategy::RoundRobin);
}

#[test]
fn seed_digits_build_and_shrink_the_seed() {
    let mut state = make_state();
    state.options.seed = None;
    state.update(Action::SeedDigit(4));
    state.update(Action::SeedDigit(2));
    assert_eq!(state.options.seed, Some(42));
    state.update(Action::SeedDigit(12));
    assert_eq!(state.options.seed, Some(42));
    assert_eq!(state.update(Action::DeleteSeedDigit), StoreEffect::Nothing);
    assert_eq!(state.options.seed, Some(4));
    state.update(Action::DeleteSeedDigit);
    assert_eq!(state.options.seed, None);
    state.current_screen = Screen::Options;
    assert_eq!(state.update(Action::DeleteSeedDigit), StoreEffect::WorldClosed);
    assert_eq!(state.current_screen(), Screen::Home);
}

#[test]
fn seed_that_would_overflow_is_kept() {
    let mut state = make_state();
    state.options.seed = Some(4_294_967_29);
    state.update(Action::SeedDigit(5));
    assert_eq!(state.options.seed, Some(4_294_967_295));
    state.update(Action::SeedDigit(0));
    assert_eq!(state.options.seed, Some(4_294_967_295));
}

#[test]
fn pause_reaches_the_game_in_progress() {
    let mut state = make_state();
    state.update(Action::StartGame);
    let mut map = WorldMap::new(8, 8);
    map.set_options(MapOptions { seed: Some(1), ..MapOptions::default() });
    assert!(map.install_terrain(1, vec![Terrain::Plains; 64]));
    state.init_game_world(GameWorld::new(map, vec![1], AssignmentStrategy::LeastAssigned));
    state.update(Action::TogglePause);
    assert!(state.game_world.as_ref().unwrap().clock.is_paused());
    state.update(Action::TogglePause);
    assert!(!state.game_world.as_ref().unwrap().clock.is_paused());
}

#[test]
fn minerals_panel_focus_follows_the_keys() {
    let mut state = make_state();
    state.update(Action::StartGame);
    let mut map = WorldMap::new(8, 8);
    map.set_options(MapOptions { seed: Some(3), ..MapOptions::default() });
    assert!(map.install_terrain(3, vec![Terrain::Plains; 64]));
    state.init_game_world(GameWorld::new(map, Vec::new(), AssignmentStrategy::LeastAssigned));
    state.update(Action::FocusMinerals);
    assert_eq!(state.game_focus(), GameFocus::Minerals);
    assert_eq!(state.game_render.minerals_focus, Some(0));
    state.update(Action::ScrollMineralsDown);
    assert_eq!(state.game_render.minerals_focus, Some(1));
    state.update(Action::ScrollMineralsUp);
    state.update(Action::ScrollMineralsUp);
    assert_eq!(state.game_render.minerals_focus, Some(0));
    state.update(Action::FocusMap);
    assert_eq!(state.game_render.minerals_focus, None);
    state.update(Action::ScrollMineralsDown);
    assert_eq!(state.game_render.minerals_scroll, 1);
}

#[test]
fn options_screen_ends_the_game_in_progress() {
    let mut state = make_state();
    state.update(Action::StartGame);
    let mut map = WorldMap::new(8, 8);
    map.set_options(MapOptions { seed: Some(2), ..MapOptions::default() });
    assert!(map.install_terrain(2, vec![Terrain::Plains; 64]));
    state.init_game_world(GameWorld::new(map, vec![1], AssignmentStrategy::LeastAssigned));
    assert!(state.game_world.is_some());
    assert_eq!(state.update(Action::GoOptions), StoreEffect::WorldClosed);
    assert_eq!(state.current_screen(), Screen::Options);
    assert!(state.game_world.is_none());
}
