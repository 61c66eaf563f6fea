use vstd::prelude::*;

use crate::bots::manager::BotConfig;
use crate::map::minerals::listed_minerals;
use crate::map::MapOptions;
use crate::state::clock::spec_toggle_pause;
use crate::state::game_world::{GameWorld, WorldView};
use crate::state::screen::{Action, GameFocus, Screen};

verus! {

/// How many settings the options screen lists.
pub const OPTION_COUNT: usize = 9;

/// Scrolling and highlighting of the minerals panel.
#[derive(Debug, Clone, Copy, PartialEq, Eq, Structural)]
pub struct GameRenderState {
    pub minerals_scroll: u16,
    pub minerals_focus: Option<usize>,
}

impl GameRenderState {
    pub fn new() -> (r: GameRenderState)
        ensures
            r == (GameRenderState { minerals_scroll: 0, minerals_focus: None }),
    {
        GameRenderState { minerals_scroll: 0, minerals_focus: None }
    }
}

/// What the application has to do after an update.
#[derive(Debug, Clone, Copy, PartialEq, Eq, Structural)]
pub enum StoreEffect {
    Nothing,
    /// Start a game on a map of this size (the previous game, if any, is over).
    NewWorld { width: usize, height: usize },
    /// The game in progress, if any, is over.
    WorldClosed,
}

/// The application state: the screen shown, the focused panel, the game in
/// progress, the minerals panel, the settings and the terminal size.
pub struct State {
    pub current_screen: Screen,
    pub game_focus: GameFocus,
    pub game_world: Option<GameWorld>,
    pub game_render: GameRenderState,
    pub options: MapOptions,
    pub bot_config: BotConfig,
    pub selected_option: usize,
    pub terminal_size: (u16, u16),
}

pub struct StateView {
    pub current_screen: Screen,
    pub game_focus: GameFocus,
    pub game_world: Option<WorldView>,
    pub game_render: GameRenderState,
    pub options: MapOptions,
    pub bot_config: BotConfig,
    pub selected_option: usize,
    pub terminal_size: (u16, u16),
}

impl View for State {
    type V = StateView;

    open spec fn view(&self) -> StateView {
        StateView {
            current_screen: self.current_screen,
            game_focus: self.game_focus,
            game_world: match self.game_world {
                Some(w) => Some(w@),
                None => None,
            },
            game_render: self.game_render,
            options: self.options,
            bot_config: self.bot_config,
            selected_option: self.selected_option,
            terminal_size: self.terminal_size,
        }
    }
}

/// The setting `selected` after one step up (`increase`) or down: mineral counts
/// between 1 and 40, terrain detail between 1 and 6, feature scale between 5 and 50
/// thousandths in steps of 5, bot counts between 1 and 8, algorithms and strategy
/// cycling through their lists.
pub open spec fn spec_adjust(options: MapOptions, config: BotConfig, selected: usize, increase: bool) -> (MapOptions, BotConfig) {
    let up_to = |v: int, max: int| if v + 1 < max { v + 1 } else { max };
    let down_to = |v: int, min: int| if v - 1 > min { v - 1 } else { min };
    if selected == 0 {
        (MapOptions { energy_count: (if increase { up_to(options.energy_count as int, 40) } else { down_to(options.energy_count as int, 1) }) as u32, ..options }, config)
    } else if selected == 1 {
        (MapOptions { diamond_count: (if increase { up_to(options.diamond_count as int, 40) } else { down_to(options.diamond_count as int, 1) }) as u32, ..options }, config)
    } else if selected == 2 {
        (MapOptions { octaves: (if increase { up_to(options.octaves as int, 6) } else { down_to(options.octaves as int, 1) }) as usize, ..options }, config)
    } else if selected == 3 {
        (MapOptions { frequency_milli: (if increase { if options.frequency_milli + 5 < 50 { options.frequency_milli + 5 } else { 50 } } else { if options.frequency_milli - 5 > 5 { options.frequency_milli - 5 } else { 5 } }) as u32, ..options }, config)
    } else if selected == 4 {
        (options, BotConfig { scout_count: (if increase { up_to(config.scout_count as int, 8) } else { down_to(config.scout_count as int, 1) }) as u32, ..config })
    } else if selected == 5 {
        (options, BotConfig { miner_count: (if increase { up_to(config.miner_count as int, 8) } else { down_to(config.miner_count as int, 1) }) as u32, ..config })
    } else if selected == 6 {
        (options, BotConfig { scout_algorithm: if increase { crate::bots::types::ScoutAlgorithm::at_ordinal(config.scout_algorithm.ordinal() + 1int) } else { crate::bots::types::ScoutAlgorithm::at_ordinal(config.scout_algorithm.ordinal() + 4int) }, ..config })
    } else if selected == 7 {
        (options, BotConfig { miner_algorithm: if increase { crate::bots::types::MinerAlgorithm::at_ordinal(config.miner_algorithm.ordinal() + 1int) } else { crate::bots::types::MinerAlgorithm::at_ordinal(config.miner_algorithm.ordinal() + 2int) }, ..config })
    } else {
        (options, BotConfig { assignment_strategy: if increase { crate::bots::types::AssignmentStrategy::at_ordinal(config.assignment_strategy.ordinal() + 1int) } else { crate::bots::types::AssignmentStrategy::at_ordinal(config.assignment_strategy.ordinal() + 2int) }, ..config })
    }
}

/// The number of minerals on the map of the game in progress (none without a game).
pub open spec fn spec_minerals_count(s: StateView) -> nat {
    match s.game_world {
        Some(w) => listed_minerals(w.map.width as int, w.map.minerals).len(),
        None => 0,
    }
}

/// What `action` does to the state, and what the application must do after it.
pub open spec fn spec_update(s: StateView, action: Action) -> (StateView, StoreEffect) {
    match action {
        Action::StartGame => (
            StateView { current_screen: Screen::Game, game_focus: GameFocus::MapPanel, game_render: GameRenderState { minerals_scroll: 0, minerals_focus: None }, game_world: None, ..s },
            StoreEffect::NewWorld { width: s.terminal_size.0 as usize, height: s.terminal_size.1 as usize },
        ),
        Action::TogglePause => (
            StateView {
                game_world: match s.game_world {
                    Some(w) => Some(WorldView { clock: spec_toggle_pause(w.clock), ..w }),
                    None => None,
                },
                ..s
            },
            StoreEffect::Nothing,
        ),
        Action::GoHome => (StateView { current_screen: Screen::Home, game_focus: GameFocus::MapPanel, game_world: None, ..s }, StoreEffect::WorldClosed),
        Action::GoOptions => (StateView { current_screen: Screen::Options, game_focus: GameFocus::MapPanel, selected_option: 0, game_world: None, ..s }, StoreEffect::WorldClosed),
        Action::FocusMinerals => (
            StateView {
                game_focus: GameFocus::Minerals,
                game_render: if s.game_render.minerals_focus is None && spec_minerals_count(s) > 0 {
                    GameRenderState { minerals_focus: Some(0), ..s.game_render }
                } else {
                    s.game_render
                },
                ..s
            },
            StoreEffect::Nothing,
        ),
        Action::FocusMap => (StateView { game_focus: GameFocus::MapPanel, game_render: GameRenderState { minerals_focus: None, ..s.game_render }, ..s }, StoreEffect::Nothing),
        Action::ScrollMineralsUp => (
            StateView {
                game_render: match s.game_render.minerals_focus {
                    Some(f) => GameRenderState { minerals_focus: Some(if f > 0 { (f - 1) as usize } else { 0 }), ..s.game_render },
                    None => GameRenderState { minerals_scroll: if s.game_render.minerals_scroll > 0 { (s.game_render.minerals_scroll - 1) as u16 } else { 0 }, ..s.game_render },
                },
                ..s
            },
            StoreEffect::Nothing,
        ),
        Action::ScrollMineralsDown => (
            StateView {
                game_render: match s.game_render.minerals_focus {
                    Some(f) => GameRenderState { minerals_focus: Some((f + 1) as usize), ..s.game_render },
                    None => GameRenderState { minerals_scroll: if s.game_render.minerals_scroll < u16::MAX { (s.game_render.minerals_scroll + 1) as u16 } else { u16::MAX }, ..s.game_render },
                },
                ..s
            },
            StoreEffect::Nothing,
        ),
        Action::SelectPreviousOption => (StateView { selected_option: ((s.selected_option + OPTION_COUNT - 1) % OPTION_COUNT as int) as usize, ..s }, StoreEffect::Nothing),
        Action::SelectNextOption => (StateView { selected_option: ((s.selected_option + 1) % OPTION_COUNT as int) as usize, ..s }, StoreEffect::Nothing),
        Action::DecreaseOption => {
            let (o, c) = spec_adjust(s.options, s.bot_config, s.selected_option, false);
            (StateView { options: o, bot_config: c, ..s }, StoreEffect::Nothing)
        },
        Action::IncreaseOption => {
            let (o, c) = spec_adjust(s.options, s.bot_config, s.selected_option, true);
            (StateView { options: o, bot_config: c, ..s }, StoreEffect::Nothing)
        },
        Action::ToggleMinerals => (s, StoreEffect::Nothing),
        Action::AdvanceClock => (s, StoreEffect::Nothing),
        Action::SeedDigit(d) => {
            let current = match s.options.seed { Some(v) => v as int, None => 0 };
            let next = current * 10 + d;
            if d < 10 && next <= u32::MAX {
                (StateView { options: MapOptions { seed: Some(next as u32), ..s.options }, ..s }, StoreEffect::Nothing)
            } else {
                (s, StoreEffect::Nothing)
            }
        },
        Action::DeleteSeedDigit => match s.options.seed {
            Some(v) => (StateView { options: MapOptions { seed: if v >= 10 { Some((v / 10) as u32) } else { None }, ..s.options }, ..s }, StoreEffect::Nothing),
            None => (StateView { current_screen: Screen::Home, game_focus: GameFocus::MapPanel, game_world: None, ..s }, StoreEffect::WorldClosed),
        },
    }
}

/// The settings lie in the ranges the options screen offers: 1 to 40 deposits of
/// each kind, terrain detail 1 to 6, feature scale 5 to 50 thousandths, 1 to 8
/// bots of each kind.
pub open spec fn settings_in_range(o: MapOptions, c: BotConfig) -> bool {
    &&& 1 <= o.energy_count <= 40
    &&& 1 <= o.diamond_count <= 40
    &&& 1 <= o.octaves <= 6
    &&& 5 <= o.frequency_milli <= 50
    &&& 1 <= c.scout_count <= 8
    &&& 1 <= c.miner_count <= 8
}

/// No action takes a setting out of its range.
pub proof fn lemma_settings_stay_in_range(s: StateView, action: Action)
    requires
        settings_in_range(s.options, s.bot_config),
    ensures
        settings_in_range(spec_update(s, action).0.options, spec_update(s, action).0.bot_config),
{
}

/// Stepping the selected setting forward and back again, or back and forward
/// again, returns to it.
pub proof fn lemma_option_selection_round_trip(s: StateView)
    requires
        s.selected_option < OPTION_COUNT,
    ensures
        spec_update(spec_update(s, Action::SelectNextOption).0, Action::SelectPreviousOption).0 == s,
        spec_update(spec_update(s, Action::SelectPreviousOption).0, Action::SelectNextOption).0 == s,
{
}

/// One step of a bounded setting: up to `hi` at most, down to 1 at least.
pub open spec fn clamped_step(v: int, hi: int, increase: bool) -> int {
    if increase { if v + 1 < hi { v + 1 } else { hi } } else { if v - 1 > 1 { v - 1 } else { 1 } }
}

/// Stepping a deposit count, the terrain detail or a bot count moves it by one
/// within its range (1 to 40, 1 to 6, 1 to 8) and changes no other setting;
/// stepping an algorithm or the strategy moves it to the choice after or before
/// it (as `next` and `previous` give).
pub proof fn lemma_adjust_steps_one_setting(o: MapOptions, c: BotConfig, selected: usize, increase: bool)
    ensures
        ({
            let (o2, c2) = spec_adjust(o, c, selected, increase);
            &&& selected == 0 ==> o2 == (MapOptions { energy_count: clamped_step(o.energy_count as int, 40, increase) as u32, ..o }) && c2 == c
            &&& selected == 1 ==> o2 == (MapOptions { diamond_count: clamped_step(o.diamond_count as int, 40, increase) as u32, ..o }) && c2 == c
            &&& selected == 2 ==> o2 == (MapOptions { octaves: clamped_step(o.octaves as int, 6, increase) as usize, ..o }) && c2 == c
            &&& selected == 4 ==> o2 == o && c2 == (BotConfig { scout_count: clamped_step(c.scout_count as int, 8, increase) as u32, ..c })
            &&& selected == 5 ==> o2 == o && c2 == (BotConfig { miner_count: clamped_step(c.miner_count as int, 8, increase) as u32, ..c })
            &&& selected == 6 ==> o2 == o && c2 == (BotConfig { scout_algorithm: crate::bots::types::ScoutAlgorithm::at_ordinal(c.scout_algorithm.ordinal() + if increase { 1int } else { 4int }), ..c })
            &&& selected == 7 ==> o2 == o && c2 == (BotConfig { miner_algorithm: crate::bots::types::MinerAlgorithm::at_ordinal(c.miner_algorithm.ordinal() + if increase { 1int } else { 2int }), ..c })
            &&& selected >= 8 ==> o2 == o && c2 == (BotConfig { assignment_strategy: crate::bots::types::AssignmentStrategy::at_ordinal(c.assignment_strategy.ordinal() + if increase { 1int } else { 2int }), ..c })
        }),
{
}

/// Stepping the feature scale (setting 3) moves it by 5 thousandths, down to 5 at
/// least or up to 50 at most, and changes no other setting.
pub proof fn lemma_feature_scale_steps_by_five(o: MapOptions, c: BotConfig, increase: bool)
    ensures
        ({
            let (o2, c2) = spec_adjust(o, c, 3, increase);
            let f = o.frequency_milli as int;
            &&& c2 == c
            &&& o2 == (MapOptions { frequency_milli: o2.frequency_milli, ..o })
            &&& increase ==> o2.frequency_milli == (if f + 5 <= 50 { f + 5 } else { 50 })
            &&& !increase ==> o2.frequency_milli == (if f >= 10 { f - 5 } else { 5 })
        }),
{
}

/// A bounded setting in its range stays in it after a step.
pub proof fn lemma_clamped_step_in_range(v: int, hi: int, increase: bool)
    requires
        1 <= v <= hi,
    ensures
        1 <= clamped_step(v, hi, increase) <= hi,
        increase ==> clamped_step(v, hi, increase) == if v + 1 < hi { v + 1 } else { hi },
        !increase ==> clamped_step(v, hi, increase) == if v - 1 > 1 { v - 1 } else { 1 },
{
}

/// A game is only ever alive on the game screen: off it there is no world.
pub open spec fn world_only_in_game(s: StateView) -> bool {
    s.current_screen != Screen::Game ==> s.game_world is None
}

/// Every action keeps the world confined to the game screen.
pub proof fn lemma_world_only_in_game(s: StateView, action: Action)
    requires
        world_only_in_game(s),
    ensures
        world_only_in_game(spec_update(s, action).0),
{
}

/// Pausing twice gives back the state as it was.
pub proof fn lemma_pause_twice_restores_state(s: StateView)
    ensures
        spec_update(spec_update(s, Action::TogglePause).0, Action::TogglePause).0 == s,
{
}

/// Leaving for the home screen always ends the game in progress, and starting a
/// game always asks for a fresh world the size of the terminal.
pub proof fn lemma_home_closes_and_start_opens(s: StateView)
    ensures
        spec_update(s, Action::GoHome) == (StateView { current_screen: Screen::Home, game_focus: GameFocus::MapPanel, game_world: None, ..s }, StoreEffect::WorldClosed),
        spec_update(s, Action::StartGame).0.game_world is None,
        spec_update(s, Action::StartGame).0.current_screen == Screen::Game,
        spec_update(s, Action::StartGame).1 == (StoreEffect::NewWorld { width: s.terminal_size.0 as usize, height: s.terminal_size.1 as usize }),
{
}

impl State {
    /// The game in progress, if any, keeps the world invariant.
    pub open spec fn wf(&self) -> bool {
        self.game_world matches Some(w) ==> w.wf()
    }

    /// The home screen with default settings, no game and an unknown terminal size.
    pub fn new() -> (s: State)
        ensures
            s.wf(),
            s@ == (StateView {
                current_screen: Screen::Home,
                game_focus: GameFocus::MapPanel,
                game_world: None,
                game_render: GameRenderState { minerals_scroll: 0, minerals_focus: None },
                options: MapOptions::spec_default(),
                bot_config: BotConfig::spec_default(),
                selected_option: 0,
                terminal_size: (0, 0),
            }),
    {
        State {
            current_screen: Screen::Home,
            game_focus: GameFocus::MapPanel,
            game_world: None,
            game_render: GameRenderState::new(),
            options: MapOptions::default(),
            bot_config: BotConfig::default(),
            selected_option: 0,
            terminal_size: (0, 0),
        }
    }

    /// The counters an update may step up stay below their type's maximum, and the
    /// selected setting and the focused mineral can move on.
    pub open spec fn update_fits(s: StateView, action: Action) -> bool {
        &&& (action == Action::SelectPreviousOption ==> s.selected_option + OPTION_COUNT <= usize::MAX)
        &&& (action == Action::SelectNextOption ==> s.selected_option + 1 <= usize::MAX)
        &&& (action == Action::ScrollMineralsDown ==> (s.game_render.minerals_focus matches Some(f) ==> f + 1 <= usize::MAX))
        &&& (action == Action::IncreaseOption ==> {
            &&& (s.selected_option == 0 ==> s.options.energy_count < u32::MAX)
            &&& (s.selected_option == 1 ==> s.options.diamond_count < u32::MAX)
            &&& (s.selected_option == 2 ==> s.options.octaves < usize::MAX)
            &&& (s.selected_option == 4 ==> s.bot_config.scout_count < u32::MAX)
            &&& (s.selected_option == 5 ==> s.bot_config.miner_count < u32::MAX)
        })
    }

    /// Whether `update` can be called with `action` (see `update_fits`).
    pub fn can_update(&self, action: Action) -> (b: bool)
        ensures
            b == Self::update_fits(self@, action),
    {
        match action {
            Action::SelectPreviousOption => self.selected_option <= usize::MAX - OPTION_COUNT,
            Action::SelectNextOption => self.selected_option < usize::MAX,
            Action::ScrollMineralsDown => match self.game_render.minerals_focus {
                Some(f) => f < usize::MAX,
                None => true,
            },
            Action::IncreaseOption => {
                if self.selected_option == 0 {
                    self.options.energy_count < u32::MAX
                } else if self.selected_option == 1 {
                    self.options.diamond_count < u32::MAX
                } else if self.selected_option == 2 {
                    self.options.octaves < usize::MAX
                } else if self.selected_option == 4 {
                    self.bot_config.scout_count < u32::MAX
                } else if self.selected_option == 5 {
                    self.bot_config.miner_count < u32::MAX
                } else {
                    true
                }
            },
            _ => true,
        }
    }

    /// Applies `action` (see `spec_update`) and says what the application must do.
    pub fn update(&mut self, action: Action) -> (effect: StoreEffect)
        requires
            old(self).wf(),
            Self::update_fits(old(self)@, action),
        ensures
            final(self).wf(),
            (final(self)@, effect) == spec_update(old(self)@, action),
            world_only_in_game(old(self)@) ==> world_only_in_game(final(self)@),
    {
        match action {
            Action::StartGame => {
                self.current_screen = Screen::Game;
                self.game_focus = GameFocus::MapPanel;
                self.game_render = GameRenderState::new();
                self.game_world = None;
                StoreEffect::NewWorld { width: self.terminal_size.0 as usize, height: self.terminal_size.1 as usize }
            },
            Action::TogglePause => {
                match self.game_world {
                    Some(ref mut world) => {
                        world.toggle_pause();
                    },
                    None => {},
                }
                StoreEffect::Nothing
            },
            Action::GoHome => {
                self.current_screen = Screen::Home;
                self.game_focus = GameFocus::MapPanel;
                self.game_world = None;
                StoreEffect::WorldClosed
            },
            Action::GoOptions => {
                self.current_screen = Screen::Options;
                self.game_focus = GameFocus::MapPanel;
                self.selected_option = 0;
                self.game_world = None;
                StoreEffect::WorldClosed
            },
            Action::FocusMinerals => {
                self.game_focus = GameFocus::Minerals;
                if self.game_render.minerals_focus.is_none() && self.minerals_count() > 0 {
                    self.game_render.minerals_focus = Some(0);
                }
                StoreEffect::Nothing
            },
            Action::FocusMap => {
                self.game_focus = GameFocus::MapPanel;
                self.game_render.minerals_focus = None;
                StoreEffect::Nothing
            },
            Action::ScrollMineralsUp => {
                match self.game_render.minerals_focus {
                    Some(focus) => self.game_render.minerals_focus = Some(focus.saturating_sub(1)),
                    None => self.game_render.minerals_scroll = self.game_render.minerals_scroll.saturating_sub(1),
                }
                StoreEffect::Nothing
            },
            Action::ScrollMineralsDown => {
                match self.game_render.minerals_focus {
                    Some(focus) => self.game_render.minerals_focus = Some(focus + 1),
                    None => self.game_render.minerals_scroll = self.game_render.minerals_scroll.saturating_add(1),
                }
                StoreEffect::Nothing
            },
            Action::SelectPreviousOption => {
                self.selected_option = (self.selected_option + OPTION_COUNT - 1) % OPTION_COUNT;
                StoreEffect::Nothing
            },
            Action::SelectNextOption => {
                self.selected_option = (self.selected_option + 1) % OPTION_COUNT;
                StoreEffect::Nothing
            },
            Action::DecreaseOption => {
                self.adjust_option(false);
                StoreEffect::Nothing
            },
            Action::IncreaseOption => {
                self.adjust_option(true);
                StoreEffect::Nothing
            },
            Action::ToggleMinerals => StoreEffect::Nothing,
            Action::AdvanceClock => StoreEffect::Nothing,
            Action::SeedDigit(d) => {
                let current: u32 = match self.options.seed {
                    Some(v) => v,
                    None => 0,
                };
                if d < 10 && current <= (u32::MAX - d as u32) / 10 {
                    self.options.seed = Some(current * 10 + d as u32);
                }
                StoreEffect::Nothing
            },
            Action::DeleteSeedDigit => match self.options.seed {
                Some(v) => {
                    self.options.seed = if v >= 10 { Some(v / 10) } else { None };
                    StoreEffect::Nothing
                },
                None => {
                    self.current_screen = Screen::Home;
                    self.game_focus = GameFocus::MapPanel;
                    self.game_world = None;
                    StoreEffect::WorldClosed
                },
            },
        }
    }

    fn adjust_option(&mut self, increase: bool)
        requires
            increase ==> Self::update_fits(old(self)@, Action::IncreaseOption),
        ensures
            final(self)@ == (StateView {
                options: spec_adjust(old(self)@.options, old(self)@.bot_config, old(self)@.selected_option, increase).0,
                bot_config: spec_adjust(old(self)@.options, old(self)@.bot_config, old(self)@.selected_option, increase).1,
                ..old(self)@
            }),
    {
        match self.selected_option {
            0 => {
                self.options.energy_count = if increase {
                    let v = self.options.energy_count + 1;
                    if v < 40 { v } else { 40 }
                } else {
                    let v = self.options.energy_count.saturating_sub(1);
                    if v > 1 { v } else { 1 }
                };
            },
            1 => {
                self.options.diamond_count = if increase {
                    let v = self.options.diamond_count + 1;
                    if v < 40 { v } else { 40 }
                } else {
                    let v = self.options.diamond_count.saturating_sub(1);
                    if v > 1 { v } else { 1 }
                };
            },
            2 => {
                self.options.octaves = if increase {
                    let v = self.options.octaves + 1;
                    if v < 6 { v } else { 6 }
                } else {
                    let v = self.options.octaves.saturating_sub(1);
                    if v > 1 { v } else { 1 }
                };
            },
            3 => {
                self.options.frequency_milli = if increase {
                    let v = self.options.frequency_milli.saturating_add(5);
                    if v < 50 { v } else { 50 }
                } else {
                    let v = self.options.frequency_milli.saturating_sub(5);
                    if v > 5 { v } else { 5 }
                };
            },
            4 => {
                self.bot_config.scout_count = if increase {
                    let v = self.bot_config.scout_count + 1;
                    if v < 8 { v } else { 8 }
                } else {
                    let v = self.bot_config.scout_count.saturating_sub(1);
                    if v > 1 { v } else { 1 }
                };
            },
            5 => {
                self.bot_config.miner_count = if increase {
                    let v = self.bot_config.miner_count + 1;
                    if v < 8 { v } else { 8 }
                } else {
                    let v = self.bot_config.miner_count.saturating_sub(1);
                    if v > 1 { v } else { 1 }
                };
            },
            6 => {
                self.bot_config.scout_algorithm = if increase {
                    self.bot_config.scout_algorithm.next()
                } else {
                    self.bot_config.scout_algorithm.previous()
                };
            },
            7 => {
                self.bot_config.miner_algorithm = if increase {
                    self.bot_config.miner_algorithm.next()
                } else {
                    self.bot_config.miner_algorithm.previous()
                };
            },
            _ => {
                self.bot_config.assignment_strategy = if increase {
                    self.bot_config.assignment_strategy.next()
                } else {
                    self.bot_config.assignment_strategy.previous()
                };
            },
        }
    }

    fn minerals_count(&self) -> (n: usize)
        requires
            self.wf(),
        ensures
            n == spec_minerals_count(self@),
    {
        match &self.game_world {
            Some(world) => world.world_map().minerals().len(),
            None => 0,
        }
    }

    /// Installs the game that the application started after `NewWorld`.
    pub fn init_game_world(&mut self, world: GameWorld)
        requires
            world.wf(),
        ensures
            final(self).wf(),
            final(self)@ == (StateView { game_world: Some(world@), ..old(self)@ }),
    {
        self.game_world = Some(world);
    }

    pub fn current_screen(&self) -> (s: Screen)
        ensures
            s == self@.current_screen,
    {
        self.current_screen
    }

    pub fn game_focus(&self) -> (f: GameFocus)
        ensures
            f == self@.game_focus,
    {
        self.game_focus
    }
}

} // verus!
