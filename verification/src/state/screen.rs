use vstd::prelude::*;

verus! {

/// The screen the application shows.
#[derive(Debug, Clone, Copy, PartialEq, Eq, Structural)]
pub enum Screen {
    Home,
    Game,
    Options,
}

/// The panel of the game screen that takes the arrow keys.
#[derive(Debug, Clone, Copy, PartialEq, Eq, Structural)]
pub enum GameFocus {
    MapPanel,
    Minerals,
}

/// What the player asks for.
#[derive(Debug, Clone, Copy, PartialEq, Eq, Structural)]
pub enum Action {
    StartGame,
    GoHome,
    GoOptions,
    ToggleMinerals,
    FocusMinerals,
    FocusMap,
    ScrollMineralsUp,
    ScrollMineralsDown,
    SelectPreviousOption,
    SelectNextOption,
    DecreaseOption,
    IncreaseOption,
    TogglePause,
    AdvanceClock,
    /// Appends a decimal digit to the generation seed.
    SeedDigit(u8),
    /// Removes the last digit of the seed; with no seed, goes home.
    DeleteSeedDigit,
}

} // verus!
