use vstd::prelude::*;

use crate::state::screen::{Action, GameFocus, Screen};

verus! {

/// The keys the application tells apart.
#[derive(Debug, Clone, Copy, PartialEq, Eq, Structural)]
pub enum Key {
    Char(char),
    Up,
    Down,
    Left,
    Right,
    Enter,
    Esc,
    Backspace,
    Other,
}

/// What a key press asks of the application.
#[derive(Debug, Clone, Copy, PartialEq, Eq, Structural)]
pub enum KeyCommand {
    Quit,
    Update(Action),
    /// Run the paused game for one second.
    StepPaused,
    Ignore,
}

/// The key bindings: `q` quits anywhere; on the home screen `g` starts a game and
/// `o` opens the options; on the options screen Esc goes home, digits extend the
/// seed and Backspace removes its last digit (going home when there is none), up/down
/// (or `k`/`j`) choose a setting, left/right (or `h`/`l`) change it and Enter starts
/// a game; in a game `h` goes home, `r` restarts, space pauses, right (or `l`, `L`)
/// steps a paused game, `1` and `2` focus the map and the mineral list (only `1`
/// from the list) and up/down (or `k`/`j`) scroll the list.
pub open spec fn spec_key_command(screen: Screen, focus: GameFocus, paused: bool, key: Key) -> KeyCommand {
    if key == Key::Char('q') {
        KeyCommand::Quit
    } else {
        match screen {
            Screen::Home => match key {
                Key::Char('g') => KeyCommand::Update(Action::StartGame),
                Key::Char('o') => KeyCommand::Update(Action::GoOptions),
                _ => KeyCommand::Ignore,
            },
            Screen::Options => match key {
                Key::Esc => KeyCommand::Update(Action::GoHome),
                Key::Backspace => KeyCommand::Update(Action::DeleteSeedDigit),
                Key::Char(c) if '0' <= c && c <= '9' => KeyCommand::Update(Action::SeedDigit(((c as u32) - 48) as u8)),
                Key::Up | Key::Char('k') => KeyCommand::Update(Action::SelectPreviousOption),
                Key::Down | Key::Char('j') => KeyCommand::Update(Action::SelectNextOption),
                Key::Left | Key::Char('h') => KeyCommand::Update(Action::DecreaseOption),
                Key::Right | Key::Char('l') => KeyCommand::Update(Action::IncreaseOption),
                Key::Enter => KeyCommand::Update(Action::StartGame),
                _ => KeyCommand::Ignore,
            },
            Screen::Game => match key {
                Key::Char('h') => KeyCommand::Update(Action::GoHome),
                Key::Char('r') => KeyCommand::Update(Action::StartGame),
                Key::Char(' ') => KeyCommand::Update(Action::TogglePause),
                Key::Right | Key::Char('l') | Key::Char('L') => if paused { KeyCommand::StepPaused } else { KeyCommand::Ignore },
                Key::Char('1') => KeyCommand::Update(Action::FocusMap),
                Key::Char('2') => if focus == GameFocus::MapPanel { KeyCommand::Update(Action::FocusMinerals) } else { KeyCommand::Ignore },
                Key::Up | Key::Char('k') => KeyCommand::Update(Action::ScrollMineralsUp),
                Key::Down | Key::Char('j') => KeyCommand::Update(Action::ScrollMineralsDown),
                _ => KeyCommand::Ignore,
            },
        }
    }
}

/// The bindings the screens promise, whatever the focus or pause: `q` quits
/// everywhere; on the options screen left and `h` decrease the setting, right and
/// `l` increase it, up and `k` select the previous one, down and `j` the next,
/// Esc goes home, Enter starts a game, a digit extends the seed and Backspace
/// removes its last digit; on the home screen `g` starts a game and `o` opens the
/// options; in a game space pauses, `h` goes home, `r` restarts, right steps a
/// paused game, `1` and `2` focus the map and the mineral list, and up/`k` and
/// down/`j` scroll the list.
pub proof fn lemma_key_bindings(focus: GameFocus, paused: bool, screen: Screen)
    ensures
        spec_key_command(screen, focus, paused, Key::Char('q')) == KeyCommand::Quit,
        spec_key_command(Screen::Options, focus, paused, Key::Left) == KeyCommand::Update(Action::DecreaseOption),
        spec_key_command(Screen::Options, focus, paused, Key::Char('h')) == KeyCommand::Update(Action::DecreaseOption),
        spec_key_command(Screen::Options, focus, paused, Key::Right) == KeyCommand::Update(Action::IncreaseOption),
        spec_key_command(Screen::Options, focus, paused, Key::Char('l')) == KeyCommand::Update(Action::IncreaseOption),
        spec_key_command(Screen::Options, focus, paused, Key::Up) == KeyCommand::Update(Action::SelectPreviousOption),
        spec_key_command(Screen::Options, focus, paused, Key::Char('k')) == KeyCommand::Update(Action::SelectPreviousOption),
        spec_key_command(Screen::Options, focus, paused, Key::Down) == KeyCommand::Update(Action::SelectNextOption),
        spec_key_command(Screen::Options, focus, paused, Key::Char('j')) == KeyCommand::Update(Action::SelectNextOption),
        spec_key_command(Screen::Options, focus, paused, Key::Esc) == KeyCommand::Update(Action::GoHome),
        spec_key_command(Screen::Options, focus, paused, Key::Enter) == KeyCommand::Update(Action::StartGame),
        spec_key_command(Screen::Options, focus, paused, Key::Backspace) == KeyCommand::Update(Action::DeleteSeedDigit),
        forall|d: u32| d < 10 ==> #[trigger] spec_key_command(Screen::Options, focus, paused, Key::Char((48 + d) as char)) == KeyCommand::Update(Action::SeedDigit(d as u8)),
        spec_key_command(Screen::Home, focus, paused, Key::Char('g')) == KeyCommand::Update(Action::StartGame),
        spec_key_command(Screen::Home, focus, paused, Key::Char('o')) == KeyCommand::Update(Action::GoOptions),
        spec_key_command(Screen::Game, focus, paused, Key::Char(' ')) == KeyCommand::Update(Action::TogglePause),
        spec_key_command(Screen::Game, focus, paused, Key::Char('h')) == KeyCommand::Update(Action::GoHome),
        spec_key_command(Screen::Game, focus, paused, Key::Char('r')) == KeyCommand::Update(Action::StartGame),
        spec_key_command(Screen::Game, focus, paused, Key::Right) == (if paused { KeyCommand::StepPaused } else { KeyCommand::Ignore }),
        spec_key_command(Screen::Game, focus, paused, Key::Char('1')) == KeyCommand::Update(Action::FocusMap),
        spec_key_command(Screen::Game, GameFocus::MapPanel, paused, Key::Char('2')) == KeyCommand::Update(Action::FocusMinerals),
        spec_key_command(Screen::Game, focus, paused, Key::Up) == KeyCommand::Update(Action::ScrollMineralsUp),
        spec_key_command(Screen::Game, focus, paused, Key::Char('k')) == KeyCommand::Update(Action::ScrollMineralsUp),
        spec_key_command(Screen::Game, focus, paused, Key::Down) == KeyCommand::Update(Action::ScrollMineralsDown),
        spec_key_command(Screen::Game, focus, paused, Key::Char('j')) == KeyCommand::Update(Action::ScrollMineralsDown),
{
    assert forall|d: u32| d < 10 implies #[trigger] spec_key_command(Screen::Options, focus, paused, Key::Char((48 + d) as char)) == KeyCommand::Update(Action::SeedDigit(d as u8)) by {
        let c = (48 + d) as char;
        assert(c != 'q');
        assert('0' <= c && c <= '9');
        assert(((c as u32) - 48) as u8 == d as u8);
    }
}

/// What pressing `key` does on `screen` with `focus`; `paused` tells whether a game
/// in progress is paused.
pub fn key_command(screen: Screen, focus: GameFocus, paused: bool, key: Key) -> (c: KeyCommand)
    ensures
        c == spec_key_command(screen, focus, paused, key),
{
    if key == Key::Char('q') {
        return KeyCommand::Quit;
    }
    match screen {
        Screen::Home => match key {
            Key::Char('g') => KeyCommand::Update(Action::StartGame),
            Key::Char('o') => KeyCommand::Update(Action::GoOptions),
            _ => KeyCommand::Ignore,
        },
        Screen::Options => match key {
            Key::Esc => KeyCommand::Update(Action::GoHome),
            Key::Backspace => KeyCommand::Update(Action::DeleteSeedDigit),
            Key::Char(c) if '0' <= c && c <= '9' => KeyCommand::Update(Action::SeedDigit(((c as u32) - 48) as u8)),
            Key::Up | Key::Char('k') => KeyCommand::Update(Action::SelectPreviousOption),
            Key::Down | Key::Char('j') => KeyCommand::Update(Action::SelectNextOption),
            Key::Left | Key::Char('h') => KeyCommand::Update(Action::DecreaseOption),
            Key::Right | Key::Char('l') => KeyCommand::Update(Action::IncreaseOption),
            Key::Enter => KeyCommand::Update(Action::StartGame),
            _ => KeyCommand::Ignore,
        },
        Screen::Game => match key {
            Key::Char('h') => KeyCommand::Update(Action::GoHome),
            Key::Char('r') => KeyCommand::Update(Action::StartGame),
            Key::Char(' ') => KeyCommand::Update(Action::TogglePause),
            Key::Right | Key::Char('l') | Key::Char('L') => if paused { KeyCommand::StepPaused } else { KeyCommand::Ignore },
            Key::Char('1') => KeyCommand::Update(Action::FocusMap),
            Key::Char('2') => if focus == GameFocus::MapPanel { KeyCommand::Update(Action::FocusMinerals) } else { KeyCommand::Ignore },
            Key::Up | Key::Char('k') => KeyCommand::Update(Action::ScrollMineralsUp),
            Key::Down | Key::Char('j') => KeyCommand::Update(Action::ScrollMineralsDown),
            _ => KeyCommand::Ignore,
        },
    }
}

} // verus!
