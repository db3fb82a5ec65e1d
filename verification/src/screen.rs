//! The screens around a run and the bests of the session.

use vstd::prelude::*;

verus! {

/// The screens of the program.
#[derive(Clone, Copy, Debug, PartialEq, Eq, Structural)]
pub enum Screen {
    Splash,
    Menu,
    About,
    Game,
    Exit,
    Lost,
}

/// The screen that is shown and the best score and round of the session.
/// A best of zero means that no run has ended yet.
#[derive(Clone, Copy, Debug, PartialEq, Eq, Structural)]
pub struct GameScreen {
    pub current_screen: Screen,
    pub highscore: u32,
    pub highround: u16,
}

impl Default for GameScreen {
    fn default() -> (screen: GameScreen)
        ensures
            screen == (GameScreen { current_screen: Screen::Splash, highscore: 0, highround: 0 }),
    {
        GameScreen { current_screen: Screen::Splash, highscore: 0, highround: 0 }
    }
}

impl GameScreen {
    /// Whether `score` beats the best score of an earlier run.
    pub open spec fn new_highscore(self, score: u32) -> bool {
        self.highscore != 0 && score > self.highscore
    }

    /// Whether `round` beats the best round of an earlier run.
    pub open spec fn new_highround(self, round: u16) -> bool {
        self.highround != 0 && round > self.highround
    }

    /// The bests of the session once a run has ended with `score` in `round`.
    pub open spec fn recorded(self, score: u32, round: u16) -> GameScreen {
        GameScreen {
            highscore: if score > self.highscore {
                score
            } else {
                self.highscore
            },
            highround: if round > self.highround {
                round
            } else {
                self.highround
            },
            ..self
        }
    }

    pub fn is_new_highscore(&self, score: u32) -> (best: bool)
        ensures
            best == self.new_highscore(score),
    {
        self.highscore != 0 && score > self.highscore
    }

    pub fn is_new_highround(&self, round: u16) -> (best: bool)
        ensures
            best == self.new_highround(round),
    {
        self.highround != 0 && round > self.highround
    }

    /// Keeps the score and the round of a run that has ended where they
    /// beat the bests of the session.
    pub fn record(&mut self, score: u32, round: u16)
        ensures
            *final(self) == old(self).recorded(score, round),
    {
        if score > self.highscore {
            self.highscore = score;
        }
        if round > self.highround {
            self.highround = round;
        }
    }
}

/// Leaves the game for the menu when the escape key is released while the
/// game's screen is shown.
pub fn input_system(game_screen: &mut GameScreen, escape_released: bool)
    ensures
        *final(game_screen) == if old(game_screen).current_screen == Screen::Game
            && escape_released {
            GameScreen { current_screen: Screen::Menu, ..*old(game_screen) }
        } else {
            *old(game_screen)
        },
{
    if game_screen.current_screen == Screen::Game && escape_released {
        game_screen.current_screen = Screen::Menu;
    }
}

} // verus!
