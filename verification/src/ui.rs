//! What the user interface shows, as far as it follows from what the engine
//! reports.

use crate::api::{game_views, Game};
use crate::manager::{Event, EventView};
use vstd::prelude::*;
use vstd::string::StringExecFns;

verus! {

/// The screen that the window shows.
#[derive(PartialEq, Debug)]
pub enum Screen {
    NothingYet,
    Error { message: String, next: Box<Screen> },
    AuthKeyInput,
    Games,
    Settings,
}

impl Screen {
    /// Whether the row of actions stands above the screen: it does above the
    /// games and above an error.
    pub fn should_show_actions(&self) -> (r: bool)
        ensures
            r == (*self is Games || *self is Error),
    {
        match self {
            Screen::Games => true,
            Screen::Error { .. } => true,
            _ => false,
        }
    }
}

impl Clone for Screen {
    fn clone(&self) -> (r: Self)
        ensures
            r == *self,
        decreases self,
    {
        match self {
            Screen::NothingYet => Screen::NothingYet,
            Screen::Error { message, next } => Screen::Error {
                message: message.clone(),
                next: Box::new((&**next).clone()),
            },
            Screen::AuthKeyInput => Screen::AuthKeyInput,
            Screen::Games => Screen::Games,
            Screen::Settings => Screen::Settings,
        }
    }
}

impl Default for Screen {
    fn default() -> (r: Self)
        ensures
            r == Screen::NothingYet,
    {
        Screen::NothingYet
    }
}

/// What the screen for the authentication key reports.
#[derive(Clone, Debug)]
pub enum AuthKeyMessage {
    InputChanged(String),
    Save,
}

/// What the window holds besides its widgets: the screen, the status line
/// and the games.
#[derive(Debug)]
pub struct UiModel {
    pub screen: Screen,
    pub status_text: String,
    pub games: Vec<Game>,
}

impl UiModel {
    /// The window at its start: it shows the games where a key is stored,
    /// and asks for a key where none is.
    pub fn new(has_auth_key: bool) -> (r: Self)
        ensures
            r.screen == if has_auth_key {
                Screen::Games
            } else {
                Screen::AuthKeyInput
            },
            r.status_text@ == Seq::<char>::empty(),
            r.games@ == Seq::<Game>::empty(),
    {
        UiModel {
            screen: if has_auth_key {
                Screen::Games
            } else {
                Screen::AuthKeyInput
            },
            status_text: String::new(),
            games: Vec::new(),
        }
    }

    /// Takes in what the engine reports. A successful authentication shows
    /// in the status line. A failed one brings the error screen, which leads
    /// on to the input of a key. New games take the place of the games
    /// shown. A player's profile changes nothing.
    pub fn handle_event(&mut self, event: Event)
        ensures
            match event@ {
                EventView::AuthenticationSuccess => {
                    &&& final(self).status_text@ == "Authentication Successful"@
                    &&& final(self).screen == old(self).screen
                    &&& final(self).games == old(self).games
                },
                EventView::AuthenticationFailure => {
                    &&& final(self).screen matches Screen::Error { message, next }
                    &&& message@ == "Authentication Key error"@
                    &&& *next == Screen::AuthKeyInput
                    &&& final(self).status_text == old(self).status_text
                    &&& final(self).games == old(self).games
                },
                EventView::UpdatedGames(games) => {
                    &&& game_views(final(self).games@) == games
                    &&& final(self).screen == old(self).screen
                    &&& final(self).status_text == old(self).status_text
                },
                EventView::UpdatedPlayer(_) => *final(self) == *old(self),
            },
    {
        match event {
            Event::AuthenticationSuccess => {
                self.status_text = String::from_str("Authentication Successful");
            },
            Event::AuthenticationFailure => {
                self.screen = Screen::Error {
                    message: String::from_str("Authentication Key error"),
                    next: Box::new(Screen::AuthKeyInput),
                };
            },
            Event::UpdatedGames(games) => {
                self.games = games;
            },
            Event::UpdatedPlayer(_) => {},
        }
    }

    /// The user has entered a key: the games are shown while the key is
    /// being checked.
    pub fn auth_key_saved(&mut self)
        ensures
            final(self).screen == Screen::Games,
            final(self).status_text@ == "Authenticating"@,
            final(self).games == old(self).games,
    {
        self.screen = Screen::Games;
        self.status_text = String::from_str("Authenticating");
    }

    /// Shows the given screen.
    pub fn set_screen(&mut self, screen: Screen)
        ensures
            final(self).screen == screen,
            final(self).status_text == old(self).status_text,
            final(self).games == old(self).games,
    {
        self.screen = screen;
    }
}

} // verus!
