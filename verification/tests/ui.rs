use civfun_gmr::api::{Game, GameId};
use civfun_gmr::manager::{Event, StoredPlayer};
use civfun_gmr::ui::{Screen, UiModel};

#[test]
fn actions_show_above_games_and_errors() {
    assert!(Screen::Games.should_show_actions());
    let error = Screen::Error { message: "x".to_string(), next: Box::new(Screen::NothingYet) };
    assert!(error.should_show_actions());
    assert!(!Screen::NothingYet.should_show_actions());
    assert!(!Screen::AuthKeyInput.should_show_actions());
    assert!(!Screen::Settings.should_show_actions());
    assert_eq!(Screen::default(), Screen::NothingYet);
    assert_eq!(error.clone(), error);
}

#[test]
fn the_window_starts_by_the_stored_key() {
    assert_eq!(UiModel::new(true).screen, Screen::Games);
    assert_eq!(UiModel::new(false).screen, Screen::AuthKeyInput);
    assert_eq!(UiModel::new(true).status_text, "");
    assert!(UiModel::new(true).games.is_empty());
}

#[test]
fn the_window_follows_the_engine() {
    let mut ui = UiModel::new(true);
    ui.handle_event(Event::AuthenticationSuccess);
    assert_eq!(ui.status_text, "Authentication Successful");
    assert_eq!(ui.screen, Screen::Games);

    ui.handle_event(Event::UpdatedGames(vec![Game { game_id: GameId(4), ..Default::default() }]));
    assert_eq!(ui.games.len(), 1);
    assert_eq!(ui.games[0].game_id, GameId(4));
    assert_eq!(ui.screen, Screen::Games);

    ui.handle_event(Event::UpdatedPlayer(StoredPlayer {
        player: Default::default(),
        image_data: vec![1],
        last_downloaded: 5,
    }));
    assert_eq!(ui.games.len(), 1);
    assert_eq!(ui.screen, Screen::Games);

    ui.handle_event(Event::AuthenticationFailure);
    assert_eq!(
        ui.screen,
        Screen::Error {
            message: "Authentication Key error".to_string(),
            next: Box::new(Screen::AuthKeyInput)
        }
    );
    assert_eq!(ui.status_text, "Authentication Successful");

    ui.auth_key_saved();
    assert_eq!(ui.screen, Screen::Games);
    assert_eq!(ui.status_text, "Authenticating");
    ui.set_screen(Screen::Settings);
    assert_eq!(ui.screen, Screen::Settings);
    assert_eq!(ui.games.len(), 1);
}
