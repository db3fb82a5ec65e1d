use kmanb::board::{BombComponent, BombState, Payload};
use kmanb::config::Config;
use kmanb::game::{
    Animation, CauseOfDeath, DeathAnimation, Game, GameEvents, GameState, Laser,
};
use kmanb::keyboard_systems::pose_bomb;
use kmanb::random::{draw_laser_powerup, laser_choice_count, picked_laser_powerup};
use kmanb::screen::{input_system, GameScreen, Screen};
use kmanb::timer::Timer;
use kmanb::ui::{
    button_system, death_animation, display, display_bombs_available, handle_event, new_round,
    scale_delay, score, ui_event_update, LaserPowerUp, PauseButton, UiComponent, DEATH_MILLIS,
};
use rand::rngs::StdRng;
use rand::SeedableRng;

fn in_game() -> GameScreen {
    GameScreen { current_screen: Screen::Game, highscore: 0, highround: 0 }
}

#[test]
fn new_round_counts_the_round() {
    let mut game = Game::new(Config::default());
    new_round(&mut game, &in_game(), LaserPowerUp::Speed);
    assert_eq!(game.round, 1);
    new_round(&mut game, &in_game(), LaserPowerUp::Speed);
    assert_eq!(game.round, 2);
    assert!(game.game_events.is_empty());
    game.round = u16::MAX;
    new_round(&mut game, &in_game(), LaserPowerUp::Speed);
    assert_eq!(game.round, u16::MAX);
}

#[test]
fn laser_powerups_make_the_laser_harder() {
    let start = Game::new(Config::default()).laser;
    assert_eq!(
        start,
        Laser { x: 0, speed: 1000, spawn_obstacles_delay: 10000, nb_obstacles: 5, obstacle_strength: 2 }
    );
    let mut game = Game::new(Config::default());
    new_round(&mut game, &in_game(), LaserPowerUp::Speed);
    assert_eq!(game.laser, Laser { speed: 900, ..start });
    new_round(&mut game, &in_game(), LaserPowerUp::ObstacleSpawnDelay);
    assert_eq!(game.laser, Laser { speed: 900, spawn_obstacles_delay: 8000, ..start });
    new_round(&mut game, &in_game(), LaserPowerUp::ObstacleSpawnCount);
    assert_eq!(game.laser, Laser { speed: 900, spawn_obstacles_delay: 8000, nb_obstacles: 7, ..start });
    new_round(&mut game, &in_game(), LaserPowerUp::ObstacleStrength);
    assert_eq!(
        game.laser,
        Laser { x: 0, speed: 900, spawn_obstacles_delay: 8000, nb_obstacles: 7, obstacle_strength: 4 }
    );
    new_round(&mut game, &in_game(), LaserPowerUp::Speed);
    assert_eq!(game.laser.speed, 810);
    assert_eq!(game.round, 5);
}

#[test]
fn scale_delay_takes_hundredths_rounded_down() {
    assert_eq!(scale_delay(10000, 80), 8000);
    assert_eq!(scale_delay(8000, 80), 6400);
    assert_eq!(scale_delay(9, 80), 7);
    assert_eq!(scale_delay(u16::MAX, 100), u16::MAX);
    assert_eq!(scale_delay(u16::MAX, 300), u16::MAX);
    assert_eq!(scale_delay(500, 0), 0);
}

#[test]
fn best_round_is_announced_once_in_a_run() {
    let screen = GameScreen { current_screen: Screen::Game, highscore: 0, highround: 2 };
    let mut game = Game::new(Config::default());
    new_round(&mut game, &screen, LaserPowerUp::Speed);
    new_round(&mut game, &screen, LaserPowerUp::Speed);
    assert!(game.game_events.is_empty());
    assert!(!game.round_stared);
    new_round(&mut game, &screen, LaserPowerUp::Speed);
    assert_eq!(game.game_events, vec![GameEvents::NewHighround]);
    assert!(game.round_stared);
    new_round(&mut game, &screen, LaserPowerUp::Speed);
    assert_eq!(game.game_events, vec![GameEvents::NewHighround]);
    assert_eq!(game.round, 4);
}

#[test]
fn first_run_of_a_session_announces_no_best() {
    let mut game = Game::new(Config::default());
    for _ in 0..5 {
        new_round(&mut game, &in_game(), LaserPowerUp::ObstacleSpawnCount);
    }
    game.score_timer = Timer::new(100, true);
    score(&mut game, &in_game(), 100);
    assert!(game.game_events.is_empty());
}

#[test]
fn first_round_never_makes_obstacles_stronger() {
    let mut seen: Vec<LaserPowerUp> = vec![];
    for seed in 0..200 {
        let mut rng = StdRng::seed_from_u64(seed);
        let kind = draw_laser_powerup(&mut rng, 1);
        assert!(kind != LaserPowerUp::ObstacleStrength);
        if !seen.contains(&kind) {
            seen.push(kind);
        }
    }
    assert_eq!(seen.len(), 3);
}

#[test]
fn later_rounds_draw_from_every_powerup() {
    let mut seen: Vec<LaserPowerUp> = vec![];
    for seed in 0..200 {
        let mut rng = StdRng::seed_from_u64(seed);
        let kind = draw_laser_powerup(&mut rng, 2);
        if !seen.contains(&kind) {
            seen.push(kind);
        }
    }
    assert_eq!(seen.len(), 4);
}

#[test]
fn powerups_are_numbered_in_the_order_of_their_declaration() {
    assert_eq!(LaserPowerUp::from_index(0), LaserPowerUp::Speed);
    assert_eq!(LaserPowerUp::from_index(1), LaserPowerUp::ObstacleSpawnDelay);
    assert_eq!(LaserPowerUp::from_index(2), LaserPowerUp::ObstacleSpawnCount);
    assert_eq!(LaserPowerUp::from_index(3), LaserPowerUp::ObstacleStrength);
    assert_eq!(LaserPowerUp::from_index(17), LaserPowerUp::ObstacleStrength);
}

#[test]
fn lost_player_ends_the_run_and_starts_the_death_animation() {
    for state in [GameState::Play, GameState::Pause] {
        let mut game = Game::new(Config::default());
        game.state = state;
        handle_event(
            &mut game,
            &in_game(),
            GameEvents::Lost(CauseOfDeath::LaserFire),
            LaserPowerUp::Speed,
        );
        assert_eq!(game.state, GameState::Death);
        assert_eq!(game.death, Some(DeathAnimation(Timer::new(DEATH_MILLIS, false))));
        assert_eq!(game.round, 0);
    }
}

#[test]
fn second_loss_does_not_restart_the_death_animation() {
    let mut game = Game::new(Config::default());
    handle_event(&mut game, &in_game(), GameEvents::Lost(CauseOfDeath::Laser), LaserPowerUp::Speed);
    let mut screen = in_game();
    death_animation(&mut game, &mut screen, 500);
    let before = game.clone();
    handle_event(&mut game, &in_game(), GameEvents::Lost(CauseOfDeath::BombFire), LaserPowerUp::Speed);
    assert_eq!(game, before);
}

#[test]
fn pause_event_stops_a_played_game_only() {
    let mut game = Game::new(Config::default());
    handle_event(&mut game, &in_game(), GameEvents::Pause, LaserPowerUp::Speed);
    assert_eq!(game.state, GameState::Pause);
    let paused = game.clone();
    handle_event(&mut game, &in_game(), GameEvents::Pause, LaserPowerUp::Speed);
    assert_eq!(game, paused);
    game.state = GameState::Death;
    let dead = game.clone();
    handle_event(&mut game, &in_game(), GameEvents::Pause, LaserPowerUp::Speed);
    assert_eq!(game, dead);
}

#[test]
fn announcements_change_nothing() {
    let mut game = Game::new(Config::default());
    let before = game.clone();
    for event in [GameEvents::NewHighscore, GameEvents::NewHighround, GameEvents::PlayerBonus] {
        handle_event(&mut game, &in_game(), event, LaserPowerUp::ObstacleStrength);
    }
    assert_eq!(game, before);
}

#[test]
fn pending_events_are_handled_in_order_and_handed_back() {
    let mut game = Game::new(Config::default());
    game.game_events = vec![
        GameEvents::NewRound,
        GameEvents::PlayerBonus,
        GameEvents::Pause,
        GameEvents::NewRound,
        GameEvents::Lost(CauseOfDeath::Laser),
        GameEvents::Pause,
    ];
    let pending = game.game_events.clone();
    let start = game.laser;
    let mut rng = StdRng::seed_from_u64(8);
    let observed = ui_event_update(&mut game, &in_game(), &mut rng);
    assert_eq!(observed, pending);
    assert!(game.game_events.is_empty());
    assert_eq!(game.round, 2);
    assert_eq!(game.state, GameState::Death);
    assert!(game.death.is_some());
    assert!(game.laser.speed <= start.speed);
    assert!(game.laser.spawn_obstacles_delay <= start.spawn_obstacles_delay);
    assert!(game.laser.nb_obstacles >= start.nb_obstacles);
    assert!(game.laser.obstacle_strength >= start.obstacle_strength);
    assert!(game.laser != start);
    let again = ui_event_update(&mut game, &in_game(), &mut rng);
    assert!(again.is_empty());
    assert_eq!(game.round, 2);
}

#[test]
fn events_raised_while_handling_wait_for_the_next_call() {
    let screen = GameScreen { current_screen: Screen::Game, highscore: 0, highround: 1 };
    let mut game = Game::new(Config::default());
    game.round = 1;
    game.game_events = vec![GameEvents::NewRound];
    let mut rng = StdRng::seed_from_u64(8);
    let observed = ui_event_update(&mut game, &screen, &mut rng);
    assert_eq!(observed, vec![GameEvents::NewRound]);
    assert_eq!(game.game_events, vec![GameEvents::NewHighround]);
    let next = ui_event_update(&mut game, &screen, &mut rng);
    assert_eq!(next, vec![GameEvents::NewHighround]);
    assert!(game.game_events.is_empty());
    assert_eq!(game.round, 2);
}

#[test]
fn score_grows_by_the_round_each_tenth_of_a_second() {
    let mut game = Game::new(Config::default());
    game.round = 3;
    score(&mut game, &in_game(), 99);
    assert_eq!(game.score, 0);
    score(&mut game, &in_game(), 1);
    assert_eq!(game.score, 3);
    for _ in 0..10 {
        score(&mut game, &in_game(), 100);
    }
    assert_eq!(game.score, 33);
    game.score = u32::MAX - 1;
    score(&mut game, &in_game(), 100);
    assert_eq!(game.score, u32::MAX);
}

#[test]
fn score_stands_still_in_round_zero_and_while_paused() {
    let mut game = Game::new(Config::default());
    score(&mut game, &in_game(), 100);
    assert_eq!(game.score, 0);
    game.round = 4;
    game.state = GameState::Pause;
    let before = game.clone();
    score(&mut game, &in_game(), 1000);
    assert_eq!(game, before);
}

#[test]
fn best_score_is_announced_once_in_a_run() {
    let screen = GameScreen { current_screen: Screen::Game, highscore: 10, highround: 0 };
    let mut game = Game::new(Config::default());
    game.round = 5;
    score(&mut game, &screen, 100);
    score(&mut game, &screen, 100);
    assert_eq!(game.score, 10);
    assert!(game.game_events.is_empty());
    score(&mut game, &screen, 100);
    assert_eq!(game.score, 15);
    assert_eq!(game.game_events, vec![GameEvents::NewHighscore]);
    assert!(game.score_stared);
    score(&mut game, &screen, 100);
    assert_eq!(game.game_events, vec![GameEvents::NewHighscore]);
}

#[test]
fn death_animation_shows_the_lost_screen_when_it_ends() {
    let mut game = Game::new(Config::default());
    let mut screen = in_game();
    death_animation(&mut game, &mut screen, 5000);
    assert_eq!(game, Game::new(Config::default()));
    assert_eq!(screen, in_game());
    handle_event(&mut game, &in_game(), GameEvents::Lost(CauseOfDeath::Laser), LaserPowerUp::Speed);
    assert_eq!(game.animation, Animation::Walk);
    death_animation(&mut game, &mut screen, 1999);
    assert_eq!(game.animation, Animation::Die);
    assert_eq!(screen.current_screen, Screen::Game);
    death_animation(&mut game, &mut screen, 1);
    assert_eq!(screen.current_screen, Screen::Lost);
    screen.current_screen = Screen::Menu;
    death_animation(&mut game, &mut screen, 1000);
    assert_eq!(screen.current_screen, Screen::Menu);
}

#[test]
fn continue_resumes_a_paused_game() {
    let mut game = Game::new(Config::default());
    let mut screen = in_game();
    game.state = GameState::Pause;
    button_system(&mut game, &mut screen, PauseButton::Continue);
    assert_eq!(game.state, GameState::Play);
    assert_eq!(screen, in_game());
}

#[test]
fn exit_to_menu_ends_a_paused_game() {
    let mut game = Game::new(Config::default());
    let mut screen = in_game();
    game.state = GameState::Pause;
    button_system(&mut game, &mut screen, PauseButton::ToMenu);
    assert_eq!(game.state, GameState::Death);
    assert_eq!(game.death, None);
    assert_eq!(screen.current_screen, Screen::Menu);
}

#[test]
fn pause_menu_does_nothing_unless_the_game_is_paused() {
    for state in [GameState::Play, GameState::Death] {
        for button in [PauseButton::Continue, PauseButton::ToMenu] {
            let mut game = Game::new(Config::default());
            let mut screen = in_game();
            game.state = state;
            let before = game.clone();
            button_system(&mut game, &mut screen, button);
            assert_eq!(game, before);
            assert_eq!(screen, in_game());
        }
    }
}

#[test]
fn bombs_available_are_those_not_on_the_board() {
    let mut game = Game::new(Config::default());
    assert_eq!(display_bombs_available(&game), 2);
    pose_bomb(&mut game);
    assert_eq!(display_bombs_available(&game), 1);
    game.player.x = 9;
    pose_bomb(&mut game);
    assert_eq!(display_bombs_available(&game), 0);
    assert!(game.board.place(
        1,
        1,
        Payload::Bomb(BombComponent {
            damage: 1,
            range: 1,
            state: BombState::Fuse,
            x: 1,
            y: 1,
            timer: Timer::new(1, false)
        })
    ));
    assert_eq!(display_bombs_available(&game), 0);
}

#[test]
fn escape_leaves_the_game_for_the_menu() {
    let mut screen = in_game();
    input_system(&mut screen, false);
    assert_eq!(screen, in_game());
    input_system(&mut screen, true);
    assert_eq!(screen.current_screen, Screen::Menu);
    let mut lost = GameScreen { current_screen: Screen::Lost, highscore: 3, highround: 1 };
    input_system(&mut lost, true);
    assert_eq!(lost, GameScreen { current_screen: Screen::Lost, highscore: 3, highround: 1 });
}

#[test]
fn session_starts_on_the_splash_screen_without_bests() {
    assert_eq!(
        GameScreen::default(),
        GameScreen { current_screen: Screen::Splash, highscore: 0, highround: 0 }
    );
}

#[test]
fn bests_are_beaten_by_more_only_and_never_in_the_first_run() {
    let first = GameScreen::default();
    assert!(!first.is_new_highscore(1_000_000));
    assert!(!first.is_new_highround(99));
    let later = GameScreen { current_screen: Screen::Game, highscore: 500, highround: 4 };
    assert!(!later.is_new_highscore(500));
    assert!(later.is_new_highscore(501));
    assert!(!later.is_new_highround(4));
    assert!(later.is_new_highround(5));
}

#[test]
fn record_keeps_the_better_values() {
    let mut screen = GameScreen { current_screen: Screen::Lost, highscore: 500, highround: 4 };
    screen.record(400, 6);
    assert_eq!(screen, GameScreen { current_screen: Screen::Lost, highscore: 500, highround: 6 });
    screen.record(900, 2);
    assert_eq!(screen, GameScreen { current_screen: Screen::Lost, highscore: 900, highround: 6 });
}

#[test]
fn display_shows_round_score_and_bombs() {
    let mut game = Game::new(Config::default());
    game.round = 7;
    game.score = 4321;
    pose_bomb(&mut game);
    assert_eq!(display(&game, UiComponent::Round), 7);
    assert_eq!(display(&game, UiComponent::Score), 4321);
    assert_eq!(display(&game, UiComponent::BombsAvailable), 1);
}

#[test]
fn laser_takes_the_kind_with_the_number_drawn() {
    assert_eq!(laser_choice_count(0), 4);
    assert_eq!(laser_choice_count(1), 3);
    assert_eq!(laser_choice_count(2), 4);
    assert_eq!(laser_choice_count(u16::MAX), 4);
    assert_eq!(picked_laser_powerup(Some(0)), LaserPowerUp::Speed);
    assert_eq!(picked_laser_powerup(Some(1)), LaserPowerUp::ObstacleSpawnDelay);
    assert_eq!(picked_laser_powerup(Some(2)), LaserPowerUp::ObstacleSpawnCount);
    assert_eq!(picked_laser_powerup(Some(3)), LaserPowerUp::ObstacleStrength);
    assert_eq!(picked_laser_powerup(None), LaserPowerUp::Speed);
}
