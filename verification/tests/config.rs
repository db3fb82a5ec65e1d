use kmanb::config::Config;
use kmanb::game::{
    Animation, FacingDirection, Game, GameState, Laser, LaserComponent, ObstacleSpawner, Player,
    PlayerComponent, SCORE_MILLIS,
};
use kmanb::board::Board;
use kmanb::timer::Timer;

#[test]
fn default_config_has_the_standard_values() {
    let config = Config::default();
    assert_eq!(config.score_bronze_medal, 10000);
    assert_eq!(config.score_silver_medal, 20000);
    assert_eq!(config.score_gold_medal, 35000);
    assert_eq!(config.player_nb_bombs, 2);
    assert_eq!(config.player_bomb_range, 1);
    assert_eq!(config.player_bomb_damage, 2);
    assert_eq!(config.player_bomb_speed, 2000);
    assert_eq!(config.player_speed, 200);
    assert_eq!(config.player_powerup_chance, 20);
    assert_eq!(config.player_powerup_bomb_damage, 2);
    assert_eq!(config.player_powerup_bomb_range, 1);
    assert_eq!(config.player_powerup_bomb_count, 1);
    assert_eq!(config.player_powerup_bomb_speed, 90);
    assert_eq!(config.player_powerup_score, 200);
    assert_eq!(config.player_bomb_fire_timer, 250);
    assert_eq!(config.powerup_timer, 20000);
    assert_eq!(config.laser_fire_timer, 1500);
    assert_eq!(config.laser_fire_damage, 1);
    assert_eq!(config.laser_speed, 1000);
    assert_eq!(config.laser_spawn_obstacles_delay, 10000);
    assert_eq!(config.laser_nb_obstacles, 5);
    assert_eq!(config.laser_obstacle_strength, 2);
    assert_eq!(config.laser_powerup_speed, 90);
    assert_eq!(config.laser_powerup_obstacle_delay, 80);
    assert_eq!(config.laser_powerup_obstacle_strength, 2);
    assert_eq!(config.laser_powerup_nb_obstacles, 2);
    assert!(config.is_valid());
}

#[test]
fn chance_above_one_hundred_percent_is_invalid() {
    let config = Config { player_powerup_chance: 101, ..Config::default() };
    assert!(!config.is_valid());
    let sure = Config { player_powerup_chance: 100, ..Config::default() };
    assert!(sure.is_valid());
}

#[test]
fn new_game_starts_from_the_configuration() {
    let config = Config { player_nb_bombs: 3, laser_speed: 750, ..Config::default() };
    let game = Game::new(config);
    assert_eq!(game.board, Board::new());
    assert_eq!(
        game.player,
        Player {
            x: 5,
            y: 5,
            direction: FacingDirection::Right,
            nb_bombs: 3,
            bomb_range: 1,
            bomb_damage: 2,
            bomb_speed: 2000,
            speed: 200,
        }
    );
    assert_eq!(
        game.laser,
        Laser { x: 0, speed: 750, spawn_obstacles_delay: 10000, nb_obstacles: 5, obstacle_strength: 2 }
    );
    assert_eq!(game.round, 0);
    assert_eq!(game.score, 0);
    assert_eq!(game.state, GameState::Play);
    assert_eq!(game.config, config);
    assert_eq!(game.animation, Animation::Walk);
    assert_eq!(game.laser_timer, LaserComponent(Timer::new(750, true)));
    assert_eq!(game.spawner, ObstacleSpawner(Timer::new(10000, true)));
    assert_eq!(game.move_timer, PlayerComponent(None));
    assert_eq!(game.moving, None);
    assert_eq!(game.score_timer, Timer::new(SCORE_MILLIS, true));
    assert_eq!(game.death, None);
    assert!(!game.round_stared);
    assert!(!game.score_stared);
    assert!(game.game_events.is_empty());
    assert!(game.interesting_events.is_empty());
    assert!(game.player_actions.is_empty());
}

#[test]
fn player_and_laser_start_from_the_configuration() {
    let config = Config::default();
    assert_eq!(Player::new(&config), Game::new(config).player);
    assert_eq!(Laser::new(&config), Game::new(config).laser);
}

#[test]
fn shares_above_one_hundred_percent_do_not_harden() {
    assert!(Config::default().is_hardening());
    assert!(Config { laser_powerup_speed: 100, ..Config::default() }.is_hardening());
    assert!(!Config { laser_powerup_speed: 101, ..Config::default() }.is_hardening());
    assert!(!Config { laser_powerup_obstacle_delay: 101, ..Config::default() }.is_hardening());
    assert!(Config { laser_powerup_obstacle_delay: 0, ..Config::default() }.is_hardening());
}
