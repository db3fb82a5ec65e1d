use kmanb::board::{
    BombComponent, BombState, FireComponent, ObstacleComponent, Payload, PlayerPowerUp,
    PowerUpComponent, BOARD_X, BOARD_Y,
};
use kmanb::bomb::{
    apply_powerup, arm_reach, blast, destroy_obstacle, destroyed_obstacles, fire, flash_bombs,
    player_powerups, scale,
};
use kmanb::config::Config;
use kmanb::game::{CauseOfDeath, Game, GameEvents, GameState, InterestingEvent};
use kmanb::keyboard_systems::{pose_bomb, MoveDirection};
use kmanb::timer::Timer;
use rand::rngs::StdRng;
use rand::SeedableRng;

fn bomb(x: usize, y: usize, range: usize, state: BombState, left: u64) -> Payload {
    Payload::Bomb(BombComponent {
        damage: 2,
        range,
        state,
        x,
        y,
        timer: Timer::new(left, false),
    })
}

fn bomb_fire(x: usize, y: usize) -> FireComponent {
    FireComponent { damage: 2, x, y, timer: Timer::new(250, false), from_player: true }
}

fn burning(game: &Game) -> Vec<(usize, usize)> {
    let mut cells = vec![];
    for y in 0..BOARD_Y {
        for x in 0..BOARD_X {
            if game.board.get(x, y).fire.is_some() {
                cells.push((x, y));
            }
        }
    }
    cells
}

fn set_fire(game: &mut Game, x: usize, y: usize, fire: FireComponent) {
    game.board.cells[y * BOARD_X + x].fire = Some(fire);
}

#[test]
fn bomb_goes_from_fuse_to_flash_to_explosion() {
    let mut game = Game::new(Config::default());
    pose_bomb(&mut game);
    flash_bombs(&mut game, 999);
    let mut fuse = Timer::new(1000, false);
    fuse.tick(999);
    assert_eq!(
        game.board.get(5, 5).payload,
        Payload::Bomb(BombComponent {
            damage: 2,
            range: 1,
            state: BombState::Fuse,
            x: 5,
            y: 5,
            timer: fuse
        })
    );
    flash_bombs(&mut game, 1);
    assert_eq!(game.board.get(5, 5).payload, bomb(5, 5, 1, BombState::Flash, 1000));
    assert!(burning(&game).is_empty());
    flash_bombs(&mut game, 999);
    assert!(matches!(game.board.get(5, 5).payload, Payload::Bomb(_)));
    flash_bombs(&mut game, 1);
    assert_eq!(game.board.get(5, 5).payload, Payload::Empty);
    assert_eq!(burning(&game), vec![(5, 4), (4, 5), (5, 5), (6, 5), (5, 6)]);
}

#[test]
fn bomb_of_range_one_burns_a_cross_and_wears_down_the_obstacle_beside_it() {
    let mut game = Game::new(Config { player_powerup_chance: 0, ..Config::default() });
    assert_eq!((game.player.x, game.player.y), (5, 5));
    assert_eq!(game.player.nb_bombs, 2);
    assert!(game.board.place(6, 5, Payload::Obstacle(ObstacleComponent::new(2))));
    pose_bomb(&mut game);
    flash_bombs(&mut game, 1000);
    flash_bombs(&mut game, 1000);
    assert!(game.board.is_empty(5, 5));
    for (x, y) in [(4, 5), (6, 5), (5, 4), (5, 6), (5, 5)] {
        assert_eq!(game.board.get(x, y).fire, Some(bomb_fire(x, y)));
    }
    assert_eq!(burning(&game).len(), 5);
    assert_eq!(game.board.get(6, 5).payload, Payload::Obstacle(ObstacleComponent::new(2)));
    fire(&mut game, 250);
    assert!(burning(&game).is_empty());
    match game.board.get(6, 5).payload {
        Payload::Obstacle(obstacle) => {
            assert_eq!(obstacle.remaining_life, 0);
            assert_eq!(obstacle.original_life, 2);
        }
        other => panic!("no obstacle but {:?}", other),
    }
    assert_eq!(
        game.interesting_events,
        vec![InterestingEvent::BombPlaced, InterestingEvent::ObstacleDestroyedByPlayer]
    );
    let mut rng = StdRng::seed_from_u64(1);
    destroyed_obstacles(&mut game, &mut rng);
    assert!(game.board.is_empty(6, 5));
}

#[test]
fn destroyed_obstacle_leaves_a_powerup_when_the_chance_is_certain() {
    let mut game = Game::new(Config { player_powerup_chance: 100, ..Config::default() });
    assert!(game.board.place(
        6,
        5,
        Payload::Obstacle(ObstacleComponent { remaining_life: 0, ..ObstacleComponent::new(2) })
    ));
    assert!(game.board.place(7, 5, Payload::Obstacle(ObstacleComponent::new(2))));
    let mut rng = StdRng::seed_from_u64(3);
    destroyed_obstacles(&mut game, &mut rng);
    match game.board.get(6, 5).payload {
        Payload::PowerUp(powerup) => {
            assert_eq!(powerup.timer, Timer::new(20000, false));
            assert!(!powerup.used);
        }
        other => panic!("no power-up but {:?}", other),
    }
    assert_eq!(game.board.get(7, 5).payload, Payload::Obstacle(ObstacleComponent::new(2)));
}

#[test]
fn destroyed_obstacles_drop_more_than_one_kind_of_powerup() {
    let mut kinds: Vec<PlayerPowerUp> = vec![];
    for seed in 0..40 {
        let mut game = Game::new(Config { player_powerup_chance: 100, ..Config::default() });
        assert!(game.board.place(
            8,
            2,
            Payload::Obstacle(ObstacleComponent { remaining_life: 0, ..ObstacleComponent::new(1) })
        ));
        let mut rng = StdRng::seed_from_u64(seed);
        destroyed_obstacles(&mut game, &mut rng);
        match game.board.get(8, 2).payload {
            Payload::PowerUp(powerup) => {
                if !kinds.contains(&powerup.powerup) {
                    kinds.push(powerup.powerup);
                }
            }
            other => panic!("no power-up but {:?}", other),
        }
    }
    assert!(kinds.len() >= 3);
}

#[test]
fn destroyed_obstacles_drop_sometimes_at_an_even_chance() {
    let mut dropped = 0;
    let mut freed = 0;
    for seed in 0..60 {
        let mut game = Game::new(Config { player_powerup_chance: 50, ..Config::default() });
        assert!(game.board.place(
            8,
            2,
            Payload::Obstacle(ObstacleComponent { remaining_life: 0, ..ObstacleComponent::new(1) })
        ));
        let mut rng = StdRng::seed_from_u64(seed);
        destroyed_obstacles(&mut game, &mut rng);
        match game.board.get(8, 2).payload {
            Payload::PowerUp(_) => dropped += 1,
            Payload::Empty => freed += 1,
            other => panic!("neither free nor a power-up but {:?}", other),
        }
    }
    assert!(dropped > 0);
    assert!(freed > 0);
}

#[test]
fn destroy_obstacle_puts_the_given_drop() {
    let dead = Payload::Obstacle(ObstacleComponent { remaining_life: 0, ..ObstacleComponent::new(3) });
    let mut game = Game::new(Config::default());
    assert!(game.board.place(2, 2, dead));
    assert!(game.board.place(3, 2, dead));
    assert!(game.board.place(4, 2, Payload::Obstacle(ObstacleComponent::new(3))));
    destroy_obstacle(&mut game, 2, 2, None);
    assert!(game.board.is_empty(2, 2));
    destroy_obstacle(&mut game, 3, 2, Some(PlayerPowerUp::BombSpeed));
    assert_eq!(
        game.board.get(3, 2).payload,
        Payload::PowerUp(PowerUpComponent {
            timer: Timer::new(20000, false),
            powerup: PlayerPowerUp::BombSpeed,
            used: false
        })
    );
    let before = game.clone();
    destroy_obstacle(&mut game, 4, 2, Some(PlayerPowerUp::Score));
    destroy_obstacle(&mut game, 9, 9, Some(PlayerPowerUp::Score));
    destroy_obstacle(&mut game, 3, 2, None);
    assert_eq!(game, before);
}

#[test]
fn obstacle_stops_the_blast_on_its_side_only() {
    let mut game = Game::new(Config::default());
    assert!(game.board.place(5, 5, bomb(5, 5, 3, BombState::Flash, 10)));
    assert!(game.board.place(6, 5, Payload::Obstacle(ObstacleComponent::new(9))));
    flash_bombs(&mut game, 10);
    assert!(game.board.get(6, 5).fire.is_some());
    assert!(game.board.get(7, 5).fire.is_none());
    assert!(game.board.get(8, 5).fire.is_none());
    for x in [2, 3, 4] {
        assert!(game.board.get(x, 5).fire.is_some());
    }
    assert!(game.board.get(1, 5).fire.is_none());
    for y in [2, 3, 4, 6, 7, 8] {
        assert!(game.board.get(5, y).fire.is_some());
    }
    assert!(game.board.get(5, 1).fire.is_none());
    assert!(game.board.get(5, 9).fire.is_none());
    assert_eq!(burning(&game).len(), 11);
}

#[test]
fn blast_ends_at_the_edge_of_the_board() {
    let mut game = Game::new(Config::default());
    assert!(game.board.place(0, 0, bomb(0, 0, 2, BombState::Flash, 10)));
    assert!(game.board.place(20, 9, bomb(20, 9, 1, BombState::Flash, 10)));
    flash_bombs(&mut game, 10);
    assert_eq!(
        burning(&game),
        vec![(0, 0), (1, 0), (2, 0), (0, 1), (0, 2), (20, 8), (19, 9), (20, 9)]
    );
}

#[test]
fn blast_of_any_range_stays_on_the_board() {
    let mut game = Game::new(Config::default());
    assert!(game.board.place(3, 7, bomb(3, 7, usize::MAX, BombState::Flash, 10)));
    flash_bombs(&mut game, 10);
    assert_eq!(burning(&game).len(), BOARD_X + BOARD_Y - 1);
}

#[test]
fn blast_replaces_the_fire_that_burns_already() {
    let mut game = Game::new(Config::default());
    let mut old = Timer::new(1500, false);
    old.tick(700);
    set_fire(&mut game, 4, 5, FireComponent { damage: 1, x: 4, y: 5, timer: old, from_player: false });
    blast(
        &mut game.board,
        BombComponent { damage: 7, range: 1, state: BombState::Exploded, x: 5, y: 5, timer: old },
        250,
    );
    assert_eq!(
        game.board.get(4, 5).fire,
        Some(FireComponent { damage: 7, x: 4, y: 5, timer: Timer::new(250, false), from_player: true })
    );
}

#[test]
fn arm_reach_counts_cells_up_to_the_first_obstacle() {
    let mut game = Game::new(Config::default());
    assert!(game.board.place(8, 5, Payload::Obstacle(ObstacleComponent::new(1))));
    assert_eq!(arm_reach(&game.board, 5, 5, MoveDirection::Right, 10), 3);
    assert_eq!(arm_reach(&game.board, 5, 5, MoveDirection::Right, 2), 2);
    assert_eq!(arm_reach(&game.board, 5, 5, MoveDirection::Left, 10), 5);
    assert_eq!(arm_reach(&game.board, 5, 5, MoveDirection::Up, 10), 4);
    assert_eq!(arm_reach(&game.board, 5, 5, MoveDirection::Down, 10), 5);
    assert_eq!(arm_reach(&game.board, 5, 5, MoveDirection::Down, 0), 0);
    assert_eq!(arm_reach(&game.board, 8, 5, MoveDirection::Right, 10), 0);
}

#[test]
fn bomb_reached_by_fire_goes_off_on_the_next_call_and_is_reported() {
    let mut game = Game::new(Config::default());
    assert!(game.board.place(5, 5, bomb(5, 5, 1, BombState::Flash, 10)));
    assert!(game.board.place(6, 5, bomb(6, 5, 1, BombState::Fuse, 5000)));
    flash_bombs(&mut game, 10);
    assert!(game.board.is_empty(5, 5));
    assert!(matches!(game.board.get(6, 5).payload, Payload::Bomb(_)));
    assert!(game.board.get(6, 5).fire.is_some());
    assert!(game.board.get(7, 5).fire.is_none());
    assert!(game.interesting_events.is_empty());
    flash_bombs(&mut game, 1);
    assert!(game.board.is_empty(6, 5));
    assert!(game.board.get(7, 5).fire.is_some());
    assert_eq!(game.interesting_events, vec![InterestingEvent::BombChainDetonated]);
}

#[test]
fn bomb_out_of_reach_waits_for_its_own_fuse() {
    let mut game = Game::new(Config::default());
    assert!(game.board.place(5, 5, bomb(5, 5, 1, BombState::Flash, 10)));
    assert!(game.board.place(7, 5, bomb(7, 5, 1, BombState::Fuse, 5000)));
    flash_bombs(&mut game, 10);
    flash_bombs(&mut game, 10);
    assert!(matches!(game.board.get(7, 5).payload, Payload::Bomb(_)));
    assert!(game.interesting_events.is_empty());
}

#[test]
fn later_blast_wins_where_two_overlap() {
    let mut game = Game::new(Config::default());
    assert!(game.board.place(
        4,
        5,
        Payload::Bomb(BombComponent {
            damage: 9,
            range: 2,
            state: BombState::Flash,
            x: 4,
            y: 5,
            timer: Timer::new(10, false)
        })
    ));
    assert!(game.board.place(6, 5, bomb(6, 5, 2, BombState::Flash, 10)));
    flash_bombs(&mut game, 10);
    assert_eq!(game.board.get(3, 5).fire.map(|f| f.damage), Some(9));
    assert_eq!(game.board.get(4, 5).fire.map(|f| f.damage), Some(2));
    assert_eq!(game.board.get(5, 5).fire.map(|f| f.damage), Some(2));
    assert_eq!(game.board.get(6, 5).fire.map(|f| f.damage), Some(2));
    assert_eq!(game.board.get(4, 6).fire.map(|f| f.damage), Some(9));
}

#[test]
fn bombs_wait_while_the_game_is_not_played() {
    for state in [GameState::Pause, GameState::Death] {
        let mut game = Game::new(Config::default());
        pose_bomb(&mut game);
        set_fire(&mut game, 5, 5, bomb_fire(5, 5));
        game.state = state;
        let before = game.clone();
        flash_bombs(&mut game, 5000);
        fire(&mut game, 5000);
        player_powerups(&mut game, 5000);
        assert_eq!(game, before);
    }
}

#[test]
fn fire_burns_down_and_goes_out() {
    let mut game = Game::new(Config::default());
    set_fire(&mut game, 3, 3, bomb_fire(3, 3));
    fire(&mut game, 100);
    let mut timer = Timer::new(250, false);
    timer.tick(100);
    assert_eq!(game.board.get(3, 3).fire, Some(FireComponent { timer, ..bomb_fire(3, 3) }));
    fire(&mut game, 149);
    assert!(game.board.get(3, 3).fire.is_some());
    fire(&mut game, 1);
    assert_eq!(game.board.get(3, 3).fire, None);
    assert!(game.game_events.is_empty());
    assert!(game.interesting_events.is_empty());
}

#[test]
fn fire_wears_an_obstacle_down_when_it_goes_out() {
    let mut game = Game::new(Config::default());
    assert!(game.board.place(3, 3, Payload::Obstacle(ObstacleComponent::new(5))));
    set_fire(&mut game, 3, 3, bomb_fire(3, 3));
    fire(&mut game, 249);
    assert_eq!(game.board.get(3, 3).payload, Payload::Obstacle(ObstacleComponent::new(5)));
    fire(&mut game, 1);
    assert_eq!(
        game.board.get(3, 3).payload,
        Payload::Obstacle(ObstacleComponent { remaining_life: 3, ..ObstacleComponent::new(5) })
    );
    assert!(game.interesting_events.is_empty());
}

#[test]
fn fire_never_takes_more_life_than_is_left() {
    let mut game = Game::new(Config::default());
    assert!(game.board.place(3, 3, Payload::Obstacle(ObstacleComponent::new(1))));
    assert!(game.board.place(4, 3, Payload::Obstacle(ObstacleComponent::new(2))));
    set_fire(&mut game, 3, 3, bomb_fire(3, 3));
    set_fire(
        &mut game,
        4,
        3,
        FireComponent { damage: 2, x: 4, y: 3, timer: Timer::new(1500, false), from_player: false },
    );
    fire(&mut game, 1500);
    assert_eq!(
        game.board.get(3, 3).payload,
        Payload::Obstacle(ObstacleComponent { remaining_life: 0, ..ObstacleComponent::new(1) })
    );
    assert_eq!(
        game.board.get(4, 3).payload,
        Payload::Obstacle(ObstacleComponent { remaining_life: 0, ..ObstacleComponent::new(2) })
    );
    assert_eq!(
        game.interesting_events,
        vec![
            InterestingEvent::ObstacleDestroyedByPlayer,
            InterestingEvent::ObstacleDestroyedByLaser
        ]
    );
}

#[test]
fn fire_under_the_player_ends_the_run() {
    let mut game = Game::new(Config::default());
    set_fire(&mut game, 5, 5, bomb_fire(5, 5));
    set_fire(&mut game, 6, 5, bomb_fire(6, 5));
    fire(&mut game, 10);
    assert_eq!(game.game_events, vec![GameEvents::Lost(CauseOfDeath::BombFire)]);
    let mut trail = Game::new(Config::default());
    set_fire(
        &mut trail,
        5,
        5,
        FireComponent { damage: 1, x: 5, y: 5, timer: Timer::new(1500, false), from_player: false },
    );
    fire(&mut trail, 2000);
    assert_eq!(trail.game_events, vec![GameEvents::Lost(CauseOfDeath::LaserFire)]);
    assert_eq!(trail.board.get(5, 5).fire, None);
}

#[test]
fn fire_leaves_bombs_and_powerups_as_they_are() {
    let mut game = Game::new(Config::default());
    let powerup = Payload::PowerUp(PowerUpComponent {
        timer: Timer::new(20000, false),
        powerup: PlayerPowerUp::BombCount,
        used: false,
    });
    assert!(game.board.place(1, 1, powerup));
    assert!(game.board.place(2, 1, bomb(2, 1, 1, BombState::Fuse, 1000)));
    set_fire(&mut game, 1, 1, bomb_fire(1, 1));
    set_fire(&mut game, 2, 1, bomb_fire(2, 1));
    fire(&mut game, 250);
    assert_eq!(game.board.get(1, 1).payload, powerup);
    assert_eq!(game.board.get(2, 1).payload, bomb(2, 1, 1, BombState::Fuse, 1000));
}

fn game_on_powerup(kind: PlayerPowerUp) -> Game {
    let mut game = Game::new(Config::default());
    game.round = 3;
    game.score = 50;
    assert!(game.board.place(
        5,
        5,
        Payload::PowerUp(PowerUpComponent { timer: Timer::new(20000, false), powerup: kind, used: false })
    ));
    game
}

#[test]
fn score_powerup_adds_points_for_each_round() {
    let mut game = game_on_powerup(PlayerPowerUp::Score);
    let player = game.player;
    player_powerups(&mut game, 16);
    assert_eq!(game.score, 650);
    assert_eq!(game.player, player);
    assert_eq!(game.game_events, vec![GameEvents::PlayerBonus]);
}

#[test]
fn bomb_powerups_better_the_bombs() {
    let mut count = game_on_powerup(PlayerPowerUp::BombCount);
    player_powerups(&mut count, 16);
    assert_eq!(count.player.nb_bombs, 3);
    let mut damage = game_on_powerup(PlayerPowerUp::BombDamage);
    player_powerups(&mut damage, 16);
    assert_eq!(damage.player.bomb_damage, 4);
    let mut range = game_on_powerup(PlayerPowerUp::BombRange);
    player_powerups(&mut range, 16);
    assert_eq!(range.player.bomb_range, 2);
    let mut speed = game_on_powerup(PlayerPowerUp::BombSpeed);
    player_powerups(&mut speed, 16);
    assert_eq!(speed.player.bomb_speed, 1800);
    for game in [count, damage, range, speed] {
        assert_eq!(game.score, 50);
        assert_eq!(game.game_events, vec![GameEvents::PlayerBonus]);
    }
}

#[test]
fn powerup_is_granted_once_however_long_the_player_stays() {
    let mut game = game_on_powerup(PlayerPowerUp::BombCount);
    player_powerups(&mut game, 16);
    assert_eq!(
        game.board.get(5, 5).payload,
        Payload::PowerUp(PowerUpComponent {
            timer: Timer::new(150, false),
            powerup: PlayerPowerUp::BombCount,
            used: true
        })
    );
    for _ in 0..9 {
        player_powerups(&mut game, 16);
        assert_eq!(game.player.nb_bombs, 3);
        assert_eq!(game.game_events, vec![GameEvents::PlayerBonus]);
    }
    assert!(matches!(game.board.get(5, 5).payload, Payload::PowerUp(_)));
    player_powerups(&mut game, 16);
    assert!(game.board.is_empty(5, 5));
    player_powerups(&mut game, 16);
    assert_eq!(game.player.nb_bombs, 3);
    assert_eq!(game.game_events, vec![GameEvents::PlayerBonus]);
}

#[test]
fn powerup_that_nobody_takes_goes_away() {
    let mut game = Game::new(Config::default());
    let powerup = PowerUpComponent {
        timer: Timer::new(20000, false),
        powerup: PlayerPowerUp::Score,
        used: false,
    };
    assert!(game.board.place(9, 9, Payload::PowerUp(powerup)));
    player_powerups(&mut game, 19999);
    let mut timer = Timer::new(20000, false);
    timer.tick(19999);
    assert_eq!(game.board.get(9, 9).payload, Payload::PowerUp(PowerUpComponent { timer, ..powerup }));
    player_powerups(&mut game, 1);
    assert!(game.board.is_empty(9, 9));
    assert_eq!(game.score, 0);
    assert!(game.game_events.is_empty());
}

#[test]
fn apply_powerup_caps_at_the_largest_value() {
    let mut game = Game::new(Config::default());
    game.player.nb_bombs = usize::MAX;
    game.score = u32::MAX - 10;
    game.round = 7;
    apply_powerup(&mut game, PlayerPowerUp::BombCount);
    assert_eq!(game.player.nb_bombs, usize::MAX);
    apply_powerup(&mut game, PlayerPowerUp::Score);
    assert_eq!(game.score, u32::MAX);
}

#[test]
fn scale_takes_hundredths_rounded_down() {
    assert_eq!(scale(2000, 90), 1800);
    assert_eq!(scale(1800, 90), 1620);
    assert_eq!(scale(7, 90), 6);
    assert_eq!(scale(1, 90), 0);
    assert_eq!(scale(500, 100), 500);
    assert_eq!(scale(500, 0), 0);
    assert_eq!(scale(u64::MAX, 200), u64::MAX);
    assert_eq!(scale(u64::MAX, 50), u64::MAX / 2);
}

#[test]
fn fire_on_a_bomb_waits_for_the_bomb() {
    let mut game = Game::new(Config::default());
    assert!(game.board.place(2, 1, bomb(2, 1, 1, BombState::Fuse, 1000)));
    set_fire(&mut game, 2, 1, bomb_fire(2, 1));
    set_fire(&mut game, 3, 1, bomb_fire(3, 1));
    fire(&mut game, 250);
    assert_eq!(game.board.get(3, 1).fire, None);
    let mut burnt = Timer::new(250, false);
    burnt.tick(250);
    assert_eq!(game.board.get(2, 1).fire, Some(FireComponent { timer: burnt, ..bomb_fire(2, 1) }));
    fire(&mut game, 10_000);
    assert!(game.board.get(2, 1).fire.is_some());
    assert_eq!(game.board.get(2, 1).payload, bomb(2, 1, 1, BombState::Fuse, 1000));
    flash_bombs(&mut game, 1);
    assert!(game.board.is_empty(2, 1));
    assert_eq!(game.board.get(2, 1).fire, Some(bomb_fire(2, 1)));
    fire(&mut game, 250);
    assert_eq!(game.board.get(2, 1).fire, None);
}

#[test]
fn chain_holds_for_ticks_longer_than_a_fire() {
    let mut game = Game::new(Config::default());
    game.player.x = 15;
    assert!(game.board.place(5, 5, bomb(5, 5, 1, BombState::Flash, 10)));
    assert!(game.board.place(6, 5, bomb(6, 5, 1, BombState::Fuse, 5000)));
    flash_bombs(&mut game, 300);
    fire(&mut game, 300);
    assert!(matches!(game.board.get(6, 5).payload, Payload::Bomb(_)));
    assert!(game.board.get(6, 5).fire.is_some());
    assert_eq!(burning(&game), vec![(6, 5)]);
    flash_bombs(&mut game, 300);
    assert!(game.board.is_empty(6, 5));
    assert_eq!(game.interesting_events, vec![InterestingEvent::BombChainDetonated]);
    assert!(game.board.get(7, 5).fire.is_some());
}
