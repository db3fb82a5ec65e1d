//! The state of one run and the events its systems exchange.

use vstd::prelude::*;
use crate::board::{Board, Cell, grid_wf, initial_cell, BOARD_CELLS, BOARD_X, BOARD_Y};
use crate::config::Config;
use crate::keyboard_systems::PlayerAction;
use crate::timer::Timer;

verus! {

/// Period of the score timer: the score grows by the round on each period.
pub const SCORE_MILLIS: u64 = 100;

/// Which way the player's sprite looks.
#[derive(Clone, Copy, Debug, PartialEq, Eq, Structural)]
pub enum FacingDirection {
    Left,
    Right,
}

/// What the player's sprite plays.
#[derive(Clone, Copy, Debug, PartialEq, Eq, Structural)]
pub enum Animation {
    Walk,
    Die,
}

/// Where the player stands and what their bombs can do.
#[derive(Clone, Copy, Debug, PartialEq, Eq)]
pub struct Player {
    pub x: usize,
    pub y: usize,
    pub direction: FacingDirection,
    pub nb_bombs: usize,
    pub bomb_range: usize,
    pub bomb_damage: usize,
    pub bomb_speed: u64,
    pub speed: u64,
}

/// The sweeping laser and the difficulty it sets.
#[derive(Clone, Copy, Debug, PartialEq, Eq)]
pub struct Laser {
    /// The column the laser is on.
    pub x: usize,
    pub speed: u64,
    pub spawn_obstacles_delay: u16,
    pub nb_obstacles: usize,
    pub obstacle_strength: usize,
}

/// Whether the run goes on, waits, or has ended.
#[derive(Clone, Copy, Debug, PartialEq, Eq, Structural)]
pub enum GameState {
    Play,
    Pause,
    Death,
}

/// What ended the run.
#[derive(Clone, Copy, Debug, PartialEq, Eq, Structural)]
pub enum CauseOfDeath {
    Laser,
    LaserFire,
    BombFire,
}

/// What the systems tell the state machine and the screen.
#[derive(Clone, Copy, Debug, PartialEq, Eq, Structural)]
pub enum GameEvents {
    NewRound,
    Lost(CauseOfDeath),
    Pause,
    NewHighscore,
    NewHighround,
    PlayerBonus,
}

/// What the end-of-run statistics count.
#[derive(Clone, Copy, Debug, PartialEq, Eq, Structural)]
pub enum InterestingEvent {
    BombPlaced,
    ObstacleDestroyedByPlayer,
    ObstacleDestroyedByLaser,
    BombChainDetonated,
}

/// The timer of the laser's sweep.
#[derive(Clone, Copy, Debug, PartialEq, Eq)]
pub struct LaserComponent(pub Timer);

/// The timer of the player's current step, once they have moved.
#[derive(Clone, Copy, Debug, PartialEq, Eq)]
pub struct PlayerComponent(pub Option<Timer>);

/// The pause after a step during which further steps are dropped.
#[derive(Clone, Copy, Debug, PartialEq, Eq)]
pub struct PlayerMoving {
    pub timer: Timer,
}

/// The timer that spawns a wave of obstacles.
#[derive(Clone, Copy, Debug, PartialEq, Eq)]
pub struct ObstacleSpawner(pub Timer);

/// The time the player's death is shown before the screen changes.
#[derive(Clone, Copy, Debug, PartialEq, Eq)]
pub struct DeathAnimation(pub Timer);

/// One run of the game.
#[derive(Clone, Debug, PartialEq, Eq)]
pub struct Game {
    pub board: Board,
    pub player: Player,
    pub laser: Laser,
    pub round: u16,
    pub score: u32,
    pub state: GameState,
    pub config: Config,
    pub animation: Animation,
    pub laser_timer: LaserComponent,
    pub spawner: ObstacleSpawner,
    pub move_timer: PlayerComponent,
    pub moving: Option<PlayerMoving>,
    /// Time since the player last took a step; `None` until the first step.
    pub time_since_move: Option<u64>,
    pub score_timer: Timer,
    pub death: Option<DeathAnimation>,
    /// Whether this run's round has already been marked as a new best.
    pub round_stared: bool,
    /// Whether this run's score has already been marked as a new best.
    pub score_stared: bool,
    pub game_events: Vec<GameEvents>,
    pub interesting_events: Vec<InterestingEvent>,
    pub player_actions: Vec<PlayerAction>,
}

/// A run as a mathematical value: the grid and the queues are sequences.
pub struct GameView {
    pub cells: Seq<Cell>,
    pub player: Player,
    pub laser: Laser,
    pub round: u16,
    pub score: u32,
    pub state: GameState,
    pub config: Config,
    pub animation: Animation,
    pub laser_timer: Timer,
    pub spawner: Timer,
    pub move_timer: Option<Timer>,
    pub moving: Option<Timer>,
    pub time_since_move: Option<u64>,
    pub score_timer: Timer,
    pub death: Option<Timer>,
    pub round_stared: bool,
    pub score_stared: bool,
    pub game_events: Seq<GameEvents>,
    pub interesting_events: Seq<InterestingEvent>,
    pub player_actions: Seq<PlayerAction>,
}

impl CauseOfDeath {
    /// The words for a cause of death.
    pub open spec fn words(self) -> Seq<char> {
        match self {
            CauseOfDeath::Laser => "laser"@,
            CauseOfDeath::LaserFire => "laser trail"@,
            CauseOfDeath::BombFire => "your own bomb"@,
        }
    }

    /// The cause of death in words, as the screen of a lost game shows it.
    pub fn to_string(&self) -> (text: String)
        ensures
            text@ == self.words(),
    {
        match self {
            CauseOfDeath::Laser => "laser".to_owned(),
            CauseOfDeath::LaserFire => "laser trail".to_owned(),
            CauseOfDeath::BombFire => "your own bomb".to_owned(),
        }
    }
}

impl Animation {
    /// The picture that follows picture `index` of the player's sprite
    /// sheet. The walk runs through eight pictures from the thirty-seventh
    /// on; the death flips between the first and the fifth.
    pub open spec fn next_index(self, index: u32) -> u32 {
        match self {
            Animation::Walk => if index < 36 || index > 44 {
                36
            } else {
                ((index + 1) % 8 + 36) as u32
            },
            Animation::Die => if index == 0 {
                4
            } else {
                0
            },
        }
    }
}

/// The picture of the player's sprite after a tick of its animation
/// timer: the next one of the animation while the game is played or the
/// player dies, and the same one while the game is paused or the timer has
/// not completed a period.
pub fn walk_animate_sprite_system(
    state: GameState,
    animation: Animation,
    just_finished: bool,
    index: u32,
) -> (next: u32)
    ensures
        next == if state != GameState::Pause && just_finished {
            animation.next_index(index)
        } else {
            index
        },
{
    if state != GameState::Pause && just_finished {
        match animation {
            Animation::Walk => if index < 36 || index > 44 {
                36
            } else {
                (index + 1) % 8 + 36
            },
            Animation::Die => if index == 0 {
                4
            } else {
                0
            },
        }
    } else {
        index
    }
}

impl Player {
    /// The player at the start of a run.
    pub open spec fn initial(config: Config) -> Player {
        Player {
            x: (BOARD_X / 4) as usize,
            y: (BOARD_Y / 2) as usize,
            direction: FacingDirection::Right,
            nb_bombs: config.player_nb_bombs,
            bomb_range: config.player_bomb_range,
            bomb_damage: config.player_bomb_damage,
            bomb_speed: config.player_bomb_speed,
            speed: config.player_speed,
        }
    }

    pub fn new(config: &Config) -> (player: Player)
        ensures
            player == Player::initial(*config),
    {
        Player {
            x: BOARD_X / 4,
            y: BOARD_Y / 2,
            direction: FacingDirection::Right,
            nb_bombs: config.player_nb_bombs,
            bomb_range: config.player_bomb_range,
            bomb_damage: config.player_bomb_damage,
            bomb_speed: config.player_bomb_speed,
            speed: config.player_speed,
        }
    }
}

impl Laser {
    /// The laser at the start of a run, on the first column.
    pub open spec fn initial(config: Config) -> Laser {
        Laser {
            x: 0,
            speed: config.laser_speed,
            spawn_obstacles_delay: config.laser_spawn_obstacles_delay,
            nb_obstacles: config.laser_nb_obstacles,
            obstacle_strength: config.laser_obstacle_strength,
        }
    }

    pub fn new(config: &Config) -> (laser: Laser)
        ensures
            laser == Laser::initial(*config),
    {
        Laser {
            x: 0,
            speed: config.laser_speed,
            spawn_obstacles_delay: config.laser_spawn_obstacles_delay,
            nb_obstacles: config.laser_nb_obstacles,
            obstacle_strength: config.laser_obstacle_strength,
        }
    }
}

impl GameView {
    /// The grid is sound, player and laser are on the board, and the chance of
    /// a power-up is a percentage.
    pub open spec fn wf(self) -> bool {
        &&& grid_wf(self.cells)
        &&& self.player.x < BOARD_X
        &&& self.player.y < BOARD_Y
        &&& self.laser.x < BOARD_X
        &&& self.config.wf()
    }

    /// A run before its first tick.
    pub open spec fn initial(config: Config) -> GameView {
        GameView {
            cells: Seq::new(BOARD_CELLS as nat, |i: int| initial_cell(i)),
            player: Player::initial(config),
            laser: Laser::initial(config),
            round: 0,
            score: 0,
            state: GameState::Play,
            config,
            animation: Animation::Walk,
            laser_timer: Timer::fresh(config.laser_speed, true),
            spawner: Timer::fresh(config.laser_spawn_obstacles_delay as u64, true),
            move_timer: None,
            moving: None,
            time_since_move: None,
            score_timer: Timer::fresh(SCORE_MILLIS, true),
            death: None,
            round_stared: false,
            score_stared: false,
            game_events: Seq::empty(),
            interesting_events: Seq::empty(),
            player_actions: Seq::empty(),
        }
    }
}

impl View for Game {
    type V = GameView;

    open spec fn view(&self) -> GameView {
        GameView {
            cells: self.board@,
            player: self.player,
            laser: self.laser,
            round: self.round,
            score: self.score,
            state: self.state,
            config: self.config,
            animation: self.animation,
            laser_timer: self.laser_timer.0,
            spawner: self.spawner.0,
            move_timer: self.move_timer.0,
            moving: match self.moving {
                Some(moving) => Some(moving.timer),
                None => None,
            },
            time_since_move: self.time_since_move,
            score_timer: self.score_timer,
            death: match self.death {
                Some(death) => Some(death.0),
                None => None,
            },
            round_stared: self.round_stared,
            score_stared: self.score_stared,
            game_events: self.game_events@,
            interesting_events: self.interesting_events@,
            player_actions: self.player_actions@,
        }
    }
}

impl Game {
    pub open spec fn wf(&self) -> bool {
        self@.wf()
    }

    /// Whether the run is sound: every function that advances a run asks
    /// for this and keeps it.
    pub fn is_wf(&self) -> (sound: bool)
        ensures
            sound == self.wf(),
    {
        self.board.is_wf() && self.player.x < BOARD_X && self.player.y < BOARD_Y && self.laser.x
            < BOARD_X && self.config.is_valid()
    }

    /// Starts a run with the given configuration.
    pub fn new(config: Config) -> (game: Game)
        requires
            config.wf(),
        ensures
            game.wf(),
            game@ == GameView::initial(config),
    {
        let game = Game {
            board: Board::new(),
            player: Player::new(&config),
            laser: Laser::new(&config),
            round: 0,
            score: 0,
            state: GameState::Play,
            config,
            animation: Animation::Walk,
            laser_timer: LaserComponent(Timer::new(config.laser_speed, true)),
            spawner: ObstacleSpawner(Timer::new(config.laser_spawn_obstacles_delay as u64, true)),
            move_timer: PlayerComponent(None),
            moving: None,
            time_since_move: None,
            score_timer: Timer::new(SCORE_MILLIS, true),
            death: None,
            round_stared: false,
            score_stared: false,
            game_events: Vec::new(),
            interesting_events: Vec::new(),
            player_actions: Vec::new(),
        };
        assert(game@.cells =~= GameView::initial(config).cells);
        game
    }
}

} // verus!
