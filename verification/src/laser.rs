//! The sweeping laser, the fire it trails, and the obstacles that spawn in
//! waves.

use vstd::prelude::*;
use rand::rngs::StdRng;
use crate::board::{
    Cell, FireComponent, ObstacleComponent, ObstacleSprite, Payload, cell_at, cell_index, cell_x,
    cell_y, in_board, BOARD_CELLS, BOARD_X, BOARD_Y,
};
use crate::config::Config;
use crate::game::{
    CauseOfDeath, Game, GameEvents, GameState, GameView, Laser, LaserComponent, ObstacleSpawner,
};
use crate::random::gen_range;
use crate::timer::Timer;

verus! {

/// How many columns behind itself the laser still kills.
pub const LASER_LOOKAHEAD: usize = 1;

/// Whether the laser on column `laser_x` reaches a player on column
/// `player_x`: the player stands on the laser's column or just behind it.
pub open spec fn laser_reaches(laser_x: int, player_x: int) -> bool {
    player_x <= laser_x <= player_x + LASER_LOOKAHEAD
}

/// The column after `x` in the sweep: the next one, and the first one
/// after the last.
pub open spec fn next_column(x: int) -> int {
    if x + 1 >= BOARD_X {
        0
    } else {
        x + 1
    }
}

/// The column on which the laser starts a new round.
pub open spec fn midpoint() -> int {
    BOARD_X as int / 2
}

/// The fire that the laser leaves on the cell at position `i`.
pub open spec fn laser_fire(config: Config, i: int) -> FireComponent {
    FireComponent {
        damage: config.laser_fire_damage,
        x: cell_x(i) as usize,
        y: cell_y(i) as usize,
        timer: Timer::fresh(config.laser_fire_timer, false),
        from_player: false,
    }
}

/// The cell at position `i` after the laser has left column `x`: on that
/// column every cell without a fire is set on fire.
pub open spec fn lasered_cell(cell: Cell, config: Config, x: int, i: int) -> Cell {
    if cell_x(i) == x && cell.fire is None {
        Cell { fire: Some(laser_fire(config, i)), ..cell }
    } else {
        cell
    }
}

/// The event that the laser raises when it reaches the player.
pub open spec fn laser_hit_events(g: GameView) -> Seq<GameEvents> {
    if laser_reaches(g.laser.x as int, g.player.x as int) {
        seq![GameEvents::Lost(CauseOfDeath::Laser)]
    } else {
        Seq::empty()
    }
}

/// The event that the laser raises when it arrives on column `x`.
pub open spec fn arrival_events(x: int) -> Seq<GameEvents> {
    if x == midpoint() {
        seq![GameEvents::NewRound]
    } else {
        Seq::empty()
    }
}

/// The run after the laser has advanced one column: the column it leaves
/// burns, and arriving on the middle column starts a new round.
pub open spec fn laser_advanced(g: GameView) -> GameView {
    GameView {
        cells: Seq::new(
            BOARD_CELLS as nat,
            |i: int| lasered_cell(g.cells[i], g.config, g.laser.x as int, i),
        ),
        laser: Laser { x: next_column(g.laser.x as int) as usize, ..g.laser },
        game_events: g.game_events + arrival_events(next_column(g.laser.x as int)),
        ..g
    }
}

/// The run after `delta` more milliseconds of the laser. While the game is
/// played the laser ends the run if it reaches the player, and advances one
/// column when its timer completes a period; the timer then takes the
/// laser's current speed as its period.
pub open spec fn move_laser_spec(g: GameView, delta: u64) -> GameView {
    if g.state == GameState::Play {
        let warned = GameView { game_events: g.game_events + laser_hit_events(g), ..g };
        if g.laser_timer.ticked(delta).just_finished {
            GameView {
                laser_timer: Timer { duration: g.laser.speed, ..g.laser_timer.ticked(delta) },
                ..laser_advanced(warned)
            }
        } else {
            GameView { laser_timer: g.laser_timer.ticked(delta), ..warned }
        }
    } else {
        g
    }
}

/// Sets the laser's column on fire and moves the laser to the next column.
pub fn advance_laser(game: &mut Game)
    requires
        old(game).wf(),
    ensures
        final(game).wf(),
        final(game)@ == laser_advanced(old(game)@),
{
    let x = game.laser.x;
    let mut y: usize = 0;
    while y < BOARD_Y
        invariant
            y <= BOARD_Y,
            x < BOARD_X,
            x == old(game)@.laser.x,
            old(game).wf(),
            game.wf(),
            game@ == (GameView { cells: game@.cells, ..old(game)@ }),
            forall|k: int|
                0 <= k < BOARD_CELLS ==> #[trigger] game@.cells[k] == if cell_y(k) < y {
                    lasered_cell(old(game)@.cells[k], old(game)@.config, x as int, k)
                } else {
                    old(game)@.cells[k]
                },
        decreases BOARD_Y - y,
    {
        let i: usize = y * BOARD_X + x;
        let cell = game.board.cells[i];
        if cell.fire.is_none() {
            game.board.cells[i] = Cell {
                payload: cell.payload,
                fire: Some(
                    FireComponent {
                        damage: game.config.laser_fire_damage,
                        x,
                        y,
                        timer: Timer::new(game.config.laser_fire_timer, false),
                        from_player: false,
                    },
                ),
                indication: cell.indication,
            };
        }
        y += 1;
    }
    game.laser.x = if x + 1 >= BOARD_X {
        0
    } else {
        x + 1
    };
    if game.laser.x == BOARD_X / 2 {
        game.game_events.push(GameEvents::NewRound);
    }
    assert(game@.cells =~= laser_advanced(old(game)@).cells);
    assert(game@.game_events =~= laser_advanced(old(game)@).game_events);
}

/// Advances the laser's timer by `delta` milliseconds while the game is
/// played. A laser that reaches the player ends the run. When the timer
/// completes a period the laser sets the column it leaves on fire and moves
/// on, back to the first column after the last; arriving on the middle
/// column starts a new round.
pub fn move_laser(game: &mut Game, delta: u64)
    requires
        old(game).wf(),
    ensures
        final(game).wf(),
        final(game)@ == move_laser_spec(old(game)@, delta),
{
    if game.state != GameState::Play {
        return ;
    }
    if game.player.x <= game.laser.x && game.laser.x - game.player.x <= LASER_LOOKAHEAD {
        game.game_events.push(GameEvents::Lost(CauseOfDeath::Laser));
    }
    assert(game@.game_events =~= old(game)@.game_events + laser_hit_events(old(game)@));
    let mut timer = game.laser_timer.0;
    timer.tick(delta);
    if timer.just_finished {
        advance_laser(game);
        timer.duration = game.laser.speed;
    }
    game.laser_timer = LaserComponent(timer);
}

impl ObstacleComponent {
    /// An obstacle with all of its life.
    pub open spec fn fresh(life: usize) -> ObstacleComponent {
        ObstacleComponent {
            original_life: life,
            remaining_life: life,
            sprite: ObstacleSprite { percent: 100 },
        }
    }

    pub fn new(life: usize) -> (obstacle: ObstacleComponent)
        ensures
            obstacle == ObstacleComponent::fresh(life),
    {
        ObstacleComponent {
            original_life: life,
            remaining_life: life,
            sprite: ObstacleSprite { percent: 100 },
        }
    }

    /// The picture for an obstacle's wear: the share of its life that is
    /// left, rounded up to a quarter.
    pub open spec fn worn_sprite(self) -> ObstacleSprite {
        ObstacleSprite {
            percent: if 4 * self.remaining_life > 3 * self.original_life {
                100
            } else if 2 * self.remaining_life > self.original_life {
                75
            } else if 4 * self.remaining_life > self.original_life {
                50
            } else {
                25
            },
        }
    }
}

/// A cell whose obstacle shows the picture for its wear.
pub open spec fn sprite_cell(cell: Cell) -> Cell {
    match cell.payload {
        Payload::Obstacle(obstacle) => Cell {
            payload: Payload::Obstacle(
                ObstacleComponent { sprite: obstacle.worn_sprite(), ..obstacle },
            ),
            ..cell
        },
        _ => cell,
    }
}

/// The run after every obstacle has been given the picture for its wear.
pub open spec fn update_obstacle_sprite_spec(g: GameView) -> GameView {
    GameView { cells: Seq::new(BOARD_CELLS as nat, |i: int| sprite_cell(g.cells[i])), ..g }
}

/// Gives every obstacle the picture for its wear.
pub fn update_obstacle_sprite(game: &mut Game)
    requires
        old(game).wf(),
    ensures
        final(game).wf(),
        final(game)@ == update_obstacle_sprite_spec(old(game)@),
{
    let mut i: usize = 0;
    while i < BOARD_CELLS
        invariant
            i <= BOARD_CELLS,
            old(game).wf(),
            game.wf(),
            game@ == (GameView { cells: game@.cells, ..old(game)@ }),
            forall|k: int| 0 <= k < i ==> #[trigger] game@.cells[k] == sprite_cell(old(game)@.cells[k]),
            forall|k: int| i <= k < BOARD_CELLS ==> #[trigger] game@.cells[k] == old(game)@.cells[k],
        decreases BOARD_CELLS - i,
    {
        let cell = game.board.cells[i];
        match cell.payload {
            Payload::Obstacle(obstacle) => {
                let left: u128 = obstacle.remaining_life as u128;
                let whole: u128 = obstacle.original_life as u128;
                let percent: u8 = if 4 * left > 3 * whole {
                    100
                } else if 2 * left > whole {
                    75
                } else if 4 * left > whole {
                    50
                } else {
                    25
                };
                game.board.cells[i] = Cell {
                    payload: Payload::Obstacle(
                        ObstacleComponent {
                            original_life: obstacle.original_life,
                            remaining_life: obstacle.remaining_life,
                            sprite: ObstacleSprite { percent },
                        },
                    ),
                    fire: cell.fire,
                    indication: cell.indication,
                };
            },
            _ => {},
        }
        i += 1;
    }
    assert(game@.cells =~= update_obstacle_sprite_spec(old(game)@).cells);
}

/// Whether an obstacle may spawn in column `x`, row `y`: the cell is on
/// the board, empty, and not the one the player stands on.
pub open spec fn can_spawn(g: GameView, x: int, y: int) -> bool {
    &&& in_board(x, y)
    &&& !(x == g.player.x && y == g.player.y)
    &&& cell_at(g.cells, x, y).payload is Empty
}

/// The run after an obstacle was to spawn in column `x`, row `y`: where it
/// may, an obstacle of the laser's current strength stands there; where it
/// may not, nothing has changed.
pub open spec fn obstacle_spawned(g: GameView, x: int, y: int) -> GameView {
    if can_spawn(g, x, y) {
        GameView {
            cells: g.cells.update(
                cell_index(x, y),
                Cell {
                    payload: Payload::Obstacle(ObstacleComponent::fresh(g.laser.obstacle_strength)),
                    ..cell_at(g.cells, x, y)
                },
            ),
            ..g
        }
    } else {
        g
    }
}

/// The run after obstacles were to spawn on the first `n` of the cells
/// `tries`, one after the other.
pub open spec fn wave_spawned(g: GameView, tries: Seq<(usize, usize)>, n: int) -> GameView
    decreases n,
{
    if n <= 0 {
        g
    } else {
        obstacle_spawned(
            wave_spawned(g, tries, n - 1),
            tries[n - 1].0 as int,
            tries[n - 1].1 as int,
        )
    }
}

/// How many of the first `n` of the cells `tries` took an obstacle.
pub open spec fn wave_count(g: GameView, tries: Seq<(usize, usize)>, n: int) -> nat
    decreases n,
{
    if n <= 0 {
        0
    } else {
        wave_count(g, tries, n - 1) + if can_spawn(
            wave_spawned(g, tries, n - 1),
            tries[n - 1].0 as int,
            tries[n - 1].1 as int,
        ) {
            1nat
        } else {
            0nat
        }
    }
}

/// Whether `tries` can be the cells drawn for one wave: at most twice as
/// many as the wave has obstacles, none on the first column, and no more
/// of them taken than the wave has obstacles.
pub open spec fn valid_wave(g: GameView, tries: Seq<(usize, usize)>) -> bool {
    &&& tries.len() <= 2 * g.laser.nb_obstacles
    &&& forall|k: int|
        0 <= k < tries.len() ==> 1 <= (#[trigger] tries[k]).0 < BOARD_X && tries[k].1 < BOARD_Y
    &&& wave_count(g, tries, tries.len() as int) <= g.laser.nb_obstacles
}

/// Whether a wave spawns within `delta` more milliseconds: the game is
/// played and the spawner's timer completes a period.
pub open spec fn wave_fires(g: GameView, delta: u64) -> bool {
    g.state == GameState::Play && g.spawner.ticked(delta).just_finished
}

/// Whether the drawing of a wave went on as long as it should and no
/// longer: no cell was drawn once the wave had placed all its obstacles,
/// and the drawing ended only with all obstacles placed or with twice as
/// many cells drawn as the wave has obstacles (or as many as can be
/// counted).
pub open spec fn wave_done(g: GameView, tries: Seq<(usize, usize)>) -> bool {
    &&& forall|n: int|
        0 <= n < tries.len() ==> #[trigger] wave_count(g, tries, n) < g.laser.nb_obstacles
    &&& wave_count(g, tries, tries.len() as int) == g.laser.nb_obstacles || tries.len() == 2
        * g.laser.nb_obstacles || tries.len() == usize::MAX
}

/// Whether `tries` can be the cells drawn by the spawner within `delta`
/// more milliseconds: a whole wave when one spawns, and none otherwise.
pub open spec fn wave_drawn(g: GameView, delta: u64, tries: Seq<(usize, usize)>) -> bool {
    &&& valid_wave(g, tries)
    &&& if wave_fires(g, delta) {
        wave_done(g, tries)
    } else {
        tries.len() == 0
    }
}

/// The run after `delta` more milliseconds of the obstacle spawner, where
/// `tries` are the cells drawn if a wave spawns. While the game is played
/// a wave spawns when the spawner's timer completes a period; the timer
/// then takes the laser's current spawn delay as its period.
pub open spec fn spawn_obstacles_spec(g: GameView, delta: u64, tries: Seq<(usize, usize)>)
    -> GameView {
    if g.state != GameState::Play {
        g
    } else if g.spawner.ticked(delta).just_finished {
        GameView {
            spawner: Timer {
                duration: g.laser.spawn_obstacles_delay as u64,
                ..g.spawner.ticked(delta)
            },
            ..wave_spawned(g, tries, tries.len() as int)
        }
    } else {
        GameView { spawner: g.spawner.ticked(delta), ..g }
    }
}

/// Puts an obstacle of the laser's current strength in column `x`, row
/// `y`, unless the cell is occupied or the player stands on it, and says
/// whether it did.
pub fn spawn_obstacle(game: &mut Game, x: usize, y: usize) -> (placed: bool)
    requires
        old(game).wf(),
        in_board(x as int, y as int),
    ensures
        final(game).wf(),
        placed == can_spawn(old(game)@, x as int, y as int),
        final(game)@ == obstacle_spawned(old(game)@, x as int, y as int),
{
    if x == game.player.x && y == game.player.y {
        return false;
    }
    let obstacle = ObstacleComponent::new(game.laser.obstacle_strength);
    game.board.place(x, y, Payload::Obstacle(obstacle))
}

/// Advances the obstacle spawner by `delta` milliseconds while the game is
/// played. When its timer completes a period a wave spawns: cells are
/// drawn at random, never on the first column, until as many obstacles as
/// the wave has are placed or twice as many cells have been drawn. A cell
/// that is occupied, or that the player stands on, takes no obstacle, so a
/// crowded board gets fewer. The cells drawn are the sequence `tries` of
/// the contract.
pub fn spawn_obstacles(game: &mut Game, delta: u64, rng: &mut StdRng)
    requires
        old(game).wf(),
    ensures
        final(game).wf(),
        exists|tries: Seq<(usize, usize)>|
            wave_drawn(old(game)@, delta, tries) && #[trigger] spawn_obstacles_spec(
                old(game)@,
                delta,
                tries,
            ) == final(game)@,
{
    if game.state != GameState::Play {
        assert(wave_drawn(old(game)@, delta, Seq::empty()) && spawn_obstacles_spec(
            old(game)@,
            delta,
            Seq::empty(),
        ) == game@);
        return ;
    }
    let mut timer = game.spawner.0;
    timer.tick(delta);
    if !timer.just_finished {
        game.spawner = ObstacleSpawner(timer);
        assert(wave_drawn(old(game)@, delta, Seq::empty()) && spawn_obstacles_spec(
            old(game)@,
            delta,
            Seq::empty(),
        ) == game@);
        return ;
    }
    let wanted = game.laser.nb_obstacles;
    let limit: usize = if wanted > usize::MAX / 2 {
        usize::MAX
    } else {
        2 * wanted
    };
    let ghost mut tries: Seq<(usize, usize)> = Seq::empty();
    let mut drawn: usize = 0;
    let mut placed: usize = 0;
    while placed < wanted && drawn < limit
        invariant
            old(game).wf(),
            game.wf(),
            wanted == old(game)@.laser.nb_obstacles,
            old(game)@.state == GameState::Play,
            timer == old(game)@.spawner.ticked(delta),
            timer.just_finished,
            game@.laser == old(game)@.laser,
            limit == 2 * wanted || limit == usize::MAX,
            limit <= 2 * wanted,
            drawn <= limit,
            placed <= wanted,
            tries.len() == drawn,
            forall|n: int|
                0 <= n < tries.len() ==> #[trigger] wave_count(old(game)@, tries, n) < wanted,
            forall|k: int|
                0 <= k < tries.len() ==> 1 <= (#[trigger] tries[k]).0 < BOARD_X && tries[k].1
                    < BOARD_Y,
            placed == wave_count(old(game)@, tries, tries.len() as int),
            game@ == wave_spawned(old(game)@, tries, tries.len() as int),
        decreases limit - drawn,
    {
        let x = gen_range(rng, 1, BOARD_X);
        let y = gen_range(rng, 0, BOARD_Y);
        let ghost earlier = tries;
        proof {
            tries = tries.push((x, y));
            lemma_wave_prefix(old(game)@, earlier, tries, earlier.len() as int);
            assert forall|n: int| 0 <= n < tries.len() implies #[trigger] wave_count(
                old(game)@,
                tries,
                n,
            ) < wanted by {
                lemma_wave_prefix(old(game)@, earlier, tries, n);
            }
        }
        if spawn_obstacle(game, x, y) {
            placed += 1;
        }
        drawn += 1;
    }
    timer.duration = game.laser.spawn_obstacles_delay as u64;
    game.spawner = ObstacleSpawner(timer);
    assert(wave_drawn(old(game)@, delta, tries) && spawn_obstacles_spec(old(game)@, delta, tries)
        == game@);
}

/// A wave depends only on the cells drawn so far.
proof fn lemma_wave_prefix(
    g: GameView,
    a: Seq<(usize, usize)>,
    b: Seq<(usize, usize)>,
    n: int,
)
    requires
        0 <= n <= a.len() <= b.len(),
        forall|k: int| 0 <= k < n ==> a[k] == b[k],
    ensures
        wave_spawned(g, a, n) == wave_spawned(g, b, n),
        wave_count(g, a, n) == wave_count(g, b, n),
    decreases n,
{
    if n > 0 {
        lemma_wave_prefix(g, a, b, n - 1);
    }
}

/// The run after the laser has advanced `n` columns.
pub open spec fn advanced_by(g: GameView, n: int) -> GameView
    decreases n,
{
    if n <= 0 {
        g
    } else {
        laser_advanced(advanced_by(g, n - 1))
    }
}

/// From the first column, the laser's `n`-th advance of a sweep puts it on
/// column `n`, and on the first column again at the end of the sweep. Up to
/// the middle column no round has started; from there to the end of the
/// sweep exactly one has.
pub proof fn lemma_sweep(g: GameView, n: int)
    requires
        g.laser.x == 0,
        0 <= n <= BOARD_X,
    ensures
        advanced_by(g, n).laser.x == if n == BOARD_X {
            0
        } else {
            n
        },
        advanced_by(g, n).game_events == if n < midpoint() {
            g.game_events
        } else {
            g.game_events.push(GameEvents::NewRound)
        },
        advanced_by(g, n).round == g.round,
    decreases n,
{
    if n > 0 {
        lemma_sweep(g, n - 1);
        let before = advanced_by(g, n - 1);
        assert(next_column(before.laser.x as int) == if n == BOARD_X {
            0
        } else {
            n
        });
        if n < midpoint() {
            assert(before.game_events + arrival_events(n) =~= g.game_events);
        } else if n == midpoint() {
            assert(before.game_events + arrival_events(n) =~= g.game_events.push(
                GameEvents::NewRound,
            ));
        } else {
            assert(before.game_events + arrival_events(next_column(before.laser.x as int))
                =~= g.game_events.push(GameEvents::NewRound));
        }
    }
}

/// A full sweep brings the laser back to the column it started on,
/// whichever that was.
pub proof fn lemma_full_sweep_returns(g: GameView, n: int)
    requires
        g.laser.x < BOARD_X,
        0 <= n <= BOARD_X,
    ensures
        advanced_by(g, n).laser.x == (g.laser.x + n) % (BOARD_X as int),
    decreases n,
{
    if n > 0 {
        lemma_full_sweep_returns(g, n - 1);
    }
}

/// An obstacle that is to spawn on an occupied cell, or on the player's
/// cell, is refused: the run stays exactly as it was.
pub proof fn lemma_spawn_refused_on_occupied(g: GameView, x: int, y: int)
    requires
        in_board(x, y),
        !(cell_at(g.cells, x, y).payload is Empty) || (x == g.player.x && y == g.player.y),
    ensures
        obstacle_spawned(g, x, y) == g,
{
}

/// A wave never changes a cell that is occupied, nor the player's cell.
pub proof fn lemma_wave_keeps_occupied(g: GameView, tries: Seq<(usize, usize)>, n: int, i: int)
    requires
        g.wf(),
        0 <= n <= tries.len(),
        forall|k: int| 0 <= k < tries.len() ==> in_board(
            (#[trigger] tries[k]).0 as int,
            tries[k].1 as int,
        ),
        0 <= i < BOARD_CELLS,
        !(g.cells[i].payload is Empty) || i == cell_index(g.player.x as int, g.player.y as int),
    ensures
        wave_spawned(g, tries, n).wf(),
        wave_spawned(g, tries, n).player == g.player,
        wave_spawned(g, tries, n).cells[i] == g.cells[i],
    decreases n,
{
    if n > 0 {
        lemma_wave_keeps_occupied(g, tries, n - 1, i);
        assert(in_board(tries[n - 1].0 as int, tries[n - 1].1 as int));
    }
}

} // verus!
