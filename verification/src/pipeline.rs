//! One tick of the simulation: every system, once, in a fixed order.
//!
//! Input is taken in first, then the player moves, then bombs, fires,
//! obstacles and power-ups are brought up to date, then the laser advances,
//! and last the events of the tick are handled and counted.

use vstd::prelude::*;
use rand::rngs::StdRng;
use crate::board::{Cell, Payload, PlayerPowerUp, BOARD_CELLS};
use crate::board_setup::{remove_indications, remove_indications_spec};
use crate::bomb::{
    destroyed_obstacles, destroyed_obstacles_spec, fire, fire_spec, flash_bombs, flash_bombs_spec,
    is_destroyed, player_powerups, player_powerups_spec,
};
use crate::game::{Game, GameEvents, GameState, GameView};
use crate::keyboard_systems::{
    KeyboardInput, KeyboardState, clear_moving_marker, keyboard_event_system,
    keyboard_input_spec, keyboard_input_system, keys_handled, lemma_actions_keep_round,
    lemma_keys_keep_board, move_timer_ticked, moving_marker_ticked, player_command,
    player_command_spec, player_move_timer,
};
use crate::laser::{
    move_laser, move_laser_spec, spawn_obstacles, spawn_obstacles_spec, update_obstacle_sprite,
    update_obstacle_sprite_spec, wave_drawn,
};
use crate::lost::{GameStats, update_cause_of_death, update_stats};
use crate::screen::{GameScreen, Screen};
use crate::ui::{
    LaserPowerUp, death_animation, death_animation_spec, death_shown, score, score_spec,
    ui_event_update, ui_event_update_spec, valid_kinds,
};

verus! {

/// What is drawn at random in one tick.
pub struct Draws {
    /// What each destroyed obstacle leaves behind, by the position of its
    /// cell.
    pub drops: Seq<Option<PlayerPowerUp>>,
    /// The cells drawn for a wave of obstacles.
    pub tries: Seq<(usize, usize)>,
    /// The power-ups of the laser, by the position of the event that starts
    /// the round.
    pub kinds: Seq<LaserPowerUp>,
}

/// The run once the input of a tick is taken in and the player has moved.
pub open spec fn after_input(
    g: GameView,
    events: Seq<KeyboardInput>,
    keys: KeyboardState,
    delta: u64,
) -> GameView {
    moving_marker_ticked(
        move_timer_ticked(
            player_command_spec(
                keyboard_input_spec(keys_handled(g, events, events.len() as int), keys),
            ),
            delta,
        ),
        delta,
    )
}

/// The run once, after that, bombs and fires are brought up to date.
pub open spec fn after_fire(
    g: GameView,
    events: Seq<KeyboardInput>,
    keys: KeyboardState,
    delta: u64,
) -> GameView {
    fire_spec(flash_bombs_spec(after_input(g, events, keys, delta), delta), delta)
}

/// The run once, after that, destroyed obstacles are removed and power-ups
/// are brought up to date.
pub open spec fn after_drops(
    g: GameView,
    events: Seq<KeyboardInput>,
    keys: KeyboardState,
    delta: u64,
    draws: Draws,
) -> GameView {
    player_powerups_spec(
        destroyed_obstacles_spec(after_fire(g, events, keys, delta), draws.drops),
        delta,
    )
}

/// The run once, after that, obstacles have spawned and the laser has
/// advanced.
pub open spec fn after_laser(
    g: GameView,
    events: Seq<KeyboardInput>,
    keys: KeyboardState,
    delta: u64,
    draws: Draws,
) -> GameView {
    move_laser_spec(
        remove_indications_spec(
            update_obstacle_sprite_spec(
                spawn_obstacles_spec(after_drops(g, events, keys, delta, draws), delta, draws.tries),
            ),
            delta,
        ),
        delta,
    )
}

/// The run once, after that, the events of the tick are handled and the
/// score is brought up to date.
pub open spec fn after_events(
    g: GameView,
    screen: GameScreen,
    events: Seq<KeyboardInput>,
    keys: KeyboardState,
    delta: u64,
    draws: Draws,
) -> GameView {
    score_spec(
        ui_event_update_spec(after_laser(g, events, keys, delta, draws), screen, draws.kinds),
        screen,
        delta,
    )
}

/// The run after one tick.
pub open spec fn ticked(
    g: GameView,
    screen: GameScreen,
    events: Seq<KeyboardInput>,
    keys: KeyboardState,
    delta: u64,
    draws: Draws,
) -> GameView {
    GameView {
        interesting_events: Seq::empty(),
        ..death_animation_spec(after_events(g, screen, events, keys, delta, draws), delta)
    }
}

/// Whether `draws` can be what is drawn in one tick: no drop where the
/// chance of one is zero, a drop for each destroyed obstacle where it is one
/// hundred percent, a whole wave when one spawns and no cell otherwise, and
/// power-ups that the rounds allow.
pub open spec fn valid_draws(
    g: GameView,
    screen: GameScreen,
    events: Seq<KeyboardInput>,
    keys: KeyboardState,
    delta: u64,
    draws: Draws,
) -> bool {
    &&& draws.drops.len() == BOARD_CELLS
    &&& g.config.player_powerup_chance == 0 ==> forall|i: int|
        0 <= i < BOARD_CELLS ==> draws.drops[i] is None
    &&& g.config.player_powerup_chance == 100 ==> forall|i: int|
        0 <= i < BOARD_CELLS && is_destroyed(after_fire(g, events, keys, delta).cells[i])
            ==> draws.drops[i] is Some
    &&& wave_drawn(after_drops(g, events, keys, delta, draws), delta, draws.tries)
    &&& valid_kinds(after_laser(g, events, keys, delta, draws), screen, draws.kinds)
}

/// Whether a tick with the given draws takes the run, the screen and the
/// statistics from what they were to what they are, and shows `observed`
/// as the events it has handled.
pub open spec fn tick_result(
    g: GameView,
    screen: GameScreen,
    stats: GameStats,
    events: Seq<KeyboardInput>,
    keys: KeyboardState,
    delta: u64,
    draws: Draws,
    after: GameView,
    screen_after: GameScreen,
    stats_after: GameStats,
    observed: Seq<GameEvents>,
) -> bool {
    let handled = after_events(g, screen, events, keys, delta, draws);
    &&& valid_draws(g, screen, events, keys, delta, draws)
    &&& after == ticked(g, screen, events, keys, delta, draws)
    &&& observed == after_laser(g, events, keys, delta, draws).game_events
    &&& screen_after == if death_shown(handled, delta) {
        GameScreen { current_screen: Screen::Lost, ..screen }
    } else {
        screen
    }
    &&& stats_after == (GameStats {
        last_seen_cause_of_death: stats.cause_after(observed, observed.len() as int),
        ..stats
    }).counting_all(
        handled.interesting_events,
        handled.score,
        handled.interesting_events.len() as int,
    )
}

/// Runs one tick of `delta` milliseconds: takes in the key events and the
/// held keys, moves the player, brings bombs, fires, obstacles and
/// power-ups up to date, advances the laser, handles the events raised and
/// counts what is worth counting. Returns the events handled in this tick.
/// A bomb that a blast reaches in one tick goes off in the next tick in
/// which the game is played, whatever the length of the ticks.
/// What is drawn at random on the way is the value `draws` of the contract;
/// all else is determined.
pub fn tick(
    game: &mut Game,
    game_screen: &mut GameScreen,
    stats: &mut GameStats,
    events: &Vec<KeyboardInput>,
    keys: KeyboardState,
    delta: u64,
    rng: &mut StdRng,
) -> (observed: Vec<GameEvents>)
    requires
        old(game).wf(),
    ensures
        final(game).wf(),
        exists|draws: Draws| #[trigger]
            tick_result(
                old(game)@,
                *old(game_screen),
                *old(stats),
                events@,
                keys,
                delta,
                draws,
                final(game)@,
                *final(game_screen),
                *final(stats),
                observed@,
            ),
{
    keyboard_event_system(game, events);
    keyboard_input_system(game, keys);
    player_command(game);
    player_move_timer(game, delta);
    clear_moving_marker(game, delta);
    flash_bombs(game, delta);
    fire(game, delta);
    let ghost burnt = game@;
    destroyed_obstacles(game, rng);
    let ghost drops = choose|drops: Seq<Option<PlayerPowerUp>>|
        {
            &&& drops.len() == BOARD_CELLS
            &&& #[trigger] destroyed_obstacles_spec(burnt, drops) == game@
            &&& burnt.config.player_powerup_chance == 0 ==> forall|i: int|
                0 <= i < BOARD_CELLS ==> drops[i] is None
            &&& burnt.config.player_powerup_chance == 100 ==> forall|i: int|
                0 <= i < BOARD_CELLS && is_destroyed(burnt.cells[i]) ==> drops[i] is Some
        };
    player_powerups(game, delta);
    let ghost dropped = game@;
    spawn_obstacles(game, delta, rng);
    let ghost tries = choose|tries: Seq<(usize, usize)>|
        wave_drawn(dropped, delta, tries) && #[trigger] spawn_obstacles_spec(dropped, delta, tries)
            == game@;
    update_obstacle_sprite(game);
    remove_indications(game, delta);
    move_laser(game, delta);
    let ghost lasered = game@;
    let observed = ui_event_update(game, game_screen, rng);
    let ghost kinds = choose|kinds: Seq<LaserPowerUp>|
        valid_kinds(lasered, *game_screen, kinds) && #[trigger] ui_event_update_spec(
            lasered,
            *game_screen,
            kinds,
        ) == game@;
    update_cause_of_death(stats, &observed);
    score(game, game_screen, delta);
    death_animation(game, game_screen, delta);
    update_stats(stats, game);
    proof {
        let draws = Draws { drops, tries, kinds };
        let keyed = keys_handled(old(game)@, events@, events@.len() as int);
        lemma_keys_keep_board(old(game)@, events@, events@.len() as int);
        let asked = keyboard_input_spec(keyed, keys);
        lemma_actions_keep_round(asked, asked.player_actions, asked.player_actions.len() as int);
        assert(burnt.config == old(game)@.config);
        assert(tick_result(
            old(game)@,
            *old(game_screen),
            *old(stats),
            events@,
            keys,
            delta,
            draws,
            game@,
            *game_screen,
            *stats,
            observed@,
        ));
    }
    observed
}

/// A paused game stands still: no bomb, fire, power-up, obstacle, laser or
/// score advances, however much time passes.
pub proof fn lemma_pause_freezes(
    g: GameView,
    screen: GameScreen,
    delta: u64,
    tries: Seq<(usize, usize)>,
)
    requires
        g.state == GameState::Pause,
    ensures
        flash_bombs_spec(g, delta) == g,
        fire_spec(g, delta) == g,
        player_powerups_spec(g, delta) == g,
        spawn_obstacles_spec(g, delta, tries) == g,
        move_laser_spec(g, delta) == g,
        score_spec(g, screen, delta) == g,
        player_command_spec(g) == (GameView { player_actions: Seq::empty(), ..g }),
{
}

/// Only a placement occupies a cell. Advancing bombs, fires, power-ups,
/// the laser, the pictures of obstacles and the teleport arrows never puts
/// anything on an empty cell, and never turns what a cell holds into
/// something of another kind: a cell keeps its kind of occupant or is freed.
pub proof fn lemma_only_placements_occupy(g: GameView, delta: u64, i: int)
    requires
        g.wf(),
        0 <= i < BOARD_CELLS,
    ensures
        kind_kept(g.cells[i], flash_bombs_spec(g, delta).cells[i]),
        kind_kept(g.cells[i], fire_spec(g, delta).cells[i]),
        kind_kept(g.cells[i], player_powerups_spec(g, delta).cells[i]),
        kind_kept(g.cells[i], move_laser_spec(g, delta).cells[i]),
        kind_kept(g.cells[i], update_obstacle_sprite_spec(g).cells[i]),
        kind_kept(g.cells[i], remove_indications_spec(g, delta).cells[i]),
{
}

/// Whether a cell has kept its kind of occupant or has been freed.
pub open spec fn kind_kept(before: Cell, after: Cell) -> bool {
    match before.payload {
        Payload::Empty => after.payload is Empty,
        Payload::Obstacle(_) => after.payload is Obstacle || after.payload is Empty,
        Payload::Bomb(_) => after.payload is Bomb || after.payload is Empty,
        Payload::PowerUp(_) => after.payload is PowerUp || after.payload is Empty,
    }
}

} // verus!
