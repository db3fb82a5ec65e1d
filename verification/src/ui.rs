//! The state machine of a run: what the events of a tick do to the round,
//! the score and the state of the game, and what the pause menu does.

use vstd::prelude::*;
use rand::rngs::StdRng;
use crate::board::count_bombs;
use crate::bomb::{raised, scale, scaled};
use crate::config::Config;
use crate::game::{
    Animation, DeathAnimation, Game, GameEvents, GameState, GameView, Laser,
};
use crate::laser::{advanced_by, lemma_sweep, midpoint};
use crate::random::draw_laser_powerup;
use crate::screen::{GameScreen, Screen};
use crate::timer::Timer;

verus! {

/// Time the player's death is shown.
pub const DEATH_MILLIS: u64 = 2000;

/// How the laser grows harder at the start of a round.
#[derive(Clone, Copy, Debug, PartialEq, Eq, Structural)]
pub enum LaserPowerUp {
    Speed,
    ObstacleSpawnDelay,
    ObstacleSpawnCount,
    ObstacleStrength,
}

/// The entries of the pause menu.
#[derive(Clone, Copy, Debug, PartialEq, Eq, Structural)]
pub enum PauseButton {
    Continue,
    ToMenu,
}

impl PauseButton {
    /// The words on an entry of the pause menu.
    pub open spec fn words(self) -> Seq<char> {
        match self {
            PauseButton::Continue => "continue"@,
            PauseButton::ToMenu => "exit to menu"@,
        }
    }

    /// The words on the entry.
    pub fn label(self) -> (text: String)
        ensures
            text@ == self.words(),
    {
        match self {
            PauseButton::Continue => "continue".to_owned(),
            PauseButton::ToMenu => "exit to menu".to_owned(),
        }
    }
}

/// The parts of the heads-up display.
#[derive(Clone, Copy, Debug, PartialEq, Eq, Structural)]
pub enum UiComponent {
    Round,
    Score,
    BombsAvailable,
}

/// `percent` hundredths of a spawn delay, capped at the largest delay.
pub open spec fn scaled_delay(delay: u16, percent: u16) -> u16 {
    if delay * percent / 100 > u16::MAX {
        u16::MAX
    } else {
        (delay * percent / 100) as u16
    }
}

/// The laser with the effect of a power-up of the given kind.
pub open spec fn laser_empowered(laser: Laser, kind: LaserPowerUp, config: Config) -> Laser {
    match kind {
        LaserPowerUp::Speed => Laser {
            speed: scaled(laser.speed, config.laser_powerup_speed),
            ..laser
        },
        LaserPowerUp::ObstacleSpawnDelay => Laser {
            spawn_obstacles_delay: scaled_delay(
                laser.spawn_obstacles_delay,
                config.laser_powerup_obstacle_delay,
            ),
            ..laser
        },
        LaserPowerUp::ObstacleSpawnCount => Laser {
            nb_obstacles: raised(laser.nb_obstacles, config.laser_powerup_nb_obstacles),
            ..laser
        },
        LaserPowerUp::ObstacleStrength => Laser {
            obstacle_strength: raised(
                laser.obstacle_strength,
                config.laser_powerup_obstacle_strength,
            ),
            ..laser
        },
    }
}

/// Whether the laser may take a power-up of the given kind at the start of
/// `round`: the first round never makes obstacles stronger, as the player
/// has had no chance yet to better their bombs.
pub open spec fn allowed_in(round: u16, kind: LaserPowerUp) -> bool {
    round == 1 ==> kind != LaserPowerUp::ObstacleStrength
}

/// The round after `round`; the last round that can be counted stays.
pub open spec fn round_after(round: u16) -> u16 {
    if round == u16::MAX {
        round
    } else {
        (round + 1) as u16
    }
}

/// The run at the start of a new round: the round is counted, a round that
/// beats the session's best is announced once in a run, and the laser
/// takes the power-up `kind`.
pub open spec fn new_round_spec(g: GameView, screen: GameScreen, kind: LaserPowerUp) -> GameView {
    let round = round_after(g.round);
    let best = screen.new_highround(round) && !g.round_stared;
    GameView {
        round,
        round_stared: g.round_stared || best,
        game_events: if best {
            g.game_events.push(GameEvents::NewHighround)
        } else {
            g.game_events
        },
        laser: laser_empowered(g.laser, kind, g.config),
        ..g
    }
}

/// The run after one event has been handled. A new round is counted; a
/// lost player turns a game that has not ended into one that has and starts
/// the death animation; a request to pause stops a game that is played. An
/// event that does not fit the state, and any other event, changes nothing.
pub open spec fn event_handled(
    g: GameView,
    screen: GameScreen,
    event: GameEvents,
    kind: LaserPowerUp,
) -> GameView {
    match event {
        GameEvents::NewRound => new_round_spec(g, screen, kind),
        GameEvents::Lost(_) => if g.state != GameState::Death {
            GameView {
                state: GameState::Death,
                death: Some(Timer::fresh(DEATH_MILLIS, false)),
                ..g
            }
        } else {
            g
        },
        GameEvents::Pause => if g.state == GameState::Play {
            GameView { state: GameState::Pause, ..g }
        } else {
            g
        },
        _ => g,
    }
}

/// The run after the first `n` of `events` have been handled in order,
/// where `kinds[k]` is the power-up that the laser takes if `events[k]`
/// starts a round.
pub open spec fn events_handled(
    g: GameView,
    screen: GameScreen,
    events: Seq<GameEvents>,
    kinds: Seq<LaserPowerUp>,
    n: int,
) -> GameView
    decreases n,
{
    if n <= 0 {
        g
    } else {
        event_handled(
            events_handled(g, screen, events, kinds, n - 1),
            screen,
            events[n - 1],
            kinds[n - 1],
        )
    }
}

/// Whether each of the power-ups `kinds` is allowed in the round that the
/// event at its position starts, for the first `n` of `events`.
pub open spec fn kinds_allowed(
    g: GameView,
    screen: GameScreen,
    events: Seq<GameEvents>,
    kinds: Seq<LaserPowerUp>,
    n: int,
) -> bool
    decreases n,
{
    if n <= 0 {
        true
    } else {
        &&& kinds_allowed(g, screen, events, kinds, n - 1)
        &&& events[n - 1] == GameEvents::NewRound ==> allowed_in(
            round_after(events_handled(g, screen, events, kinds, n - 1).round),
            kinds[n - 1],
        )
    }
}

/// The run after its pending events have been handled, where `kinds[k]` is
/// the power-up that the laser takes if the `k`-th event starts a round.
/// The events are taken off the queue first, so what they raise is all that
/// the queue holds afterwards.
pub open spec fn ui_event_update_spec(g: GameView, screen: GameScreen, kinds: Seq<LaserPowerUp>)
    -> GameView {
    events_handled(
        GameView { game_events: Seq::empty(), ..g },
        screen,
        g.game_events,
        kinds,
        g.game_events.len() as int,
    )
}

/// Whether `kinds` can be the power-ups drawn for the pending events of a
/// run: one for each event, each allowed in the round that its event
/// starts.
pub open spec fn valid_kinds(g: GameView, screen: GameScreen, kinds: Seq<LaserPowerUp>) -> bool {
    &&& kinds.len() == g.game_events.len()
    &&& kinds_allowed(
        GameView { game_events: Seq::empty(), ..g },
        screen,
        g.game_events,
        kinds,
        g.game_events.len() as int,
    )
}

/// `percent` hundredths of a spawn delay.
pub fn scale_delay(delay: u16, percent: u16) -> (result: u16)
    ensures
        result == scaled_delay(delay, percent),
{
    assert(delay * percent <= 0xffff * 0xffff) by (nonlinear_arith)
        requires
            delay <= 0xffff,
            percent <= 0xffff,
    ;
    let product: u32 = (delay as u32) * (percent as u32) / 100;
    if product > u16::MAX as u32 {
        u16::MAX
    } else {
        product as u16
    }
}

/// Starts a new round in which the laser takes the power-up `kind`.
pub fn new_round(game: &mut Game, screen: &GameScreen, kind: LaserPowerUp)
    requires
        old(game).wf(),
    ensures
        final(game).wf(),
        final(game)@ == new_round_spec(old(game)@, *screen, kind),
{
    if game.round < u16::MAX {
        game.round += 1;
    }
    if screen.is_new_highround(game.round) && !game.round_stared {
        game.round_stared = true;
        game.game_events.push(GameEvents::NewHighround);
    }
    match kind {
        LaserPowerUp::Speed => {
            game.laser.speed = scale(game.laser.speed, game.config.laser_powerup_speed);
        },
        LaserPowerUp::ObstacleSpawnDelay => {
            game.laser.spawn_obstacles_delay = scale_delay(
                game.laser.spawn_obstacles_delay,
                game.config.laser_powerup_obstacle_delay,
            );
        },
        LaserPowerUp::ObstacleSpawnCount => {
            game.laser.nb_obstacles = game.laser.nb_obstacles.saturating_add(
                game.config.laser_powerup_nb_obstacles,
            );
        },
        LaserPowerUp::ObstacleStrength => {
            game.laser.obstacle_strength = game.laser.obstacle_strength.saturating_add(
                game.config.laser_powerup_obstacle_strength,
            );
        },
    }
}

/// Handles one event; `kind` is the power-up that the laser takes if the
/// event starts a round.
pub fn handle_event(game: &mut Game, screen: &GameScreen, event: GameEvents, kind: LaserPowerUp)
    requires
        old(game).wf(),
    ensures
        final(game).wf(),
        final(game)@ == event_handled(old(game)@, *screen, event, kind),
{
    match event {
        GameEvents::NewRound => new_round(game, screen, kind),
        GameEvents::Lost(_) => {
            if game.state != GameState::Death {
                game.state = GameState::Death;
                game.death = Some(DeathAnimation(Timer::new(DEATH_MILLIS, false)));
            }
        },
        GameEvents::Pause => {
            if game.state == GameState::Play {
                game.state = GameState::Pause;
            }
        },
        GameEvents::NewHighscore => {},
        GameEvents::NewHighround => {},
        GameEvents::PlayerBonus => {},
    }
}

/// Takes the pending events off the queue, handles each in order, and
/// hands them back for whoever else wants to see them. Each event that
/// starts a round lets the laser take a power-up drawn evenly from those
/// allowed in that round; the power-ups drawn are the sequence `kinds` of
/// the contract. Events raised while handling are queued for the next
/// call.
pub fn ui_event_update(game: &mut Game, screen: &GameScreen, rng: &mut StdRng) -> (observed: Vec<
    GameEvents,
>)
    requires
        old(game).wf(),
    ensures
        final(game).wf(),
        observed@ == old(game)@.game_events,
        exists|kinds: Seq<LaserPowerUp>|
            valid_kinds(old(game)@, *screen, kinds) && #[trigger] ui_event_update_spec(
                old(game)@,
                *screen,
                kinds,
            ) == final(game)@,
{
    let mut observed: Vec<GameEvents> = Vec::new();
    core::mem::swap(&mut observed, &mut game.game_events);
    let ghost start = GameView { game_events: Seq::empty(), ..old(game)@ };
    let ghost mut kinds: Seq<LaserPowerUp> = Seq::empty();
    assert(game@ =~= start);
    let mut i: usize = 0;
    while i < observed.len()
        invariant
            i <= observed.len(),
            game.wf(),
            observed@ == old(game)@.game_events,
            start == (GameView { game_events: Seq::empty(), ..old(game)@ }),
            kinds.len() == i,
            kinds_allowed(start, *screen, observed@, kinds, i as int),
            game@ == events_handled(start, *screen, observed@, kinds, i as int),
        decreases observed.len() - i,
    {
        let event = observed[i];
        let kind = match event {
            GameEvents::NewRound => draw_laser_powerup(
                rng,
                if game.round == u16::MAX {
                    game.round
                } else {
                    game.round + 1
                },
            ),
            _ => LaserPowerUp::Speed,
        };
        let ghost earlier = kinds;
        proof {
            kinds = kinds.push(kind);
            lemma_events_prefix(start, *screen, observed@, earlier, kinds, i as int);
        }
        handle_event(game, screen, event, kind);
        i += 1;
    }
    assert(valid_kinds(old(game)@, *screen, kinds) && ui_event_update_spec(
        old(game)@,
        *screen,
        kinds,
    ) == game@);
    observed
}

/// What has been handled depends only on the power-ups drawn so far.
proof fn lemma_events_prefix(
    g: GameView,
    screen: GameScreen,
    events: Seq<GameEvents>,
    a: Seq<LaserPowerUp>,
    b: Seq<LaserPowerUp>,
    n: int,
)
    requires
        0 <= n <= a.len() <= b.len(),
        forall|k: int| 0 <= k < n ==> a[k] == b[k],
    ensures
        events_handled(g, screen, events, a, n) == events_handled(g, screen, events, b, n),
        kinds_allowed(g, screen, events, a, n) == kinds_allowed(g, screen, events, b, n),
    decreases n,
{
    if n > 0 {
        lemma_events_prefix(g, screen, events, a, b, n - 1);
    }
}

/// The score after the points of one period in `round`, capped at the
/// largest score.
pub open spec fn score_after(score: u32, round: u16) -> u32 {
    if score + round > u32::MAX {
        u32::MAX
    } else {
        (score + round) as u32
    }
}

/// The run after `delta` more milliseconds of the score timer. While the
/// game is played each period of the timer adds the round to the score; a
/// score that beats the session's best is announced once in a run.
pub open spec fn score_spec(g: GameView, screen: GameScreen, delta: u64) -> GameView {
    if g.state != GameState::Play {
        g
    } else if g.score_timer.ticked(delta).just_finished {
        let score = score_after(g.score, g.round);
        let best = screen.new_highscore(score) && !g.score_stared;
        GameView {
            score_timer: g.score_timer.ticked(delta),
            score,
            score_stared: g.score_stared || best,
            game_events: if best {
                g.game_events.push(GameEvents::NewHighscore)
            } else {
                g.game_events
            },
            ..g
        }
    } else {
        GameView { score_timer: g.score_timer.ticked(delta), ..g }
    }
}

/// Advances the score timer by `delta` milliseconds while the game is
/// played, and adds the round to the score when a period completes.
pub fn score(game: &mut Game, screen: &GameScreen, delta: u64)
    requires
        old(game).wf(),
    ensures
        final(game).wf(),
        final(game)@ == score_spec(old(game)@, *screen, delta),
{
    if game.state != GameState::Play {
        return ;
    }
    game.score_timer.tick(delta);
    if game.score_timer.just_finished {
        let total: u64 = game.score as u64 + game.round as u64;
        game.score = if total > u32::MAX as u64 {
            u32::MAX
        } else {
            total as u32
        };
        if screen.is_new_highscore(game.score) && !game.score_stared {
            game.score_stared = true;
            game.game_events.push(GameEvents::NewHighscore);
        }
    }
}

/// Whether the death animation ends within `delta` more milliseconds.
pub open spec fn death_shown(g: GameView, delta: u64) -> bool {
    g.death matches Some(timer) && timer.ticked(delta).just_finished
}

/// The run after `delta` more milliseconds of the death animation: until
/// it ends the player's sprite plays its death.
pub open spec fn death_animation_spec(g: GameView, delta: u64) -> GameView {
    match g.death {
        Some(timer) => GameView {
            death: Some(timer.ticked(delta)),
            animation: if timer.ticked(delta).just_finished {
                g.animation
            } else {
                Animation::Die
            },
            ..g
        },
        None => g,
    }
}

/// Advances the death animation by `delta` milliseconds. When it ends the
/// screen of the lost game is shown.
pub fn death_animation(game: &mut Game, game_screen: &mut GameScreen, delta: u64)
    requires
        old(game).wf(),
    ensures
        final(game).wf(),
        final(game)@ == death_animation_spec(old(game)@, delta),
        *final(game_screen) == if death_shown(old(game)@, delta) {
            GameScreen { current_screen: Screen::Lost, ..*old(game_screen) }
        } else {
            *old(game_screen)
        },
{
    match game.death {
        Some(death) => {
            let mut timer = death.0;
            timer.tick(delta);
            if timer.just_finished {
                game_screen.current_screen = Screen::Lost;
            } else {
                game.animation = Animation::Die;
            }
            game.death = Some(DeathAnimation(timer));
        },
        None => {},
    }
}

/// The run after an entry of the pause menu was chosen: a paused game
/// goes on, or ends without a death animation. A game that is not paused
/// stays as it is.
pub open spec fn button_spec(g: GameView, button: PauseButton) -> GameView {
    if g.state == GameState::Pause {
        GameView {
            state: match button {
                PauseButton::Continue => GameState::Play,
                PauseButton::ToMenu => GameState::Death,
            },
            ..g
        }
    } else {
        g
    }
}

/// Acts on the chosen entry of the pause menu. Leaving a paused game for
/// the menu ends the run and shows the menu.
pub fn button_system(game: &mut Game, game_screen: &mut GameScreen, button: PauseButton)
    requires
        old(game).wf(),
    ensures
        final(game).wf(),
        final(game)@ == button_spec(old(game)@, button),
        *final(game_screen) == if old(game)@.state == GameState::Pause && button
            == PauseButton::ToMenu {
            GameScreen { current_screen: Screen::Menu, ..*old(game_screen) }
        } else {
            *old(game_screen)
        },
{
    if game.state == GameState::Pause {
        match button {
            PauseButton::Continue => {
                game.state = GameState::Play;
            },
            PauseButton::ToMenu => {
                game.state = GameState::Death;
                game_screen.current_screen = Screen::Menu;
            },
        }
    }
}

/// How many bombs the player can still lay: those they may have out less
/// those on the board.
pub open spec fn bombs_available(g: GameView) -> usize {
    if count_bombs(g.cells) >= g.player.nb_bombs {
        0
    } else {
        (g.player.nb_bombs - count_bombs(g.cells)) as usize
    }
}

/// The number that a part of the heads-up display shows.
pub open spec fn shown(g: GameView, component: UiComponent) -> int {
    match component {
        UiComponent::Round => g.round as int,
        UiComponent::Score => g.score as int,
        UiComponent::BombsAvailable => bombs_available(g) as int,
    }
}

/// How many bombs the player can still lay.
pub fn display_bombs_available(game: &Game) -> (available: usize)
    requires
        game.wf(),
    ensures
        available == bombs_available(game@),
{
    game.player.nb_bombs.saturating_sub(game.board.count_bombs())
}

/// The number that a part of the heads-up display shows: the round, the
/// score, or the bombs that the player can still lay.
pub fn display(game: &Game, component: UiComponent) -> (value: u64)
    requires
        game.wf(),
    ensures
        value == shown(game@, component),
{
    match component {
        UiComponent::Round => game.round as u64,
        UiComponent::Score => game.score as u64,
        UiComponent::BombsAvailable => display_bombs_available(game) as u64,
    }
}

/// An event that starts a round counts exactly one round, whatever the
/// laser takes.
pub proof fn lemma_new_round_counts_one(g: GameView, screen: GameScreen, kind: LaserPowerUp)
    requires
        g.round < u16::MAX,
    ensures
        event_handled(g, screen, GameEvents::NewRound, kind).round == g.round + 1,
        event_handled(g, screen, GameEvents::NewRound, kind).state == g.state,
        event_handled(g, screen, GameEvents::NewRound, kind).score == g.score,
{
}

/// Half a sweep from the first column starts exactly one round: handling
/// the events that the laser has raised on its way to the middle column
/// counts the round up by one.
pub proof fn lemma_half_sweep_counts_one(g: GameView, screen: GameScreen, kinds: Seq<LaserPowerUp>)
    requires
        g.laser.x == 0,
        g.round < u16::MAX,
        g.game_events.len() == 0,
    ensures
        advanced_by(g, midpoint()).game_events == seq![GameEvents::NewRound],
        advanced_by(g, midpoint()).laser.x == midpoint(),
        ui_event_update_spec(advanced_by(g, midpoint()), screen, kinds).round == g.round + 1,
{
    lemma_sweep(g, midpoint());
    let swept = advanced_by(g, midpoint());
    assert(swept.game_events =~= seq![GameEvents::NewRound]);
    let start = GameView { game_events: Seq::empty(), ..swept };
    reveal_with_fuel(events_handled, 2);
    assert(events_handled(start, screen, swept.game_events, kinds, 0) == start);
}

/// No power-up makes the laser easier, as long as the shares it keeps of
/// its times are at most one hundred percent: it never gets slower, waves
/// never come later, and obstacles get neither fewer nor weaker.
pub proof fn lemma_laser_hardens(laser: Laser, kind: LaserPowerUp, config: Config)
    requires
        config.hardening(),
    ensures
        laser_empowered(laser, kind, config).speed <= laser.speed,
        laser_empowered(laser, kind, config).spawn_obstacles_delay <= laser.spawn_obstacles_delay,
        laser_empowered(laser, kind, config).nb_obstacles >= laser.nb_obstacles,
        laser_empowered(laser, kind, config).obstacle_strength >= laser.obstacle_strength,
        laser_empowered(laser, kind, config).x == laser.x,
{
    assert(laser.speed * config.laser_powerup_speed / 100 <= laser.speed) by (nonlinear_arith)
        requires
            config.laser_powerup_speed <= 100,
    ;
    assert(laser.spawn_obstacles_delay * config.laser_powerup_obstacle_delay / 100
        <= laser.spawn_obstacles_delay) by (nonlinear_arith)
        requires
            config.laser_powerup_obstacle_delay <= 100,
    ;
}

} // verus!
