//! What is kept of a run once it has ended: its statistics, its medal, and
//! the bests of the session.

use vstd::prelude::*;
use crate::config::Config;
use crate::game::{CauseOfDeath, Game, GameEvents, GameView, InterestingEvent};
use crate::screen::GameScreen;

verus! {

/// The medal that a score earns.
#[derive(Clone, Copy, Debug, PartialEq, Eq, Structural)]
pub enum Medal {
    Bronze,
    Silver,
    Gold,
}

/// The statistics of a run.
#[derive(Clone, Copy, Debug, PartialEq, Eq)]
pub struct GameStats {
    pub last_seen_cause_of_death: Option<CauseOfDeath>,
    pub bomb_placed: u16,
    pub obstacle_destroyed_by_player: u16,
    pub obstacle_destroyed_by_lazer: u16,
    pub bomb_chained: u16,
    /// The score at which the first bomb was laid; zero until then.
    pub score_first_bomb: u32,
}

/// What a run came to, as the screen of a lost game shows it.
#[derive(Clone, Copy, Debug, PartialEq, Eq)]
pub struct RunSummary {
    pub score: u32,
    pub round: u16,
    /// Whether the score beats the best of an earlier run of the session.
    pub new_highscore: bool,
    /// Whether the round beats the best of an earlier run of the session.
    pub new_highround: bool,
    pub medal: Option<Medal>,
}

/// The summary of a run, measured against the bests of the session so far.
pub open spec fn summary_of(screen: GameScreen, g: GameView) -> RunSummary {
    RunSummary {
        score: g.score,
        round: g.round,
        new_highscore: screen.new_highscore(g.score),
        new_highround: screen.new_highround(g.round),
        medal: medal_for(g.score, g.config),
    }
}

/// A count after one more; the largest count stays.
pub open spec fn counted(count: u16) -> u16 {
    if count == u16::MAX {
        count
    } else {
        (count + 1) as u16
    }
}

/// The medal for `score`: none below the bronze threshold, then bronze,
/// silver and gold from their thresholds on.
pub open spec fn medal_for(score: u32, config: Config) -> Option<Medal> {
    if score < config.score_bronze_medal {
        None
    } else if score < config.score_silver_medal {
        Some(Medal::Bronze)
    } else if score < config.score_gold_medal {
        Some(Medal::Silver)
    } else {
        Some(Medal::Gold)
    }
}

impl GameStats {
    /// The statistics of a run in which nothing has happened yet.
    pub open spec fn empty() -> GameStats {
        GameStats {
            last_seen_cause_of_death: None,
            bomb_placed: 0,
            obstacle_destroyed_by_player: 0,
            obstacle_destroyed_by_lazer: 0,
            bomb_chained: 0,
            score_first_bomb: 0,
        }
    }

    /// The statistics after one more event, in a run whose score is
    /// `score`.
    pub open spec fn counting(self, event: InterestingEvent, score: u32) -> GameStats {
        match event {
            InterestingEvent::BombChainDetonated => GameStats {
                bomb_chained: counted(self.bomb_chained),
                ..self
            },
            InterestingEvent::BombPlaced => GameStats {
                bomb_placed: counted(self.bomb_placed),
                score_first_bomb: if self.score_first_bomb == 0 {
                    score
                } else {
                    self.score_first_bomb
                },
                ..self
            },
            InterestingEvent::ObstacleDestroyedByLaser => GameStats {
                obstacle_destroyed_by_lazer: counted(self.obstacle_destroyed_by_lazer),
                ..self
            },
            InterestingEvent::ObstacleDestroyedByPlayer => GameStats {
                obstacle_destroyed_by_player: counted(self.obstacle_destroyed_by_player),
                ..self
            },
        }
    }

    /// The statistics after the first `n` of `events`.
    pub open spec fn counting_all(self, events: Seq<InterestingEvent>, score: u32, n: int)
        -> GameStats
        decreases n,
    {
        if n <= 0 {
            self
        } else {
            self.counting_all(events, score, n - 1).counting(events[n - 1], score)
        }
    }

    /// The cause of death after the first `n` of `events`: that of the last
    /// event that tells of a lost player, or the one known before.
    pub open spec fn cause_after(self, events: Seq<GameEvents>, n: int) -> Option<CauseOfDeath>
        decreases n,
    {
        if n <= 0 {
            self.last_seen_cause_of_death
        } else {
            match events[n - 1] {
                GameEvents::Lost(cause) => Some(cause),
                _ => self.cause_after(events, n - 1),
            }
        }
    }
}

impl Default for GameStats {
    fn default() -> (stats: GameStats)
        ensures
            stats == GameStats::empty(),
    {
        GameStats {
            last_seen_cause_of_death: None,
            bomb_placed: 0,
            obstacle_destroyed_by_player: 0,
            obstacle_destroyed_by_lazer: 0,
            bomb_chained: 0,
            score_first_bomb: 0,
        }
    }
}

/// One more on a count.
fn count_one(count: u16) -> (next: u16)
    ensures
        next == counted(count),
{
    if count == u16::MAX {
        count
    } else {
        count + 1
    }
}

/// Remembers the cause of death that the last of `events` tells of.
pub fn update_cause_of_death(stats: &mut GameStats, events: &Vec<GameEvents>)
    ensures
        *final(stats) == (GameStats {
            last_seen_cause_of_death: old(stats).cause_after(events@, events@.len() as int),
            ..*old(stats)
        }),
{
    let mut i: usize = 0;
    while i < events.len()
        invariant
            i <= events.len(),
            *stats == (GameStats {
                last_seen_cause_of_death: old(stats).cause_after(events@, i as int),
                ..*old(stats)
            }),
        decreases events.len() - i,
    {
        match events[i] {
            GameEvents::Lost(cause) => {
                stats.last_seen_cause_of_death = Some(cause);
            },
            _ => {},
        }
        i += 1;
    }
}

/// Takes the events worth counting off the run's queue and counts each.
pub fn update_stats(stats: &mut GameStats, game: &mut Game)
    requires
        old(game).wf(),
    ensures
        final(game).wf(),
        final(game)@ == (GameView { interesting_events: Seq::empty(), ..old(game)@ }),
        *final(stats) == old(stats).counting_all(
            old(game)@.interesting_events,
            old(game)@.score,
            old(game)@.interesting_events.len() as int,
        ),
{
    let n = game.interesting_events.len();
    let score = game.score;
    let mut i: usize = 0;
    while i < n
        invariant
            i <= n,
            n == game.interesting_events@.len(),
            score == old(game)@.score,
            game@ == old(game)@,
            game.wf(),
            *stats == old(stats).counting_all(old(game)@.interesting_events, score, i as int),
        decreases n - i,
    {
        match game.interesting_events[i] {
            InterestingEvent::BombChainDetonated => {
                stats.bomb_chained = count_one(stats.bomb_chained);
            },
            InterestingEvent::BombPlaced => {
                stats.bomb_placed = count_one(stats.bomb_placed);
                if stats.score_first_bomb == 0 {
                    stats.score_first_bomb = score;
                }
            },
            InterestingEvent::ObstacleDestroyedByLaser => {
                stats.obstacle_destroyed_by_lazer = count_one(stats.obstacle_destroyed_by_lazer);
            },
            InterestingEvent::ObstacleDestroyedByPlayer => {
                stats.obstacle_destroyed_by_player = count_one(stats.obstacle_destroyed_by_player);
            },
        }
        i += 1;
    }
    game.interesting_events.clear();
}

/// The medal that `score` earns.
pub fn medal(score: u32, config: &Config) -> (earned: Option<Medal>)
    ensures
        earned == medal_for(score, *config),
{
    if score < config.score_bronze_medal {
        None
    } else if score < config.score_silver_medal {
        Some(Medal::Bronze)
    } else if score < config.score_gold_medal {
        Some(Medal::Silver)
    } else {
        Some(Medal::Gold)
    }
}

/// Ends a run: sums it up against the bests of the session, keeps its
/// score and round where they beat those bests, and sets the run back to its
/// start for the next game.
pub fn setup(game_screen: &mut GameScreen, game: &mut Game) -> (summary: RunSummary)
    requires
        old(game).wf(),
    ensures
        final(game).wf(),
        summary == summary_of(*old(game_screen), old(game)@),
        final(game)@ == GameView::initial(old(game)@.config),
        *final(game_screen) == old(game_screen).recorded(old(game)@.score, old(game)@.round),
{
    let summary = RunSummary {
        score: game.score,
        round: game.round,
        new_highscore: game_screen.is_new_highscore(game.score),
        new_highround: game_screen.is_new_highround(game.round),
        medal: medal(game.score, &game.config),
    };
    game_screen.record(game.score, game.round);
    *game = Game::new(game.config);
    summary
}

} // verus!
