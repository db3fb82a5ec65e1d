//! The emote shown over the player's head: a choice made from the state of
//! the run and the events of the tick.

use vstd::prelude::*;
use rand::rngs::StdRng;
use crate::game::{Game, GameEvents, GameView};
use crate::random::gen_ratio;

verus! {

/// Time without a step after which the player falls asleep.
pub const IDLE_MILLIS: u64 = 3000;

/// The emotes.
#[derive(Clone, Copy, Debug, PartialEq, Eq, Structural)]
pub enum Emote {
    Exclamation,
    Sleep,
    FaceAngry,
    HeartBroken,
    Star,
    FaceHappy,
}

impl Emote {
    /// Time an emote is shown.
    pub open spec fn shown_for(self) -> u64 {
        match self {
            Emote::Exclamation => 1000,
            Emote::Sleep => 300,
            Emote::FaceAngry => 1000,
            Emote::HeartBroken => 5000,
            Emote::Star => 1000,
            Emote::FaceHappy => 500,
        }
    }

    /// Time the emote is shown, in milliseconds.
    pub fn millis(self) -> (time: u64)
        ensures
            time == self.shown_for(),
    {
        match self {
            Emote::Exclamation => 1000,
            Emote::Sleep => 300,
            Emote::FaceAngry => 1000,
            Emote::HeartBroken => 5000,
            Emote::Star => 1000,
            Emote::FaceHappy => 500,
        }
    }
}

/// Whether the laser is on the player's column or on the one before it.
pub open spec fn laser_near(g: GameView) -> bool {
    g.laser.x == g.player.x || g.laser.x + 1 == g.player.x
}

/// Whether the player has stood still for long after a first step.
pub open spec fn asleep(g: GameView) -> bool {
    g.time_since_move matches Some(span) && span > IDLE_MILLIS
}

/// The emote for one event, where `lucky` says whether a bonus makes the
/// player happy: anger at the start of every other round, a broken heart
/// for a lost game, a star for a new best.
pub open spec fn emote_for(g: GameView, event: GameEvents, lucky: bool) -> Option<Emote> {
    match event {
        GameEvents::NewRound => if g.round % 2 == 0 {
            Some(Emote::FaceAngry)
        } else {
            None
        },
        GameEvents::Lost(_) => Some(Emote::HeartBroken),
        GameEvents::NewHighround => Some(Emote::Star),
        GameEvents::NewHighscore => Some(Emote::Star),
        GameEvents::PlayerBonus => if lucky {
            Some(Emote::FaceHappy)
        } else {
            None
        },
        GameEvents::Pause => None,
    }
}

/// The emote for the first of the first `n` events that has one.
pub open spec fn first_emote(g: GameView, events: Seq<GameEvents>, lucky: Seq<bool>, n: int)
    -> Option<Emote>
    decreases n,
{
    if n <= 0 {
        None
    } else {
        match first_emote(g, events, lucky, n - 1) {
            Some(emote) => Some(emote),
            None => emote_for(g, events[n - 1], lucky[n - 1]),
        }
    }
}

/// The emote to show, if any: a warning when the laser is near, else
/// sleep when the player has stood still for long, else what the events of
/// the tick call for.
pub open spec fn emote_setter_spec(g: GameView, events: Seq<GameEvents>, lucky: Seq<bool>)
    -> Option<Emote> {
    if laser_near(g) {
        Some(Emote::Exclamation)
    } else if asleep(g) {
        Some(Emote::Sleep)
    } else {
        first_emote(g, events, lucky, events.len() as int)
    }
}

/// The emote that one event calls for.
pub fn emote_of(game: &Game, event: GameEvents, lucky: bool) -> (emote: Option<Emote>)
    ensures
        emote == emote_for(game@, event, lucky),
{
    match event {
        GameEvents::NewRound => if game.round % 2 == 0 {
            Some(Emote::FaceAngry)
        } else {
            None
        },
        GameEvents::Lost(_) => Some(Emote::HeartBroken),
        GameEvents::NewHighround => Some(Emote::Star),
        GameEvents::NewHighscore => Some(Emote::Star),
        GameEvents::PlayerBonus => if lucky {
            Some(Emote::FaceHappy)
        } else {
            None
        },
        GameEvents::Pause => None,
    }
}

/// Chooses the emote to show after a tick that has handled `events`. A
/// bonus makes the player happy one time in four; what is drawn for the
/// events is the sequence `lucky` of the contract.
pub fn emote_setter(game: &Game, events: &Vec<GameEvents>, rng: &mut StdRng) -> (emote: Option<
    Emote,
>)
    ensures
        exists|lucky: Seq<bool>|
            lucky.len() == events@.len() && #[trigger] emote_setter_spec(game@, events@, lucky)
                == emote,
{
    let near = game.laser.x == game.player.x || (game.laser.x < usize::MAX && game.laser.x + 1
        == game.player.x);
    let asleep = match game.time_since_move {
        Some(span) => span > IDLE_MILLIS,
        None => false,
    };
    let ghost mut lucky: Seq<bool> = Seq::empty();
    let mut found: Option<Emote> = None;
    let mut i: usize = 0;
    if !near && !asleep {
        while i < events.len() && found.is_none()
            invariant
                i <= events.len(),
                lucky.len() == i,
                found == first_emote(game@, events@, lucky, i as int),
            decreases events.len() - i,
        {
            let event = events[i];
            let draw = match event {
                GameEvents::PlayerBonus => gen_ratio(rng, 1, 4),
                _ => false,
            };
            let ghost earlier = lucky;
            proof {
                lucky = lucky.push(draw);
                lemma_emote_prefix(game@, events@, earlier, lucky, i as int);
            }
            found = emote_of(game, event, draw);
            i += 1;
        }
    }
    proof {
        let drawn = lucky;
        lucky = Seq::new(
            events@.len(),
            |k: int|
                if k < drawn.len() {
                    drawn[k]
                } else {
                    false
                },
        );
        lemma_emote_prefix(game@, events@, drawn, lucky, i as int);
        if found is Some {
            lemma_first_emote_stays(game@, events@, lucky, i as int, events@.len() as int);
        }
        assert(emote_setter_spec(game@, events@, lucky) == if near {
            Some(Emote::Exclamation)
        } else if asleep {
            Some(Emote::Sleep)
        } else {
            found
        });
    }
    if near {
        Some(Emote::Exclamation)
    } else if asleep {
        Some(Emote::Sleep)
    } else {
        found
    }
}

/// The first emote depends only on what was drawn for the events seen.
proof fn lemma_emote_prefix(
    g: GameView,
    events: Seq<GameEvents>,
    a: Seq<bool>,
    b: Seq<bool>,
    n: int,
)
    requires
        0 <= n <= a.len() <= b.len(),
        forall|k: int| 0 <= k < n ==> a[k] == b[k],
    ensures
        first_emote(g, events, a, n) == first_emote(g, events, b, n),
    decreases n,
{
    if n > 0 {
        lemma_emote_prefix(g, events, a, b, n - 1);
    }
}

/// Once an event has called for an emote, later events do not change it.
proof fn lemma_first_emote_stays(
    g: GameView,
    events: Seq<GameEvents>,
    lucky: Seq<bool>,
    i: int,
    n: int,
)
    requires
        0 <= i <= n,
        first_emote(g, events, lucky, i) is Some,
    ensures
        first_emote(g, events, lucky, n) == first_emote(g, events, lucky, i),
    decreases n,
{
    if n > i {
        lemma_first_emote_stays(g, events, lucky, i, n - 1);
    }
}

} // verus!
