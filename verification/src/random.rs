//! The random choices of the game, drawn from a generator that the caller
//! seeds. Nothing is proved of the draws themselves: the contracts below state
//! what the generator's documentation promises of every outcome, and the rules
//! built on them are proved for each value a draw may return.

use vstd::prelude::*;
use rand::Rng;
use rand::rngs::StdRng;
use rand::seq::IteratorRandom;
use crate::board::PlayerPowerUp;
use crate::ui::{LaserPowerUp, allowed_in};

verus! {

#[verifier::external_type_specification]
#[verifier::external_body]
pub struct ExStdRng(StdRng);

/// `rand::Rng::gen_range` on `usize`: a value from `low` up to, but not
/// including, `high`. The generator panics unless `low < high`.
#[verifier::external_body]
pub(crate) fn gen_range(rng: &mut StdRng, low: usize, high: usize) -> (value: usize)
    requires
        low < high,
    ensures
        low <= value < high,
{
    rng.gen_range(low, high)
}

/// `rand::Rng::gen_ratio`: true with a chance of `numerator` in
/// `denominator`; always true when the two are equal and never when the
/// numerator is zero. The generator panics on a zero denominator and on a
/// numerator above the denominator.
#[verifier::external_body]
pub(crate) fn gen_ratio(rng: &mut StdRng, numerator: u32, denominator: u32) -> (hit: bool)
    requires
        denominator > 0,
        numerator <= denominator,
    ensures
        numerator == denominator ==> hit,
        numerator == 0 ==> !hit,
{
    rng.gen_ratio(numerator, denominator)
}

/// `rand::seq::IteratorRandom::choose` on the range `0..n`: one of its
/// numbers, or nothing if and only if the range is empty.
#[verifier::external_body]
pub(crate) fn choose_below(rng: &mut StdRng, n: usize) -> (pick: Option<usize>)
    ensures
        pick is Some <==> n > 0,
        pick matches Some(i) ==> i < n,
{
    (0..n).choose(rng)
}

/// Number of kinds of power-up for the player.
pub const PLAYER_POWERUPS: usize = 5;

/// The kind of power-up with the given number, in the order of their
/// declaration.
pub open spec fn player_powerup(index: int) -> PlayerPowerUp {
    if index == 0 {
        PlayerPowerUp::Score
    } else if index == 1 {
        PlayerPowerUp::BombCount
    } else if index == 2 {
        PlayerPowerUp::BombDamage
    } else if index == 3 {
        PlayerPowerUp::BombRange
    } else {
        PlayerPowerUp::BombSpeed
    }
}

impl PlayerPowerUp {
    /// The kind of power-up with the given number; numbers past the last
    /// kind give the last kind.
    pub fn from_index(index: usize) -> (kind: PlayerPowerUp)
        ensures
            kind == player_powerup(index as int),
    {
        if index == 0 {
            PlayerPowerUp::Score
        } else if index == 1 {
            PlayerPowerUp::BombCount
        } else if index == 2 {
            PlayerPowerUp::BombDamage
        } else if index == 3 {
            PlayerPowerUp::BombRange
        } else {
            PlayerPowerUp::BombSpeed
        }
    }
}

/// Draws what a destroyed obstacle leaves behind: with a chance of
/// `chance` percent a power-up of a kind drawn evenly, else nothing.
pub fn draw_drop(rng: &mut StdRng, chance: u32) -> (drop: Option<PlayerPowerUp>)
    requires
        chance <= 100,
    ensures
        chance == 0 ==> drop is None,
        chance == 100 ==> drop is Some,
{
    if gen_ratio(rng, chance, 100) {
        match choose_below(rng, PLAYER_POWERUPS) {
            Some(index) => Some(PlayerPowerUp::from_index(index)),
            None => None,
        }
    } else {
        None
    }
}

/// Number of kinds of power-up for the laser.
pub const LASER_POWERUPS: usize = 4;

/// The kind of power-up for the laser with the given number, in the order
/// of their declaration.
pub open spec fn laser_powerup(index: int) -> LaserPowerUp {
    if index == 0 {
        LaserPowerUp::Speed
    } else if index == 1 {
        LaserPowerUp::ObstacleSpawnDelay
    } else if index == 2 {
        LaserPowerUp::ObstacleSpawnCount
    } else {
        LaserPowerUp::ObstacleStrength
    }
}

impl LaserPowerUp {
    /// The kind of power-up with the given number; numbers past the last
    /// kind give the last kind.
    pub fn from_index(index: usize) -> (kind: LaserPowerUp)
        ensures
            kind == laser_powerup(index as int),
    {
        if index == 0 {
            LaserPowerUp::Speed
        } else if index == 1 {
            LaserPowerUp::ObstacleSpawnDelay
        } else if index == 2 {
            LaserPowerUp::ObstacleSpawnCount
        } else {
            LaserPowerUp::ObstacleStrength
        }
    }
}

/// Draws the power-up that the laser takes at the start of `round`,
/// evenly from the kinds allowed in that round.
pub fn draw_laser_powerup(rng: &mut StdRng, round: u16) -> (kind: LaserPowerUp)
    ensures
        allowed_in(round, kind),
        exists|index: int|
            0 <= index < laser_choices(round) && kind == #[trigger] laser_powerup(index),
{
    let pick = choose_below(rng, laser_choice_count(round));
    let kind = picked_laser_powerup(pick);
    assert(pick is Some);
    assert(kind == laser_powerup(pick->Some_0 as int));
    kind
}

/// How many kinds of power-up the laser may take at the start of `round`:
/// all but the last kind in the first round, all of them in any other. The
/// kinds to draw from are those numbered below this count.
pub open spec fn laser_choices(round: u16) -> int {
    if round == 1 {
        LASER_POWERUPS - 1
    } else {
        LASER_POWERUPS as int
    }
}

/// The power-up that the laser takes for what was drawn from the numbers
/// of the kinds: the kind with the number drawn.
pub open spec fn laser_powerup_picked(pick: Option<usize>) -> LaserPowerUp {
    match pick {
        Some(index) => laser_powerup(index as int),
        None => LaserPowerUp::Speed,
    }
}

/// How many kinds of power-up the laser may take at the start of `round`.
pub fn laser_choice_count(round: u16) -> (count: usize)
    ensures
        count == laser_choices(round),
        0 < count <= LASER_POWERUPS,
{
    if round == 1 {
        LASER_POWERUPS - 1
    } else {
        LASER_POWERUPS
    }
}

/// The power-up that the laser takes for what was drawn from the numbers
/// of the kinds.
pub fn picked_laser_powerup(pick: Option<usize>) -> (kind: LaserPowerUp)
    ensures
        kind == laser_powerup_picked(pick),
{
    match pick {
        Some(index) => LaserPowerUp::from_index(index),
        None => LaserPowerUp::Speed,
    }
}

/// The kinds numbered below the count of a round are exactly the kinds
/// allowed in that round: each of them is allowed, and each allowed kind is
/// among them.
pub proof fn lemma_laser_choices_are_the_allowed(round: u16, kind: LaserPowerUp)
    ensures
        allowed_in(round, kind) <==> exists|index: int|
            0 <= index < laser_choices(round) && kind == #[trigger] laser_powerup(index),
{
    if allowed_in(round, kind) {
        let index: int = match kind {
            LaserPowerUp::Speed => 0,
            LaserPowerUp::ObstacleSpawnDelay => 1,
            LaserPowerUp::ObstacleSpawnCount => 2,
            LaserPowerUp::ObstacleStrength => 3,
        };
        assert(0 <= index < laser_choices(round) && kind == laser_powerup(index));
    }
}

} // verus!
