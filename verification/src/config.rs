//! The numbers that tune a game: starting stats, what power-ups grant, how
//! long fires burn, how the laser grows harder, and the scores that earn a
//! medal. Durations are in milliseconds, shares in percent.

use vstd::prelude::*;

verus! {

#[derive(Clone, Copy, Debug, PartialEq, Eq)]
pub struct Config {
    pub score_bronze_medal: u32,
    pub score_silver_medal: u32,
    pub score_gold_medal: u32,
    pub player_nb_bombs: usize,
    pub player_bomb_range: usize,
    pub player_bomb_damage: usize,
    /// Time from placing a bomb to its explosion.
    pub player_bomb_speed: u64,
    /// Time one step of the player takes.
    pub player_speed: u64,
    /// Chance, in percent, that a destroyed obstacle leaves a power-up.
    pub player_powerup_chance: u32,
    pub player_powerup_bomb_damage: usize,
    pub player_powerup_bomb_range: usize,
    pub player_powerup_bomb_count: usize,
    /// Share of its bomb time that the player keeps on a speed power-up.
    pub player_powerup_bomb_speed: u64,
    pub player_powerup_score: u32,
    pub player_bomb_fire_timer: u64,
    pub powerup_timer: u64,
    pub laser_fire_timer: u64,
    pub laser_fire_damage: usize,
    /// Time the laser stays on one column.
    pub laser_speed: u64,
    pub laser_spawn_obstacles_delay: u16,
    pub laser_nb_obstacles: usize,
    pub laser_obstacle_strength: usize,
    /// Share of its column time that the laser keeps on a speed power-up.
    pub laser_powerup_speed: u64,
    /// Share of the spawn delay that is kept on a spawn-delay power-up.
    pub laser_powerup_obstacle_delay: u16,
    pub laser_powerup_obstacle_strength: usize,
    pub laser_powerup_nb_obstacles: usize,
}

impl Config {
    /// The values of a game without a configuration file.
    pub open spec fn standard() -> Config {
        Config {
            score_bronze_medal: 10000,
            score_silver_medal: 20000,
            score_gold_medal: 35000,
            player_nb_bombs: 2,
            player_bomb_range: 1,
            player_bomb_damage: 2,
            player_bomb_speed: 2000,
            player_speed: 200,
            player_powerup_chance: 20,
            player_powerup_bomb_damage: 2,
            player_powerup_bomb_range: 1,
            player_powerup_bomb_count: 1,
            player_powerup_bomb_speed: 90,
            player_powerup_score: 200,
            player_bomb_fire_timer: 250,
            powerup_timer: 20000,
            laser_fire_timer: 1500,
            laser_fire_damage: 1,
            laser_speed: 1000,
            laser_spawn_obstacles_delay: 10000,
            laser_nb_obstacles: 5,
            laser_obstacle_strength: 2,
            laser_powerup_speed: 90,
            laser_powerup_obstacle_delay: 80,
            laser_powerup_obstacle_strength: 2,
            laser_powerup_nb_obstacles: 2,
        }
    }

    /// A chance is at most one hundred percent.
    pub open spec fn wf(&self) -> bool {
        self.player_powerup_chance <= 100
    }

    /// No power-up of the laser makes the game easier: the shares kept of its
    /// column time and of the spawn delay are at most one hundred percent.
    pub open spec fn hardening(&self) -> bool {
        self.laser_powerup_speed <= 100 && self.laser_powerup_obstacle_delay <= 100
    }

    /// Whether no power-up of the laser makes the game easier. A
    /// configuration that fails this test lets the laser slow down or the
    /// waves come later from round to round.
    pub fn is_hardening(&self) -> (hardening: bool)
        ensures
            hardening == self.hardening(),
    {
        self.laser_powerup_speed <= 100 && self.laser_powerup_obstacle_delay <= 100
    }

    /// Whether the chance of a power-up is a valid percentage.
    pub fn is_valid(&self) -> (valid: bool)
        ensures
            valid == self.wf(),
    {
        self.player_powerup_chance <= 100
    }
}

impl Default for Config {
    fn default() -> (config: Config)
        ensures
            config == Config::standard(),
            config.wf(),
            config.hardening(),
    {
        Config {
            score_bronze_medal: 10000,
            score_silver_medal: 20000,
            score_gold_medal: 35000,
            player_nb_bombs: 2,
            player_bomb_range: 1,
            player_bomb_damage: 2,
            player_bomb_speed: 2000,
            player_speed: 200,
            player_powerup_chance: 20,
            player_powerup_bomb_damage: 2,
            player_powerup_bomb_range: 1,
            player_powerup_bomb_count: 1,
            player_powerup_bomb_speed: 90,
            player_powerup_score: 200,
            player_bomb_fire_timer: 250,
            powerup_timer: 20000,
            laser_fire_timer: 1500,
            laser_fire_damage: 1,
            laser_speed: 1000,
            laser_spawn_obstacles_delay: 10000,
            laser_nb_obstacles: 5,
            laser_obstacle_strength: 2,
            laser_powerup_speed: 90,
            laser_powerup_obstacle_delay: 80,
            laser_powerup_obstacle_strength: 2,
            laser_powerup_nb_obstacles: 2,
        }
    }
}

} // verus!
