//! The board: a fixed grid of cells, what a cell may hold, and the occupancy
//! rule that every placement goes through.

use vstd::prelude::*;
use crate::timer::Timer;

verus! {

/// Columns of the board.
pub const BOARD_X: usize = 21;

/// Rows of the board.
pub const BOARD_Y: usize = 10;

/// Cells of the board, row after row.
pub const BOARD_CELLS: usize = 210;

/// How long the arrows that mark the two teleporting columns stay visible.
pub const INDICATION_MILLIS: u64 = 5000;

/// What a power-up grants to the player who walks over it.
#[derive(Clone, Copy, Debug, PartialEq, Eq, Structural)]
pub enum PlayerPowerUp {
    Score,
    BombCount,
    BombDamage,
    BombRange,
    BombSpeed,
}

/// Phase of a bomb. `Exploded` marks a bomb whose blast is being resolved; no
/// bomb is left in that phase once `flash_bombs` returns.
#[derive(Clone, Copy, Debug, PartialEq, Eq, Structural)]
pub enum BombState {
    Fuse,
    Flash,
    Exploded,
}

/// A bomb lying on a cell.
#[derive(Clone, Copy, Debug, PartialEq, Eq)]
pub struct BombComponent {
    pub damage: usize,
    pub range: usize,
    pub state: BombState,
    pub x: usize,
    pub y: usize,
    pub timer: Timer,
}

/// Fire burning on a cell. It lies over whatever the cell holds.
#[derive(Clone, Copy, Debug, PartialEq, Eq)]
pub struct FireComponent {
    pub damage: usize,
    pub x: usize,
    pub y: usize,
    pub timer: Timer,
    pub from_player: bool,
}

/// Which of the four obstacle pictures shows an obstacle's wear: the share of
/// its life that is left, rounded up to a quarter, in percent.
#[derive(Clone, Copy, Debug, PartialEq, Eq, Structural)]
pub struct ObstacleSprite {
    pub percent: u8,
}

/// An obstacle and the life it has left.
#[derive(Clone, Copy, Debug, PartialEq, Eq)]
pub struct ObstacleComponent {
    pub original_life: usize,
    pub remaining_life: usize,
    pub sprite: ObstacleSprite,
}

/// A power-up waiting on a cell. Once `used`, its effect has been granted and
/// it only lingers until its timer runs out.
#[derive(Clone, Copy, Debug, PartialEq, Eq)]
pub struct PowerUpComponent {
    pub timer: Timer,
    pub powerup: PlayerPowerUp,
    pub used: bool,
}

/// The arrow shown for a while on a cell of a teleporting column.
#[derive(Clone, Copy, Debug, PartialEq, Eq)]
pub struct TeleportIndicationComponent {
    pub timer: Timer,
}

/// The one thing that occupies a cell.
#[derive(Clone, Copy, Debug, PartialEq, Eq)]
pub enum Payload {
    Empty,
    Obstacle(ObstacleComponent),
    Bomb(BombComponent),
    PowerUp(PowerUpComponent),
}

/// A cell: its occupant and the overlays that may lie on top of it.
#[derive(Clone, Copy, Debug, PartialEq, Eq)]
pub struct Cell {
    pub payload: Payload,
    pub fire: Option<FireComponent>,
    pub indication: Option<TeleportIndicationComponent>,
}

/// The grid, stored row after row from the bottom row up.
#[derive(Clone, Debug, PartialEq, Eq)]
pub struct Board {
    pub cells: Vec<Cell>,
}

/// Position in the row-major sequence of the cell in column `x`, row `y`.
pub open spec fn cell_index(x: int, y: int) -> int {
    y * BOARD_X + x
}

/// Column of the cell at position `i`.
pub open spec fn cell_x(i: int) -> int {
    i % (BOARD_X as int)
}

/// Row of the cell at position `i`.
pub open spec fn cell_y(i: int) -> int {
    i / (BOARD_X as int)
}

/// Whether `(x, y)` names a cell of the board.
pub open spec fn in_board(x: int, y: int) -> bool {
    0 <= x < BOARD_X && 0 <= y < BOARD_Y
}

/// The cell in column `x`, row `y` of a grid.
pub open spec fn cell_at(cells: Seq<Cell>, x: int, y: int) -> Cell {
    cells[cell_index(x, y)]
}

/// Whether the cell in column `x`, row `y` holds an obstacle.
pub open spec fn obstacle_at(cells: Seq<Cell>, x: int, y: int) -> bool {
    cell_at(cells, x, y).payload is Obstacle
}

/// A bomb or a fire on the cell at position `i` carries that cell's
/// coordinates.
pub open spec fn cell_wf(cell: Cell, i: int) -> bool {
    &&& cell.payload matches Payload::Bomb(bomb) ==> cell_index(bomb.x as int, bomb.y as int) == i
            && bomb.x < BOARD_X
    &&& cell.fire matches Some(fire) ==> cell_index(fire.x as int, fire.y as int) == i && fire.x
        < BOARD_X
}

/// A grid of the board's size whose bombs and fires know where they are.
pub open spec fn grid_wf(cells: Seq<Cell>) -> bool {
    &&& cells.len() == BOARD_CELLS
    &&& forall|i: int| 0 <= i < cells.len() ==> cell_wf(#[trigger] cells[i], i)
}

/// The cell of a fresh board at position `i`: nothing on it, and on the two
/// outer columns the arrow that announces the teleport.
pub open spec fn initial_cell(i: int) -> Cell {
    Cell {
        payload: Payload::Empty,
        fire: None,
        indication: if i % (BOARD_X as int) == 0 || i % (BOARD_X as int) == BOARD_X - 1 {
            Some(TeleportIndicationComponent { timer: Timer::fresh(INDICATION_MILLIS, false) })
        } else {
            None
        },
    }
}

/// How many of the first `n` cells of a grid hold a bomb.
pub open spec fn bombs_in(cells: Seq<Cell>, n: int) -> nat
    decreases n,
{
    if n <= 0 {
        0
    } else {
        bombs_in(cells, n - 1) + if cells[n - 1].payload is Bomb {
            1nat
        } else {
            0nat
        }
    }
}

/// How many bombs lie on a grid.
pub open spec fn count_bombs(cells: Seq<Cell>) -> nat {
    bombs_in(cells, cells.len() as int)
}

impl View for Board {
    type V = Seq<Cell>;

    open spec fn view(&self) -> Seq<Cell> {
        self.cells@
    }
}

impl Board {
    pub open spec fn wf(&self) -> bool {
        grid_wf(self@)
    }

    /// An empty board.
    pub fn new() -> (board: Board)
        ensures
            board.wf(),
            forall|i: int| 0 <= i < BOARD_CELLS ==> #[trigger] board@[i] == initial_cell(i),
    {
        let mut cells: Vec<Cell> = Vec::new();
        let mut i: usize = 0;
        while i < BOARD_CELLS
            invariant
                i <= BOARD_CELLS,
                cells@.len() == i,
                forall|k: int| 0 <= k < i ==> #[trigger] cells@[k] == initial_cell(k),
            decreases BOARD_CELLS - i,
        {
            let x: usize = i % BOARD_X;
            let indication = if x == 0 || x == BOARD_X - 1 {
                Some(TeleportIndicationComponent { timer: Timer::new(INDICATION_MILLIS, false) })
            } else {
                None
            };
            cells.push(Cell { payload: Payload::Empty, fire: None, indication });
            i += 1;
        }
        Board { cells }
    }

    /// Whether the board has its size and every bomb and fire on it carries
    /// the coordinates of its cell.
    pub fn is_wf(&self) -> (sound: bool)
        ensures
            sound == self.wf(),
    {
        if self.cells.len() != BOARD_CELLS {
            return false;
        }
        let mut i: usize = 0;
        while i < BOARD_CELLS
            invariant
                i <= BOARD_CELLS,
                self.cells@.len() == BOARD_CELLS,
                forall|k: int| 0 <= k < i ==> cell_wf(#[trigger] self@[k], k),
            decreases BOARD_CELLS - i,
        {
            let cell = self.cells[i];
            let x: usize = i % BOARD_X;
            let y: usize = i / BOARD_X;
            let bomb_in_place = match cell.payload {
                Payload::Bomb(bomb) => bomb.x == x && bomb.y == y,
                _ => true,
            };
            let fire_in_place = match cell.fire {
                Some(fire) => fire.x == x && fire.y == y,
                None => true,
            };
            if !bomb_in_place || !fire_in_place {
                assert(!cell_wf(self@[i as int], i as int));
                return false;
            }
            i += 1;
        }
        true
    }

    /// The cell in column `x`, row `y`.
    pub fn get(&self, x: usize, y: usize) -> (cell: Cell)
        requires
            self.wf(),
            in_board(x as int, y as int),
        ensures
            cell == cell_at(self@, x as int, y as int),
    {
        self.cells[y * BOARD_X + x]
    }

    /// Whether an obstacle stands in column `x`, row `y`.
    pub fn is_obstacle(&self, x: usize, y: usize) -> (blocked: bool)
        requires
            self.wf(),
            in_board(x as int, y as int),
        ensures
            blocked == obstacle_at(self@, x as int, y as int),
    {
        matches!(self.cells[y * BOARD_X + x].payload, Payload::Obstacle(_))
    }

    /// Whether nothing occupies column `x`, row `y`.
    pub fn is_empty(&self, x: usize, y: usize) -> (free: bool)
        requires
            self.wf(),
            in_board(x as int, y as int),
        ensures
            free == (cell_at(self@, x as int, y as int).payload is Empty),
    {
        matches!(self.cells[y * BOARD_X + x].payload, Payload::Empty)
    }

    /// How many bombs lie on the board.
    pub fn count_bombs(&self) -> (count: usize)
        requires
            self.wf(),
        ensures
            count == count_bombs(self@),
    {
        let mut count: usize = 0;
        let mut i: usize = 0;
        while i < BOARD_CELLS
            invariant
                i <= BOARD_CELLS,
                self.cells@.len() == BOARD_CELLS,
                count == bombs_in(self@, i as int),
                count <= i,
            decreases BOARD_CELLS - i,
        {
            if matches!(self.cells[i].payload, Payload::Bomb(_)) {
                count += 1;
            }
            i += 1;
        }
        count
    }

    /// Puts `payload` on the cell in column `x`, row `y` if that cell is empty,
    /// and says whether it did. An occupied cell keeps what it holds: this is
    /// the only way anything comes to occupy a cell.
    pub fn place(&mut self, x: usize, y: usize, payload: Payload) -> (placed: bool)
        requires
            old(self).wf(),
            in_board(x as int, y as int),
            payload matches Payload::Bomb(bomb) ==> bomb.x == x && bomb.y == y,
        ensures
            final(self).wf(),
            placed == (cell_at(old(self)@, x as int, y as int).payload is Empty),
            placed ==> final(self)@ == old(self)@.update(
                cell_index(x as int, y as int),
                Cell { payload, ..cell_at(old(self)@, x as int, y as int) },
            ),
            !placed ==> final(self)@ == old(self)@,
    {
        let i: usize = y * BOARD_X + x;
        let cell = self.cells[i];
        match cell.payload {
            Payload::Empty => {
                self.cells[i] = Cell { payload, fire: cell.fire, indication: cell.indication };
                true
            },
            _ => false,
        }
    }

    /// Frees the cell in column `x`, row `y`. Overlays stay.
    pub fn clear(&mut self, x: usize, y: usize)
        requires
            old(self).wf(),
            in_board(x as int, y as int),
        ensures
            final(self).wf(),
            final(self)@ == old(self)@.update(
                cell_index(x as int, y as int),
                Cell { payload: Payload::Empty, ..cell_at(old(self)@, x as int, y as int) },
            ),
    {
        let i: usize = y * BOARD_X + x;
        let cell = self.cells[i];
        self.cells[i] = Cell { payload: Payload::Empty, fire: cell.fire, indication: cell.indication };
    }
}

} // verus!
