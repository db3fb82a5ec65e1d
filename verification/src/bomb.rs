//! Bombs and what follows from them: the blast, the fire it leaves, the
//! obstacles the fire wears down, and the power-ups that destroyed obstacles
//! drop.

use vstd::prelude::*;
use rand::rngs::StdRng;
use crate::board::{
    Board, BombComponent, BombState, Cell, FireComponent, ObstacleComponent, Payload,
    PlayerPowerUp, PowerUpComponent, cell_at, cell_index, cell_wf, cell_x, cell_y, in_board,
    obstacle_at,
    BOARD_CELLS, BOARD_X, BOARD_Y,
};
use crate::config::Config;
use crate::game::{CauseOfDeath, Game, GameEvents, GameState, GameView, InterestingEvent, Player};
use crate::keyboard_systems::MoveDirection;
use crate::random::draw_drop;
use crate::timer::Timer;

verus! {

/// The `k`-th cell of the arm of a blast that leaves `(bx, by)` in
/// `direction`; the arm starts on the bomb's own cell.
pub open spec fn arm_cell(direction: MoveDirection, bx: int, by: int, k: int) -> (int, int) {
    match direction {
        MoveDirection::Left => (bx - k, by),
        MoveDirection::Right => (bx + k, by),
        MoveDirection::Up => (bx, by + k),
        MoveDirection::Down => (bx, by - k),
    }
}

/// Whether an obstacle stands on the `k`-th cell of an arm.
pub open spec fn arm_blocked(
    cells: Seq<Cell>,
    direction: MoveDirection,
    bx: int,
    by: int,
    k: int,
) -> bool {
    obstacle_at(cells, arm_cell(direction, bx, by, k).0, arm_cell(direction, bx, by, k).1)
}

/// Whether the arm of a blast of the given range reaches its `k`-th cell: the
/// cell is on the board, within range, and no obstacle stands before it. An
/// obstacle is itself reached; what lies behind it is not.
pub open spec fn arm_reaches(
    cells: Seq<Cell>,
    direction: MoveDirection,
    bx: int,
    by: int,
    range: int,
    k: int,
) -> bool {
    &&& 0 <= k <= range
    &&& in_board(arm_cell(direction, bx, by, k).0, arm_cell(direction, bx, by, k).1)
    &&& forall|j: int| 0 <= j < k ==> !#[trigger] arm_blocked(cells, direction, bx, by, j)
}

/// Whether the blast of a bomb at `(bx, by)` sets the cell `(x, y)` on fire.
/// The blast runs along the bomb's row and column, each way on its own.
pub open spec fn blast_reaches(cells: Seq<Cell>, bx: int, by: int, range: int, x: int, y: int)
    -> bool {
    ||| y == by && x >= bx && arm_reaches(cells, MoveDirection::Right, bx, by, range, x - bx)
    ||| y == by && x <= bx && arm_reaches(cells, MoveDirection::Left, bx, by, range, bx - x)
    ||| x == bx && y >= by && arm_reaches(cells, MoveDirection::Up, bx, by, range, y - by)
    ||| x == bx && y <= by && arm_reaches(cells, MoveDirection::Down, bx, by, range, by - y)
}

/// The fire that a bomb's blast leaves on the cell at position `i`.
pub open spec fn bomb_fire(damage: usize, lifetime: u64, i: int) -> FireComponent {
    FireComponent {
        damage,
        x: cell_x(i) as usize,
        y: cell_y(i) as usize,
        timer: Timer::fresh(lifetime, false),
        from_player: true,
    }
}

/// The cell at position `i` after the blast of `bomb`: set on fire where the
/// blast reaches, a fire already there replaced; otherwise as before.
pub open spec fn blasted_cell(cells: Seq<Cell>, bomb: BombComponent, lifetime: u64, i: int)
    -> Cell {
    if blast_reaches(
        cells,
        bomb.x as int,
        bomb.y as int,
        bomb.range as int,
        cell_x(i),
        cell_y(i),
    ) {
        Cell { fire: Some(bomb_fire(bomb.damage, lifetime, i)), ..cells[i] }
    } else {
        cells[i]
    }
}

/// The cell next to `(x, y)` in `direction`, if the board has one. Nothing
/// wraps around here.
fn neighbour(x: usize, y: usize, direction: MoveDirection) -> (next: Option<(usize, usize)>)
    requires
        in_board(x as int, y as int),
    ensures
        next is Some <==> in_board(
            arm_cell(direction, x as int, y as int, 1).0,
            arm_cell(direction, x as int, y as int, 1).1,
        ),
        next matches Some(cell) ==> (cell.0 as int, cell.1 as int) == arm_cell(
            direction,
            x as int,
            y as int,
            1,
        ),
{
    match direction {
        MoveDirection::Left => if x == 0 {
            None
        } else {
            Some((x - 1, y))
        },
        MoveDirection::Right => if x + 1 >= BOARD_X {
            None
        } else {
            Some((x + 1, y))
        },
        MoveDirection::Up => if y + 1 >= BOARD_Y {
            None
        } else {
            Some((x, y + 1))
        },
        MoveDirection::Down => if y == 0 {
            None
        } else {
            Some((x, y - 1))
        },
    }
}

/// How far the arm of a blast reaches: the number of the last cell it sets on
/// fire, counted from the bomb's own cell.
pub fn arm_reach(board: &Board, bx: usize, by: usize, direction: MoveDirection, range: usize)
    -> (reach: usize)
    requires
        board.wf(),
        in_board(bx as int, by as int),
    ensures
        reach <= range,
        reach < BOARD_X,
        forall|k: int|
            0 <= k ==> (#[trigger] arm_reaches(
                board@,
                direction,
                bx as int,
                by as int,
                range as int,
                k,
            ) <==> k <= reach),
{
    let mut reach: usize = 0;
    let mut x: usize = bx;
    let mut y: usize = by;
    loop
        invariant
            board.wf(),
            in_board(bx as int, by as int),
            in_board(x as int, y as int),
            reach <= range,
            reach < BOARD_X,
            (x as int, y as int) == arm_cell(direction, bx as int, by as int, reach as int),
            forall|j: int|
                0 <= j < reach ==> !#[trigger] arm_blocked(
                    board@,
                    direction,
                    bx as int,
                    by as int,
                    j,
                ),
        ensures
            reach <= range,
            reach < BOARD_X,
            forall|k: int|
                0 <= k ==> (#[trigger] arm_reaches(
                    board@,
                    direction,
                    bx as int,
                    by as int,
                    range as int,
                    k,
                ) <==> k <= reach),
        decreases BOARD_X + BOARD_Y - reach,
    {
        let blocked = board.is_obstacle(x, y);
        let next = neighbour(x, y, direction);
        if reach >= range || blocked || next.is_none() {
            assert forall|k: int| 0 <= k implies (#[trigger] arm_reaches(
                board@,
                direction,
                bx as int,
                by as int,
                range as int,
                k,
            ) <==> k <= reach) by {
                if k > reach && blocked {
                    assert(arm_blocked(board@, direction, bx as int, by as int, reach as int));
                }
            }
            break ;
        }
        let (nx, ny) = next.unwrap();
        assert(!arm_blocked(board@, direction, bx as int, by as int, reach as int));
        x = nx;
        y = ny;
        reach += 1;
    }
    reach
}

/// Two grids with obstacles on the same cells stop a blast alike.
proof fn lemma_blast_same_obstacles(
    a: Seq<Cell>,
    b: Seq<Cell>,
    bx: int,
    by: int,
    range: int,
    x: int,
    y: int,
)
    requires
        a.len() == BOARD_CELLS,
        b.len() == BOARD_CELLS,
        in_board(bx, by),
        forall|i: int| 0 <= i < BOARD_CELLS ==> (#[trigger] a[i].payload is Obstacle) == (
        b[i].payload is Obstacle),
    ensures
        blast_reaches(a, bx, by, range, x, y) == blast_reaches(b, bx, by, range, x, y),
{
    lemma_arm_same_obstacles(a, b, MoveDirection::Right, bx, by, range, x - bx);
    lemma_arm_same_obstacles(a, b, MoveDirection::Left, bx, by, range, bx - x);
    lemma_arm_same_obstacles(a, b, MoveDirection::Up, bx, by, range, y - by);
    lemma_arm_same_obstacles(a, b, MoveDirection::Down, bx, by, range, by - y);
}

/// Two grids with obstacles on the same cells stop an arm alike.
proof fn lemma_arm_same_obstacles(
    a: Seq<Cell>,
    b: Seq<Cell>,
    direction: MoveDirection,
    bx: int,
    by: int,
    range: int,
    k: int,
)
    requires
        a.len() == BOARD_CELLS,
        b.len() == BOARD_CELLS,
        in_board(bx, by),
        forall|i: int| 0 <= i < BOARD_CELLS ==> (#[trigger] a[i].payload is Obstacle) == (
        b[i].payload is Obstacle),
    ensures
        arm_reaches(a, direction, bx, by, range, k) == arm_reaches(b, direction, bx, by, range, k),
{
    if 0 <= k <= range && in_board(
        arm_cell(direction, bx, by, k).0,
        arm_cell(direction, bx, by, k).1,
    ) {
        assert forall|j: int| 0 <= j < k implies arm_blocked(a, direction, bx, by, j)
            == arm_blocked(b, direction, bx, by, j) by {
            let (cx, cy) = arm_cell(direction, bx, by, j);
            assert(in_board(cx, cy));
            assert(0 <= cell_index(cx, cy) < BOARD_CELLS);
            assert(a[cell_index(cx, cy)].payload is Obstacle == b[cell_index(
                cx,
                cy,
            )].payload is Obstacle);
        }
    }
}

/// Sets on fire every cell that the blast of `bomb` reaches. The fire burns
/// for `lifetime` milliseconds with the bomb's damage; nothing else changes.
pub fn blast(board: &mut Board, bomb: BombComponent, lifetime: u64)
    requires
        old(board).wf(),
        in_board(bomb.x as int, bomb.y as int),
    ensures
        final(board).wf(),
        forall|i: int|
            0 <= i < BOARD_CELLS ==> #[trigger] final(board)@[i] == blasted_cell(
                old(board)@,
                bomb,
                lifetime,
                i,
            ),
{
    let right = arm_reach(board, bomb.x, bomb.y, MoveDirection::Right, bomb.range);
    let left = arm_reach(board, bomb.x, bomb.y, MoveDirection::Left, bomb.range);
    let up = arm_reach(board, bomb.x, bomb.y, MoveDirection::Up, bomb.range);
    let down = arm_reach(board, bomb.x, bomb.y, MoveDirection::Down, bomb.range);
    let mut i: usize = 0;
    while i < BOARD_CELLS
        invariant
            i <= BOARD_CELLS,
            old(board).wf(),
            board.wf(),
            in_board(bomb.x as int, bomb.y as int),
            forall|k: int|
                0 <= k ==> (#[trigger] arm_reaches(
                    old(board)@,
                    MoveDirection::Right,
                    bomb.x as int,
                    bomb.y as int,
                    bomb.range as int,
                    k,
                ) <==> k <= right),
            forall|k: int|
                0 <= k ==> (#[trigger] arm_reaches(
                    old(board)@,
                    MoveDirection::Left,
                    bomb.x as int,
                    bomb.y as int,
                    bomb.range as int,
                    k,
                ) <==> k <= left),
            forall|k: int|
                0 <= k ==> (#[trigger] arm_reaches(
                    old(board)@,
                    MoveDirection::Up,
                    bomb.x as int,
                    bomb.y as int,
                    bomb.range as int,
                    k,
                ) <==> k <= up),
            forall|k: int|
                0 <= k ==> (#[trigger] arm_reaches(
                    old(board)@,
                    MoveDirection::Down,
                    bomb.x as int,
                    bomb.y as int,
                    bomb.range as int,
                    k,
                ) <==> k <= down),
            forall|k: int|
                0 <= k < i ==> #[trigger] board@[k] == blasted_cell(
                    old(board)@,
                    bomb,
                    lifetime,
                    k,
                ),
            forall|k: int| i <= k < BOARD_CELLS ==> #[trigger] board@[k] == old(board)@[k],
        decreases BOARD_CELLS - i,
    {
        let x: usize = i % BOARD_X;
        let y: usize = i / BOARD_X;
        let in_row = y == bomb.y && ((x >= bomb.x && x - bomb.x <= right) || (x <= bomb.x
            && bomb.x - x <= left));
        let in_column = x == bomb.x && ((y >= bomb.y && y - bomb.y <= up) || (y <= bomb.y
            && bomb.y - y <= down));
        if in_row || in_column {
            let cell = board.cells[i];
            board.cells[i] = Cell {
                payload: cell.payload,
                fire: Some(
                    FireComponent {
                        damage: bomb.damage,
                        x,
                        y,
                        timer: Timer::new(lifetime, false),
                        from_player: true,
                    },
                ),
                indication: cell.indication,
            };
        }
        i += 1;
    }
}

/// Whether the bomb on a cell explodes in a tick of `delta` milliseconds:
/// fire has reached its cell, or its flash has run out.
pub open spec fn bomb_explodes(cell: Cell, delta: u64) -> bool {
    cell.payload matches Payload::Bomb(bomb) && (cell.fire is Some || bomb.state
        == BombState::Exploded || (bomb.state == BombState::Flash && bomb.timer.ticked(
        delta,
    ).finished))
}

/// What a cell holds after the bombs have been advanced by `delta`
/// milliseconds: a bomb that explodes leaves the cell empty, a bomb whose
/// fuse has run out starts to flash, any other bomb has its timer advanced.
pub open spec fn flashed_payload(cell: Cell, delta: u64) -> Payload {
    match cell.payload {
        Payload::Bomb(bomb) => if bomb_explodes(cell, delta) {
            Payload::Empty
        } else if bomb.state == BombState::Fuse && bomb.timer.ticked(delta).finished {
            Payload::Bomb(
                BombComponent {
                    state: BombState::Flash,
                    timer: bomb.timer.ticked(delta).rewound(),
                    ..bomb
                },
            )
        } else {
            Payload::Bomb(BombComponent { timer: bomb.timer.ticked(delta), ..bomb })
        },
        other => other,
    }
}

/// The bomb on the cell at position `j` of a grid.
pub open spec fn bomb_on(cells: Seq<Cell>, j: int) -> BombComponent {
    cells[j].payload->Bomb_0
}

/// Whether the bomb at position `j` explodes and its blast reaches the cell
/// at position `i`.
pub open spec fn ignites(cells: Seq<Cell>, delta: u64, j: int, i: int) -> bool {
    bomb_explodes(cells[j], delta) && blast_reaches(
        cells,
        bomb_on(cells, j).x as int,
        bomb_on(cells, j).y as int,
        bomb_on(cells, j).range as int,
        cell_x(i),
        cell_y(i),
    )
}

/// Position of the last bomb among the first `n` cells that explodes and
/// whose blast reaches the cell at position `i`, if there is one. Blasts are
/// resolved in the order of the cells, so this bomb's fire is the one that
/// stays.
pub open spec fn igniter(cells: Seq<Cell>, delta: u64, i: int, n: int) -> Option<int>
    decreases n,
{
    if n <= 0 {
        None
    } else if ignites(cells, delta, n - 1, i) {
        Some(n - 1)
    } else {
        igniter(cells, delta, i, n - 1)
    }
}

/// The fire on the cell at position `i` once the bombs among the first `n`
/// cells have exploded.
pub open spec fn flashed_fire(cells: Seq<Cell>, delta: u64, lifetime: u64, i: int, n: int)
    -> Option<FireComponent> {
    match igniter(cells, delta, i, n) {
        Some(j) => Some(bomb_fire(bomb_on(cells, j).damage, lifetime, i)),
        None => cells[i].fire,
    }
}

/// The cell at position `i` after the bombs have been advanced.
pub open spec fn flashed_cell(cells: Seq<Cell>, delta: u64, lifetime: u64, i: int) -> Cell {
    Cell {
        payload: flashed_payload(cells[i], delta),
        fire: flashed_fire(cells, delta, lifetime, i, BOARD_CELLS as int),
        indication: cells[i].indication,
    }
}

/// One event for each bomb among the first `n` cells that fire has reached.
pub open spec fn chain_events(cells: Seq<Cell>, n: int) -> Seq<InterestingEvent>
    decreases n,
{
    if n <= 0 {
        Seq::empty()
    } else {
        chain_events(cells, n - 1) + if cells[n - 1].payload is Bomb && cells[n - 1].fire is Some {
            seq![InterestingEvent::BombChainDetonated]
        } else {
            Seq::empty()
        }
    }
}

/// The run after the bombs have been advanced by `delta` milliseconds.
/// Nothing happens unless the game is played.
pub open spec fn flash_bombs_spec(g: GameView, delta: u64) -> GameView {
    if g.state == GameState::Play {
        GameView {
            cells: Seq::new(
                BOARD_CELLS as nat,
                |i: int| flashed_cell(g.cells, delta, g.config.player_bomb_fire_timer, i),
            ),
            interesting_events: g.interesting_events + chain_events(g.cells, BOARD_CELLS as int),
            ..g
        }
    } else {
        g
    }
}

/// What a cell holds between the two passes of `flash_bombs`: as after the
/// bombs have been advanced, but a bomb that explodes is still there, marked.
spec fn marked_payload(cell: Cell, delta: u64) -> Payload {
    match cell.payload {
        Payload::Bomb(bomb) => if bomb_explodes(cell, delta) {
            Payload::Bomb(
                BombComponent {
                    state: BombState::Exploded,
                    timer: bomb.timer.ticked(delta),
                    ..bomb
                },
            )
        } else {
            flashed_payload(cell, delta)
        },
        other => other,
    }
}

/// Advances the timer and the phase of the bomb on a cell, and marks it if
/// it explodes.
fn mark_bomb(cell: Cell, delta: u64) -> (marked: Cell)
    ensures
        marked == (Cell { payload: marked_payload(cell, delta), ..cell }),
{
    match cell.payload {
        Payload::Bomb(bomb) => {
            let mut timer = bomb.timer;
            timer.tick(delta);
            let mut state = bomb.state;
            let chained = cell.fire.is_some();
            let flash_over = timer.finished && state == BombState::Flash;
            if chained || flash_over || state == BombState::Exploded {
                state = BombState::Exploded;
            } else if timer.finished && state == BombState::Fuse {
                state = BombState::Flash;
                timer.reset();
            }
            Cell {
                payload: Payload::Bomb(
                    BombComponent {
                        damage: bomb.damage,
                        range: bomb.range,
                        state,
                        x: bomb.x,
                        y: bomb.y,
                        timer,
                    },
                ),
                fire: cell.fire,
                indication: cell.indication,
            }
        },
        _ => cell,
    }
}

/// Advances every bomb by `delta` milliseconds while the game is played. A
/// bomb whose fuse runs out starts to flash; one whose flash runs out, or
/// whose cell is on fire, explodes: it frees its cell and its blast sets the
/// cells it reaches on fire. Which bombs explode is decided on the board as
/// it was before the call, so a bomb that another one's blast reaches goes
/// off on the next call: the fire on its cell waits for it, however much
/// time passes in between. Each bomb found on a burning cell is reported as
/// a chain detonation.
pub fn flash_bombs(game: &mut Game, delta: u64)
    requires
        old(game).wf(),
    ensures
        final(game).wf(),
        final(game)@ == flash_bombs_spec(old(game)@, delta),
{
    if game.state != GameState::Play {
        return ;
    }
    let lifetime = game.config.player_bomb_fire_timer;
    let mut i: usize = 0;
    while i < BOARD_CELLS
        invariant
            i <= BOARD_CELLS,
            old(game).wf(),
            game.wf(),
            game@ == (GameView {
                cells: game@.cells,
                interesting_events: game@.interesting_events,
                ..old(game)@
            }),
            game@.interesting_events == old(game)@.interesting_events + chain_events(
                old(game)@.cells,
                i as int,
            ),
            forall|k: int|
                0 <= k < i ==> #[trigger] game@.cells[k] == (Cell {
                    payload: marked_payload(old(game)@.cells[k], delta),
                    ..old(game)@.cells[k]
                }),
            forall|k: int| i <= k < BOARD_CELLS ==> #[trigger] game@.cells[k] == old(game)@.cells[k],
        decreases BOARD_CELLS - i,
    {
        let cell = game.board.cells[i];
        if matches!(cell.payload, Payload::Bomb(_)) {
            if cell.fire.is_some() {
                game.interesting_events.push(InterestingEvent::BombChainDetonated);
            }
            game.board.cells[i] = mark_bomb(cell, delta);
        }
        assert(game@.interesting_events =~= old(game)@.interesting_events + chain_events(
            old(game)@.cells,
            i + 1,
        ));
        i += 1;
    }
    let ghost before = old(game)@.cells;
    let mut j: usize = 0;
    while j < BOARD_CELLS
        invariant
            j <= BOARD_CELLS,
            old(game).wf(),
            game.wf(),
            before == old(game)@.cells,
            game@ == (GameView {
                cells: game@.cells,
                interesting_events: game@.interesting_events,
                ..old(game)@
            }),
            game@.interesting_events == old(game)@.interesting_events + chain_events(
                before,
                BOARD_CELLS as int,
            ),
            forall|k: int|
                0 <= k < BOARD_CELLS ==> #[trigger] game@.cells[k] == (Cell {
                    payload: if k < j {
                        flashed_payload(before[k], delta)
                    } else {
                        marked_payload(before[k], delta)
                    },
                    fire: flashed_fire(before, delta, lifetime, k, j as int),
                    indication: before[k].indication,
                }),
        decreases BOARD_CELLS - j,
    {
        let cell = game.board.cells[j];
        let ghost mid = game@.cells;
        match cell.payload {
            Payload::Bomb(bomb) => {
                if bomb.state == BombState::Exploded {
                    game.board.cells[j] = Cell {
                        payload: Payload::Empty,
                        fire: cell.fire,
                        indication: cell.indication,
                    };
                    let ghost cleared = game@.cells;
                    blast(&mut game.board, bomb, lifetime);
                    assert forall|k: int| 0 <= k < BOARD_CELLS implies #[trigger] game@.cells[k]
                        == (Cell {
                        payload: if k < j + 1 {
                            flashed_payload(before[k], delta)
                        } else {
                            marked_payload(before[k], delta)
                        },
                        fire: flashed_fire(before, delta, lifetime, k, j + 1),
                        indication: before[k].indication,
                    }) by {
                        assert forall|m: int| 0 <= m < BOARD_CELLS implies (
                        #[trigger] cleared[m].payload is Obstacle) == (
                        before[m].payload is Obstacle) by {
                            assert(mid[m].payload is Obstacle == before[m].payload is Obstacle);
                        }
                        lemma_blast_same_obstacles(
                            cleared,
                            before,
                            bomb.x as int,
                            bomb.y as int,
                            bomb.range as int,
                            cell_x(k),
                            cell_y(k),
                        );
                        assert(game@.cells[k] == blasted_cell(cleared, bomb, lifetime, k));
                    }
                } else {
                    assert(!bomb_explodes(before[j as int], delta));
                }
            },
            _ => {
                assert(!bomb_explodes(before[j as int], delta));
            },
        }
        j += 1;
    }
    assert(game@.cells =~= flash_bombs_spec(old(game)@, delta).cells);
}

/// What a cell holds after a fire of the given damage has burnt out on it:
/// an obstacle loses that much life, down to none at most.
pub open spec fn burnt_payload(payload: Payload, damage: usize) -> Payload {
    match payload {
        Payload::Obstacle(obstacle) => Payload::Obstacle(
            ObstacleComponent {
                remaining_life: if obstacle.remaining_life >= damage {
                    (obstacle.remaining_life - damage) as usize
                } else {
                    0
                },
                ..obstacle
            },
        ),
        other => other,
    }
}

/// A cell after its fire has burnt for `delta` more milliseconds. A fire
/// whose time is up goes out and wears down the obstacle under it. On a
/// bomb the fire does not go out: it burns on until the bomb has gone off,
/// so that no span of time is too long for a chain of bombs.
pub open spec fn fire_cell(cell: Cell, delta: u64) -> Cell {
    match cell.fire {
        Some(fire) => if fire.timer.ticked(delta).finished && !(cell.payload is Bomb) {
            Cell { payload: burnt_payload(cell.payload, fire.damage), fire: None, ..cell }
        } else {
            Cell { fire: Some(FireComponent { timer: fire.timer.ticked(delta), ..fire }), ..cell }
        },
        None => cell,
    }
}

/// What a fire kills the player of.
pub open spec fn cause_of(fire: FireComponent) -> CauseOfDeath {
    if fire.from_player {
        CauseOfDeath::BombFire
    } else {
        CauseOfDeath::LaserFire
    }
}

/// What the destruction of an obstacle by a fire counts as.
pub open spec fn destroyed_by(fire: FireComponent) -> InterestingEvent {
    if fire.from_player {
        InterestingEvent::ObstacleDestroyedByPlayer
    } else {
        InterestingEvent::ObstacleDestroyedByLaser
    }
}

/// Whether the fire on a cell goes out within `delta` milliseconds and
/// leaves the obstacle under it without life.
pub open spec fn fire_destroys(cell: Cell, delta: u64) -> bool {
    &&& cell.fire matches Some(fire)
    &&& fire.timer.ticked(delta).finished
    &&& cell.payload matches Payload::Obstacle(obstacle)
    &&& obstacle.remaining_life <= fire.damage
}

/// One event for each obstacle among the first `n` cells that a fire
/// destroys within `delta` milliseconds.
pub open spec fn destroyed_events(cells: Seq<Cell>, delta: u64, n: int) -> Seq<InterestingEvent>
    decreases n,
{
    if n <= 0 {
        Seq::empty()
    } else {
        destroyed_events(cells, delta, n - 1) + if fire_destroys(cells[n - 1], delta) {
            seq![destroyed_by(cells[n - 1].fire->Some_0)]
        } else {
            Seq::empty()
        }
    }
}

/// The event that the fire under the player raises, if there is one.
pub open spec fn burn_events(cell: Cell) -> Seq<GameEvents> {
    match cell.fire {
        Some(fire) => seq![GameEvents::Lost(cause_of(fire))],
        None => Seq::empty(),
    }
}

/// The run after the fires have burnt for `delta` more milliseconds.
/// Nothing happens unless the game is played.
pub open spec fn fire_spec(g: GameView, delta: u64) -> GameView {
    if g.state == GameState::Play {
        GameView {
            cells: Seq::new(BOARD_CELLS as nat, |i: int| fire_cell(g.cells[i], delta)),
            game_events: g.game_events + burn_events(
                cell_at(g.cells, g.player.x as int, g.player.y as int),
            ),
            interesting_events: g.interesting_events + destroyed_events(
                g.cells,
                delta,
                BOARD_CELLS as int,
            ),
            ..g
        }
    } else {
        g
    }
}

/// Lets every fire burn for `delta` more milliseconds while the game is
/// played. A fire under the player ends the run; a fire whose time is up
/// goes out and takes its damage off the life of the obstacle under it. A
/// fire on a bomb stays until the bomb has gone off, however long it has
/// burnt.
pub fn fire(game: &mut Game, delta: u64)
    requires
        old(game).wf(),
    ensures
        final(game).wf(),
        final(game)@ == fire_spec(old(game)@, delta),
{
    if game.state != GameState::Play {
        return ;
    }
    let at: usize = game.player.y * BOARD_X + game.player.x;
    let mut i: usize = 0;
    while i < BOARD_CELLS
        invariant
            i <= BOARD_CELLS,
            old(game).wf(),
            game.wf(),
            at == cell_index(old(game)@.player.x as int, old(game)@.player.y as int),
            game@ == (GameView {
                cells: game@.cells,
                game_events: game@.game_events,
                interesting_events: game@.interesting_events,
                ..old(game)@
            }),
            game@.game_events == old(game)@.game_events + if at < i {
                burn_events(old(game)@.cells[at as int])
            } else {
                Seq::empty()
            },
            game@.interesting_events == old(game)@.interesting_events + destroyed_events(
                old(game)@.cells,
                delta,
                i as int,
            ),
            forall|k: int|
                0 <= k < i ==> #[trigger] game@.cells[k] == fire_cell(old(game)@.cells[k], delta),
            forall|k: int| i <= k < BOARD_CELLS ==> #[trigger] game@.cells[k] == old(game)@.cells[k],
        decreases BOARD_CELLS - i,
    {
        let cell = game.board.cells[i];
        match cell.fire {
            Some(burning) => {
                let mut timer = burning.timer;
                timer.tick(delta);
                if i == at {
                    game.game_events.push(
                        GameEvents::Lost(
                            if burning.from_player {
                                CauseOfDeath::BombFire
                            } else {
                                CauseOfDeath::LaserFire
                            },
                        ),
                    );
                }
                if timer.finished && !matches!(cell.payload, Payload::Bomb(_)) {
                    let payload = match cell.payload {
                        Payload::Obstacle(obstacle) => {
                            if obstacle.remaining_life <= burning.damage {
                                game.interesting_events.push(
                                    if burning.from_player {
                                        InterestingEvent::ObstacleDestroyedByPlayer
                                    } else {
                                        InterestingEvent::ObstacleDestroyedByLaser
                                    },
                                );
                            }
                            Payload::Obstacle(
                                ObstacleComponent {
                                    original_life: obstacle.original_life,
                                    remaining_life: obstacle.remaining_life.saturating_sub(
                                        burning.damage,
                                    ),
                                    sprite: obstacle.sprite,
                                },
                            )
                        },
                        other => other,
                    };
                    game.board.cells[i] = Cell { payload, fire: None, indication: cell.indication };
                } else {
                    game.board.cells[i] = Cell {
                        payload: cell.payload,
                        fire: Some(
                            FireComponent {
                                damage: burning.damage,
                                x: burning.x,
                                y: burning.y,
                                timer,
                                from_player: burning.from_player,
                            },
                        ),
                        indication: cell.indication,
                    };
                }
            },
            None => {},
        }
        assert(game@.game_events =~= old(game)@.game_events + if at < i + 1 {
            burn_events(old(game)@.cells[at as int])
        } else {
            Seq::empty()
        });
        assert(game@.interesting_events =~= old(game)@.interesting_events + destroyed_events(
            old(game)@.cells,
            delta,
            i + 1,
        ));
        i += 1;
    }
    assert(game@.cells =~= fire_spec(old(game)@, delta).cells);
}

/// The power-up that a destroyed obstacle leaves behind.
pub open spec fn dropped_powerup(kind: PlayerPowerUp, lifetime: u64) -> PowerUpComponent {
    PowerUpComponent { timer: Timer::fresh(lifetime, false), powerup: kind, used: false }
}

/// Whether a cell holds an obstacle without life left.
pub open spec fn is_destroyed(cell: Cell) -> bool {
    cell.payload matches Payload::Obstacle(obstacle) && obstacle.remaining_life == 0
}

/// A cell after its destroyed obstacle has been removed: the cell is free,
/// or holds the power-up that the obstacle drops. Any other cell stays as
/// it is.
pub open spec fn destroyed_cell(cell: Cell, drop: Option<PlayerPowerUp>, lifetime: u64) -> Cell {
    if is_destroyed(cell) {
        Cell {
            payload: match drop {
                Some(kind) => Payload::PowerUp(dropped_powerup(kind, lifetime)),
                None => Payload::Empty,
            },
            ..cell
        }
    } else {
        cell
    }
}

/// The run after the destroyed obstacles have been removed, where
/// `drops[i]` is what the obstacle at position `i` leaves behind.
pub open spec fn destroyed_obstacles_spec(g: GameView, drops: Seq<Option<PlayerPowerUp>>)
    -> GameView {
    GameView {
        cells: Seq::new(
            BOARD_CELLS as nat,
            |i: int| destroyed_cell(g.cells[i], drops[i], g.config.powerup_timer),
        ),
        ..g
    }
}

/// Removes the obstacle in column `x`, row `y` if it has no life left, and
/// puts the power-up `drop`, if any, in its place.
pub fn destroy_obstacle(game: &mut Game, x: usize, y: usize, drop: Option<PlayerPowerUp>)
    requires
        old(game).wf(),
        in_board(x as int, y as int),
    ensures
        final(game).wf(),
        final(game)@ == (GameView {
            cells: old(game)@.cells.update(
                cell_index(x as int, y as int),
                destroyed_cell(
                    cell_at(old(game)@.cells, x as int, y as int),
                    drop,
                    old(game)@.config.powerup_timer,
                ),
            ),
            ..old(game)@
        }),
{
    let cell = game.board.get(x, y);
    match cell.payload {
        Payload::Obstacle(obstacle) => {
            if obstacle.remaining_life == 0 {
                game.board.clear(x, y);
                match drop {
                    Some(kind) => {
                        let powerup = PowerUpComponent {
                            timer: Timer::new(game.config.powerup_timer, false),
                            powerup: kind,
                            used: false,
                        };
                        game.board.place(x, y, Payload::PowerUp(powerup));
                    },
                    None => {},
                }
            }
        },
        _ => {},
    }
    assert(game@.cells =~= old(game)@.cells.update(
        cell_index(x as int, y as int),
        destroyed_cell(
            cell_at(old(game)@.cells, x as int, y as int),
            drop,
            old(game)@.config.powerup_timer,
        ),
    ));
}

/// Removes every obstacle without life left. Each leaves a power-up behind
/// with the configured chance, of a kind drawn evenly; what is drawn is
/// the sequence `drops` of the contract. With a chance of zero nothing is
/// ever left, with a chance of one hundred percent always something.
pub fn destroyed_obstacles(game: &mut Game, rng: &mut StdRng)
    requires
        old(game).wf(),
    ensures
        final(game).wf(),
        exists|drops: Seq<Option<PlayerPowerUp>>|
            {
                &&& drops.len() == BOARD_CELLS
                &&& #[trigger] destroyed_obstacles_spec(old(game)@, drops) == final(game)@
                &&& old(game)@.config.player_powerup_chance == 0 ==> forall|i: int|
                    0 <= i < BOARD_CELLS ==> drops[i] is None
                &&& old(game)@.config.player_powerup_chance == 100 ==> forall|i: int|
                    0 <= i < BOARD_CELLS && is_destroyed(old(game)@.cells[i]) ==> drops[i] is Some
            },
{
    let ghost mut drops: Seq<Option<PlayerPowerUp>> = Seq::empty();
    let chance = game.config.player_powerup_chance;
    let mut i: usize = 0;
    while i < BOARD_CELLS
        invariant
            i <= BOARD_CELLS,
            old(game).wf(),
            game.wf(),
            chance == old(game)@.config.player_powerup_chance,
            drops.len() == i,
            game@ == (GameView { cells: game@.cells, ..old(game)@ }),
            chance == 0 ==> forall|k: int| 0 <= k < i ==> drops[k] is None,
            chance == 100 ==> forall|k: int|
                0 <= k < i && is_destroyed(old(game)@.cells[k]) ==> drops[k] is Some,
            forall|k: int|
                0 <= k < i ==> #[trigger] game@.cells[k] == destroyed_cell(
                    old(game)@.cells[k],
                    drops[k],
                    old(game)@.config.powerup_timer,
                ),
            forall|k: int| i <= k < BOARD_CELLS ==> #[trigger] game@.cells[k] == old(game)@.cells[k],
        decreases BOARD_CELLS - i,
    {
        let destroyed = match game.board.cells[i].payload {
            Payload::Obstacle(obstacle) => obstacle.remaining_life == 0,
            _ => false,
        };
        if destroyed {
            let drop = draw_drop(rng, chance);
            proof {
                drops = drops.push(drop);
            }
            destroy_obstacle(game, i % BOARD_X, i / BOARD_X, drop);
        } else {
            proof {
                drops = drops.push(None);
            }
        }
        i += 1;
    }
    proof {
        assert(destroyed_obstacles_spec(old(game)@, drops).cells =~= game@.cells);
    }
}

/// `percent` hundredths of `value`, rounded down and capped at the largest
/// value.
pub open spec fn scaled(value: u64, percent: u64) -> u64 {
    if value * percent / 100 > u64::MAX {
        u64::MAX
    } else {
        (value * percent / 100) as u64
    }
}

/// The sum of two counts, capped at the largest count.
pub open spec fn raised(value: usize, by: usize) -> usize {
    if value + by > usize::MAX {
        usize::MAX
    } else {
        (value + by) as usize
    }
}

/// The score after a bonus of `bonus` points for each round, capped at the
/// largest score.
pub open spec fn score_with_bonus(score: u32, round: u16, bonus: u32) -> u32 {
    if score + round * bonus > u32::MAX {
        u32::MAX
    } else {
        (score + round * bonus) as u32
    }
}

/// The power-up that the player picks up now: the one on their cell, unless
/// it has been used already.
pub open spec fn picked_up(g: GameView) -> Option<PlayerPowerUp> {
    match cell_at(g.cells, g.player.x as int, g.player.y as int).payload {
        Payload::PowerUp(powerup) => if powerup.used {
            None
        } else {
            Some(powerup.powerup)
        },
        _ => None,
    }
}

/// The player with the effect of a power-up of the given kind.
pub open spec fn empowered(player: Player, kind: PlayerPowerUp, config: Config) -> Player {
    match kind {
        PlayerPowerUp::Score => player,
        PlayerPowerUp::BombCount => Player {
            nb_bombs: raised(player.nb_bombs, config.player_powerup_bomb_count),
            ..player
        },
        PlayerPowerUp::BombDamage => Player {
            bomb_damage: raised(player.bomb_damage, config.player_powerup_bomb_damage),
            ..player
        },
        PlayerPowerUp::BombRange => Player {
            bomb_range: raised(player.bomb_range, config.player_powerup_bomb_range),
            ..player
        },
        PlayerPowerUp::BombSpeed => Player {
            bomb_speed: scaled(player.bomb_speed, config.player_powerup_bomb_speed),
            ..player
        },
    }
}

/// The score with the effect of a power-up of the given kind.
pub open spec fn rewarded(score: u32, round: u16, kind: PlayerPowerUp, config: Config) -> u32 {
    match kind {
        PlayerPowerUp::Score => score_with_bonus(score, round, config.player_powerup_score),
        _ => score,
    }
}

/// Time a power-up lingers once it is used: three quarters of a step of
/// the player.
pub open spec fn linger(speed: u64) -> u64 {
    (speed * 3 / 4) as u64
}

/// A cell after its power-up has waited for `delta` more milliseconds;
/// `stood_on` says whether the player stands on the cell. A power-up that
/// the player reaches is used and lingers for `linger` milliseconds; one
/// whose time is up frees the cell.
pub open spec fn powerup_cell(cell: Cell, stood_on: bool, delta: u64, linger: u64) -> Cell {
    match cell.payload {
        Payload::PowerUp(powerup) => if !powerup.used && stood_on {
            Cell {
                payload: Payload::PowerUp(
                    PowerUpComponent {
                        timer: Timer::fresh(linger, false),
                        used: true,
                        ..powerup
                    },
                ),
                ..cell
            }
        } else if powerup.timer.ticked(delta).finished {
            Cell { payload: Payload::Empty, ..cell }
        } else {
            Cell {
                payload: Payload::PowerUp(
                    PowerUpComponent { timer: powerup.timer.ticked(delta), ..powerup },
                ),
                ..cell
            }
        },
        _ => cell,
    }
}

/// The run after the power-ups have waited for `delta` more milliseconds.
/// Nothing happens unless the game is played.
pub open spec fn player_powerups_spec(g: GameView, delta: u64) -> GameView {
    if g.state == GameState::Play {
        let at = cell_index(g.player.x as int, g.player.y as int);
        let cells = Seq::new(
            BOARD_CELLS as nat,
            |i: int| powerup_cell(g.cells[i], i == at, delta, linger(g.player.speed)),
        );
        match picked_up(g) {
            Some(kind) => GameView {
                cells,
                player: empowered(g.player, kind, g.config),
                score: rewarded(g.score, g.round, kind, g.config),
                game_events: g.game_events.push(GameEvents::PlayerBonus),
                ..g
            },
            None => GameView { cells, ..g },
        }
    } else {
        g
    }
}

/// `percent` hundredths of `value`.
pub fn scale(value: u64, percent: u64) -> (result: u64)
    ensures
        result == scaled(value, percent),
{
    assert(value * percent <= 0xffff_ffff_ffff_ffff * 0xffff_ffff_ffff_ffff) by (nonlinear_arith)
        requires
            value <= 0xffff_ffff_ffff_ffff,
            percent <= 0xffff_ffff_ffff_ffff,
    ;
    let product: u128 = (value as u128) * (percent as u128) / 100;
    if product > u64::MAX as u128 {
        u64::MAX
    } else {
        product as u64
    }
}

/// Grants the effect of a power-up of the given kind to the player.
pub fn apply_powerup(game: &mut Game, kind: PlayerPowerUp)
    requires
        old(game).wf(),
    ensures
        final(game).wf(),
        final(game)@ == (GameView {
            player: empowered(old(game)@.player, kind, old(game)@.config),
            score: rewarded(old(game)@.score, old(game)@.round, kind, old(game)@.config),
            ..old(game)@
        }),
{
    match kind {
        PlayerPowerUp::Score => {
            assert(game.round * game.config.player_powerup_score <= 0xffff * 0xffff_ffff)
                by (nonlinear_arith)
                requires
                    game.round <= 0xffff,
                    game.config.player_powerup_score <= 0xffff_ffff,
            ;
            let bonus: u64 = (game.round as u64) * (game.config.player_powerup_score as u64);
            let total: u64 = game.score as u64 + bonus;
            game.score = if total > u32::MAX as u64 {
                u32::MAX
            } else {
                total as u32
            };
        },
        PlayerPowerUp::BombCount => {
            game.player.nb_bombs = game.player.nb_bombs.saturating_add(
                game.config.player_powerup_bomb_count,
            );
        },
        PlayerPowerUp::BombDamage => {
            game.player.bomb_damage = game.player.bomb_damage.saturating_add(
                game.config.player_powerup_bomb_damage,
            );
        },
        PlayerPowerUp::BombRange => {
            game.player.bomb_range = game.player.bomb_range.saturating_add(
                game.config.player_powerup_bomb_range,
            );
        },
        PlayerPowerUp::BombSpeed => {
            game.player.bomb_speed = scale(
                game.player.bomb_speed,
                game.config.player_powerup_bomb_speed,
            );
        },
    }
}

/// Lets every power-up wait for `delta` more milliseconds while the game
/// is played. The unused power-up under the player is granted, once, and
/// marked used; it then lingers for a short while. A power-up whose time is
/// up frees its cell.
pub fn player_powerups(game: &mut Game, delta: u64)
    requires
        old(game).wf(),
    ensures
        final(game).wf(),
        final(game)@ == player_powerups_spec(old(game)@, delta),
{
    if game.state != GameState::Play {
        return ;
    }
    let at: usize = game.player.y * BOARD_X + game.player.x;
    let grace: u64 = ((game.player.speed as u128) * 3 / 4) as u64;
    let mut i: usize = 0;
    while i < BOARD_CELLS
        invariant
            i <= BOARD_CELLS,
            old(game).wf(),
            game.wf(),
            at == cell_index(old(game)@.player.x as int, old(game)@.player.y as int),
            grace == linger(old(game)@.player.speed),
            at < i && picked_up(old(game)@) is Some ==> game@ == (GameView {
                cells: game@.cells,
                player: empowered(
                    old(game)@.player,
                    picked_up(old(game)@)->Some_0,
                    old(game)@.config,
                ),
                score: rewarded(
                    old(game)@.score,
                    old(game)@.round,
                    picked_up(old(game)@)->Some_0,
                    old(game)@.config,
                ),
                game_events: old(game)@.game_events.push(GameEvents::PlayerBonus),
                ..old(game)@
            }),
            !(at < i && picked_up(old(game)@) is Some) ==> game@ == (GameView {
                cells: game@.cells,
                ..old(game)@
            }),
            forall|k: int|
                0 <= k < i ==> #[trigger] game@.cells[k] == powerup_cell(
                    old(game)@.cells[k],
                    k == at,
                    delta,
                    grace,
                ),
            forall|k: int| i <= k < BOARD_CELLS ==> #[trigger] game@.cells[k] == old(game)@.cells[k],
        decreases BOARD_CELLS - i,
    {
        let cell = game.board.cells[i];
        match cell.payload {
            Payload::PowerUp(powerup) => {
                let mut timer = powerup.timer;
                timer.tick(delta);
                if !powerup.used && i == at {
                    apply_powerup(game, powerup.powerup);
                    game.game_events.push(GameEvents::PlayerBonus);
                    game.board.cells[i] = Cell {
                        payload: Payload::PowerUp(
                            PowerUpComponent {
                                timer: Timer::new(grace, false),
                                powerup: powerup.powerup,
                                used: true,
                            },
                        ),
                        fire: cell.fire,
                        indication: cell.indication,
                    };
                } else if timer.finished {
                    game.board.cells[i] = Cell {
                        payload: Payload::Empty,
                        fire: cell.fire,
                        indication: cell.indication,
                    };
                } else {
                    game.board.cells[i] = Cell {
                        payload: Payload::PowerUp(
                            PowerUpComponent { timer, powerup: powerup.powerup, used: powerup.used },
                        ),
                        fire: cell.fire,
                        indication: cell.indication,
                    };
                }
            },
            _ => {},
        }
        i += 1;
    }
    assert(game@.cells =~= player_powerups_spec(old(game)@, delta).cells);
}

/// An obstacle right of a bomb stops the blast: the obstacle's cell burns,
/// the cell behind it does not, however far the blast would go. The arm
/// that runs the other way is the same as if the obstacle were not there.
pub proof fn lemma_blast_blocked(cells: Seq<Cell>, x: int, y: int, range: int, k: int)
    requires
        cells.len() == BOARD_CELLS,
        in_board(x, y),
        in_board(x + 1, y),
        range >= 1,
        !obstacle_at(cells, x, y),
        obstacle_at(cells, x + 1, y),
        k >= 0,
    ensures
        blast_reaches(cells, x, y, range, x + 1, y),
        !blast_reaches(cells, x, y, range, x + 2, y),
        blast_reaches(cells, x, y, range, x - k, y) == blast_reaches(
            cells.update(
                cell_index(x + 1, y),
                Cell { payload: Payload::Empty, ..cell_at(cells, x + 1, y) },
            ),
            x,
            y,
            range,
            x - k,
            y,
        ),
{
    let freed = cells.update(
        cell_index(x + 1, y),
        Cell { payload: Payload::Empty, ..cell_at(cells, x + 1, y) },
    );
    assert(arm_reaches(cells, MoveDirection::Right, x, y, range, 1)) by {
        assert forall|j: int| 0 <= j < 1 implies !#[trigger] arm_blocked(
            cells,
            MoveDirection::Right,
            x,
            y,
            j,
        ) by {}
    }
    assert(!arm_reaches(cells, MoveDirection::Right, x, y, range, 2)) by {
        assert(arm_blocked(cells, MoveDirection::Right, x, y, 1));
    }
    if k > 0 {
        assert(arm_reaches(cells, MoveDirection::Left, x, y, range, k) == arm_reaches(
            freed,
            MoveDirection::Left,
            x,
            y,
            range,
            k,
        )) by {
            if 0 <= k <= range && in_board(x - k, y) {
                assert forall|j: int| 0 <= j < k implies arm_blocked(
                    cells,
                    MoveDirection::Left,
                    x,
                    y,
                    j,
                ) == arm_blocked(freed, MoveDirection::Left, x, y, j) by {
                    assert(cell_index(x - j, y) != cell_index(x + 1, y));
                }
            }
        }
    } else {
        assert(arm_reaches(cells, MoveDirection::Left, x, y, range, 0));
        assert(arm_reaches(freed, MoveDirection::Left, x, y, range, 0));
    }
}

/// A bomb on a burning cell among the first `n` cells is reported.
proof fn lemma_chain_reported(cells: Seq<Cell>, i: int, n: int)
    requires
        0 <= i < n,
        cells[i].payload is Bomb,
        cells[i].fire is Some,
    ensures
        chain_events(cells, n).contains(InterestingEvent::BombChainDetonated),
    decreases n,
{
    let last: Seq<InterestingEvent> = if cells[n - 1].payload is Bomb && cells[n - 1].fire is Some {
        seq![InterestingEvent::BombChainDetonated]
    } else {
        Seq::empty()
    };
    if i == n - 1 {
        let earlier = chain_events(cells, n - 1);
        assert((earlier + last)[earlier.len() as int] == InterestingEvent::BombChainDetonated);
    } else {
        lemma_chain_reported(cells, i, n - 1);
        let earlier = chain_events(cells, n - 1);
        let at = choose|at: int|
            0 <= at < earlier.len() && earlier[at] == InterestingEvent::BombChainDetonated;
        assert((earlier + last)[at] == InterestingEvent::BombChainDetonated);
    }
}

/// The cell at position `i` burns once the bombs among the first `n` cells
/// have exploded, if one of them explodes and reaches it.
proof fn lemma_ignited(cells: Seq<Cell>, delta: u64, lifetime: u64, j: int, i: int, n: int)
    requires
        0 <= j < n,
        ignites(cells, delta, j, i),
    ensures
        flashed_fire(cells, delta, lifetime, i, n) is Some,
    decreases n,
{
    if !ignites(cells, delta, n - 1, i) {
        lemma_ignited(cells, delta, lifetime, j, i, n - 1);
    }
}

/// A bomb next to an exploding bomb goes off in a chain. When the bomb in
/// column `x` explodes with a range of one or more, the bomb right of it
/// either explodes in the same call, or is left on a burning cell; any
/// further call then explodes it, whatever its fuse, and reports a chain
/// detonation.
pub proof fn lemma_chain_detonation(g: GameView, x: int, y: int, delta: u64, next: u64)
    requires
        g.wf(),
        g.state == GameState::Play,
        in_board(x, y),
        in_board(x + 1, y),
        bomb_explodes(cell_at(g.cells, x, y), delta),
        bomb_on(g.cells, cell_index(x, y)).range >= 1,
        cell_at(g.cells, x + 1, y).payload is Bomb,
    ensures
        ({
            let first = flash_bombs_spec(g, delta);
            let second = flash_bombs_spec(first, next);
            &&& first.wf()
            &&& cell_at(first.cells, x + 1, y).payload is Empty || (cell_at(
                first.cells,
                x + 1,
                y,
            ).payload is Bomb && cell_at(first.cells, x + 1, y).fire is Some)
            &&& cell_at(second.cells, x + 1, y).payload is Empty
            &&& cell_at(first.cells, x + 1, y).payload is Bomb ==> second.interesting_events
                == first.interesting_events + chain_events(first.cells, BOARD_CELLS as int)
                && chain_events(first.cells, BOARD_CELLS as int).contains(
                InterestingEvent::BombChainDetonated,
            )
        }),
{
    let first = flash_bombs_spec(g, delta);
    let j = cell_index(x, y);
    let i = cell_index(x + 1, y);
    let bomb = bomb_on(g.cells, j);
    assert(cell_wf(g.cells[j], j));
    assert(bomb.x == x && bomb.y == y);
    assert(arm_reaches(g.cells, MoveDirection::Right, x, y, bomb.range as int, 1)) by {
        assert forall|m: int| 0 <= m < 1 implies !#[trigger] arm_blocked(
            g.cells,
            MoveDirection::Right,
            x,
            y,
            m,
        ) by {}
    }
    assert(cell_x(i) == x + 1 && cell_y(i) == y);
    assert(ignites(g.cells, delta, j, i));
    lemma_ignited(g.cells, delta, g.config.player_bomb_fire_timer, j, i, BOARD_CELLS as int);
    lemma_flash_keeps_wf(g, delta);
    if first.cells[i].payload is Bomb {
        lemma_chain_reported(first.cells, i, BOARD_CELLS as int);
    }
}

/// A fire on a bomb never goes out, and leaves the bomb as it is.
pub proof fn lemma_fire_waits_for_bomb(cell: Cell, delta: u64)
    requires
        cell.fire is Some,
        cell.payload is Bomb,
    ensures
        fire_cell(cell, delta).fire is Some,
        fire_cell(cell, delta).payload == cell.payload,
{
}

/// The chain holds through the fire of the same tick, however long the
/// tick. When the bomb in column `x` explodes and the fires then burn for
/// the span of the tick, the bomb right of it has exploded or lies on a
/// burning cell, and the next time the bombs are advanced it explodes and
/// is reported.
pub proof fn lemma_chain_through_fire(g: GameView, x: int, y: int, delta: u64, next: u64)
    requires
        g.wf(),
        g.state == GameState::Play,
        in_board(x, y),
        in_board(x + 1, y),
        bomb_explodes(cell_at(g.cells, x, y), delta),
        bomb_on(g.cells, cell_index(x, y)).range >= 1,
        cell_at(g.cells, x + 1, y).payload is Bomb,
    ensures
        ({
            let first = fire_spec(flash_bombs_spec(g, delta), delta);
            let second = flash_bombs_spec(first, next);
            &&& cell_at(first.cells, x + 1, y).payload is Empty || (cell_at(
                first.cells,
                x + 1,
                y,
            ).payload is Bomb && cell_at(first.cells, x + 1, y).fire is Some)
            &&& cell_at(second.cells, x + 1, y).payload is Empty
            &&& cell_at(first.cells, x + 1, y).payload is Bomb ==> second.interesting_events
                == first.interesting_events + chain_events(first.cells, BOARD_CELLS as int)
                && chain_events(first.cells, BOARD_CELLS as int).contains(
                InterestingEvent::BombChainDetonated,
            )
        }),
{
    lemma_chain_detonation(g, x, y, delta, next);
    let flashed = flash_bombs_spec(g, delta);
    let first = fire_spec(flashed, delta);
    let i = cell_index(x + 1, y);
    assert(first.cells[i] == fire_cell(flashed.cells[i], delta));
    if flashed.cells[i].payload is Bomb {
        lemma_fire_waits_for_bomb(flashed.cells[i], delta);
        lemma_chain_reported(first.cells, i, BOARD_CELLS as int);
    }
}

/// The fire on a cell has the damage of the bomb that lit it last. When
/// the bomb at position `j` explodes and reaches the cell at position `i`,
/// and no bomb after it in the order of the cells does, the cell burns with
/// that bomb's damage, from the player, at the start of the fire's time.
pub proof fn lemma_fire_of_last_bomb(
    cells: Seq<Cell>,
    delta: u64,
    lifetime: u64,
    j: int,
    i: int,
    n: int,
)
    requires
        0 <= j < n,
        ignites(cells, delta, j, i),
        forall|m: int| j < m < n ==> !#[trigger] ignites(cells, delta, m, i),
    ensures
        igniter(cells, delta, i, n) == Some(j),
        flashed_fire(cells, delta, lifetime, i, n) == Some(
            bomb_fire(bomb_on(cells, j).damage, lifetime, i),
        ),
    decreases n,
{
    if j < n - 1 {
        assert(!ignites(cells, delta, n - 1, i));
        lemma_fire_of_last_bomb(cells, delta, lifetime, j, i, n - 1);
    }
}

/// Advancing the bombs keeps a run sound.
pub proof fn lemma_flash_keeps_wf(g: GameView, delta: u64)
    requires
        g.wf(),
    ensures
        flash_bombs_spec(g, delta).wf(),
{
    if g.state == GameState::Play {
        let after = flash_bombs_spec(g, delta);
        assert forall|i: int| 0 <= i < after.cells.len() implies cell_wf(
            #[trigger] after.cells[i],
            i,
        ) by {
            assert(cell_wf(g.cells[i], i));
        }
    }
}

/// The run after the power-ups have waited `n` times, for the first `n`
/// of the spans `deltas`.
pub open spec fn powerups_waited(g: GameView, deltas: Seq<u64>, n: int) -> GameView
    decreases n,
{
    if n <= 0 {
        g
    } else {
        player_powerups_spec(powerups_waited(g, deltas, n - 1), deltas[n - 1])
    }
}

/// A power-up is granted exactly once. Once the power-ups have waited
/// one tick with the player in place, none under the player is left to pick
/// up, and however many more ticks they wait, the player's stats, the score
/// and the events raised stay what they were after the first.
pub proof fn lemma_powerup_granted_once(g: GameView, deltas: Seq<u64>, n: int)
    requires
        g.wf(),
        g.state == GameState::Play,
        1 <= n <= deltas.len(),
    ensures
        picked_up(powerups_waited(g, deltas, n)) is None,
        powerups_waited(g, deltas, n).player == powerups_waited(g, deltas, 1).player,
        powerups_waited(g, deltas, n).score == powerups_waited(g, deltas, 1).score,
        powerups_waited(g, deltas, n).game_events == powerups_waited(g, deltas, 1).game_events,
        powerups_waited(g, deltas, n).state == GameState::Play,
        powerups_waited(g, deltas, n).player.x == g.player.x,
        powerups_waited(g, deltas, n).player.y == g.player.y,
        powerups_waited(g, deltas, n).cells.len() == BOARD_CELLS,
    decreases n,
{
    reveal_with_fuel(powerups_waited, 2);
    if n == 1 {
        assert(powerups_waited(g, deltas, 0) == g);
        match picked_up(g) {
            Some(kind) => {},
            None => {},
        }
    } else {
        lemma_powerup_granted_once(g, deltas, n - 1);
    }
}

/// Once the bombs have been advanced, none is left marked as exploded:
/// every bomb on the board waits on its fuse or flashes.
pub proof fn lemma_no_exploded_bomb_left(g: GameView, delta: u64, i: int)
    requires
        g.wf(),
        g.state == GameState::Play,
        0 <= i < BOARD_CELLS,
    ensures
        flash_bombs_spec(g, delta).cells[i].payload matches Payload::Bomb(bomb) ==> bomb.state
            != BombState::Exploded,
{
}

} // verus!
