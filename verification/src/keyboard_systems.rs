//! What the player asks for, and how a step is resolved against the board.

use vstd::prelude::*;
use crate::board::{
    BombComponent, BombState, Cell, Payload, bombs_in, cell_at, cell_index, count_bombs,
    obstacle_at, BOARD_CELLS, BOARD_X, BOARD_Y,
};
use crate::game::{FacingDirection, Game, GameEvents, GameState, GameView, InterestingEvent,
    Player, PlayerComponent, PlayerMoving};
use crate::timer::Timer;

verus! {

/// A direction the player asks to step in.
#[derive(Clone, Copy, Debug, PartialEq, Eq, Structural)]
pub enum MoveDirection {
    Up,
    Down,
    Left,
    Right,
}

/// A request of the player.
#[derive(Clone, Copy, Debug, PartialEq, Eq, Structural)]
pub enum PlayerAction {
    PoseBomb,
    Move(MoveDirection),
}

/// The side on which a refused step bumps.
#[derive(Clone, Copy, Debug, PartialEq, Eq, Structural)]
pub enum BumpDirection {
    Top,
    Bottom,
    Left,
    Right,
}

/// A key of the keyboard that the game knows.
#[derive(Clone, Copy, Debug, PartialEq, Eq, Structural)]
pub enum KeyCode {
    Left,
    Right,
    Up,
    Down,
    Space,
    P,
    Escape,
}

/// Whether a key went down or up.
#[derive(Clone, Copy, Debug, PartialEq, Eq, Structural)]
pub enum ElementState {
    Pressed,
    Released,
}

/// A key going down or up; `key_code` is `None` for a key the game does not
/// know.
#[derive(Clone, Copy, Debug, PartialEq, Eq, Structural)]
pub struct KeyboardInput {
    pub key_code: Option<KeyCode>,
    pub state: ElementState,
}

/// Which of the arrow keys are held down.
#[derive(Clone, Copy, Debug, PartialEq, Eq, Structural)]
pub struct KeyboardState {
    pub left: bool,
    pub right: bool,
    pub up: bool,
    pub down: bool,
}

/// What becomes of a step: a walk to the next cell, a jump to the far column,
/// or a bump that leaves the player in place.
#[derive(Clone, Copy, Debug, PartialEq, Eq, Structural)]
pub enum MoveToDo {
    Move(MoveDirection, usize, usize),
    Teleport(usize, usize),
    Bump(BumpDirection),
}

/// The change of column and row of one step.
pub open spec fn step_of(direction: MoveDirection) -> (int, int) {
    match direction {
        MoveDirection::Left => (-1, 0),
        MoveDirection::Right => (1, 0),
        MoveDirection::Up => (0, 1),
        MoveDirection::Down => (0, -1),
    }
}

/// The side a step in `direction` bumps on.
pub open spec fn bump_of(direction: MoveDirection) -> BumpDirection {
    match direction {
        MoveDirection::Left => BumpDirection::Left,
        MoveDirection::Right => BumpDirection::Right,
        MoveDirection::Up => BumpDirection::Top,
        MoveDirection::Down => BumpDirection::Bottom,
    }
}

/// How a step from `(x, y)` in `direction` is resolved on a grid. Columns
/// wrap around, rows do not. A step off the top or bottom, or onto an
/// obstacle, is a bump; a step across the side edge is a teleport.
pub open spec fn resolve_move(cells: Seq<Cell>, x: int, y: int, direction: MoveDirection)
    -> MoveToDo {
    let (dx, dy) = step_of(direction);
    let tx = (x + dx) % (BOARD_X as int);
    let ty = y + dy;
    if !(0 <= ty < BOARD_Y) || obstacle_at(cells, tx, ty) {
        MoveToDo::Bump(bump_of(direction))
    } else if tx != x + dx {
        MoveToDo::Teleport(tx as usize, ty as usize)
    } else {
        MoveToDo::Move(direction, tx as usize, ty as usize)
    }
}

/// Where a resolved step leaves a player who stood on `(x, y)`.
pub open spec fn landing(outcome: MoveToDo, x: usize, y: usize) -> (usize, usize) {
    match outcome {
        MoveToDo::Move(_, tx, ty) => (tx, ty),
        MoveToDo::Teleport(tx, ty) => (tx, ty),
        MoveToDo::Bump(_) => (x, y),
    }
}

/// Which way the player looks after asking for a step: a step to the side
/// turns them, even when it ends in a bump; a step up or down does not.
pub open spec fn facing_after(facing: FacingDirection, direction: MoveDirection)
    -> FacingDirection {
    match direction {
        MoveDirection::Left => FacingDirection::Left,
        MoveDirection::Right => FacingDirection::Right,
        _ => facing,
    }
}

/// Time the next step takes: the player's speed and what was left of the
/// step before it, capped at the largest duration.
pub open spec fn move_delay(speed: u64, previous: Option<Timer>) -> u64 {
    let left = match previous {
        Some(timer) => timer.remaining_spec(),
        None => 0,
    };
    if speed + left > u64::MAX {
        u64::MAX
    } else {
        (speed + left) as u64
    }
}

/// Share of a step during which further steps are dropped: seven tenths.
pub open spec fn buffer_delay(delay: u64) -> u64 {
    (delay * 7 / 10) as u64
}

/// The bomb a player lays on the cell they stand on.
pub open spec fn bomb_of(player: Player) -> BombComponent {
    BombComponent {
        damage: player.bomb_damage,
        range: player.bomb_range,
        state: BombState::Fuse,
        x: player.x,
        y: player.y,
        timer: Timer::fresh(player.bomb_speed / 2, false),
    }
}

/// Whether a bomb can be laid now: the player's cell is empty and fewer
/// bombs lie on the board than the player may have out.
pub open spec fn can_pose_bomb(g: GameView) -> bool {
    &&& cell_at(g.cells, g.player.x as int, g.player.y as int).payload is Empty
    &&& count_bombs(g.cells) < g.player.nb_bombs
}

/// The run after a request to lay a bomb. A request that cannot be met is
/// dropped and changes nothing.
pub open spec fn bomb_posed(g: GameView) -> GameView {
    if can_pose_bomb(g) {
        let at = cell_index(g.player.x as int, g.player.y as int);
        GameView {
            cells: g.cells.update(
                at,
                Cell { payload: Payload::Bomb(bomb_of(g.player)), ..g.cells[at] },
            ),
            interesting_events: g.interesting_events.push(InterestingEvent::BombPlaced),
            ..g
        }
    } else {
        g
    }
}

/// The run after a request to step. While the pause of an earlier step
/// lasts the request is dropped. Otherwise the step is resolved, the player
/// turns and lands, and the pause starts anew, also after a bump.
pub open spec fn step_taken(g: GameView, direction: MoveDirection) -> GameView {
    if g.moving is Some {
        g
    } else {
        let outcome = resolve_move(g.cells, g.player.x as int, g.player.y as int, direction);
        let (x, y) = landing(outcome, g.player.x, g.player.y);
        let delay = move_delay(g.player.speed, g.move_timer);
        GameView {
            player: Player {
                x,
                y,
                direction: facing_after(g.player.direction, direction),
                ..g.player
            },
            move_timer: Some(Timer::fresh(delay, false)),
            moving: Some(Timer::fresh(buffer_delay(delay), false)),
            time_since_move: Some(0),
            ..g
        }
    }
}

/// The run after one request of the player.
pub open spec fn act(g: GameView, action: PlayerAction) -> GameView {
    match action {
        PlayerAction::PoseBomb => bomb_posed(g),
        PlayerAction::Move(direction) => step_taken(g, direction),
    }
}

/// The run after the first `n` of `actions`, taken in order.
pub open spec fn acted(g: GameView, actions: Seq<PlayerAction>, n: int) -> GameView
    decreases n,
{
    if n <= 0 {
        g
    } else {
        act(acted(g, actions, n - 1), actions[n - 1])
    }
}

/// The run after the queued requests are served: while the game is played
/// each is applied in order, otherwise all are dropped. The queue is empty
/// afterwards either way.
pub open spec fn player_command_spec(g: GameView) -> GameView {
    if g.state == GameState::Play {
        GameView {
            player_actions: Seq::empty(),
            ..acted(g, g.player_actions, g.player_actions.len() as int)
        }
    } else {
        GameView { player_actions: Seq::empty(), ..g }
    }
}

/// The requests that held arrow keys stand for: left, right, up, down, in
/// that order.
pub open spec fn held_moves(keys: KeyboardState) -> Seq<PlayerAction> {
    (if keys.left {
        seq![PlayerAction::Move(MoveDirection::Left)]
    } else {
        Seq::empty()
    }) + (if keys.right {
        seq![PlayerAction::Move(MoveDirection::Right)]
    } else {
        Seq::empty()
    }) + (if keys.up {
        seq![PlayerAction::Move(MoveDirection::Up)]
    } else {
        Seq::empty()
    }) + (if keys.down {
        seq![PlayerAction::Move(MoveDirection::Down)]
    } else {
        Seq::empty()
    })
}

/// The run after the held arrow keys are read: while the game is played
/// each stands for a request to step, otherwise they are ignored.
pub open spec fn keyboard_input_spec(g: GameView, keys: KeyboardState) -> GameView {
    if g.state == GameState::Play {
        GameView { player_actions: g.player_actions + held_moves(keys), ..g }
    } else {
        g
    }
}

/// Whether a key event asks to pause or to resume.
pub open spec fn is_pause_key(event: KeyboardInput) -> bool {
    event.state == ElementState::Pressed && (event.key_code == Some(KeyCode::P) || event.key_code
        == Some(KeyCode::Escape))
}

/// Whether a key event asks for a bomb.
pub open spec fn is_bomb_key(event: KeyboardInput) -> bool {
    event.state == ElementState::Pressed && event.key_code == Some(KeyCode::Space)
}

/// The run after one key event. The pause keys resume a paused game at
/// once and ask a played game to pause; after the player's death they do
/// nothing. The bomb key asks for a bomb while the game is played and the
/// player has one left.
pub open spec fn key_handled(g: GameView, event: KeyboardInput) -> GameView {
    if is_pause_key(event) {
        match g.state {
            GameState::Pause => GameView { state: GameState::Play, ..g },
            GameState::Play => GameView { game_events: g.game_events.push(GameEvents::Pause), ..g },
            GameState::Death => g,
        }
    } else if g.state == GameState::Play && is_bomb_key(event) && count_bombs(g.cells)
        < g.player.nb_bombs {
        GameView { player_actions: g.player_actions.push(PlayerAction::PoseBomb), ..g }
    } else {
        g
    }
}

/// The run after the first `n` of `events`, taken in order.
pub open spec fn keys_handled(g: GameView, events: Seq<KeyboardInput>, n: int) -> GameView
    decreases n,
{
    if n <= 0 {
        g
    } else {
        key_handled(keys_handled(g, events, n - 1), events[n - 1])
    }
}

/// A span of time after `delta` more milliseconds, capped at the longest
/// span.
pub open spec fn later(span: u64, delta: u64) -> u64 {
    if span + delta > u64::MAX {
        u64::MAX
    } else {
        (span + delta) as u64
    }
}

/// The run after a span of time for the player's step timer and for the
/// time since their last step.
pub open spec fn move_timer_ticked(g: GameView, delta: u64) -> GameView {
    GameView {
        move_timer: match g.move_timer {
            Some(timer) => Some(timer.ticked(delta)),
            None => None,
        },
        time_since_move: match g.time_since_move {
            Some(span) => Some(later(span, delta)),
            None => None,
        },
        ..g
    }
}

/// The run after a span of time for the pause that follows a step: the
/// pause ends once its time is up.
pub open spec fn moving_marker_ticked(g: GameView, delta: u64) -> GameView {
    GameView {
        moving: match g.moving {
            Some(timer) => if timer.ticked(delta).finished {
                None
            } else {
                Some(timer.ticked(delta))
            },
            None => None,
        },
        ..g
    }
}

/// Turns the arrow keys that are held into requests to step.
pub fn keyboard_input_system(game: &mut Game, keys: KeyboardState)
    requires
        old(game).wf(),
    ensures
        final(game).wf(),
        final(game)@ == keyboard_input_spec(old(game)@, keys),
{
    if game.state == GameState::Play {
        if keys.left {
            game.player_actions.push(PlayerAction::Move(MoveDirection::Left));
        }
        if keys.right {
            game.player_actions.push(PlayerAction::Move(MoveDirection::Right));
        }
        if keys.up {
            game.player_actions.push(PlayerAction::Move(MoveDirection::Up));
        }
        if keys.down {
            game.player_actions.push(PlayerAction::Move(MoveDirection::Down));
        }
        assert(game@.player_actions =~= old(game)@.player_actions + held_moves(keys));
    }
}

/// Handles one key event.
pub fn handle_key(game: &mut Game, event: KeyboardInput)
    requires
        old(game).wf(),
    ensures
        final(game).wf(),
        final(game)@ == key_handled(old(game)@, event),
{
    let pressed = event.state == ElementState::Pressed;
    if pressed && (event.key_code == Some(KeyCode::P) || event.key_code == Some(
        KeyCode::Escape,
    )) {
        match game.state {
            GameState::Pause => {
                game.state = GameState::Play;
            },
            GameState::Play => {
                game.game_events.push(GameEvents::Pause);
            },
            GameState::Death => {},
        }
    } else if game.state == GameState::Play && pressed && event.key_code == Some(KeyCode::Space) {
        if game.board.count_bombs() < game.player.nb_bombs {
            game.player_actions.push(PlayerAction::PoseBomb);
        }
    }
}

/// Handles the key events of a tick, in order.
pub fn keyboard_event_system(game: &mut Game, events: &Vec<KeyboardInput>)
    requires
        old(game).wf(),
    ensures
        final(game).wf(),
        final(game)@ == keys_handled(old(game)@, events@, events@.len() as int),
{
    let mut i: usize = 0;
    while i < events.len()
        invariant
            i <= events.len(),
            game.wf(),
            game@ == keys_handled(old(game)@, events@, i as int),
        decreases events.len() - i,
    {
        handle_key(game, events[i]);
        i += 1;
    }
}

/// Advances the timer of the player's step and the time since their last
/// step, in every state of the game.
pub fn player_move_timer(game: &mut Game, delta: u64)
    requires
        old(game).wf(),
    ensures
        final(game).wf(),
        final(game)@ == move_timer_ticked(old(game)@, delta),
{
    match game.move_timer.0 {
        Some(mut timer) => {
            timer.tick(delta);
            game.move_timer = PlayerComponent(Some(timer));
        },
        None => {},
    }
    match game.time_since_move {
        Some(span) => {
            game.time_since_move = Some(span.saturating_add(delta));
        },
        None => {},
    }
}

/// Advances the pause that follows a step and ends it when its time is up.
pub fn clear_moving_marker(game: &mut Game, delta: u64)
    requires
        old(game).wf(),
    ensures
        final(game).wf(),
        final(game)@ == moving_marker_ticked(old(game)@, delta),
{
    match game.moving {
        Some(mut moving) => {
            moving.timer.tick(delta);
            if moving.timer.finished {
                game.moving = None;
            } else {
                game.moving = Some(moving);
            }
        },
        None => {},
    }
}

/// Resolves a step of the player in `direction` against the board.
pub fn resolve(game: &Game, direction: MoveDirection) -> (outcome: MoveToDo)
    requires
        game.wf(),
    ensures
        outcome == resolve_move(game@.cells, game.player.x as int, game.player.y as int, direction),
        in_board_after(outcome, game.player.x, game.player.y),
{
    let x = game.player.x;
    let y = game.player.y;
    match direction {
        MoveDirection::Up => {
            if y + 1 >= BOARD_Y || game.board.is_obstacle(x, y + 1) {
                MoveToDo::Bump(BumpDirection::Top)
            } else {
                MoveToDo::Move(direction, x, y + 1)
            }
        },
        MoveDirection::Down => {
            if y == 0 || game.board.is_obstacle(x, y - 1) {
                MoveToDo::Bump(BumpDirection::Bottom)
            } else {
                MoveToDo::Move(direction, x, y - 1)
            }
        },
        MoveDirection::Left => {
            if x == 0 {
                if game.board.is_obstacle(BOARD_X - 1, y) {
                    MoveToDo::Bump(BumpDirection::Left)
                } else {
                    MoveToDo::Teleport(BOARD_X - 1, y)
                }
            } else if game.board.is_obstacle(x - 1, y) {
                MoveToDo::Bump(BumpDirection::Left)
            } else {
                MoveToDo::Move(direction, x - 1, y)
            }
        },
        MoveDirection::Right => {
            if x == BOARD_X - 1 {
                if game.board.is_obstacle(0, y) {
                    MoveToDo::Bump(BumpDirection::Right)
                } else {
                    MoveToDo::Teleport(0, y)
                }
            } else if game.board.is_obstacle(x + 1, y) {
                MoveToDo::Bump(BumpDirection::Right)
            } else {
                MoveToDo::Move(direction, x + 1, y)
            }
        },
    }
}

/// A resolved step lands on the board.
pub open spec fn in_board_after(outcome: MoveToDo, x: usize, y: usize) -> bool {
    landing(outcome, x, y).0 < BOARD_X && landing(outcome, x, y).1 < BOARD_Y
}

/// Time the player's next step takes.
pub fn next_move_delay(speed: u64, previous: &Option<Timer>) -> (delay: u64)
    ensures
        delay == move_delay(speed, *previous),
{
    let left: u64 = match previous {
        Some(timer) => timer.remaining(),
        None => 0,
    };
    if left > u64::MAX - speed {
        u64::MAX
    } else {
        speed + left
    }
}

/// Pause after a step of the given duration.
pub fn next_buffer_delay(delay: u64) -> (buffer: u64)
    ensures
        buffer == buffer_delay(delay),
{
    ((delay as u128) * 7 / 10) as u64
}

/// Lays a bomb on the player's cell if that cell is empty and the player
/// has a bomb left; otherwise nothing changes.
pub fn pose_bomb(game: &mut Game)
    requires
        old(game).wf(),
    ensures
        final(game).wf(),
        final(game)@ == bomb_posed(old(game)@),
{
    let x = game.player.x;
    let y = game.player.y;
    if game.board.count_bombs() < game.player.nb_bombs {
        let bomb = BombComponent {
            damage: game.player.bomb_damage,
            range: game.player.bomb_range,
            state: BombState::Fuse,
            x,
            y,
            timer: Timer::new(game.player.bomb_speed / 2, false),
        };
        if game.board.place(x, y, Payload::Bomb(bomb)) {
            game.interesting_events.push(InterestingEvent::BombPlaced);
            assert(game@.cells =~= bomb_posed(old(game)@).cells);
            assert(game@.interesting_events =~= bomb_posed(old(game)@).interesting_events);
        }
    }
}

/// Takes a step in `direction` unless the pause of an earlier step lasts.
pub fn take_step(game: &mut Game, direction: MoveDirection)
    requires
        old(game).wf(),
    ensures
        final(game).wf(),
        final(game)@ == step_taken(old(game)@, direction),
{
    if game.moving.is_none() {
        let outcome = resolve(game, direction);
        let delay = next_move_delay(game.player.speed, &game.move_timer.0);
        let buffer = next_buffer_delay(delay);
        match direction {
            MoveDirection::Left => {
                game.player.direction = FacingDirection::Left;
            },
            MoveDirection::Right => {
                game.player.direction = FacingDirection::Right;
            },
            _ => {},
        }
        match outcome {
            MoveToDo::Move(_, x, y) => {
                game.player.x = x;
                game.player.y = y;
            },
            MoveToDo::Teleport(x, y) => {
                game.player.x = x;
                game.player.y = y;
            },
            MoveToDo::Bump(_) => {},
        }
        game.move_timer = PlayerComponent(Some(Timer::new(delay, false)));
        game.moving = Some(PlayerMoving { timer: Timer::new(buffer, false) });
        game.time_since_move = Some(0);
    }
}

/// Serves one request of the player.
pub fn perform(game: &mut Game, action: PlayerAction)
    requires
        old(game).wf(),
    ensures
        final(game).wf(),
        final(game)@ == act(old(game)@, action),
{
    match action {
        PlayerAction::PoseBomb => pose_bomb(game),
        PlayerAction::Move(direction) => take_step(game, direction),
    }
}

/// Serves the queued requests of the player, in order, and empties the
/// queue. Requests made while the game is not played are dropped.
pub fn player_command(game: &mut Game)
    requires
        old(game).wf(),
    ensures
        final(game).wf(),
        final(game)@ == player_command_spec(old(game)@),
{
    if game.state == GameState::Play {
        let n = game.player_actions.len();
        let mut i: usize = 0;
        while i < n
            invariant
                i <= n,
                n == old(game)@.player_actions.len(),
                game.wf(),
                game@ == acted(old(game)@, old(game)@.player_actions, i as int),
                game.player_actions@ == old(game)@.player_actions,
            decreases n - i,
        {
            let action = game.player_actions[i];
            perform(game, action);
            i += 1;
        }
    }
    game.player_actions.clear();
}

/// A step to the left from the first column teleports the player to the
/// last column of the same row, unless an obstacle stands there: then the
/// step is a bump and the player stays in place. The same holds to the right
/// from the last column.
pub proof fn lemma_wraparound(g: GameView, direction: MoveDirection)
    requires
        g.wf(),
        g.moving is None,
        direction == MoveDirection::Left && g.player.x == 0 || direction == MoveDirection::Right
            && g.player.x == BOARD_X - 1,
    ensures
        ({
            let far: usize = if direction == MoveDirection::Left {
                (BOARD_X - 1) as usize
            } else {
                0
            };
            let after = step_taken(g, direction);
            &&& after.player.y == g.player.y
            &&& after.cells == g.cells
            &&& obstacle_at(g.cells, far as int, g.player.y as int) ==> after.player.x
                == g.player.x && resolve_move(
                g.cells,
                g.player.x as int,
                g.player.y as int,
                direction,
            ) == MoveToDo::Bump(bump_of(direction))
            &&& !obstacle_at(g.cells, far as int, g.player.y as int) ==> after.player.x == far
                && resolve_move(g.cells, g.player.x as int, g.player.y as int, direction)
                == MoveToDo::Teleport(far, g.player.y)
        }),
{
}

/// A step never ends on an obstacle, never leaves the board, and never
/// changes what the board holds.
pub proof fn lemma_step_stays_clear(g: GameView, direction: MoveDirection)
    requires
        g.wf(),
        !obstacle_at(g.cells, g.player.x as int, g.player.y as int),
    ensures
        step_taken(g, direction).wf(),
        step_taken(g, direction).cells == g.cells,
        !obstacle_at(
            g.cells,
            step_taken(g, direction).player.x as int,
            step_taken(g, direction).player.y as int,
        ),
{
}

/// A bomb asked for on an occupied cell is refused: the run stays exactly
/// as it was.
pub proof fn lemma_bomb_refused_on_occupied(g: GameView)
    requires
        !(cell_at(g.cells, g.player.x as int, g.player.y as int).payload is Empty),
    ensures
        bomb_posed(g) == g,
{
}

/// Serving requests never changes a cell that is occupied: whatever the
/// player asks for, a cell that held something holds the same afterwards.
pub proof fn lemma_actions_keep_occupied(g: GameView, actions: Seq<PlayerAction>, n: int, i: int)
    requires
        g.wf(),
        0 <= n <= actions.len(),
        0 <= i < BOARD_CELLS,
        !(g.cells[i].payload is Empty),
    ensures
        acted(g, actions, n).wf(),
        acted(g, actions, n).cells[i] == g.cells[i],
    decreases n,
{
    if n > 0 {
        lemma_actions_keep_occupied(g, actions, n - 1, i);
        let before = acted(g, actions, n - 1);
        match actions[n - 1] {
            PlayerAction::PoseBomb => {
                assert(before.cells[i] == g.cells[i]);
            },
            PlayerAction::Move(direction) => {},
        }
    }
}

/// Key events touch nothing but the state of the game and its queues.
pub proof fn lemma_keys_keep_board(g: GameView, events: Seq<KeyboardInput>, n: int)
    ensures
        keys_handled(g, events, n).cells == g.cells,
        keys_handled(g, events, n).player == g.player,
        keys_handled(g, events, n).laser == g.laser,
        keys_handled(g, events, n).config == g.config,
        keys_handled(g, events, n).round == g.round,
        keys_handled(g, events, n).score == g.score,
    decreases n,
{
    if n > 0 {
        lemma_keys_keep_board(g, events, n - 1);
    }
}

/// Requests of the player touch neither the laser nor the round, the
/// score, the state of the game or its configuration.
pub proof fn lemma_actions_keep_round(g: GameView, actions: Seq<PlayerAction>, n: int)
    ensures
        acted(g, actions, n).laser == g.laser,
        acted(g, actions, n).config == g.config,
        acted(g, actions, n).round == g.round,
        acted(g, actions, n).score == g.score,
        acted(g, actions, n).state == g.state,
        acted(g, actions, n).game_events == g.game_events,
    decreases n,
{
    if n > 0 {
        lemma_actions_keep_round(g, actions, n - 1);
    }
}

/// Putting a bomb on a cell that held none adds one to the bombs among
/// the first `n` cells if the cell is among them, and nothing otherwise.
proof fn lemma_bomb_counted(cells: Seq<Cell>, at: int, bomb: BombComponent, n: int)
    requires
        0 <= at < cells.len(),
        0 <= n <= cells.len(),
        !(cells[at].payload is Bomb),
    ensures
        bombs_in(cells.update(at, Cell { payload: Payload::Bomb(bomb), ..cells[at] }), n)
            == bombs_in(cells, n) + if at < n {
            1nat
        } else {
            0nat
        },
    decreases n,
{
    if n > 0 {
        lemma_bomb_counted(cells, at, bomb, n - 1);
    }
}

/// The player never has more bombs out than they may: if no more bombs lie
/// on the board than the player may have out, that is still so after a
/// request to lay one, and a bomb that is laid is one more on the board.
pub proof fn lemma_allotment_kept(g: GameView)
    requires
        g.wf(),
        count_bombs(g.cells) <= g.player.nb_bombs,
    ensures
        count_bombs(bomb_posed(g).cells) <= g.player.nb_bombs,
        count_bombs(bomb_posed(g).cells) == count_bombs(g.cells) + if can_pose_bomb(g) {
            1nat
        } else {
            0nat
        },
{
    if can_pose_bomb(g) {
        let at = cell_index(g.player.x as int, g.player.y as int);
        lemma_bomb_counted(g.cells, at, bomb_of(g.player), g.cells.len() as int);
    }
}

} // verus!
