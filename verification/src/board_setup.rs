//! The arrows that mark the teleporting columns at the start of a run.

use vstd::prelude::*;
use crate::board::{Cell, TeleportIndicationComponent, BOARD_CELLS};
use crate::game::{Game, GameView};

verus! {

/// A cell after its arrow has been shown for `delta` more milliseconds: an
/// arrow whose time is up is taken away.
pub open spec fn indication_cell(cell: Cell, delta: u64) -> Cell {
    match cell.indication {
        Some(indication) => if indication.timer.ticked(delta).finished {
            Cell { indication: None, ..cell }
        } else {
            Cell {
                indication: Some(
                    TeleportIndicationComponent { timer: indication.timer.ticked(delta) },
                ),
                ..cell
            }
        },
        None => cell,
    }
}

/// The run after the arrows have been shown for `delta` more milliseconds.
pub open spec fn remove_indications_spec(g: GameView, delta: u64) -> GameView {
    GameView {
        cells: Seq::new(BOARD_CELLS as nat, |i: int| indication_cell(g.cells[i], delta)),
        ..g
    }
}

/// Advances the teleport arrows by `delta` milliseconds and takes away
/// those whose time is up, in every state of the game.
pub fn remove_indications(game: &mut Game, delta: u64)
    requires
        old(game).wf(),
    ensures
        final(game).wf(),
        final(game)@ == remove_indications_spec(old(game)@, delta),
{
    let mut i: usize = 0;
    while i < BOARD_CELLS
        invariant
            i <= BOARD_CELLS,
            old(game).wf(),
            game.wf(),
            game@ == (GameView { cells: game@.cells, ..old(game)@ }),
            forall|k: int|
                0 <= k < i ==> #[trigger] game@.cells[k] == indication_cell(
                    old(game)@.cells[k],
                    delta,
                ),
            forall|k: int| i <= k < BOARD_CELLS ==> #[trigger] game@.cells[k] == old(game)@.cells[k],
        decreases BOARD_CELLS - i,
    {
        let cell = game.board.cells[i];
        match cell.indication {
            Some(indication) => {
                let mut timer = indication.timer;
                timer.tick(delta);
                game.board.cells[i] = Cell {
                    payload: cell.payload,
                    fire: cell.fire,
                    indication: if timer.finished {
                        None
                    } else {
                        Some(TeleportIndicationComponent { timer })
                    },
                };
            },
            None => {},
        }
        i += 1;
    }
    assert(game@.cells =~= remove_indications_spec(old(game)@, delta).cells);
}

} // verus!
