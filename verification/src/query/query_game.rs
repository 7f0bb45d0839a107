use vstd::prelude::*;
use crate::models::{Cell, Player};
use crate::msg::{GameResponse, GameResponseView};
use crate::state::{State, StateView};

verus! {

/// Whether a part of the answer that may be left out is wanted: it is unless
/// the question says otherwise.
pub open spec fn wanted(choice: Option<bool>) -> bool {
    match choice {
        Some(wanted) => wanted,
        None => true,
    }
}

/// The answer to the question for the game.
pub open spec fn game_response(
    state: StateView,
    with_grid: Option<bool>,
    with_players: Option<bool>,
) -> GameResponseView {
    GameResponseView {
        game: state.game,
        grid: if wanted(with_grid) {
            Some(state.grid)
        } else {
            None
        },
        players: if wanted(with_players) {
            Some(state.players)
        } else {
            None
        },
    }
}

/// Copies the cells of the grid, in their order.
fn build_cells_vec(state: &State) -> (cells: Vec<Cell>)
    ensures
        cells.deep_view() == state@.grid,
{
    let cells = state.grid.clone();
    assert(cells.deep_view() =~= state@.grid);
    cells
}

/// Copies the players, in their order.
fn build_players_vec(state: &State) -> (players: Vec<Player>)
    ensures
        players.deep_view() == state@.players,
{
    let players = state.players.clone();
    assert(players.deep_view() =~= state@.players);
    players
}

/// Answers the question for the game: the game itself and, each unless left
/// out, its grid and its players.
pub fn query_game(
    state: &State,
    with_grid: Option<bool>,
    with_players: Option<bool>,
) -> (res: GameResponse)
    ensures
        res@ == game_response(state@, with_grid, with_players),
{
    GameResponse {
        game: state.game.clone(),
        players: if with_players.unwrap_or(true) {
            Some(build_players_vec(state))
        } else {
            None
        },
        grid: if with_grid.unwrap_or(true) {
            Some(build_cells_vec(state))
        } else {
            None
        },
    }
}

} // verus!
