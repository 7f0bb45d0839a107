//! What holds of a game whatever commands it is given.
use vstd::prelude::*;
use crate::contract::{execute_error, execute_fits, execute_next};
use crate::execute::buy_cells::lemma_buy_cells_keeps_order;
use crate::execute::claim_refund::lemma_claim_refund_keeps_order;
use crate::execute::register_player::lemma_register_player_keeps_order;
use crate::error::ContractError;
use crate::execute::choose_winner::{
    choose_winner_error, choose_winner_next, floored, lemma_pct_sum_with_winner,
    lemma_redistributed, resolved_quarters, winners_of,
};
use crate::models::{CellView, CoinView, GridCoordinates, PlayerView, QuarterView};
use crate::msg::{ExecuteMsgView, InstantiateMsgView};
use crate::state::{
    cell_coords, cell_index, creator, enrolled, grid_error, in_grid, initial_state, initialize_error,
    lemma_no_positions_no_spend, lemma_pct_sum_unresolved, listed_players, pct_sum,
    prices_positive, wallets_of, StateView, GRID_CELLS,
};

verus! {

/// The hundred places of the grid are the hundred cells with a row and a
/// column from 0 to 9, each of them once.
pub proof fn lemma_grid_covers_coordinates()
    ensures
        forall|i: int|
            0 <= i < GRID_CELLS ==> in_grid(#[trigger] cell_coords(i)) && cell_index(cell_coords(i))
                == i,
        forall|coords: GridCoordinates|
            in_grid(coords) ==> 0 <= #[trigger] cell_index(coords) < GRID_CELLS && cell_coords(
                cell_index(coords),
            ) == coords,
        forall|first: GridCoordinates, second: GridCoordinates|
            in_grid(first) && in_grid(second) && first != second ==> #[trigger] cell_index(first)
                != #[trigger] cell_index(second),
{
}

/// A grid without a fault has a price on every cell.
pub proof fn lemma_faultless_grid_has_prices(
    cells: Seq<CellView>,
    known: Seq<Seq<char>>,
)
    requires
        grid_error(cells, known) is None,
    ensures
        prices_positive(cells),
    decreases cells.len(),
{
    if cells.len() > 0 {
        lemma_faultless_grid_has_prices(cells.drop_last(), known);
        assert forall|i: int| 0 <= i < cells.len() implies (#[trigger] cells[i]).price > 0 by {
            if i < cells.len() - 1 {
                assert(cells.drop_last()[i] == cells[i]);
            }
        }
    }
}

/// Every game that is set up begins in a state that is in order: its
/// quarters' shares add up to 100, and its grid has a hundred cells.
pub proof fn lemma_initial_state_is_well_formed(sender: Seq<char>, msg: InstantiateMsgView)
    requires
        initialize_error(msg) is None,
    ensures
        initial_state(sender, msg).wf(),
        pct_sum(initial_state(sender, msg).game.quarters) == 100,
        initial_state(sender, msg).grid.len() == GRID_CELLS,
{
    let state = initial_state(sender, msg);
    let listed = listed_players(msg).map_values(|player: PlayerView| enrolled(player));
    lemma_pct_sum_unresolved(msg.quarters);
    lemma_faultless_grid_has_prices(msg.grid, wallets_of(listed_players(msg)));
    assert(wallets_of(listed) =~= wallets_of(listed_players(msg)));
    if !wallets_of(listed).contains(sender) {
        assert(wallets_of(listed.push(creator(sender))) =~= wallets_of(listed).push(
            sender,
        ));
    }
    lemma_no_positions_no_spend(state.grid, state.players);
}

/// Resolving a quarter leaves the state in order, with the quarters' shares
/// adding up to 100 whether or not a share was carried forward.
pub proof fn lemma_choose_winner_keeps_split(pre: StateView, caller: Seq<char>, winner: GridCoordinates)
    requires
        pre.wf(),
        choose_winner_error(pre, caller, winner) is None,
    ensures
        choose_winner_next(pre, winner).wf(),
        pct_sum(choose_winner_next(pre, winner).game.quarters) == 100,
{
    let k = pre.game.quarter_index as int;
    let resolved = pre.game.quarters.update(
        k,
        QuarterView { winner: Some(winner), ..pre.game.quarters[k] },
    );
    lemma_pct_sum_with_winner(pre.game.quarters, k, winner);
    if !(winners_of(pre, winner).len() > 0 || k == pre.game.quarters.len() - 1) {
        lemma_redistributed(resolved, k);
    }
}

/// Whatever command a game is given, it stays in order: in particular the
/// quarters' shares add up to 100 after every command.
pub proof fn lemma_commands_keep_order(
    pre: StateView,
    caller: Seq<char>,
    funds: Seq<CoinView>,
    cw20_balance: u128,
    msg: ExecuteMsgView,
)
    requires
        pre.wf(),
        execute_error(pre, caller, funds, cw20_balance, msg) is None,
        execute_fits(pre, caller, funds, cw20_balance, msg),
    ensures
        execute_next(pre, caller, msg).wf(),
        pct_sum(execute_next(pre, caller, msg).game.quarters) == 100,
{
    match msg {
        ExecuteMsgView::RegisterPlayer { wallet, name, color } => {
            lemma_register_player_keeps_order(pre, caller, wallet, name, color);
        },
        ExecuteMsgView::StartGame {  } => {},
        ExecuteMsgView::ClaimRefund {  } => {
            lemma_claim_refund_keeps_order(pre, caller);
        },
        ExecuteMsgView::BuySquares { coordinates } => {
            lemma_buy_cells_keeps_order(pre, caller, coordinates, funds, cw20_balance);
        },
        ExecuteMsgView::ChooseWinner { winner } => {
            lemma_choose_winner_keeps_split(pre, caller, winner);
        },
    }
}

/// The open quarter moves on by one with every quarter that is resolved and
/// with nothing else, and a winner, once named, stays.
pub proof fn lemma_quarters_move_forward(
    pre: StateView,
    caller: Seq<char>,
    funds: Seq<CoinView>,
    cw20_balance: u128,
    msg: ExecuteMsgView,
)
    requires
        pre.wf(),
        execute_error(pre, caller, funds, cw20_balance, msg) is None,
    ensures
        execute_next(pre, caller, msg).game.quarter_index == pre.game.quarter_index + (if msg is
            ChooseWinner
        {
            1int
        } else {
            0int
        }),
        execute_next(pre, caller, msg).game.quarters.len() == pre.game.quarters.len(),
        forall|i: int|
            0 <= i < pre.game.quarters.len() && (#[trigger] pre.game.quarters[i]).winner is Some
                ==> execute_next(pre, caller, msg).game.quarters[i].winner
                == pre.game.quarters[i].winner,
        !(msg is ChooseWinner) ==> execute_next(pre, caller, msg).game.quarters == pre.game.quarters,
{
    if let ExecuteMsgView::ChooseWinner { winner } = msg {
        let k = pre.game.quarter_index as int;
        let resolved = pre.game.quarters.update(
            k,
            QuarterView { winner: Some(winner), ..pre.game.quarters[k] },
        );
        let after = resolved_quarters(pre, winner);
        assert forall|i: int|
            0 <= i < pre.game.quarters.len() && (#[trigger] pre.game.quarters[i]).winner is Some
            implies after[i].winner == pre.game.quarters[i].winner by {
            assert(i != k);
            assert(floored(resolved, k)[i].winner == resolved[i].winner);
        }
    }
}

/// A quarter that has a winner cannot be resolved again.
pub proof fn lemma_resolved_quarter_is_closed(pre: StateView, caller: Seq<char>, winner: GridCoordinates)
    requires
        caller == pre.game.admin,
        !pre.game.is_over(),
        pre.game.has_started,
        pre.game.quarters[pre.game.quarter_index as int].winner is Some,
    ensures
        choose_winner_error(pre, caller, winner) == Some(ContractError::AlreadyResolved),
{
}

} // verus!
