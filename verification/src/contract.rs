use vstd::prelude::*;
use crate::error::ContractError;
use crate::execute::buy_cells::{
    buy_cells_error, buy_cells_fits, buy_cells_next, try_buy_cells,
};
use crate::execute::choose_winner::{
    choose_winner, choose_winner_error, choose_winner_next, choose_winner_transfers,
};
use crate::execute::claim_refund::{
    claim_refund, claim_refund_error, claim_refund_next, claim_refund_transfers,
};
use crate::execute::register_player::{
    register_player, register_player_error, register_player_next,
};
use crate::execute::start_game::{start_game, start_game_error, start_game_next};
use crate::models::{Coin, CoinView};
use crate::msg::{ExecuteMsg, ExecuteMsgView, GameResponse, QueryMsg};
use crate::query::query_game::{game_response, query_game};
use crate::state::{State, StateView};
use crate::util::{Transfer, TransferView};

verus! {

/// Why a command is turned down, if it is.
pub open spec fn execute_error(
    pre: StateView,
    caller: Seq<char>,
    funds: Seq<CoinView>,
    cw20_balance: u128,
    msg: ExecuteMsgView,
) -> Option<ContractError> {
    match msg {
        ExecuteMsgView::RegisterPlayer { wallet, .. } => register_player_error(pre, caller, wallet),
        ExecuteMsgView::StartGame {  } => start_game_error(pre, caller),
        ExecuteMsgView::ClaimRefund {  } => claim_refund_error(pre, caller),
        ExecuteMsgView::BuySquares { coordinates } => buy_cells_error(
            pre,
            caller,
            coordinates,
            funds,
            cw20_balance,
        ),
        ExecuteMsgView::ChooseWinner { winner } => choose_winner_error(pre, caller, winner),
    }
}

/// The state after a command that is in order.
pub open spec fn execute_next(pre: StateView, caller: Seq<char>, msg: ExecuteMsgView) -> StateView {
    match msg {
        ExecuteMsgView::RegisterPlayer { wallet, name, color } => register_player_next(
            pre,
            wallet,
            name,
            color,
        ),
        ExecuteMsgView::StartGame {  } => start_game_next(pre),
        ExecuteMsgView::ClaimRefund {  } => claim_refund_next(pre, caller),
        ExecuteMsgView::BuySquares { coordinates } => buy_cells_next(pre, caller, coordinates),
        ExecuteMsgView::ChooseWinner { winner } => choose_winner_next(pre, winner),
    }
}

/// The instructions that a command that is in order gives rise to.
pub open spec fn execute_transfers(pre: StateView, caller: Seq<char>, msg: ExecuteMsgView) -> Seq<
    TransferView,
> {
    match msg {
        ExecuteMsgView::ClaimRefund {  } => claim_refund_transfers(pre, caller),
        ExecuteMsgView::ChooseWinner { winner } => choose_winner_transfers(pre, winner),
        _ => Seq::empty(),
    }
}

/// Whether the pool can take what a command adds to it.
pub open spec fn execute_fits(
    pre: StateView,
    caller: Seq<char>,
    funds: Seq<CoinView>,
    cw20_balance: u128,
    msg: ExecuteMsgView,
) -> bool {
    match msg {
        ExecuteMsgView::BuySquares { coordinates } => buy_cells_fits(
            pre,
            caller,
            coordinates,
            funds,
            cw20_balance,
        ),
        _ => true,
    }
}

/// Carries out the command `msg` of `sender`, which comes with `funds`;
/// `cw20_balance` is the sender's balance of the game's token, where the game
/// is played for a token.
///
/// The result is `None`, and nothing changes, where a purchase is in order
/// but the pool cannot take its price. Otherwise it is the instructions that
/// the command gives rise to, or why the command is turned down, in which
/// case nothing changes either.
pub fn execute(
    state: &mut State,
    sender: &String,
    funds: &Vec<Coin>,
    cw20_balance: u128,
    msg: ExecuteMsg,
) -> (res: Option<Result<Vec<Transfer>, ContractError>>)
    requires
        old(state)@.wf(),
    ensures
        final(state)@.wf(),
        res is None <==> !execute_fits(old(state)@, sender@, funds.deep_view(), cw20_balance, msg@),
        match res {
            Some(Ok(transfers)) => {
                &&& execute_error(old(state)@, sender@, funds.deep_view(), cw20_balance, msg@) is None
                &&& final(state)@ == execute_next(old(state)@, sender@, msg@)
                &&& transfers.deep_view() == execute_transfers(old(state)@, sender@, msg@)
            },
            Some(Err(e)) => {
                &&& execute_error(old(state)@, sender@, funds.deep_view(), cw20_balance, msg@)
                    == Some(e)
                &&& final(state)@ == old(state)@
            },
            None => final(state)@ == old(state)@,
        },
{
    match msg {
        ExecuteMsg::RegisterPlayer { wallet, name, color } => {
            match register_player(state, sender, &wallet, name, color) {
                Ok(_) => Some(Ok(no_transfers())),
                Err(e) => Some(Err(e)),
            }
        },
        ExecuteMsg::StartGame {  } => {
            match start_game(state, sender) {
                Ok(_) => Some(Ok(no_transfers())),
                Err(e) => Some(Err(e)),
            }
        },
        ExecuteMsg::BuySquares { coordinates } => {
            match try_buy_cells(state, sender, &coordinates, funds, cw20_balance) {
                Some(Ok(_)) => Some(Ok(no_transfers())),
                Some(Err(e)) => Some(Err(e)),
                None => None,
            }
        },
        ExecuteMsg::ChooseWinner { winner } => Some(choose_winner(state, sender, winner)),
        ExecuteMsg::ClaimRefund {  } => Some(claim_refund(state, sender)),
    }
}

/// No instructions.
fn no_transfers() -> (res: Vec<Transfer>)
    ensures
        res.deep_view() == Seq::<TransferView>::empty(),
{
    let res: Vec<Transfer> = Vec::new();
    assert(res.deep_view() =~= Seq::<TransferView>::empty());
    res
}

/// Answers the question `msg`.
pub fn query(state: &State, msg: QueryMsg) -> (res: GameResponse)
    ensures
        match msg {
            QueryMsg::Game { with_players, with_grid } => res@ == game_response(
                state@,
                with_grid,
                with_players,
            ),
        },
{
    match msg {
        QueryMsg::Game { with_grid, with_players } => query_game(state, with_grid, with_players),
    }
}

} // verus!
