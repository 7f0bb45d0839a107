use vstd::prelude::*;
use crate::error::ContractError;
use crate::models::{GridCoordinates, Player, PlayerView};
use crate::state::{
    cells_of, find_player, lemma_total_spend_push, require_admin, wallets_of, State, StateView,
};

verus! {

/// Why a registration is turned down, if it is.
pub open spec fn register_player_error(pre: StateView, caller: Seq<char>, wallet: Seq<char>) -> Option<
    ContractError,
> {
    if pre.game.admin != caller {
        Some(ContractError::NotAuthorized)
    } else if pre.game.is_over() {
        Some(ContractError::GameOver)
    } else if pre.game.has_started {
        Some(ContractError::AlreadyStarted)
    } else if pre.knows(wallet) {
        Some(ContractError::DuplicatePlayerAddress)
    } else {
        None
    }
}

/// The player that a registration adds.
pub open spec fn registered(
    wallet: Seq<char>,
    name: Option<Seq<char>>,
    color: Option<Seq<char>>,
) -> PlayerView {
    PlayerView { wallet, name, color, positions: Seq::empty(), has_claimed_refund: false }
}

/// The state after a registration.
pub open spec fn register_player_next(
    pre: StateView,
    wallet: Seq<char>,
    name: Option<Seq<char>>,
    color: Option<Seq<char>>,
) -> StateView {
    StateView { players: pre.players.push(registered(wallet, name, color)), ..pre }
}

/// A registration that is in order leaves the state in order.
pub proof fn lemma_register_player_keeps_order(
    pre: StateView,
    caller: Seq<char>,
    wallet: Seq<char>,
    name: Option<Seq<char>>,
    color: Option<Seq<char>>,
)
    requires
        pre.wf(),
        register_player_error(pre, caller, wallet) is None,
    ensures
        register_player_next(pre, wallet, name, color).wf(),
{
    let player = registered(wallet, name, color);
    lemma_total_spend_push(pre.grid, pre.players, player);
    assert(cells_of(player.positions) =~= Seq::<GridCoordinates>::empty());
    assert(wallets_of(pre.players.push(player)) =~= wallets_of(pre.players).push(wallet));
}

/// Registers the wallet `player_addr` as a player, so that it can buy cells.
/// Only the administrator may, only before the game starts, and each wallet
/// only once.
pub fn register_player(
    state: &mut State,
    sender: &String,
    player_addr: &String,
    name: Option<String>,
    color: Option<String>,
) -> (res: Result<(), ContractError>)
    requires
        old(state)@.wf(),
    ensures
        final(state)@.wf(),
        match res {
            Ok(_) => {
                &&& register_player_error(old(state)@, sender@, player_addr@) is None
                &&& final(state)@ == register_player_next(
                    old(state)@,
                    player_addr@,
                    name.deep_view(),
                    color.deep_view(),
                )
            },
            Err(e) => {
                &&& register_player_error(old(state)@, sender@, player_addr@) == Some(e)
                &&& final(state)@ == old(state)@
            },
        },
{
    match require_admin(&state.game, sender) {
        Err(e) => {
            return Err(e);
        },
        Ok(_) => {},
    }
    if state.game.is_over() {
        return Err(ContractError::GameOver);
    }
    if state.game.has_started {
        return Err(ContractError::AlreadyStarted);
    }
    if find_player(&state.players, player_addr).is_some() {
        return Err(ContractError::DuplicatePlayerAddress);
    }
    let ghost pre = state@;
    let player = Player {
        wallet: player_addr.clone(),
        name,
        color,
        positions: Vec::new(),
        has_claimed_refund: false,
    };
    proof {
        lemma_register_player_keeps_order(
            pre,
            sender@,
            player_addr@,
            player@.name,
            player@.color,
        );
    }
    state.players.push(player);
    proof {
        assert(state@.players =~= pre.players.push(player@));
    }
    Ok(())
}

} // verus!
