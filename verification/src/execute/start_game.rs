use vstd::prelude::*;
use crate::error::ContractError;
use crate::models::GameView;
use crate::state::{require_admin, State, StateView};

verus! {

/// Why the start of the game is turned down, if it is.
pub open spec fn start_game_error(pre: StateView, caller: Seq<char>) -> Option<ContractError> {
    if pre.game.admin != caller {
        Some(ContractError::NotAuthorized)
    } else if pre.game.has_started {
        Some(ContractError::AlreadyStarted)
    } else {
        None
    }
}

/// The state after the game has started.
pub open spec fn start_game_next(pre: StateView) -> StateView {
    StateView { game: GameView { has_started: true, ..pre.game }, ..pre }
}

/// Starts the game. Only the administrator may, and only once; nothing but
/// the mark that the game has started changes.
pub fn start_game(state: &mut State, sender: &String) -> (res: Result<(), ContractError>)
    requires
        old(state)@.wf(),
    ensures
        final(state)@.wf(),
        match res {
            Ok(_) => {
                &&& start_game_error(old(state)@, sender@) is None
                &&& final(state)@ == start_game_next(old(state)@)
            },
            Err(e) => {
                &&& start_game_error(old(state)@, sender@) == Some(e)
                &&& final(state)@ == old(state)@
            },
        },
{
    match require_admin(&state.game, sender) {
        Err(e) => {
            return Err(e);
        },
        Ok(_) => {},
    }
    if state.game.has_started {
        return Err(ContractError::AlreadyStarted);
    }
    state.game.has_started = true;
    Ok(())
}

/// Once started, a game cannot be started again.
pub proof fn lemma_start_game_once(pre: StateView, first: Seq<char>, second: Seq<char>)
    requires
        start_game_error(pre, first) is None,
        second == pre.game.admin,
    ensures
        start_game_error(start_game_next(pre), second) == Some(ContractError::AlreadyStarted),
{
}

} // verus!
