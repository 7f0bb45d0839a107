use vstd::prelude::*;
use crate::error::ContractError;
use crate::models::{Cell, Player, PlayerView, Position, clone_label};
use crate::state::{
    cells_of, find_player, in_grid, lemma_price_sum_concat,
    lemma_pct_sum_four, lemma_price_sum_nonnegative, lemma_slot_is_unique,
    lemma_spend_within_total,
    lemma_total_spend_update, price_sum, spend, wallets_of, State, StateView,
};
use crate::util::{
    build_transfer, compute_amount_from_pct, lemma_pct_of_bounded, pct_of, transfer_of, Transfer,
    TransferView,
};

verus! {

/// Why a claim is turned down, if it is.
pub open spec fn claim_refund_error(pre: StateView, caller: Seq<char>) -> Option<ContractError> {
    if !(pre.game.is_over() && pre.game.can_claim_refund) {
        Some(ContractError::NotAuthorized)
    } else if !pre.knows(caller) {
        Some(ContractError::NotAuthorized)
    } else if pre.players[pre.slot(caller)].has_claimed_refund {
        Some(ContractError::AlreadyClaimedRefund)
    } else {
        None
    }
}

/// What `caller` gets back: of all they have spent, the share that the last
/// quarter holds after all carrying forward, rounded down.
pub open spec fn refund_amount(pre: StateView, caller: Seq<char>) -> int {
    pct_of(
        spend(pre.grid, pre.players[pre.slot(caller)].positions),
        pre.game.quarters.last().pct as int,
    )
}

/// The state after `caller` has claimed their refund.
pub open spec fn claim_refund_next(pre: StateView, caller: Seq<char>) -> StateView {
    let slot = pre.slot(caller);
    StateView {
        players: pre.players.update(
            slot,
            PlayerView { has_claimed_refund: true, ..pre.players[slot] },
        ),
        ..pre
    }
}

/// The one instruction that pays the refund, be it of nothing.
pub open spec fn claim_refund_transfers(pre: StateView, caller: Seq<char>) -> Seq<TransferView> {
    seq![transfer_of(caller, pre.game.token, refund_amount(pre, caller))]
}

/// What the cells that `positions` record have cost.
fn total_spent(grid: &Vec<Cell>, positions: &Vec<Position>) -> (total: u128)
    requires
        grid.len() == 100,
        forall|k: int| 0 <= k < positions.len() ==> in_grid((#[trigger] positions[k]).coords),
        spend(grid.deep_view(), positions@) <= u128::MAX,
    ensures
        total == spend(grid.deep_view(), positions@),
{
    let ghost cells = cells_of(positions@);
    let ghost prices = grid.deep_view();
    let mut total: u128 = 0;
    let mut i: usize = 0;
    while i < positions.len()
        invariant
            i <= positions.len(),
            grid.len() == 100,
            prices == grid.deep_view(),
            cells == cells_of(positions@),
            forall|k: int| 0 <= k < positions.len() ==> in_grid((#[trigger] positions[k]).coords),
            price_sum(prices, cells) <= u128::MAX,
            total == price_sum(prices, cells.take(i as int)),
        decreases positions.len() - i,
    {
        let coords = positions[i].coords;
        let index: usize = coords.0 as usize * 10 + coords.1 as usize;
        proof {
            assert(cells.take(i + 1).drop_last() =~= cells.take(i as int));
            assert(cells.take(i + 1).last() == coords);
            assert(cells =~= cells.take(i + 1) + cells.skip(i + 1));
            lemma_price_sum_concat(prices, cells.take(i + 1), cells.skip(i + 1));
            lemma_price_sum_nonnegative(prices, cells.skip(i + 1));
            assert(prices[index as int] == grid[index as int]@);
        }
        total = total + grid[index].price;
        i += 1;
    }
    proof {
        assert(cells.take(i as int) =~= cells);
    }
    total
}

/// Pays `sender` their refund, once the game is over with its last quarter
/// unclaimed: of what they have spent on cells, the share that the last
/// quarter holds. Each player may claim once.
pub fn claim_refund(state: &mut State, sender: &String) -> (res: Result<Vec<Transfer>, ContractError>)
    requires
        old(state)@.wf(),
    ensures
        final(state)@.wf(),
        match res {
            Ok(transfers) => {
                &&& claim_refund_error(old(state)@, sender@) is None
                &&& final(state)@ == claim_refund_next(old(state)@, sender@)
                &&& transfers.deep_view() == claim_refund_transfers(old(state)@, sender@)
            },
            Err(e) => {
                &&& claim_refund_error(old(state)@, sender@) == Some(e)
                &&& final(state)@ == old(state)@
            },
        },
{
    if !(state.game.is_over() && state.game.can_claim_refund) {
        return Err(ContractError::NotAuthorized);
    }
    let slot: usize = match find_player(&state.players, sender) {
        Some(slot) => slot,
        None => {
            return Err(ContractError::NotAuthorized);
        },
    };
    let ghost pre = state@;
    proof {
        lemma_slot_is_unique(wallets_of(pre.players), slot as int);
    }
    let player = &state.players[slot];
    if player.has_claimed_refund {
        return Err(ContractError::AlreadyClaimedRefund);
    }
    proof {
        lemma_spend_within_total(pre.grid, pre.players, slot as int);
        lemma_pct_sum_four(pre.game.quarters);
        assert(player@ == pre.players[slot as int]);
        assert(forall|k: int|
            0 <= k < player.positions.len() ==> (#[trigger] player.positions[k])
                == pre.players[slot as int].positions[k]);
        lemma_pct_of_bounded(
            spend(pre.grid, pre.players[slot as int].positions),
            pre.game.quarters.last().pct as int,
        );
    }
    let spent: u128 = total_spent(&state.grid, &player.positions);
    let final_pct: u8 = state.game.quarters[state.game.quarters.len() - 1].pct;
    let refund: u128 = compute_amount_from_pct(spent, final_pct);
    let mut transfers: Vec<Transfer> = Vec::new();
    transfers.push(build_transfer(sender, &state.game.token, refund));
    let positions = player.positions.clone();
    assert(positions@ =~= player.positions@);
    let claimant = Player {
        wallet: player.wallet.clone(),
        name: clone_label(&player.name),
        color: clone_label(&player.color),
        positions,
        has_claimed_refund: true,
    };
    proof {
        lemma_claim_refund_keeps_order(pre, sender@);
    }
    state.players[slot] = claimant;
    proof {
        assert(state@.players =~= pre.players.update(slot as int, claimant@));
        assert(transfers.deep_view() =~= claim_refund_transfers(pre, sender@));
    }
    Ok(transfers)
}

/// A claim that is in order leaves the state in order.
pub proof fn lemma_claim_refund_keeps_order(pre: StateView, caller: Seq<char>)
    requires
        pre.wf(),
        claim_refund_error(pre, caller) is None,
    ensures
        claim_refund_next(pre, caller).wf(),
{
    let slot = pre.slot(caller);
    let post = claim_refund_next(pre, caller);
    lemma_total_spend_update(pre.grid, pre.players, slot, post.players[slot]);
    assert(wallets_of(post.players) =~= wallets_of(pre.players));
}

/// Nobody is refunded twice.
pub proof fn lemma_claim_refund_once(pre: StateView, caller: Seq<char>)
    requires
        pre.wf(),
        claim_refund_error(pre, caller) is None,
    ensures
        claim_refund_error(claim_refund_next(pre, caller), caller) == Some(
            ContractError::AlreadyClaimedRefund,
        ),
{
    let slot = pre.slot(caller);
    let post = claim_refund_next(pre, caller);
    assert(wallets_of(post.players) =~= wallets_of(pre.players));
}

} // verus!
