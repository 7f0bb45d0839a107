use vstd::prelude::*;
use crate::error::ContractError;
use crate::models::{
    clone_label, GameView, GridCoordinates, Quarter, QuarterView, Token, TokenView,
};
use crate::state::{
    cell_index, in_grid, lemma_pct_sum_four, pct_sum, require_admin, sum_pct_from, State,
    StateView, GRID_SIDE, QUARTER_COUNT,
};
use crate::util::{
    build_transfer, compute_amount_from_pct, lemma_pct_of_bounded, pct_of, transfer_of, Transfer,
    TransferView,
};

verus! {

/// The three accounts among which the tax on a prize is split.
pub const GELOTTO_ADDR: &'static str = "juno1jume25ttjlcaqqjzjjqx9humvze3vcc8z87szj";

pub const GELOTTO_ANNUAL_GRAND_PRIZE_ADDR: &'static str = "juno1fxu5as8z5qxdulujzph3rm6c39r8427mjnx99r";

pub const GELOTTO_NFT_1_REWARDS_ADDR: &'static str = "juno1tlyqv2ss4p9zelllxm39hq5g6zw384mvvym6tp";

/// The share of the tax that each of the three accounts gets, in percent.
pub const GELOTTO_PCT: u8 = 20;

pub const GELOTTO_ANNUAL_GRAND_PRIZE_PCT: u8 = 50;

pub const GELOTTO_NFT_1_REWARDS_PCT: u8 = 30;

/// What is left of a quarter's prize after the tax of a tenth, in percent.
pub const PRIZE_PCT: u8 = 90;

/// The three instructions that pay out the tax `total_tax` on a prize.
pub open spec fn tax_transfers(token: TokenView, total_tax: int) -> Seq<TransferView> {
    seq![
        transfer_of(GELOTTO_ADDR@, token, pct_of(total_tax, GELOTTO_PCT as int)),
        transfer_of(
            GELOTTO_ANNUAL_GRAND_PRIZE_ADDR@,
            token,
            pct_of(total_tax, GELOTTO_ANNUAL_GRAND_PRIZE_PCT as int),
        ),
        transfer_of(
            GELOTTO_NFT_1_REWARDS_ADDR@,
            token,
            pct_of(total_tax, GELOTTO_NFT_1_REWARDS_PCT as int),
        ),
    ]
}

/// One instruction for each of `winners`, in their order, each over `share`.
pub open spec fn prize_transfers(token: TokenView, winners: Seq<Seq<char>>, share: int) -> Seq<
    TransferView,
> {
    Seq::new(winners.len(), |i: int| transfer_of(winners[i], token, share))
}

/// What a quarter with the share `pct` of a pool of `pool` is worth.
pub open spec fn full_prize(pool: int, pct: int) -> int {
    pct_of(pool, pct)
}

/// What is paid out to the winners together: the prize less the tax.
pub open spec fn net_prize(full: int) -> int {
    pct_of(full, PRIZE_PCT as int)
}

/// What a quarter after the ending one takes over of the share `ending`, when
/// it holds `pct` of the `remaining` that the quarters after the ending one
/// hold together: its proportion of `ending`, rounded down.
pub open spec fn carried_share(ending: int, pct: int, remaining: int) -> int {
    if remaining == 0 {
        0
    } else {
        ending * pct / remaining
    }
}

/// The quarters once quarter `k` has given its share up: quarter `k` holds
/// nothing, and each later quarter has taken over its proportion of the
/// share, rounded down.
pub open spec fn floored(quarters: Seq<QuarterView>, k: int) -> Seq<QuarterView> {
    let ending = quarters[k].pct as int;
    let remaining = pct_sum(quarters.skip(k + 1));
    Seq::new(
        quarters.len(),
        |j: int|
            if j < k {
                quarters[j]
            } else if j == k {
                QuarterView { pct: 0, ..quarters[j] }
            } else {
                QuarterView {
                    pct: (quarters[j].pct + carried_share(
                        ending,
                        quarters[j].pct as int,
                        remaining,
                    )) as u8,
                    ..quarters[j]
                }
            },
    )
}

/// The quarters once the share of quarter `k` has been carried forward: as
/// [`floored`], with what the rounding has left over added to the last
/// quarter, so that the shares add up to 100 again.
pub open spec fn redistributed(quarters: Seq<QuarterView>, k: int) -> Seq<QuarterView> {
    let rounded = floored(quarters, k);
    let last = rounded.len() - 1;
    rounded.update(
        last,
        QuarterView { pct: (rounded[last].pct + 100 - pct_sum(rounded)) as u8, ..rounded[last] },
    )
}

/// Why the choice of a winner is turned down, if it is.
pub open spec fn choose_winner_error(
    pre: StateView,
    caller: Seq<char>,
    winner: GridCoordinates,
) -> Option<ContractError> {
    if pre.game.admin != caller {
        Some(ContractError::NotAuthorized)
    } else if pre.game.is_over() {
        Some(ContractError::GameOver)
    } else if !pre.game.has_started {
        Some(ContractError::NotStarted)
    } else if pre.game.quarters[pre.game.quarter_index as int].winner is Some {
        Some(ContractError::AlreadyResolved)
    } else if !in_grid(winner) {
        Some(ContractError::CoordinatesOutOfBounds)
    } else {
        None
    }
}

/// The wallets in the cell at `winner`.
pub open spec fn winners_of(pre: StateView, winner: GridCoordinates) -> Seq<Seq<char>> {
    pre.grid[cell_index(winner)].wallets
}

/// The quarters after the open quarter has been resolved with `winner`.
pub open spec fn resolved_quarters(pre: StateView, winner: GridCoordinates) -> Seq<QuarterView> {
    let k = pre.game.quarter_index as int;
    let resolved = pre.game.quarters.update(
        k,
        QuarterView { winner: Some(winner), ..pre.game.quarters[k] },
    );
    if winners_of(pre, winner).len() > 0 || k == pre.game.quarters.len() - 1 {
        resolved
    } else {
        redistributed(resolved, k)
    }
}

/// The state after the open quarter has been resolved with `winner`.
pub open spec fn choose_winner_next(pre: StateView, winner: GridCoordinates) -> StateView {
    let k = pre.game.quarter_index as int;
    let unclaimed = winners_of(pre, winner).len() == 0;
    StateView {
        game: GameView {
            quarters: resolved_quarters(pre, winner),
            quarter_index: (k + 1) as u8,
            can_claim_refund: pre.game.can_claim_refund || (unclaimed && k == pre.game.quarters.len()
                - 1),
            ..pre.game
        },
        ..pre
    }
}

/// The instructions that resolving the open quarter with `winner` gives
/// rise to: the tax and then one prize for each wallet in the winning cell, or
/// nothing where the cell is empty.
pub open spec fn choose_winner_transfers(pre: StateView, winner: GridCoordinates) -> Seq<
    TransferView,
> {
    let k = pre.game.quarter_index as int;
    let full = full_prize(pre.game.token_amount as int, pre.game.quarters[k].pct as int);
    let net = net_prize(full);
    let winners = winners_of(pre, winner);
    if winners.len() > 0 {
        tax_transfers(pre.game.token, full - net) + prize_transfers(
            pre.game.token,
            winners,
            net / (winners.len() as int),
        )
    } else {
        Seq::empty()
    }
}

/// The shares of the quarters after quarter `k`, written out.
pub proof fn lemma_pct_sum_after(quarters: Seq<QuarterView>, k: int)
    requires
        quarters.len() == 4,
        0 <= k < 4,
    ensures
        pct_sum(quarters.skip(k + 1)) == (if k < 1 {
            quarters[1].pct as int
        } else {
            0
        }) + (if k < 2 {
            quarters[2].pct as int
        } else {
            0
        }) + (if k < 3 {
            quarters[3].pct as int
        } else {
            0
        }),
{
    let rest = quarters.skip(k + 1);
    if k == 3 {
    } else if k == 2 {
        assert(pct_sum(rest.drop_last()) == 0);
    } else if k == 1 {
        assert(pct_sum(rest.drop_last().drop_last()) == 0);
        assert(pct_sum(rest.drop_last()) == quarters[2].pct);
    } else {
        assert(pct_sum(rest.drop_last().drop_last().drop_last()) == 0);
        assert(pct_sum(rest.drop_last().drop_last()) == quarters[1].pct);
        assert(pct_sum(rest.drop_last()) == quarters[1].pct + quarters[2].pct);
    }
}

/// A quarter takes over no more than the whole share.
pub proof fn lemma_carried_share_bounded(ending: int, pct: int, remaining: int)
    requires
        0 <= ending,
        0 <= pct <= remaining,
    ensures
        0 <= carried_share(ending, pct, remaining) <= ending,
{
    if remaining > 0 {
        assert(0 <= ending * pct <= ending * remaining) by (nonlinear_arith)
            requires
                0 <= ending,
                0 <= pct <= remaining,
        ;
        assert(0 <= ending * pct / remaining <= ending) by (nonlinear_arith)
            requires
                0 <= ending * pct <= ending * remaining,
                0 < remaining,
                0 <= ending,
        ;
    }
}

/// Three quarters that hold `remaining` together take over no more than the
/// whole share together.
pub proof fn lemma_carried_shares_bounded(ending: int, a: int, b: int, c: int, remaining: int)
    requires
        0 <= ending,
        0 <= a,
        0 <= b,
        0 <= c,
        a + b + c == remaining,
    ensures
        carried_share(ending, a, remaining) + carried_share(ending, b, remaining) + carried_share(
            ending,
            c,
            remaining,
        ) <= ending,
{
    if remaining > 0 {
        let sa = ending * a / remaining;
        let sb = ending * b / remaining;
        let sc = ending * c / remaining;
        assert(sa * remaining <= ending * a) by (nonlinear_arith)
            requires
                sa == ending * a / remaining,
                0 < remaining,
        ;
        assert(sb * remaining <= ending * b) by (nonlinear_arith)
            requires
                sb == ending * b / remaining,
                0 < remaining,
        ;
        assert(sc * remaining <= ending * c) by (nonlinear_arith)
            requires
                sc == ending * c / remaining,
                0 < remaining,
        ;
        assert(sa + sb + sc <= ending) by (nonlinear_arith)
            requires
                sa * remaining <= ending * a,
                sb * remaining <= ending * b,
                sc * remaining <= ending * c,
                a + b + c == remaining,
                0 < remaining,
        ;
    }
}

/// Carrying a share forward keeps every share within bounds and the sum of
/// the shares at 100.
pub proof fn lemma_redistributed(quarters: Seq<QuarterView>, k: int)
    requires
        quarters.len() == 4,
        pct_sum(quarters) == 100,
        0 <= k < 3,
    ensures
        forall|j: int|
            k < j < 4 ==> (#[trigger] floored(quarters, k)[j]).pct == quarters[j].pct + carried_share(
                quarters[k].pct as int,
                quarters[j].pct as int,
                pct_sum(quarters.skip(k + 1)),
            ),
        forall|j: int| 0 <= j < 4 ==> (#[trigger] floored(quarters, k)[j]).pct <= 100,
        pct_sum(floored(quarters, k)) <= 100,
        redistributed(quarters, k)[3].pct == floored(quarters, k)[3].pct + 100 - pct_sum(
            floored(quarters, k),
        ),
        pct_sum(redistributed(quarters, k)) == 100,
{
    let ending = quarters[k].pct as int;
    let remaining = pct_sum(quarters.skip(k + 1));
    let rounded = floored(quarters, k);
    lemma_pct_sum_four(quarters);
    lemma_pct_sum_after(quarters, k);
    let a = if k < 1 {
        quarters[1].pct as int
    } else {
        0
    };
    let b = if k < 2 {
        quarters[2].pct as int
    } else {
        0
    };
    let c = quarters[3].pct as int;
    lemma_carried_share_bounded(ending, a, remaining);
    lemma_carried_share_bounded(ending, b, remaining);
    lemma_carried_share_bounded(ending, c, remaining);
    lemma_carried_shares_bounded(ending, a, b, c, remaining);
    assert(carried_share(ending, 0, remaining) == 0) by {
        if remaining > 0 {
            assert(ending * 0 / remaining == 0) by (nonlinear_arith)
                requires
                    remaining > 0,
            ;
        }
    }
    assert forall|j: int| k < j < 4 implies (#[trigger] rounded[j]).pct == quarters[j].pct
        + carried_share(ending, quarters[j].pct as int, remaining) by {
        lemma_carried_share_bounded(ending, quarters[j].pct as int, remaining);
    }
    lemma_pct_sum_four(rounded);
    let settled = redistributed(quarters, k);
    lemma_pct_sum_four(settled);
}

/// Naming the winner of a quarter leaves the shares as they are.
pub proof fn lemma_pct_sum_with_winner(quarters: Seq<QuarterView>, k: int, winner: GridCoordinates)
    requires
        quarters.len() == 4,
        0 <= k < 4,
    ensures
        pct_sum(quarters.update(k, QuarterView { winner: Some(winner), ..quarters[k] })) == pct_sum(
            quarters,
        ),
{
    lemma_pct_sum_four(quarters);
    lemma_pct_sum_four(quarters.update(k, QuarterView { winner: Some(winner), ..quarters[k] }));
}

/// The quarters, with `winner` named as the winner of quarter `k`.
fn with_winner(quarters: &Vec<Quarter>, k: usize, winner: GridCoordinates) -> (res: Vec<Quarter>)
    requires
        k < quarters.len(),
    ensures
        res.deep_view() == quarters.deep_view().update(
            k as int,
            QuarterView { winner: Some(winner), ..quarters.deep_view()[k as int] },
        ),
{
    let mut res: Vec<Quarter> = Vec::new();
    let mut j: usize = 0;
    while j < quarters.len()
        invariant
            j <= quarters.len(),
            k < quarters.len(),
            res.len() == j,
            forall|i: int|
                0 <= i < j ==> (#[trigger] res[i])@ == (if i == k {
                    QuarterView { winner: Some(winner), ..quarters[i]@ }
                } else {
                    quarters[i]@
                }),
        decreases quarters.len() - j,
    {
        let quarter = &quarters[j];
        let named = if j == k {
            Some(winner)
        } else {
            quarter.winner
        };
        res.push(Quarter { winner: named, name: clone_label(&quarter.name), pct: quarter.pct });
        j += 1;
    }
    proof {
        assert(res.deep_view() =~= quarters.deep_view().update(
            k as int,
            QuarterView { winner: Some(winner), ..quarters.deep_view()[k as int] },
        ));
    }
    res
}

/// Carries the share of quarter `k`, which nobody has won, forward to the
/// quarters after it.
fn carry_forward(quarters: &Vec<Quarter>, k: usize) -> (res: Vec<Quarter>)
    requires
        quarters.len() == 4,
        pct_sum(quarters.deep_view()) == 100,
        k < 3,
    ensures
        res.deep_view() == redistributed(quarters.deep_view(), k as int),
{
    let ghost view = quarters.deep_view();
    proof {
        lemma_redistributed(view, k as int);
    }
    let ending: u16 = quarters[k].pct as u16;
    let remaining: u16 = sum_pct_from(quarters, k + 1);
    let mut rounded: Vec<Quarter> = Vec::new();
    let mut j: usize = 0;
    while j < quarters.len()
        invariant
            j <= quarters.len() == 4,
            k < 3,
            view == quarters.deep_view(),
            ending == view[k as int].pct,
            remaining == pct_sum(view.skip(k + 1)),
            rounded.len() == j,
            forall|i: int| 0 <= i < j ==> (#[trigger] rounded[i])@ == floored(view, k as int)[i],
            forall|i: int|
                k < i < 4 ==> (#[trigger] floored(view, k as int)[i]).pct == view[i].pct + carried_share(
                    view[k as int].pct as int,
                    view[i].pct as int,
                    pct_sum(view.skip(k + 1)),
                ),
            forall|i: int| 0 <= i < 4 ==> (#[trigger] floored(view, k as int)[i]).pct <= 100,
        decreases quarters.len() - j,
    {
        let quarter = &quarters[j];
        let pct: u8 = if j < k {
            quarter.pct
        } else if j == k {
            0
        } else {
            let own: u16 = quarter.pct as u16;
            let share: u16 = if remaining == 0 {
                0
            } else {
                assert(ending * own <= 255 * 255) by (nonlinear_arith)
                    requires
                        ending <= 255,
                        own <= 255,
                ;
                ending * own / remaining
            };
            assert(floored(view, k as int)[j as int].pct == own + share);
            (own + share) as u8
        };
        rounded.push(Quarter { winner: quarter.winner, name: clone_label(&quarter.name), pct });
        j += 1;
    }
    proof {
        assert(rounded.deep_view() =~= floored(view, k as int));
    }
    let total: u16 = sum_pct_from(&rounded, 0);
    proof {
        assert(rounded.deep_view().skip(0) =~= rounded.deep_view());
    }
    let last = rounded.pop().unwrap();
    let settled = Quarter { winner: last.winner, name: last.name, pct: last.pct + (100 - total) as u8 };
    rounded.push(settled);
    proof {
        assert(rounded.deep_view() =~= redistributed(view, k as int));
    }
    rounded
}

/// Adds the three instructions that pay out the tax `total_tax` on a prize.
fn append_gelotto_tax_msgs(transfers: &mut Vec<Transfer>, token: &Token, total_tax: u128)
    ensures
        final(transfers).deep_view() == old(transfers).deep_view() + tax_transfers(
            token@,
            total_tax as int,
        ),
{
    proof {
        lemma_pct_of_bounded(total_tax as int, GELOTTO_PCT as int);
        lemma_pct_of_bounded(total_tax as int, GELOTTO_ANNUAL_GRAND_PRIZE_PCT as int);
        lemma_pct_of_bounded(total_tax as int, GELOTTO_NFT_1_REWARDS_PCT as int);
    }
    let first = build_transfer(
        &GELOTTO_ADDR.to_owned(),
        token,
        compute_amount_from_pct(total_tax, GELOTTO_PCT),
    );
    let second = build_transfer(
        &GELOTTO_ANNUAL_GRAND_PRIZE_ADDR.to_owned(),
        token,
        compute_amount_from_pct(total_tax, GELOTTO_ANNUAL_GRAND_PRIZE_PCT),
    );
    let third = build_transfer(
        &GELOTTO_NFT_1_REWARDS_ADDR.to_owned(),
        token,
        compute_amount_from_pct(total_tax, GELOTTO_NFT_1_REWARDS_PCT),
    );
    transfers.push(first);
    transfers.push(second);
    transfers.push(third);
    proof {
        assert(transfers.deep_view() =~= old(transfers).deep_view() + tax_transfers(
            token@,
            total_tax as int,
        ));
    }
}

/// Adds one instruction over `share` for each of `winners`, in their order.
fn append_prize_msgs(transfers: &mut Vec<Transfer>, token: &Token, winners: &Vec<String>, share: u128)
    ensures
        final(transfers).deep_view() == old(transfers).deep_view() + prize_transfers(
            token@,
            winners.deep_view(),
            share as int,
        ),
{
    let ghost before = transfers.deep_view();
    let mut i: usize = 0;
    while i < winners.len()
        invariant
            i <= winners.len(),
            transfers.len() == before.len() + i,
            forall|j: int| 0 <= j < before.len() ==> (#[trigger] transfers[j])@ == before[j],
            forall|j: int|
                before.len() <= j < transfers.len() ==> (#[trigger] transfers[j])@ == transfer_of(
                    winners[j - before.len()]@,
                    token@,
                    share as int,
                ),
        decreases winners.len() - i,
    {
        transfers.push(build_transfer(&winners[i], token, share));
        i += 1;
    }
    proof {
        assert(transfers.deep_view() =~= before + prize_transfers(
            token@,
            winners.deep_view(),
            share as int,
        ));
    }
}

/// Resolves the open quarter: `winner` is the winning cell.
///
/// The wallets in the winning cell share the quarter's prize, less the tax, in
/// equal parts. Where the cell is empty, the share of the quarter is carried
/// forward to the quarters that remain, or, in the last quarter, refunds
/// become claimable. Either way the next quarter is open afterwards. A
/// command that is turned down changes nothing.
pub fn choose_winner(state: &mut State, sender: &String, winner: GridCoordinates) -> (res: Result<
    Vec<Transfer>,
    ContractError,
>)
    requires
        old(state)@.wf(),
    ensures
        final(state)@.wf(),
        match res {
            Ok(transfers) => {
                &&& choose_winner_error(old(state)@, sender@, winner) is None
                &&& final(state)@ == choose_winner_next(old(state)@, winner)
                &&& transfers.deep_view() == choose_winner_transfers(old(state)@, winner)
            },
            Err(e) => {
                &&& choose_winner_error(old(state)@, sender@, winner) == Some(e)
                &&& final(state)@ == old(state)@
            },
        },
        pct_sum(final(state)@.game.quarters) == 100,
        res is Ok ==> final(state)@.game.quarter_index == old(state)@.game.quarter_index + 1,
        forall|i: int|
            0 <= i < QUARTER_COUNT && (#[trigger] old(state)@.game.quarters[i]).winner is Some
                ==> final(state)@.game.quarters[i].winner == old(state)@.game.quarters[i].winner,
{
    match require_admin(&state.game, sender) {
        Err(e) => {
            return Err(e);
        },
        Ok(_) => {},
    }
    if state.game.is_over() {
        return Err(ContractError::GameOver);
    }
    if !state.game.has_started {
        return Err(ContractError::NotStarted);
    }
    let k: usize = state.game.quarter_index as usize;
    if state.game.quarters[k].winner.is_some() {
        return Err(ContractError::AlreadyResolved);
    }
    if winner.0 >= GRID_SIDE || winner.1 >= GRID_SIDE {
        return Err(ContractError::CoordinatesOutOfBounds);
    }
    let index: usize = winner.0 as usize * 10 + winner.1 as usize;
    let ghost pre = state@;
    proof {
        lemma_pct_sum_four(pre.game.quarters);
        lemma_pct_of_bounded(pre.game.token_amount as int, pre.game.quarters[k as int].pct as int);
        lemma_pct_of_bounded(
            full_prize(pre.game.token_amount as int, pre.game.quarters[k as int].pct as int),
            PRIZE_PCT as int,
        );
        lemma_pct_sum_with_winner(pre.game.quarters, k as int, winner);
    }
    let full: u128 = compute_amount_from_pct(state.game.token_amount, state.game.quarters[k].pct);
    let net: u128 = compute_amount_from_pct(full, PRIZE_PCT);
    let mut transfers: Vec<Transfer> = Vec::new();
    let resolved = with_winner(&state.game.quarters, k, winner);
    let count: usize = state.grid[index].wallets.len();
    if count > 0 {
        append_gelotto_tax_msgs(&mut transfers, &state.game.token, full - net);
        let share: u128 = net / (count as u128);
        append_prize_msgs(&mut transfers, &state.game.token, &state.grid[index].wallets, share);
        state.game.quarters = resolved;
    } else if k == state.game.quarters.len() - 1 {
        state.game.can_claim_refund = true;
        state.game.quarters = resolved;
    } else {
        proof {
            lemma_redistributed(resolved.deep_view(), k as int);
        }
        state.game.quarters = carry_forward(&resolved, k);
    }
    state.game.quarter_index = state.game.quarter_index + 1;
    proof {
        assert(state@.game.quarters =~= resolved_quarters(pre, winner));
        assert(transfers.deep_view() =~= choose_winner_transfers(pre, winner));
    }
    Ok(transfers)
}

} // verus!
