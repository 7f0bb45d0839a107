use vstd::prelude::*;
use crate::error::ContractError;
use crate::models::{
    Cell, CellView, Coin, CoinView, GameView, GridCoordinates, Player, PlayerView, Position, Token,
    TokenView, clone_label,
};
use crate::state::{
    cell_index, cells_of, find_player, in_grid, lemma_price_sum_concat,
    lemma_price_sum_nonnegative, lemma_price_sum_same_prices, lemma_slot_is_unique,
    lemma_total_spend_same_prices, lemma_total_spend_update, price_sum, wallets_of, State,
    StateView, GRID_SIDE,
};

verus! {

/// The grid after `buyer` has bought the cell at `coords`, or why they cannot:
/// there is no such cell, the cell is full, or they hold it already.
pub open spec fn buy_one(
    grid: Seq<CellView>,
    max_players_per_cell: Option<u16>,
    buyer: Seq<char>,
    coords: GridCoordinates,
) -> Result<Seq<CellView>, ContractError> {
    if !in_grid(coords) || cell_index(coords) >= grid.len() {
        Err(ContractError::CoordinatesOutOfBounds)
    } else {
        let cell = grid[cell_index(coords)];
        if max_players_per_cell is Some && cell.wallets.len() == max_players_per_cell.unwrap() {
            Err(ContractError::CellSoldOut)
        } else if cell.wallets.contains(buyer) {
            Err(ContractError::NotAuthorized)
        } else {
            Ok(grid.update(cell_index(coords), CellView { wallets: cell.wallets.push(buyer), ..cell }))
        }
    }
}

/// The grid after `buyer` has bought the cells at `coords` one after the
/// other, or why the first of them that cannot be bought cannot.
pub open spec fn buy_all(
    grid: Seq<CellView>,
    max_players_per_cell: Option<u16>,
    buyer: Seq<char>,
    coords: Seq<GridCoordinates>,
) -> Result<Seq<CellView>, ContractError>
    decreases coords.len(),
{
    if coords.len() == 0 {
        Ok(grid)
    } else {
        match buy_all(grid, max_players_per_cell, buyer, coords.drop_last()) {
            Ok(bought) => buy_one(bought, max_players_per_cell, buyer, coords.last()),
            Err(e) => Err(e),
        }
    }
}

/// What comes with a command in the coin `denom`: the amount of the first
/// coin of that denomination, if there is one.
pub open spec fn attached_amount(funds: Seq<CoinView>, denom: Seq<char>) -> Option<u128>
    decreases funds.len(),
{
    if funds.len() == 0 {
        None
    } else if funds[0].denom == denom {
        Some(funds[0].amount)
    } else {
        attached_amount(funds.drop_first(), denom)
    }
}

/// Why `funds` do not pay `payment_amount` in the coin `denom`, if they do
/// not: the payment has to be exact.
pub open spec fn native_funds_error(
    funds: Seq<CoinView>,
    payment_amount: int,
    denom: Seq<char>,
) -> Option<ContractError> {
    match attached_amount(funds, denom) {
        Some(amount) => if amount < payment_amount {
            Some(ContractError::InsufficientFunds)
        } else if amount > payment_amount {
            Some(ContractError::ExcessFunds)
        } else {
            None
        },
        None => Some(ContractError::InsufficientFunds),
    }
}

/// Why a balance of `balance` does not cover `payment_amount`, if it does not.
pub open spec fn cw20_funds_error(balance: u128, payment_amount: int) -> Option<ContractError> {
    if balance < payment_amount {
        Some(ContractError::InsufficientFunds)
    } else {
        None
    }
}

/// Why a payment of `payment_amount` in `token` is not in order, if it is not.
pub open spec fn funds_error(
    token: TokenView,
    funds: Seq<CoinView>,
    cw20_balance: u128,
    payment_amount: int,
) -> Option<ContractError> {
    match token {
        TokenView::Native { denom } => native_funds_error(funds, payment_amount, denom),
        TokenView::Cw20 { .. } => cw20_funds_error(cw20_balance, payment_amount),
    }
}

/// The positions that a purchase of the cells at `coords` adds, while quarter
/// `quarter_index` is open.
pub open spec fn positions_for(coords: Seq<GridCoordinates>, quarter_index: u8) -> Seq<Position> {
    coords.map_values(|cell: GridCoordinates| Position { coords: cell, quarter_index })
}

/// Why a purchase is turned down, if it is.
pub open spec fn buy_cells_error(
    pre: StateView,
    caller: Seq<char>,
    coords: Seq<GridCoordinates>,
    funds: Seq<CoinView>,
    cw20_balance: u128,
) -> Option<ContractError> {
    if !pre.knows(caller) {
        Some(ContractError::NotAuthorized)
    } else if pre.game.is_over() {
        Some(ContractError::GameOver)
    } else {
        match buy_all(pre.grid, pre.game.max_players_per_cell, caller, coords) {
            Err(e) => Some(e),
            Ok(_) => funds_error(pre.game.token, funds, cw20_balance, price_sum(pre.grid, coords)),
        }
    }
}

/// The state after `caller` has bought the cells at `coords`.
pub open spec fn buy_cells_next(
    pre: StateView,
    caller: Seq<char>,
    coords: Seq<GridCoordinates>,
) -> StateView {
    let slot = pre.slot(caller);
    let player = pre.players[slot];
    StateView {
        game: GameView {
            token_amount: (pre.game.token_amount + price_sum(pre.grid, coords)) as u128,
            ..pre.game
        },
        players: pre.players.update(
            slot,
            PlayerView {
                positions: player.positions + positions_for(coords, pre.game.quarter_index),
                ..player
            },
        ),
        grid: match buy_all(pre.grid, pre.game.max_players_per_cell, caller, coords) {
            Ok(bought) => bought,
            Err(_) => pre.grid,
        },
    }
}

/// Whether the pool can take the price of the purchase, where the purchase
/// is in order.
pub open spec fn buy_cells_fits(
    pre: StateView,
    caller: Seq<char>,
    coords: Seq<GridCoordinates>,
    funds: Seq<CoinView>,
    cw20_balance: u128,
) -> bool {
    buy_cells_error(pre, caller, coords, funds, cw20_balance) is None ==> pre.game.token_amount
        + price_sum(pre.grid, coords) <= u128::MAX
}

/// A purchase that fails on some of its cells fails in the same way however
/// many cells come after those.
pub proof fn lemma_buy_all_prefix_error(
    grid: Seq<CellView>,
    max_players_per_cell: Option<u16>,
    buyer: Seq<char>,
    coords: Seq<GridCoordinates>,
    n: int,
)
    requires
        0 <= n <= coords.len(),
        buy_all(grid, max_players_per_cell, buyer, coords.take(n)) is Err,
    ensures
        buy_all(grid, max_players_per_cell, buyer, coords) == buy_all(
            grid,
            max_players_per_cell,
            buyer,
            coords.take(n),
        ),
    decreases coords.len(),
{
    if n < coords.len() {
        assert(coords.drop_last().take(n) =~= coords.take(n));
        lemma_buy_all_prefix_error(grid, max_players_per_cell, buyer, coords.drop_last(), n);
    } else {
        assert(coords.take(n) =~= coords);
    }
}

/// Whether a cell is in order: no wallet is in it twice, and it holds no
/// more wallets than the limit allows.
pub open spec fn cell_in_order(cell: CellView, max_players_per_cell: Option<u16>) -> bool {
    &&& cell.wallets.no_duplicates()
    &&& max_players_per_cell is Some ==> cell.wallets.len() <= max_players_per_cell.unwrap()
}

/// A purchase changes the grid in one way only: the buyer joins the wallets
/// of the cells bought. No cell comes or goes, no price changes, no wallet
/// leaves a cell, and a cell that was in order stays in order.
pub proof fn lemma_purchase_only_adds_wallets(
    grid: Seq<CellView>,
    max_players_per_cell: Option<u16>,
    buyer: Seq<char>,
    coords: Seq<GridCoordinates>,
)
    requires
        buy_all(grid, max_players_per_cell, buyer, coords) is Ok,
    ensures
        buy_all(grid, max_players_per_cell, buyer, coords) matches Ok(bought) ==> {
            &&& bought.len() == grid.len()
            &&& forall|i: int| 0 <= i < grid.len() ==> (#[trigger] bought[i]).price == grid[i].price
            &&& forall|i: int|
                0 <= i < grid.len() ==> grid[i].wallets.is_prefix_of((#[trigger] bought[i]).wallets)
            &&& forall|i: int|
                0 <= i < grid.len() && cell_in_order(grid[i], max_players_per_cell)
                    ==> cell_in_order(#[trigger] bought[i], max_players_per_cell)
        },
    decreases coords.len(),
{
    if coords.len() > 0 {
        let earlier = buy_all(grid, max_players_per_cell, buyer, coords.drop_last());
        lemma_purchase_only_adds_wallets(grid, max_players_per_cell, buyer, coords.drop_last());
        let before = earlier->Ok_0;
        let bought = buy_all(grid, max_players_per_cell, buyer, coords)->Ok_0;
        let index = cell_index(coords.last());
        assert(bought == before.update(
            index,
            CellView { wallets: before[index].wallets.push(buyer), ..before[index] },
        ));
        assert forall|i: int| 0 <= i < grid.len() implies grid[i].wallets.is_prefix_of(
            (#[trigger] bought[i]).wallets,
        ) by {
            assert(grid[i].wallets.is_prefix_of(before[i].wallets));
        }
        assert forall|i: int|
            0 <= i < grid.len() && cell_in_order(grid[i], max_players_per_cell) implies cell_in_order(
            #[trigger] bought[i],
            max_players_per_cell,
        ) by {
            assert(cell_in_order(before[i], max_players_per_cell));
        }
    }
}

/// Only cells of the grid are bought.
pub proof fn lemma_purchase_stays_in_grid(
    grid: Seq<CellView>,
    max_players_per_cell: Option<u16>,
    buyer: Seq<char>,
    coords: Seq<GridCoordinates>,
)
    requires
        buy_all(grid, max_players_per_cell, buyer, coords) is Ok,
    ensures
        forall|j: int| 0 <= j < coords.len() ==> in_grid(#[trigger] coords[j]),
    decreases coords.len(),
{
    if coords.len() > 0 {
        lemma_purchase_stays_in_grid(grid, max_players_per_cell, buyer, coords.drop_last());
        assert forall|j: int| 0 <= j < coords.len() implies in_grid(#[trigger] coords[j]) by {
            if j < coords.len() - 1 {
                assert(coords.drop_last()[j] == coords[j]);
            }
        }
    }
}

/// A purchase that is in order, and whose price the pool can take, leaves the
/// state in order.
pub proof fn lemma_buy_cells_keeps_order(
    pre: StateView,
    caller: Seq<char>,
    coords: Seq<GridCoordinates>,
    funds: Seq<CoinView>,
    cw20_balance: u128,
)
    requires
        pre.wf(),
        buy_cells_error(pre, caller, coords, funds, cw20_balance) is None,
        buy_cells_fits(pre, caller, coords, funds, cw20_balance),
    ensures
        buy_cells_next(pre, caller, coords).wf(),
{
    let post = buy_cells_next(pre, caller, coords);
    let max = pre.game.max_players_per_cell;
    let slot = pre.slot(caller);
    let buyer = post.players[slot];
    lemma_purchase_only_adds_wallets(pre.grid, max, caller, coords);
    lemma_purchase_stays_in_grid(pre.grid, max, caller, coords);
    lemma_price_sum_nonnegative(pre.grid, coords);
    lemma_total_spend_same_prices(pre.grid, post.grid, pre.players);
    lemma_total_spend_update(post.grid, pre.players, slot, buyer);
    lemma_price_sum_same_prices(pre.grid, post.grid, coords);
    lemma_price_sum_same_prices(pre.grid, post.grid, cells_of(pre.players[slot].positions));
    assert(cells_of(buyer.positions) =~= cells_of(pre.players[slot].positions) + coords);
    lemma_price_sum_concat(post.grid, cells_of(pre.players[slot].positions), coords);
    assert(wallets_of(post.players) =~= wallets_of(pre.players));
}

/// Whether `wallet` is among `wallets`.
fn has_wallet(wallets: &Vec<String>, wallet: &String) -> (found: bool)
    ensures
        found == wallets.deep_view().contains(wallet@),
{
    let mut i: usize = 0;
    while i < wallets.len()
        invariant
            i <= wallets.len(),
            forall|j: int| 0 <= j < i ==> wallets.deep_view()[j] != wallet@,
        decreases wallets.len() - i,
    {
        if wallets[i] == *wallet {
            assert(wallets.deep_view()[i as int] == wallet@);
            return true;
        }
        i += 1;
    }
    false
}

/// Checks that `funds` hold exactly `payment_amount` of the coin `denom`.
pub fn verify_native_funds(funds: &Vec<Coin>, payment_amount: u128, denom: &String) -> (res: Result<
    (),
    ContractError,
>)
    ensures
        match res {
            Ok(_) => native_funds_error(funds.deep_view(), payment_amount as int, denom@) is None,
            Err(e) => native_funds_error(funds.deep_view(), payment_amount as int, denom@) == Some(e),
        },
{
    let ghost all = funds.deep_view();
    assert(all.skip(0) =~= all);
    let mut i: usize = 0;
    while i < funds.len()
        invariant
            i <= funds.len(),
            all == funds.deep_view(),
            attached_amount(all, denom@) == attached_amount(all.skip(i as int), denom@),
        decreases funds.len() - i,
    {
        let coin = &funds[i];
        proof {
            assert(all.skip(i as int)[0] == coin@);
            assert(all.skip(i as int).drop_first() =~= all.skip(i + 1));
        }
        if coin.denom == *denom {
            if coin.amount < payment_amount {
                return Err(ContractError::InsufficientFunds);
            } else if coin.amount > payment_amount {
                return Err(ContractError::ExcessFunds);
            }
            return Ok(());
        }
        i += 1;
    }
    Err(ContractError::InsufficientFunds)
}

/// Checks that the buyer's balance of the token, `balance`, covers
/// `payment_amount`.
pub fn verify_cw20_funds(balance: u128, payment_amount: u128) -> (res: Result<(), ContractError>)
    ensures
        match res {
            Ok(_) => cw20_funds_error(balance, payment_amount as int) is None,
            Err(e) => cw20_funds_error(balance, payment_amount as int) == Some(e),
        },
{
    if balance < payment_amount {
        return Err(ContractError::InsufficientFunds);
    }
    Ok(())
}

/// A purchase that is in order and not yet part of the state.
struct Purchase {
    slot: usize,
    grid: Vec<Cell>,
    positions: Vec<Position>,
    total: u128,
}

/// Copies a grid.
fn clone_grid(grid: &Vec<Cell>) -> (res: Vec<Cell>)
    ensures
        res.deep_view() == grid.deep_view(),
{
    let res = grid.clone();
    assert(res.deep_view() =~= grid.deep_view());
    res
}

/// Goes through a purchase without changing the state: the grid and the
/// buyer's positions as they would be after it, and its price.
fn prepare(
    state: &State,
    sender: &String,
    coordinates: &Vec<GridCoordinates>,
    funds: &Vec<Coin>,
    cw20_balance: u128,
) -> (res: Result<Purchase, ContractError>)
    requires
        state@.wf(),
    ensures
        match res {
            Ok(purchase) => {
                &&& buy_cells_error(
                    state@,
                    sender@,
                    coordinates@,
                    funds.deep_view(),
                    cw20_balance,
                ) is None
                &&& purchase.slot == state@.slot(sender@)
                &&& purchase.slot < state.players.len()
                &&& Ok::<Seq<CellView>, ContractError>(purchase.grid.deep_view()) == buy_all(
                    state@.grid,
                    state@.game.max_players_per_cell,
                    sender@,
                    coordinates@,
                )
                &&& purchase.positions@ == state@.players[purchase.slot as int].positions
                    + positions_for(coordinates@, state@.game.quarter_index)
                &&& purchase.total == price_sum(state@.grid, coordinates@)
            },
            Err(e) => buy_cells_error(
                state@,
                sender@,
                coordinates@,
                funds.deep_view(),
                cw20_balance,
            ) == Some(e),
        },
{
    let slot: usize = match find_player(&state.players, sender) {
        Some(slot) => slot,
        None => {
            return Err(ContractError::NotAuthorized);
        },
    };
    proof {
        lemma_slot_is_unique(wallets_of(state@.players), slot as int);
    }
    if state.game.is_over() {
        return Err(ContractError::GameOver);
    }
    let ghost pre = state@;
    let ghost max = pre.game.max_players_per_cell;
    let ghost coords = coordinates@;
    let mut grid = clone_grid(&state.grid);
    let mut positions = state.players[slot].positions.clone();
    assert(positions@ =~= pre.players[slot as int].positions + positions_for(
        coords.take(0),
        pre.game.quarter_index,
    ));
    let mut total: u128 = 0;
    let mut too_much = false;
    let mut i: usize = 0;
    while i < coordinates.len()
        invariant
            i <= coordinates.len(),
            pre == state@,
            pre.wf(),
            pre.knows(sender@),
            !pre.game.is_over(),
            max == pre.game.max_players_per_cell,
            coords == coordinates@,
            slot < state.players.len(),
            Ok::<Seq<CellView>, ContractError>(grid.deep_view()) == buy_all(
                pre.grid,
                max,
                sender@,
                coords.take(i as int),
            ),
            grid.len() == pre.grid.len(),
            forall|j: int|
                0 <= j < grid.len() ==> (#[trigger] grid.deep_view()[j]).price == pre.grid[j].price,
            positions@ == pre.players[slot as int].positions + positions_for(
                coords.take(i as int),
                pre.game.quarter_index,
            ),
            !too_much ==> total == price_sum(pre.grid, coords.take(i as int)),
            too_much ==> price_sum(pre.grid, coords.take(i as int)) > u128::MAX,
        decreases coordinates.len() - i,
    {
        let cell_coords = coordinates[i];
        let ghost before = grid.deep_view();
        proof {
            assert(coords.take(i + 1).drop_last() =~= coords.take(i as int));
            assert(coords.take(i + 1).last() == cell_coords);
            assert(buy_all(pre.grid, max, sender@, coords.take(i + 1)) == buy_one(
                before,
                max,
                sender@,
                cell_coords,
            ));
        }
        if cell_coords.0 >= GRID_SIDE || cell_coords.1 >= GRID_SIDE {
            proof {
                lemma_buy_all_prefix_error(pre.grid, max, sender@, coords, i + 1);
            }
            return Err(ContractError::CoordinatesOutOfBounds);
        }
        let index: usize = cell_coords.0 as usize * 10 + cell_coords.1 as usize;
        let cell = &grid[index];
        assert(cell@ == grid.deep_view()[index as int]);
        let sold_out = match state.game.max_players_per_cell {
            Some(limit) => cell.wallets.len() == limit as usize,
            None => false,
        };
        if sold_out {
            proof {
                lemma_buy_all_prefix_error(pre.grid, max, sender@, coords, i + 1);
            }
            return Err(ContractError::CellSoldOut);
        }
        if has_wallet(&cell.wallets, sender) {
            proof {
                lemma_buy_all_prefix_error(pre.grid, max, sender@, coords, i + 1);
            }
            return Err(ContractError::NotAuthorized);
        }
        let price: u128 = cell.price;
        let mut wallets = cell.wallets.clone();
        wallets.push(sender.clone());
        assert(wallets.deep_view() =~= before[index as int].wallets.push(sender@));
        grid[index] = Cell { wallets, price };
        proof {
            assert(grid.deep_view() =~= before.update(
                index as int,
                CellView { wallets: before[index as int].wallets.push(sender@), ..before[index as int] },
            ));
            lemma_price_sum_nonnegative(pre.grid, coords.take(i as int));
            let added = Position { coords: cell_coords, quarter_index: pre.game.quarter_index };
            assert(positions@.push(added) =~= pre.players[slot as int].positions + positions_for(
                coords.take(i + 1),
                pre.game.quarter_index,
            ));
        }
        positions.push(Position { coords: cell_coords, quarter_index: state.game.quarter_index });
        if !too_much {
            match total.checked_add(price) {
                Some(sum) => {
                    total = sum;
                },
                None => {
                    too_much = true;
                },
            }
        }
        i += 1;
    }
    proof {
        assert(coords.take(i as int) =~= coords);
    }
    if too_much {
        proof {
            assert(funds_error(
                pre.game.token,
                funds.deep_view(),
                cw20_balance,
                price_sum(pre.grid, coords),
            ) == Some(ContractError::InsufficientFunds));
        }
        return Err(ContractError::InsufficientFunds);
    }
    let paid = match &state.game.token {
        Token::Native { denom } => verify_native_funds(funds, total, denom),
        Token::Cw20 { .. } => verify_cw20_funds(cw20_balance, total),
    };
    match paid {
        Err(e) => Err(e),
        Ok(_) => Ok(Purchase { slot, grid, positions, total }),
    }
}

/// Buys the cells at `coordinates` for `sender`, unless the pool cannot take
/// their price.
///
/// The result is `None`, and nothing changes, where the purchase is in order
/// but the pool, with the price added, would not fit in a `u128`. Otherwise it
/// is what [`buy_cells`] returns, with the same effect.
pub fn try_buy_cells(
    state: &mut State,
    sender: &String,
    coordinates: &Vec<GridCoordinates>,
    funds: &Vec<Coin>,
    cw20_balance: u128,
) -> (res: Option<Result<(), ContractError>>)
    requires
        old(state)@.wf(),
    ensures
        final(state)@.wf(),
        res is None <==> !buy_cells_fits(
            old(state)@,
            sender@,
            coordinates@,
            funds.deep_view(),
            cw20_balance,
        ),
        match res {
            Some(Ok(_)) => {
                &&& buy_cells_error(
                    old(state)@,
                    sender@,
                    coordinates@,
                    funds.deep_view(),
                    cw20_balance,
                ) is None
                &&& final(state)@ == buy_cells_next(old(state)@, sender@, coordinates@)
            },
            Some(Err(e)) => {
                &&& buy_cells_error(
                    old(state)@,
                    sender@,
                    coordinates@,
                    funds.deep_view(),
                    cw20_balance,
                ) == Some(e)
                &&& final(state)@ == old(state)@
            },
            None => final(state)@ == old(state)@,
        },
{
    let purchase = match prepare(state, sender, coordinates, funds, cw20_balance) {
        Ok(purchase) => purchase,
        Err(e) => {
            return Some(Err(e));
        },
    };
    let pool: u128 = match state.game.token_amount.checked_add(purchase.total) {
        Some(pool) => pool,
        None => {
            return None;
        },
    };
    let ghost pre = state@;
    let slot: usize = purchase.slot;
    let player = &state.players[slot];
    let buyer = Player {
        wallet: player.wallet.clone(),
        name: clone_label(&player.name),
        color: clone_label(&player.color),
        positions: purchase.positions,
        has_claimed_refund: player.has_claimed_refund,
    };
    proof {
        lemma_buy_cells_keeps_order(pre, sender@, coordinates@, funds.deep_view(), cw20_balance);
    }
    state.players[slot] = buyer;
    state.grid = purchase.grid;
    state.game.token_amount = pool;
    proof {
        assert(state@.players =~= pre.players.update(slot as int, buyer@));
        assert(state@ == buy_cells_next(pre, sender@, coordinates@));
    }
    Some(Ok(()))
}

/// Buys the cells at `coordinates` for `sender`.
///
/// The cells are taken one after the other, each at its price, and the
/// payment is checked against the sum: `funds` for a native coin, which have
/// to hold the sum exactly, `cw20_balance` for a token, which has to cover it.
/// The purchase is made as a whole or not at all: where it is turned down,
/// nothing changes.
pub fn buy_cells(
    state: &mut State,
    sender: &String,
    coordinates: &Vec<GridCoordinates>,
    funds: &Vec<Coin>,
    cw20_balance: u128,
) -> (res: Result<(), ContractError>)
    requires
        old(state)@.wf(),
        buy_cells_fits(old(state)@, sender@, coordinates@, funds.deep_view(), cw20_balance),
    ensures
        final(state)@.wf(),
        match res {
            Ok(_) => {
                &&& buy_cells_error(
                    old(state)@,
                    sender@,
                    coordinates@,
                    funds.deep_view(),
                    cw20_balance,
                ) is None
                &&& final(state)@ == buy_cells_next(old(state)@, sender@, coordinates@)
            },
            Err(e) => {
                &&& buy_cells_error(
                    old(state)@,
                    sender@,
                    coordinates@,
                    funds.deep_view(),
                    cw20_balance,
                ) == Some(e)
                &&& final(state)@ == old(state)@
            },
        },
{
    try_buy_cells(state, sender, coordinates, funds, cw20_balance).unwrap()
}

} // verus!
