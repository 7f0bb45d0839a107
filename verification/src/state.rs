use vstd::prelude::*;
use crate::error::ContractError;
use crate::models::{
    clone_label, Cell, CellView, Game, GameView, GridCoordinates, Player, PlayerView, Position,
    Quarter, QuarterView, Team,
};
use crate::msg::{InstantiateMsg, InstantiateMsgView};

verus! {

/// Rows, and columns, of the grid.
pub const GRID_SIDE: u8 = 10;

/// Cells of the grid.
pub const GRID_CELLS: usize = 100;

/// Quarters of a game.
pub const QUARTER_COUNT: usize = 4;

/// Teams of a game.
pub const TEAM_COUNT: usize = 2;

/// Everything that is kept between two commands: the game, the players and
/// the grid. The cell at row `r` and column `c` stands at index `10 * r + c`
/// of `grid`.
#[derive(Debug, PartialEq, Eq)]
pub struct State {
    pub game: Game,
    pub players: Vec<Player>,
    pub grid: Vec<Cell>,
}

/// What a [`State`] stands for.
pub struct StateView {
    pub game: GameView,
    pub players: Seq<PlayerView>,
    pub grid: Seq<CellView>,
}

impl View for State {
    type V = StateView;

    open spec fn view(&self) -> StateView {
        StateView {
            game: self.game@,
            players: self.players.deep_view(),
            grid: self.grid.deep_view(),
        }
    }
}

impl Clone for State {
    fn clone(&self) -> (res: Self)
        ensures
            res@ == self@,
    {
        let players = self.players.clone();
        assert(players.deep_view() =~= self.players.deep_view());
        let grid = self.grid.clone();
        assert(grid.deep_view() =~= self.grid.deep_view());
        State { game: self.game.clone(), players, grid }
    }
}

/// Whether `coords` names a cell of the grid.
pub open spec fn in_grid(coords: GridCoordinates) -> bool {
    coords.0 < GRID_SIDE && coords.1 < GRID_SIDE
}

/// Where in the grid the cell at `coords` stands.
pub open spec fn cell_index(coords: GridCoordinates) -> int {
    coords.0 as int * 10 + coords.1 as int
}

/// The coordinates of the cell that stands at `index`.
pub open spec fn cell_coords(index: int) -> GridCoordinates {
    ((index / 10) as u8, (index % 10) as u8)
}

/// The sum of the quarters' shares of the pool.
pub open spec fn pct_sum(quarters: Seq<QuarterView>) -> int
    decreases quarters.len(),
{
    if quarters.len() == 0 {
        0
    } else {
        pct_sum(quarters.drop_last()) + quarters.last().pct as int
    }
}

/// The shares of four quarters, written out.
pub proof fn lemma_pct_sum_four(quarters: Seq<QuarterView>)
    requires
        quarters.len() == 4,
    ensures
        pct_sum(quarters) == quarters[0].pct + quarters[1].pct + quarters[2].pct + quarters[3].pct,
{
    let three = quarters.drop_last();
    let two = three.drop_last();
    let one = two.drop_last();
    assert(one.drop_last().len() == 0);
    assert(pct_sum(one) == quarters[0].pct) by {
        assert(pct_sum(one.drop_last()) == 0);
    }
    assert(pct_sum(two) == pct_sum(one) + quarters[1].pct);
    assert(pct_sum(three) == pct_sum(two) + quarters[2].pct);
}

/// The wallets of `players`, in the same order.
pub open spec fn wallets_of(players: Seq<PlayerView>) -> Seq<Seq<char>> {
    players.map_values(|player: PlayerView| player.wallet)
}

/// The price of the cell at `coords`; nothing where the grid has no such cell.
pub open spec fn price_at(grid: Seq<CellView>, coords: GridCoordinates) -> int {
    if in_grid(coords) && cell_index(coords) < grid.len() {
        grid[cell_index(coords)].price as int
    } else {
        0
    }
}

/// The prices of the cells at `coords`, added up.
pub open spec fn price_sum(grid: Seq<CellView>, coords: Seq<GridCoordinates>) -> int
    decreases coords.len(),
{
    if coords.len() == 0 {
        0
    } else {
        price_sum(grid, coords.drop_last()) + price_at(grid, coords.last())
    }
}

/// The cells that `positions` record, in the same order.
pub open spec fn cells_of(positions: Seq<Position>) -> Seq<GridCoordinates> {
    positions.map_values(|position: Position| position.coords)
}

/// What a player has paid for the cells that `positions` record.
pub open spec fn spend(grid: Seq<CellView>, positions: Seq<Position>) -> int {
    price_sum(grid, cells_of(positions))
}

/// What all of `players` together have paid for their cells.
pub open spec fn total_spend(grid: Seq<CellView>, players: Seq<PlayerView>) -> int
    decreases players.len(),
{
    if players.len() == 0 {
        0
    } else {
        total_spend(grid, players.drop_last()) + spend(grid, players.last().positions)
    }
}

/// Whether every cell has a price.
pub open spec fn prices_positive(grid: Seq<CellView>) -> bool {
    forall|i: int| 0 <= i < grid.len() ==> (#[trigger] grid[i]).price > 0
}

/// Whether every position of every player is a cell of the grid.
pub open spec fn positions_in_grid(players: Seq<PlayerView>) -> bool {
    forall|i: int, k: int|
        0 <= i < players.len() && 0 <= k < players[i].positions.len() ==> in_grid(
            (#[trigger] players[i].positions[k]).coords,
        )
}

impl StateView {
    /// What holds of the state between any two commands: there are four
    /// quarters, whose shares add up to 100, two teams and a hundred cells,
    /// each with a price; no wallet belongs to two players; every position is
    /// a cell of the grid; and the pool holds what the players have spent.
    pub open spec fn wf(self) -> bool {
        &&& self.game.quarters.len() == QUARTER_COUNT
        &&& pct_sum(self.game.quarters) == 100
        &&& self.game.quarter_index <= QUARTER_COUNT
        &&& self.game.teams.len() == TEAM_COUNT
        &&& self.grid.len() == GRID_CELLS
        &&& prices_positive(self.grid)
        &&& wallets_of(self.players).no_duplicates()
        &&& positions_in_grid(self.players)
        &&& total_spend(self.grid, self.players) == self.game.token_amount
    }

    /// Whether `wallet` belongs to a player.
    pub open spec fn knows(self, wallet: Seq<char>) -> bool {
        wallets_of(self.players).contains(wallet)
    }

    /// Where the player with `wallet` stands among the players.
    pub open spec fn slot(self, wallet: Seq<char>) -> int {
        wallets_of(self.players).index_of(wallet)
    }
}

/// Looks `wallet` up among `players`.
pub fn find_player(players: &Vec<Player>, wallet: &String) -> (found: Option<usize>)
    ensures
        match found {
            Some(i) => {
                &&& i < players.len()
                &&& wallets_of(players.deep_view())[i as int] == wallet@
                &&& forall|j: int| 0 <= j < i ==> wallets_of(players.deep_view())[j] != wallet@
            },
            None => !wallets_of(players.deep_view()).contains(wallet@),
        },
{
    let mut i: usize = 0;
    while i < players.len()
        invariant
            i <= players.len(),
            forall|j: int| 0 <= j < i ==> wallets_of(players.deep_view())[j] != wallet@,
        decreases players.len() - i,
    {
        if players[i].wallet == *wallet {
            return Some(i);
        }
        i += 1;
    }
    None
}

/// Among wallets that do not repeat, a wallet is found where it stands.
pub proof fn lemma_slot_is_unique(wallets: Seq<Seq<char>>, i: int)
    requires
        wallets.no_duplicates(),
        0 <= i < wallets.len(),
    ensures
        wallets.contains(wallets[i]),
        wallets.index_of(wallets[i]) == i,
{
}

/// Only the administrator passes.
pub fn require_admin(game: &Game, addr: &String) -> (res: Result<(), ContractError>)
    ensures
        res == if game@.admin == addr@ {
            Ok::<(), ContractError>(())
        } else {
            Err(ContractError::NotAuthorized)
        },
{
    if game.admin != *addr {
        return Err(ContractError::NotAuthorized);
    }
    Ok(())
}

/// A player as the game takes it on: with nothing bought and nothing claimed.
pub open spec fn enrolled(player: PlayerView) -> PlayerView {
    PlayerView { positions: Seq::empty(), has_claimed_refund: false, ..player }
}

/// The players that a set-up names.
pub open spec fn listed_players(msg: InstantiateMsgView) -> Seq<PlayerView> {
    match msg.players {
        Some(players) => players,
        None => Seq::empty(),
    }
}

/// The player that stands for the creator of a game who is not among the
/// players that the set-up names.
pub open spec fn creator(sender: Seq<char>) -> PlayerView {
    PlayerView {
        wallet: sender,
        name: None,
        color: None,
        positions: Seq::empty(),
        has_claimed_refund: false,
    }
}

/// The players of a new game: those that the set-up names, then its creator
/// unless named already.
pub open spec fn initial_players(sender: Seq<char>, msg: InstantiateMsgView) -> Seq<PlayerView> {
    let listed = listed_players(msg).map_values(|player: PlayerView| enrolled(player));
    if wallets_of(listed).contains(sender) {
        listed
    } else {
        listed.push(creator(sender))
    }
}

/// A quarter as the game takes it on: without a winner.
pub open spec fn unresolved(quarter: QuarterView) -> QuarterView {
    QuarterView { winner: None, ..quarter }
}

/// What is wrong with a cell of a set-up, if anything: the price first, then
/// the wallets that it is seeded with.
pub open spec fn cell_error(cell: CellView, known: Seq<Seq<char>>) -> Option<ContractError> {
    if cell.price == 0 {
        Some(ContractError::InvalidGridCellPrice)
    } else if exists|k: int| 0 <= k < cell.wallets.len() && !known.contains(#[trigger] cell.wallets[k]) {
        Some(ContractError::UnknownPlayerAddress)
    } else {
        None
    }
}

/// What is wrong with the first cell of `cells` that is not in order.
pub open spec fn grid_error(cells: Seq<CellView>, known: Seq<Seq<char>>) -> Option<ContractError>
    decreases cells.len(),
{
    if cells.len() == 0 {
        None
    } else {
        match grid_error(cells.drop_last(), known) {
            Some(e) => Some(e),
            None => cell_error(cells.last(), known),
        }
    }
}

/// Why a set-up is turned down, if it is: the first of its faults, in the
/// order players, quarters, grid, teams.
pub open spec fn initialize_error(msg: InstantiateMsgView) -> Option<ContractError> {
    let wallets = wallets_of(listed_players(msg));
    if !wallets.no_duplicates() {
        Some(ContractError::DuplicatePlayerAddress)
    } else if msg.quarters.len() != QUARTER_COUNT {
        Some(ContractError::InsufficientQuarters)
    } else if pct_sum(msg.quarters) != 100 {
        Some(ContractError::InvalidQuarterSplit)
    } else if msg.grid.len() != GRID_CELLS {
        Some(ContractError::InsufficientGridCells)
    } else if grid_error(msg.grid, wallets) is Some {
        grid_error(msg.grid, wallets)
    } else if msg.teams.len() != TEAM_COUNT {
        Some(ContractError::InvalidTeamCount)
    } else {
        None
    }
}

/// The state in which a game begins.
pub open spec fn initial_state(sender: Seq<char>, msg: InstantiateMsgView) -> StateView {
    StateView {
        game: GameView {
            admin: sender,
            name: msg.name,
            is_public: msg.is_public,
            has_started: false,
            quarters: msg.quarters.map_values(|quarter: QuarterView| unresolved(quarter)),
            quarter_index: 0,
            max_players_per_cell: msg.max_players_per_cell,
            teams: msg.teams,
            token: msg.token,
            token_amount: 0,
            can_claim_refund: false,
        },
        players: initial_players(sender, msg),
        grid: msg.grid,
    }
}

/// Clearing the winners leaves the shares as they are.
pub proof fn lemma_pct_sum_unresolved(quarters: Seq<QuarterView>)
    ensures
        pct_sum(quarters.map_values(|quarter: QuarterView| unresolved(quarter))) == pct_sum(quarters),
    decreases quarters.len(),
{
    let cleared = quarters.map_values(|quarter: QuarterView| unresolved(quarter));
    if quarters.len() > 0 {
        lemma_pct_sum_unresolved(quarters.drop_last());
        assert(cleared.drop_last() =~= quarters.drop_last().map_values(
            |quarter: QuarterView| unresolved(quarter),
        ));
    }
}

/// Players who hold no position have spent nothing.
pub proof fn lemma_no_positions_no_spend(grid: Seq<CellView>, players: Seq<PlayerView>)
    requires
        forall|i: int| 0 <= i < players.len() ==> (#[trigger] players[i]).positions.len() == 0,
    ensures
        total_spend(grid, players) == 0,
    decreases players.len(),
{
    if players.len() > 0 {
        lemma_no_positions_no_spend(grid, players.drop_last());
        assert(cells_of(players.last().positions) =~= Seq::<GridCoordinates>::empty());
    }
}

/// Takes on the players that a set-up names, unless a wallet comes twice.
fn enroll_players(listed: &Vec<Player>) -> (res: Result<Vec<Player>, ContractError>)
    ensures
        match res {
            Ok(players) => {
                &&& wallets_of(listed.deep_view()).no_duplicates()
                &&& players.deep_view() == listed.deep_view().map_values(
                    |player: PlayerView| enrolled(player),
                )
            },
            Err(e) => {
                &&& e == ContractError::DuplicatePlayerAddress
                &&& !wallets_of(listed.deep_view()).no_duplicates()
            },
        },
{
    let mut players: Vec<Player> = Vec::new();
    let mut i: usize = 0;
    while i < listed.len()
        invariant
            i <= listed.len(),
            players.len() == i,
            forall|j: int| 0 <= j < i ==> (#[trigger] players[j])@ == enrolled(listed[j]@),
            forall|j: int, k: int| 0 <= j < k < i ==> listed[j]@.wallet != listed[k]@.wallet,
        decreases listed.len() - i,
    {
        let player = &listed[i];
        match find_player(&players, &player.wallet) {
            Some(j) => {
                proof {
                    let wallets = wallets_of(listed.deep_view());
                    assert(wallets_of(players.deep_view())[j as int] == players[j as int]@.wallet);
                    assert(wallets[j as int] == wallets[i as int]);
                }
                return Err(ContractError::DuplicatePlayerAddress);
            },
            None => {
                proof {
                    assert forall|j: int| 0 <= j < i implies listed[j]@.wallet != player@.wallet by {
                        let wallets = wallets_of(players.deep_view());
                        assert(wallets[j] == players[j]@.wallet);
                        assert(wallets.contains(wallets[j]));
                    }
                }
                players.push(
                    Player {
                        wallet: player.wallet.clone(),
                        name: clone_label(&player.name),
                        color: clone_label(&player.color),
                        positions: Vec::new(),
                        has_claimed_refund: false,
                    },
                );
            },
        }
        i += 1;
    }
    proof {
        assert(players.deep_view() =~= listed.deep_view().map_values(
            |player: PlayerView| enrolled(player),
        ));
    }
    Ok(players)
}

/// Takes on the quarters of a set-up, without winners, if there are four and
/// their shares add up to the whole pool.
fn validate_quarters(quarters: &Vec<Quarter>) -> (res: Result<Vec<Quarter>, ContractError>)
    ensures
        match res {
            Ok(cleared) => {
                &&& quarters.len() == QUARTER_COUNT
                &&& pct_sum(quarters.deep_view()) == 100
                &&& cleared.deep_view() == quarters.deep_view().map_values(
                    |quarter: QuarterView| unresolved(quarter),
                )
            },
            Err(e) => if quarters.len() != QUARTER_COUNT {
                e == ContractError::InsufficientQuarters
            } else {
                e == ContractError::InvalidQuarterSplit && pct_sum(quarters.deep_view()) != 100
            },
        },
{
    if quarters.len() != QUARTER_COUNT {
        return Err(ContractError::InsufficientQuarters);
    }
    let total: u16 = sum_pct_from(quarters, 0);
    assert(quarters.deep_view().skip(0) =~= quarters.deep_view());
    if total != 100 {
        return Err(ContractError::InvalidQuarterSplit);
    }
    let mut cleared: Vec<Quarter> = Vec::new();
    let mut i: usize = 0;
    while i < quarters.len()
        invariant
            i <= quarters.len(),
            cleared.len() == i,
            forall|j: int| 0 <= j < i ==> (#[trigger] cleared[j])@ == unresolved(quarters[j]@),
        decreases quarters.len() - i,
    {
        let quarter = &quarters[i];
        cleared.push(Quarter { winner: None, name: clone_label(&quarter.name), pct: quarter.pct });
        i += 1;
    }
    proof {
        assert(cleared.deep_view() =~= quarters.deep_view().map_values(
            |quarter: QuarterView| unresolved(quarter),
        ));
    }
    Ok(cleared)
}

/// Checks one cell of a set-up against the players that the set-up names.
fn check_cell(cell: &Cell, known: &Vec<Player>) -> (res: Result<(), ContractError>)
    ensures
        match res {
            Ok(_) => cell_error(cell@, wallets_of(known.deep_view())) is None,
            Err(e) => cell_error(cell@, wallets_of(known.deep_view())) == Some(e),
        },
{
    if cell.price == 0 {
        return Err(ContractError::InvalidGridCellPrice);
    }
    let mut k: usize = 0;
    while k < cell.wallets.len()
        invariant
            k <= cell.wallets.len(),
            cell.price != 0,
            forall|j: int|
                0 <= j < k ==> wallets_of(known.deep_view()).contains(#[trigger] cell@.wallets[j]),
        decreases cell.wallets.len() - k,
    {
        if find_player(known, &cell.wallets[k]).is_none() {
            proof {
                assert(cell@.wallets[k as int] == cell.wallets[k as int]@);
            }
            return Err(ContractError::UnknownPlayerAddress);
        }
        proof {
            assert(cell@.wallets[k as int] == cell.wallets[k as int]@);
        }
        k += 1;
    }
    Ok(())
}

/// Takes on the grid of a set-up, if it has a hundred cells and each is in
/// order.
fn validate_grid(grid: &Vec<Cell>, known: &Vec<Player>) -> (res: Result<Vec<Cell>, ContractError>)
    ensures
        match res {
            Ok(cells) => {
                &&& grid.len() == GRID_CELLS
                &&& grid_error(grid.deep_view(), wallets_of(known.deep_view())) is None
                &&& cells.deep_view() == grid.deep_view()
                &&& forall|i: int| 0 <= i < grid.len() ==> (#[trigger] grid.deep_view()[i]).price > 0
            },
            Err(e) => if grid.len() != GRID_CELLS {
                e == ContractError::InsufficientGridCells
            } else {
                grid_error(grid.deep_view(), wallets_of(known.deep_view())) == Some(e)
            },
        },
{
    if grid.len() != GRID_CELLS {
        return Err(ContractError::InsufficientGridCells);
    }
    let ghost wallets = wallets_of(known.deep_view());
    let mut cells: Vec<Cell> = Vec::new();
    let mut i: usize = 0;
    while i < grid.len()
        invariant
            grid.len() == GRID_CELLS,
            i <= grid.len(),
            cells.len() == i,
            wallets == wallets_of(known.deep_view()),
            grid_error(grid.deep_view().take(i as int), wallets) is None,
            forall|j: int| 0 <= j < i ==> (#[trigger] cells[j])@ == grid[j]@,
            forall|j: int| 0 <= j < i ==> (#[trigger] grid.deep_view()[j]).price > 0,
        decreases grid.len() - i,
    {
        let cell = &grid[i];
        proof {
            let view = grid.deep_view();
            assert(view.take(i + 1).drop_last() =~= view.take(i as int));
            assert(view.take(i + 1).last() == cell@);
        }
        match check_cell(cell, known) {
            Err(e) => {
                proof {
                    lemma_grid_error_prefix(grid.deep_view(), wallets, i + 1);
                }
                return Err(e);
            },
            Ok(_) => {},
        }
        cells.push(cell.clone());
        i += 1;
    }
    proof {
        assert(grid.deep_view().take(i as int) =~= grid.deep_view());
        assert(cells.deep_view() =~= grid.deep_view());
    }
    Ok(cells)
}

/// A fault among the first `n` cells is the fault of the whole grid.
pub proof fn lemma_grid_error_prefix(cells: Seq<CellView>, known: Seq<Seq<char>>, n: int)
    requires
        0 <= n <= cells.len(),
        grid_error(cells.take(n), known) is Some,
    ensures
        grid_error(cells, known) == grid_error(cells.take(n), known),
    decreases cells.len(),
{
    if n < cells.len() {
        assert(cells.drop_last().take(n) =~= cells.take(n));
        lemma_grid_error_prefix(cells.drop_last(), known, n);
    } else {
        assert(cells.take(n) =~= cells);
    }
}

/// Copies the teams of a set-up.
fn clone_teams(teams: &Vec<Team>) -> (res: Vec<Team>)
    ensures
        res.deep_view() == teams.deep_view(),
{
    let res = teams.clone();
    assert(res.deep_view() =~= teams.deep_view());
    res
}

/// Sets a game up: validates what `msg` holds and builds the state in which
/// the game begins, with `sender` as its administrator.
pub fn initialize(sender: &String, msg: &InstantiateMsg) -> (res: Result<State, ContractError>)
    ensures
        match res {
            Ok(state) => {
                &&& initialize_error(msg@) is None
                &&& state@ == initial_state(sender@, msg@)
                &&& state@.wf()
            },
            Err(e) => initialize_error(msg@) == Some(e),
        },
{
    let nobody: Vec<Player> = Vec::new();
    let named = match &msg.players {
        Some(listed) => listed,
        None => &nobody,
    };
    assert(named.deep_view() =~= listed_players(msg@));
    let mut players = match enroll_players(named) {
        Ok(players) => players,
        Err(e) => {
            return Err(e);
        },
    };
    let quarters = match validate_quarters(&msg.quarters) {
        Ok(quarters) => quarters,
        Err(e) => {
            return Err(e);
        },
    };
    let grid = match validate_grid(&msg.grid, named) {
        Ok(grid) => grid,
        Err(e) => {
            return Err(e);
        },
    };
    if msg.teams.len() != TEAM_COUNT {
        return Err(ContractError::InvalidTeamCount);
    }
    let ghost listed = players.deep_view();
    proof {
        assert(listed =~= listed_players(msg@).map_values(|player: PlayerView| enrolled(player)));
        assert(wallets_of(listed) =~= wallets_of(listed_players(msg@)));
    }
    if find_player(&players, sender).is_none() {
        players.push(
            Player {
                wallet: sender.clone(),
                name: None,
                color: None,
                positions: Vec::new(),
                has_claimed_refund: false,
            },
        );
        proof {
            assert(players.deep_view() =~= listed.push(creator(sender@)));
            assert(wallets_of(players.deep_view()) =~= wallets_of(listed).push(sender@));
        }
    }
    let state = State {
        game: Game {
            admin: sender.clone(),
            name: msg.name.clone(),
            is_public: msg.is_public,
            has_started: false,
            quarters,
            quarter_index: 0,
            max_players_per_cell: msg.max_players_per_cell,
            teams: clone_teams(&msg.teams),
            token: msg.token.clone(),
            token_amount: 0,
            can_claim_refund: false,
        },
        players,
        grid,
    };
    proof {
        lemma_pct_sum_unresolved(msg@.quarters);
        lemma_no_positions_no_spend(state@.grid, state@.players);
    }
    Ok(state)
}

/// Prices are not negative, and so neither is their sum.
pub proof fn lemma_price_sum_nonnegative(grid: Seq<CellView>, coords: Seq<GridCoordinates>)
    ensures
        0 <= price_sum(grid, coords),
    decreases coords.len(),
{
    if coords.len() > 0 {
        lemma_price_sum_nonnegative(grid, coords.drop_last());
    }
}

/// The price of two lists of cells is the price of the one and that of the
/// other.
pub proof fn lemma_price_sum_concat(
    grid: Seq<CellView>,
    first: Seq<GridCoordinates>,
    second: Seq<GridCoordinates>,
)
    ensures
        price_sum(grid, first + second) == price_sum(grid, first) + price_sum(grid, second),
    decreases second.len(),
{
    if second.len() == 0 {
        assert(first + second =~= first);
    } else {
        lemma_price_sum_concat(grid, first, second.drop_last());
        assert((first + second).drop_last() =~= first + second.drop_last());
    }
}

/// Two grids with the same prices price every list of cells alike.
pub proof fn lemma_price_sum_same_prices(
    grid: Seq<CellView>,
    other: Seq<CellView>,
    coords: Seq<GridCoordinates>,
)
    requires
        grid.len() == other.len(),
        forall|i: int| 0 <= i < grid.len() ==> (#[trigger] grid[i]).price == other[i].price,
    ensures
        price_sum(grid, coords) == price_sum(other, coords),
    decreases coords.len(),
{
    if coords.len() > 0 {
        lemma_price_sum_same_prices(grid, other, coords.drop_last());
    }
}

/// In two grids with the same prices the players have spent the same.
pub proof fn lemma_total_spend_same_prices(
    grid: Seq<CellView>,
    other: Seq<CellView>,
    players: Seq<PlayerView>,
)
    requires
        grid.len() == other.len(),
        forall|i: int| 0 <= i < grid.len() ==> (#[trigger] grid[i]).price == other[i].price,
    ensures
        total_spend(grid, players) == total_spend(other, players),
    decreases players.len(),
{
    if players.len() > 0 {
        lemma_total_spend_same_prices(grid, other, players.drop_last());
        lemma_price_sum_same_prices(grid, other, cells_of(players.last().positions));
    }
}

/// A player who joins adds what they have spent to the total.
pub proof fn lemma_total_spend_push(grid: Seq<CellView>, players: Seq<PlayerView>, player: PlayerView)
    ensures
        total_spend(grid, players.push(player)) == total_spend(grid, players) + spend(
            grid,
            player.positions,
        ),
{
    assert(players.push(player).drop_last() =~= players);
}

/// Where one player's record changes, the total changes by what that player
/// has spent more.
pub proof fn lemma_total_spend_update(
    grid: Seq<CellView>,
    players: Seq<PlayerView>,
    i: int,
    player: PlayerView,
)
    requires
        0 <= i < players.len(),
    ensures
        total_spend(grid, players.update(i, player)) == total_spend(grid, players) - spend(
            grid,
            players[i].positions,
        ) + spend(grid, player.positions),
    decreases players.len(),
{
    let updated = players.update(i, player);
    if i == players.len() - 1 {
        assert(updated.drop_last() =~= players.drop_last());
    } else {
        lemma_total_spend_update(grid, players.drop_last(), i, player);
        assert(updated.drop_last() =~= players.drop_last().update(i, player));
    }
}

/// No player has spent more than all players together.
pub proof fn lemma_spend_within_total(grid: Seq<CellView>, players: Seq<PlayerView>, i: int)
    requires
        0 <= i < players.len(),
    ensures
        0 <= spend(grid, players[i].positions) <= total_spend(grid, players),
        0 <= total_spend(grid, players),
    decreases players.len(),
{
    lemma_total_spend_nonnegative(grid, players.drop_last());
    lemma_price_sum_nonnegative(grid, cells_of(players.last().positions));
    if i < players.len() - 1 {
        lemma_spend_within_total(grid, players.drop_last(), i);
    }
}

/// What the players have spent together is not negative.
pub proof fn lemma_total_spend_nonnegative(grid: Seq<CellView>, players: Seq<PlayerView>)
    ensures
        0 <= total_spend(grid, players),
    decreases players.len(),
{
    if players.len() > 0 {
        lemma_total_spend_nonnegative(grid, players.drop_last());
        lemma_price_sum_nonnegative(grid, cells_of(players.last().positions));
    }
}

/// What the first players of a list have spent is no more than what all of
/// the list have spent.
pub proof fn lemma_total_spend_prefix(grid: Seq<CellView>, players: Seq<PlayerView>, n: int)
    requires
        0 <= n <= players.len(),
    ensures
        total_spend(grid, players.take(n)) <= total_spend(grid, players),
    decreases players.len(),
{
    if n < players.len() {
        assert(players.drop_last().take(n) =~= players.take(n));
        lemma_total_spend_prefix(grid, players.drop_last(), n);
        lemma_price_sum_nonnegative(grid, cells_of(players.last().positions));
    } else {
        assert(players.take(n) =~= players);
    }
}

/// The shares of the quarters from `from` on, added up.
pub(crate) fn sum_pct_from(quarters: &Vec<Quarter>, from: usize) -> (total: u16)
    requires
        from <= quarters.len() <= QUARTER_COUNT,
    ensures
        total == pct_sum(quarters.deep_view().skip(from as int)),
{
    let ghost view = quarters.deep_view();
    let mut total: u16 = 0;
    let mut j: usize = from;
    while j < quarters.len()
        invariant
            from <= j <= quarters.len() <= QUARTER_COUNT,
            view == quarters.deep_view(),
            total == pct_sum(view.subrange(from as int, j as int)),
            total <= 255 * (j - from),
        decreases quarters.len() - j,
    {
        proof {
            assert(view.subrange(from as int, j + 1).drop_last() =~= view.subrange(
                from as int,
                j as int,
            ));
        }
        total = total + quarters[j].pct as u16;
        j += 1;
    }
    proof {
        assert(view.subrange(from as int, j as int) =~= view.skip(from as int));
    }
    total
}

/// Whether every cell of `grid` has a price.
fn has_prices(grid: &Vec<Cell>) -> (ok: bool)
    ensures
        ok == prices_positive(grid.deep_view()),
{
    let mut i: usize = 0;
    while i < grid.len()
        invariant
            i <= grid.len(),
            forall|j: int| 0 <= j < i ==> (#[trigger] grid.deep_view()[j]).price > 0,
        decreases grid.len() - i,
    {
        if grid[i].price == 0 {
            assert(grid.deep_view()[i as int].price == 0);
            return false;
        }
        assert(grid.deep_view()[i as int] == grid[i as int]@);
        i += 1;
    }
    true
}

/// Whether no wallet belongs to two of `players`.
fn has_distinct_wallets(players: &Vec<Player>) -> (ok: bool)
    ensures
        ok == wallets_of(players.deep_view()).no_duplicates(),
{
    let ghost wallets = wallets_of(players.deep_view());
    let mut i: usize = 0;
    while i < players.len()
        invariant
            i <= players.len(),
            wallets == wallets_of(players.deep_view()),
            forall|a: int, b: int| 0 <= a < b < i ==> wallets[a] != wallets[b],
        decreases players.len() - i,
    {
        let mut j: usize = 0;
        while j < i
            invariant
                j <= i < players.len(),
                wallets == wallets_of(players.deep_view()),
                forall|a: int| 0 <= a < j ==> wallets[a] != wallets[i as int],
            decreases i - j,
        {
            if players[j].wallet == players[i].wallet {
                assert(wallets[j as int] == wallets[i as int]);
                return false;
            }
            j += 1;
        }
        i += 1;
    }
    true
}

/// Whether every position of every one of `players` is a cell of the grid.
fn has_positions_in_grid(players: &Vec<Player>) -> (ok: bool)
    ensures
        ok == positions_in_grid(players.deep_view()),
{
    let ghost view = players.deep_view();
    let mut i: usize = 0;
    while i < players.len()
        invariant
            i <= players.len(),
            view == players.deep_view(),
            forall|a: int, k: int|
                0 <= a < i && 0 <= k < view[a].positions.len() ==> in_grid(
                    (#[trigger] view[a].positions[k]).coords,
                ),
        decreases players.len() - i,
    {
        let positions = &players[i].positions;
        assert(view[i as int].positions == positions@);
        let mut k: usize = 0;
        while k < positions.len()
            invariant
                k <= positions.len(),
                i < players.len(),
                view == players.deep_view(),
                view[i as int].positions == positions@,
                forall|b: int| 0 <= b < k ==> in_grid((#[trigger] positions@[b]).coords),
            decreases positions.len() - k,
        {
            let coords = positions[k].coords;
            if coords.0 >= GRID_SIDE || coords.1 >= GRID_SIDE {
                assert(!in_grid(view[i as int].positions[k as int].coords));
                return false;
            }
            k += 1;
        }
        i += 1;
    }
    true
}

/// What the cells that `positions` record have cost, unless that is more than
/// `limit`.
fn spent_within(grid: &Vec<Cell>, positions: &Vec<Position>, limit: u128) -> (res: Option<u128>)
    requires
        grid.len() == GRID_CELLS,
        forall|k: int| 0 <= k < positions.len() ==> in_grid((#[trigger] positions[k]).coords),
    ensures
        match res {
            Some(total) => total == spend(grid.deep_view(), positions@) && total <= limit,
            None => spend(grid.deep_view(), positions@) > limit,
        },
{
    let ghost cells = cells_of(positions@);
    let ghost prices = grid.deep_view();
    let mut total: u128 = 0;
    let mut i: usize = 0;
    while i < positions.len()
        invariant
            i <= positions.len(),
            grid.len() == GRID_CELLS,
            prices == grid.deep_view(),
            cells == cells_of(positions@),
            forall|k: int| 0 <= k < positions.len() ==> in_grid((#[trigger] positions[k]).coords),
            total == price_sum(prices, cells.take(i as int)),
            total <= limit,
        decreases positions.len() - i,
    {
        let coords = positions[i].coords;
        let index: usize = coords.0 as usize * 10 + coords.1 as usize;
        proof {
            assert(cells.take(i + 1).drop_last() =~= cells.take(i as int));
            assert(cells.take(i + 1).last() == coords);
            assert(cells =~= cells.take(i + 1) + cells.skip(i + 1));
            lemma_price_sum_concat(prices, cells.take(i + 1), cells.skip(i + 1));
            lemma_price_sum_nonnegative(prices, cells.skip(i + 1));
            assert(prices[index as int] == grid[index as int]@);
        }
        let price: u128 = grid[index].price;
        if price > limit - total {
            return None;
        }
        total = total + price;
        i += 1;
    }
    proof {
        assert(cells.take(i as int) =~= cells);
    }
    Some(total)
}

/// Whether `pool` is what `players` have spent on the cells of `grid`.
fn holds_what_was_spent(grid: &Vec<Cell>, players: &Vec<Player>, pool: u128) -> (ok: bool)
    requires
        grid.len() == GRID_CELLS,
        positions_in_grid(players.deep_view()),
    ensures
        ok == (total_spend(grid.deep_view(), players.deep_view()) == pool),
{
    let ghost view = players.deep_view();
    let ghost prices = grid.deep_view();
    let mut spent: u128 = 0;
    let mut i: usize = 0;
    while i < players.len()
        invariant
            i <= players.len(),
            grid.len() == GRID_CELLS,
            view == players.deep_view(),
            prices == grid.deep_view(),
            positions_in_grid(view),
            spent == total_spend(prices, view.take(i as int)),
            spent <= pool,
        decreases players.len() - i,
    {
        let positions = &players[i].positions;
        proof {
            assert(view[i as int].positions == positions@);
            assert(forall|k: int|
                0 <= k < positions.len() ==> (#[trigger] positions[k]) == view[i as int].positions[k]);
            assert(view.take(i + 1).drop_last() =~= view.take(i as int));
            assert(view.take(i + 1).last() == view[i as int]);
            lemma_total_spend_prefix(prices, view, i + 1);
        }
        match spent_within(grid, positions, pool - spent) {
            Some(more) => {
                spent = spent + more;
            },
            None => {
                return false;
            },
        }
        i += 1;
    }
    proof {
        assert(view.take(i as int) =~= view);
    }
    spent == pool
}

impl State {
    /// Whether the state is one that the commands can start from. States
    /// that [`initialize`] and the commands hand out always are.
    pub fn is_well_formed(&self) -> (ok: bool)
        ensures
            ok == self@.wf(),
    {
        if self.game.quarters.len() != QUARTER_COUNT {
            return false;
        }
        let total: u16 = sum_pct_from(&self.game.quarters, 0);
        assert(self.game.quarters.deep_view().skip(0) =~= self.game.quarters.deep_view());
        if total != 100 {
            return false;
        }
        if self.game.quarter_index as usize > QUARTER_COUNT {
            return false;
        }
        if self.game.teams.len() != TEAM_COUNT {
            return false;
        }
        if self.grid.len() != GRID_CELLS {
            return false;
        }
        if !has_prices(&self.grid) {
            return false;
        }
        if !has_distinct_wallets(&self.players) {
            return false;
        }
        if !has_positions_in_grid(&self.players) {
            return false;
        }
        holds_what_was_spent(&self.grid, &self.players, self.game.token_amount)
    }
}

} // verus!
