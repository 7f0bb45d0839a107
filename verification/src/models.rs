use vstd::prelude::*;

verus! {

/// A cell of the grid, as (row, column).
pub type GridCoordinates = (u8, u8);

/// The asset in which cells are paid for and prizes are paid out.
#[derive(Debug, PartialEq, Eq)]
pub enum Token {
    /// A native coin, named by its denomination.
    Native { denom: String },
    /// A fungible token, named by the address of its contract.
    Cw20 { address: String },
}

/// What a [`Token`] stands for.
pub enum TokenView {
    Native { denom: Seq<char> },
    Cw20 { address: Seq<char> },
}

impl View for Token {
    type V = TokenView;

    open spec fn view(&self) -> TokenView {
        match self {
            Token::Native { denom } => TokenView::Native { denom: denom@ },
            Token::Cw20 { address } => TokenView::Cw20 { address: address@ },
        }
    }
}

impl DeepView for Token {
    type V = TokenView;

    open spec fn deep_view(&self) -> TokenView {
        self@
    }
}

impl Clone for Token {
    fn clone(&self) -> (res: Self)
        ensures
            res@ == self@,
    {
        match self {
            Token::Native { denom } => Token::Native { denom: denom.clone() },
            Token::Cw20 { address } => Token::Cw20 { address: address.clone() },
        }
    }
}

/// An amount of one native coin that comes with a command.
#[derive(Debug, PartialEq, Eq)]
pub struct Coin {
    pub denom: String,
    pub amount: u128,
}

/// What a [`Coin`] stands for.
pub struct CoinView {
    pub denom: Seq<char>,
    pub amount: u128,
}

impl View for Coin {
    type V = CoinView;

    open spec fn view(&self) -> CoinView {
        CoinView { denom: self.denom@, amount: self.amount }
    }
}

impl DeepView for Coin {
    type V = CoinView;

    open spec fn deep_view(&self) -> CoinView {
        self@
    }
}

impl Clone for Coin {
    fn clone(&self) -> (res: Self)
        ensures
            res@ == self@,
    {
        Coin { denom: self.denom.clone(), amount: self.amount }
    }
}

/// One of the four rounds: its share of the pool and, once resolved, the
/// winning cell.
#[derive(Debug, PartialEq, Eq)]
pub struct Quarter {
    pub winner: Option<GridCoordinates>,
    pub name: Option<String>,
    pub pct: u8,
}

/// What a [`Quarter`] stands for.
pub struct QuarterView {
    pub winner: Option<GridCoordinates>,
    pub name: Option<Seq<char>>,
    pub pct: u8,
}

impl View for Quarter {
    type V = QuarterView;

    open spec fn view(&self) -> QuarterView {
        QuarterView { winner: self.winner, name: self.name.deep_view(), pct: self.pct }
    }
}

impl DeepView for Quarter {
    type V = QuarterView;

    open spec fn deep_view(&self) -> QuarterView {
        self@
    }
}

impl Clone for Quarter {
    fn clone(&self) -> (res: Self)
        ensures
            res@ == self@,
    {
        Quarter { winner: self.winner, name: clone_label(&self.name), pct: self.pct }
    }
}

/// One of the two sides of the match.
#[derive(Debug, PartialEq, Eq)]
pub struct Team {
    pub name: String,
    pub color: String,
}

/// What a [`Team`] stands for.
pub struct TeamView {
    pub name: Seq<char>,
    pub color: Seq<char>,
}

impl View for Team {
    type V = TeamView;

    open spec fn view(&self) -> TeamView {
        TeamView { name: self.name@, color: self.color@ }
    }
}

impl DeepView for Team {
    type V = TeamView;

    open spec fn deep_view(&self) -> TeamView {
        self@
    }
}

impl Clone for Team {
    fn clone(&self) -> (res: Self)
        ensures
            res@ == self@,
    {
        Team { name: self.name.clone(), color: self.color.clone() }
    }
}

/// A cell of the grid: its price and the wallets that have bought it, in the
/// order in which they did.
#[derive(Debug, PartialEq, Eq)]
pub struct Cell {
    pub wallets: Vec<String>,
    pub price: u128,
}

/// What a [`Cell`] stands for.
pub struct CellView {
    pub wallets: Seq<Seq<char>>,
    pub price: u128,
}

impl View for Cell {
    type V = CellView;

    open spec fn view(&self) -> CellView {
        CellView { wallets: self.wallets.deep_view(), price: self.price }
    }
}

impl DeepView for Cell {
    type V = CellView;

    open spec fn deep_view(&self) -> CellView {
        self@
    }
}

impl Clone for Cell {
    fn clone(&self) -> (res: Self)
        ensures
            res@ == self@,
    {
        let wallets = self.wallets.clone();
        assert(wallets.deep_view() =~= self.wallets.deep_view());
        Cell { wallets, price: self.price }
    }
}

/// One purchase: the cell bought and the quarter that was open at the time.
#[derive(Debug, Clone, Copy, PartialEq, Eq)]
pub struct Position {
    pub coords: GridCoordinates,
    pub quarter_index: u8,
}

impl View for Position {
    type V = Position;

    open spec fn view(&self) -> Position {
        *self
    }
}

impl DeepView for Position {
    type V = Position;

    open spec fn deep_view(&self) -> Position {
        *self
    }
}

/// A wallet that may buy cells, with what it has bought so far.
#[derive(Debug, PartialEq, Eq)]
pub struct Player {
    pub wallet: String,
    pub name: Option<String>,
    pub color: Option<String>,
    pub positions: Vec<Position>,
    pub has_claimed_refund: bool,
}

/// What a [`Player`] stands for.
pub struct PlayerView {
    pub wallet: Seq<char>,
    pub name: Option<Seq<char>>,
    pub color: Option<Seq<char>>,
    pub positions: Seq<Position>,
    pub has_claimed_refund: bool,
}

impl View for Player {
    type V = PlayerView;

    open spec fn view(&self) -> PlayerView {
        PlayerView {
            wallet: self.wallet@,
            name: self.name.deep_view(),
            color: self.color.deep_view(),
            positions: self.positions@,
            has_claimed_refund: self.has_claimed_refund,
        }
    }
}

impl DeepView for Player {
    type V = PlayerView;

    open spec fn deep_view(&self) -> PlayerView {
        self@
    }
}

impl Clone for Player {
    fn clone(&self) -> (res: Self)
        ensures
            res@ == self@,
    {
        let positions = self.positions.clone();
        assert(positions@ =~= self.positions@);
        Player {
            wallet: self.wallet.clone(),
            name: clone_label(&self.name),
            color: clone_label(&self.color),
            positions,
            has_claimed_refund: self.has_claimed_refund,
        }
    }
}

/// The game itself: who runs it, how far it has come, and what is in the pool.
#[derive(Debug, PartialEq, Eq)]
pub struct Game {
    pub admin: String,
    pub name: String,
    pub is_public: bool,
    pub has_started: bool,
    pub quarters: Vec<Quarter>,
    pub quarter_index: u8,
    pub max_players_per_cell: Option<u16>,
    pub teams: Vec<Team>,
    pub token: Token,
    pub token_amount: u128,
    pub can_claim_refund: bool,
}

/// What a [`Game`] stands for.
pub struct GameView {
    pub admin: Seq<char>,
    pub name: Seq<char>,
    pub is_public: bool,
    pub has_started: bool,
    pub quarters: Seq<QuarterView>,
    pub quarter_index: u8,
    pub max_players_per_cell: Option<u16>,
    pub teams: Seq<TeamView>,
    pub token: TokenView,
    pub token_amount: u128,
    pub can_claim_refund: bool,
}

impl GameView {
    /// The game is over once every quarter has been resolved.
    pub open spec fn is_over(self) -> bool {
        self.quarter_index == self.quarters.len()
    }
}

impl View for Game {
    type V = GameView;

    open spec fn view(&self) -> GameView {
        GameView {
            admin: self.admin@,
            name: self.name@,
            is_public: self.is_public,
            has_started: self.has_started,
            quarters: self.quarters.deep_view(),
            quarter_index: self.quarter_index,
            max_players_per_cell: self.max_players_per_cell,
            teams: self.teams.deep_view(),
            token: self.token@,
            token_amount: self.token_amount,
            can_claim_refund: self.can_claim_refund,
        }
    }
}

impl DeepView for Game {
    type V = GameView;

    open spec fn deep_view(&self) -> GameView {
        self@
    }
}

impl Game {
    /// Whether every quarter has been resolved.
    pub fn is_over(&self) -> (over: bool)
        ensures
            over == self@.is_over(),
    {
        self.quarter_index as usize == self.quarters.len()
    }
}

impl Clone for Game {
    fn clone(&self) -> (res: Self)
        ensures
            res@ == self@,
    {
        let quarters = self.quarters.clone();
        assert(quarters.deep_view() =~= self.quarters.deep_view());
        let teams = self.teams.clone();
        assert(teams.deep_view() =~= self.teams.deep_view());
        Game {
            admin: self.admin.clone(),
            name: self.name.clone(),
            is_public: self.is_public,
            has_started: self.has_started,
            quarters,
            quarter_index: self.quarter_index,
            max_players_per_cell: self.max_players_per_cell,
            teams,
            token: self.token.clone(),
            token_amount: self.token_amount,
            can_claim_refund: self.can_claim_refund,
        }
    }
}

/// Copies an optional label.
pub fn clone_label(label: &Option<String>) -> (res: Option<String>)
    ensures
        res.deep_view() == label.deep_view(),
{
    match label {
        Some(text) => Some(text.clone()),
        None => None,
    }
}

} // verus!
