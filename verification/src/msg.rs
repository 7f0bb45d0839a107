use vstd::prelude::*;
use crate::models::{
    Cell, CellView, Game, GameView, GridCoordinates, Player, PlayerView, Quarter, QuarterView,
    Team, TeamView, Token, TokenView,
};

verus! {

/// What a game is set up from.
#[derive(Debug, PartialEq, Eq)]
pub struct InstantiateMsg {
    pub name: String,
    pub teams: Vec<Team>,
    pub is_public: bool,
    pub players: Option<Vec<Player>>,
    pub max_players_per_cell: Option<u16>,
    pub quarters: Vec<Quarter>,
    pub grid: Vec<Cell>,
    pub token: Token,
}

/// What an [`InstantiateMsg`] stands for.
pub struct InstantiateMsgView {
    pub name: Seq<char>,
    pub teams: Seq<TeamView>,
    pub is_public: bool,
    pub players: Option<Seq<PlayerView>>,
    pub max_players_per_cell: Option<u16>,
    pub quarters: Seq<QuarterView>,
    pub grid: Seq<CellView>,
    pub token: TokenView,
}

impl View for InstantiateMsg {
    type V = InstantiateMsgView;

    open spec fn view(&self) -> InstantiateMsgView {
        InstantiateMsgView {
            name: self.name@,
            teams: self.teams.deep_view(),
            is_public: self.is_public,
            players: self.players.deep_view(),
            max_players_per_cell: self.max_players_per_cell,
            quarters: self.quarters.deep_view(),
            grid: self.grid.deep_view(),
            token: self.token@,
        }
    }
}

/// A command to a game.
#[derive(Debug, PartialEq, Eq)]
pub enum ExecuteMsg {
    RegisterPlayer { wallet: String, name: Option<String>, color: Option<String> },
    StartGame {  },
    ClaimRefund {  },
    BuySquares { coordinates: Vec<GridCoordinates> },
    ChooseWinner { winner: GridCoordinates },
}

/// What an [`ExecuteMsg`] stands for.
pub enum ExecuteMsgView {
    RegisterPlayer { wallet: Seq<char>, name: Option<Seq<char>>, color: Option<Seq<char>> },
    StartGame {  },
    ClaimRefund {  },
    BuySquares { coordinates: Seq<GridCoordinates> },
    ChooseWinner { winner: GridCoordinates },
}

impl View for ExecuteMsg {
    type V = ExecuteMsgView;

    open spec fn view(&self) -> ExecuteMsgView {
        match self {
            ExecuteMsg::RegisterPlayer { wallet, name, color } => ExecuteMsgView::RegisterPlayer {
                wallet: wallet@,
                name: name.deep_view(),
                color: color.deep_view(),
            },
            ExecuteMsg::StartGame {  } => ExecuteMsgView::StartGame {  },
            ExecuteMsg::ClaimRefund {  } => ExecuteMsgView::ClaimRefund {  },
            ExecuteMsg::BuySquares { coordinates } => ExecuteMsgView::BuySquares {
                coordinates: coordinates@,
            },
            ExecuteMsg::ChooseWinner { winner } => ExecuteMsgView::ChooseWinner { winner: *winner },
        }
    }
}

/// A question to a game.
#[derive(Debug, Clone, Copy, PartialEq, Eq)]
pub enum QueryMsg {
    /// The game, with its players and its grid unless they are left out.
    Game { with_players: Option<bool>, with_grid: Option<bool> },
}

/// The answer to [`QueryMsg::Game`].
#[derive(Debug, PartialEq, Eq)]
pub struct GameResponse {
    pub game: Game,
    pub grid: Option<Vec<Cell>>,
    pub players: Option<Vec<Player>>,
}

/// What a [`GameResponse`] stands for.
pub struct GameResponseView {
    pub game: GameView,
    pub grid: Option<Seq<CellView>>,
    pub players: Option<Seq<PlayerView>>,
}

impl View for GameResponse {
    type V = GameResponseView;

    open spec fn view(&self) -> GameResponseView {
        GameResponseView {
            game: self.game@,
            grid: self.grid.deep_view(),
            players: self.players.deep_view(),
        }
    }
}

} // verus!
