use cw_squares::error::ContractError;
use cw_squares::models::{Cell, Player, Position, Quarter, Team, Token};
use cw_squares::msg::InstantiateMsg;
use cw_squares::state::{find_player, initialize, require_admin};

fn quarter(pct: u8) -> Quarter {
    Quarter { winner: None, name: None, pct }
}

fn team(name: &str) -> Team {
    Team { name: name.to_string(), color: "green".to_string() }
}

fn player(wallet: &str) -> Player {
    Player {
        wallet: wallet.to_string(),
        name: Some(wallet.to_uppercase()),
        color: None,
        positions: vec![],
        has_claimed_refund: false,
    }
}

fn valid_msg() -> InstantiateMsg {
    InstantiateMsg {
        name: "cup".to_string(),
        teams: vec![team("Home"), team("Away")],
        is_public: false,
        players: Some(vec![player("alice"), player("bob")]),
        max_players_per_cell: Some(2),
        quarters: vec![quarter(10), quarter(20), quarter(30), quarter(40)],
        grid: (0..100u128).map(|i| Cell { wallets: vec![], price: i + 1 }).collect(),
        token: Token::Cw20 { address: "token".to_string() },
    }
}

#[test]
fn a_valid_setup_gives_the_initial_state() {
    let msg = valid_msg();
    let state = initialize(&"admin".to_string(), &msg).unwrap();
    assert_eq!(state.game.admin, "admin");
    assert_eq!(state.game.name, "cup");
    assert!(!state.game.is_public);
    assert!(!state.game.has_started);
    assert!(!state.game.can_claim_refund);
    assert_eq!(state.game.quarter_index, 0);
    assert_eq!(state.game.token_amount, 0);
    assert_eq!(state.game.max_players_per_cell, Some(2));
    assert_eq!(state.game.teams, msg.teams);
    assert_eq!(state.game.token, msg.token);
    assert_eq!(state.game.quarters, msg.quarters);
    assert_eq!(state.grid, msg.grid);
    assert_eq!(state.grid.len(), 100);
    assert_eq!(state.players.len(), 3);
    assert_eq!(state.players[0], player("alice"));
    assert_eq!(state.players[1], player("bob"));
    assert_eq!(
        state.players[2],
        Player {
            wallet: "admin".to_string(),
            name: None,
            color: None,
            positions: vec![],
            has_claimed_refund: false,
        }
    );
    assert_eq!(state.game.quarters.iter().map(|q| q.pct as u32).sum::<u32>(), 100);
    assert!(state.is_well_formed());
    assert!(!state.game.is_over());
}

#[test]
fn the_creator_is_not_added_twice() {
    let mut msg = valid_msg();
    msg.players = Some(vec![player("admin"), player("alice")]);
    let state = initialize(&"admin".to_string(), &msg).unwrap();
    assert_eq!(state.players, vec![player("admin"), player("alice")]);
}

#[test]
fn a_setup_without_players_has_the_creator_alone() {
    let mut msg = valid_msg();
    msg.players = None;
    let state = initialize(&"admin".to_string(), &msg).unwrap();
    assert_eq!(state.players.len(), 1);
    assert_eq!(state.players[0].wallet, "admin");
}

#[test]
fn what_players_and_quarters_bring_along_is_reset() {
    let mut msg = valid_msg();
    let mut alice = player("alice");
    alice.positions = vec![Position { coords: (1, 1), quarter_index: 2 }];
    alice.has_claimed_refund = true;
    msg.players = Some(vec![alice]);
    msg.quarters[1].winner = Some((4, 4));
    msg.quarters[1].name = Some("second".to_string());
    let state = initialize(&"admin".to_string(), &msg).unwrap();
    assert_eq!(state.players[0], player("alice"));
    assert_eq!(
        state.game.quarters[1],
        Quarter { winner: None, name: Some("second".to_string()), pct: 20 }
    );
    assert!(state.is_well_formed());
}

#[test]
fn seeded_wallets_stay_in_their_cells() {
    let mut msg = valid_msg();
    msg.grid[17].wallets = vec!["bob".to_string(), "alice".to_string()];
    let state = initialize(&"admin".to_string(), &msg).unwrap();
    assert_eq!(state.grid[17].wallets, vec!["bob".to_string(), "alice".to_string()]);
    assert_eq!(state.game.token_amount, 0);
}

#[test]
fn a_wallet_named_twice_is_a_duplicate() {
    let mut msg = valid_msg();
    msg.players = Some(vec![player("alice"), player("bob"), player("alice")]);
    assert_eq!(
        initialize(&"admin".to_string(), &msg),
        Err(ContractError::DuplicatePlayerAddress)
    );
}

#[test]
fn three_quarters_are_not_enough() {
    let mut msg = valid_msg();
    msg.quarters = vec![quarter(50), quarter(25), quarter(25)];
    assert_eq!(initialize(&"admin".to_string(), &msg), Err(ContractError::InsufficientQuarters));
}

#[test]
fn five_quarters_are_too_many() {
    let mut msg = valid_msg();
    msg.quarters = vec![quarter(20), quarter(20), quarter(20), quarter(20), quarter(20)];
    assert_eq!(initialize(&"admin".to_string(), &msg), Err(ContractError::InsufficientQuarters));
}

#[test]
fn shares_below_the_whole_are_an_invalid_split() {
    let mut msg = valid_msg();
    msg.quarters = vec![quarter(10), quarter(20), quarter(30), quarter(39)];
    assert_eq!(initialize(&"admin".to_string(), &msg), Err(ContractError::InvalidQuarterSplit));
}

#[test]
fn shares_above_the_whole_are_an_invalid_split() {
    let mut msg = valid_msg();
    msg.quarters = vec![quarter(100), quarter(255), quarter(255), quarter(255)];
    assert_eq!(initialize(&"admin".to_string(), &msg), Err(ContractError::InvalidQuarterSplit));
}

#[test]
fn ninety_nine_cells_are_not_a_grid() {
    let mut msg = valid_msg();
    msg.grid.pop();
    assert_eq!(initialize(&"admin".to_string(), &msg), Err(ContractError::InsufficientGridCells));
}

#[test]
fn a_cell_without_a_price_is_invalid() {
    let mut msg = valid_msg();
    msg.grid[99].price = 0;
    assert_eq!(initialize(&"admin".to_string(), &msg), Err(ContractError::InvalidGridCellPrice));
}

#[test]
fn a_seeded_wallet_must_be_a_named_player() {
    let mut msg = valid_msg();
    msg.grid[3].wallets = vec!["alice".to_string(), "carol".to_string()];
    assert_eq!(initialize(&"admin".to_string(), &msg), Err(ContractError::UnknownPlayerAddress));
}

#[test]
fn the_creator_counts_as_known_only_if_named() {
    let mut msg = valid_msg();
    msg.grid[3].wallets = vec!["admin".to_string()];
    assert_eq!(initialize(&"admin".to_string(), &msg), Err(ContractError::UnknownPlayerAddress));
}

#[test]
fn the_first_cell_at_fault_decides() {
    let mut msg = valid_msg();
    msg.grid[3].wallets = vec!["carol".to_string()];
    msg.grid[4].price = 0;
    assert_eq!(initialize(&"admin".to_string(), &msg), Err(ContractError::UnknownPlayerAddress));
    msg.grid[2].price = 0;
    assert_eq!(initialize(&"admin".to_string(), &msg), Err(ContractError::InvalidGridCellPrice));
}

#[test]
fn the_price_of_a_cell_is_checked_before_its_wallets() {
    let mut msg = valid_msg();
    msg.grid[3].wallets = vec!["carol".to_string()];
    msg.grid[3].price = 0;
    assert_eq!(initialize(&"admin".to_string(), &msg), Err(ContractError::InvalidGridCellPrice));
}

#[test]
fn three_teams_are_an_invalid_count() {
    let mut msg = valid_msg();
    msg.teams.push(team("Third"));
    assert_eq!(initialize(&"admin".to_string(), &msg), Err(ContractError::InvalidTeamCount));
}

#[test]
fn faults_are_reported_in_the_order_players_quarters_grid_teams() {
    let mut msg = valid_msg();
    msg.teams.pop();
    assert_eq!(initialize(&"admin".to_string(), &msg), Err(ContractError::InvalidTeamCount));
    msg.grid[0].price = 0;
    assert_eq!(initialize(&"admin".to_string(), &msg), Err(ContractError::InvalidGridCellPrice));
    msg.grid.pop();
    assert_eq!(initialize(&"admin".to_string(), &msg), Err(ContractError::InsufficientGridCells));
    msg.quarters[0].pct = 11;
    assert_eq!(initialize(&"admin".to_string(), &msg), Err(ContractError::InvalidQuarterSplit));
    msg.quarters.pop();
    assert_eq!(initialize(&"admin".to_string(), &msg), Err(ContractError::InsufficientQuarters));
    msg.players = Some(vec![player("bob"), player("bob")]);
    assert_eq!(
        initialize(&"admin".to_string(), &msg),
        Err(ContractError::DuplicatePlayerAddress)
    );
}

#[test]
fn only_the_administrator_is_let_through() {
    let state = initialize(&"admin".to_string(), &valid_msg()).unwrap();
    assert_eq!(require_admin(&state.game, &"admin".to_string()), Ok(()));
    assert_eq!(
        require_admin(&state.game, &"alice".to_string()),
        Err(ContractError::NotAuthorized)
    );
    assert_eq!(require_admin(&state.game, &"".to_string()), Err(ContractError::NotAuthorized));
}

#[test]
fn players_are_found_where_they_stand() {
    let state = initialize(&"admin".to_string(), &valid_msg()).unwrap();
    assert_eq!(find_player(&state.players, &"alice".to_string()), Some(0));
    assert_eq!(find_player(&state.players, &"bob".to_string()), Some(1));
    assert_eq!(find_player(&state.players, &"admin".to_string()), Some(2));
    assert_eq!(find_player(&state.players, &"carol".to_string()), None);
}

#[test]
fn a_state_that_was_tampered_with_is_not_well_formed() {
    let state = initialize(&"admin".to_string(), &valid_msg()).unwrap();
    assert!(state.is_well_formed());

    let mut other = initialize(&"admin".to_string(), &valid_msg()).unwrap();
    other.game.token_amount = 1;
    assert!(!other.is_well_formed());

    let mut other = initialize(&"admin".to_string(), &valid_msg()).unwrap();
    other.game.quarters[0].pct = 11;
    assert!(!other.is_well_formed());

    let mut other = initialize(&"admin".to_string(), &valid_msg()).unwrap();
    other.game.quarters.pop();
    assert!(!other.is_well_formed());

    let mut other = initialize(&"admin".to_string(), &valid_msg()).unwrap();
    other.game.quarter_index = 5;
    assert!(!other.is_well_formed());

    let mut other = initialize(&"admin".to_string(), &valid_msg()).unwrap();
    other.game.teams.pop();
    assert!(!other.is_well_formed());

    let mut other = initialize(&"admin".to_string(), &valid_msg()).unwrap();
    other.grid[5].price = 0;
    assert!(!other.is_well_formed());

    let mut other = initialize(&"admin".to_string(), &valid_msg()).unwrap();
    other.grid.pop();
    assert!(!other.is_well_formed());

    let mut other = initialize(&"admin".to_string(), &valid_msg()).unwrap();
    other.players.push(player("alice"));
    assert!(!other.is_well_formed());

    let mut other = initialize(&"admin".to_string(), &valid_msg()).unwrap();
    other.players[0].positions.push(Position { coords: (10, 0), quarter_index: 0 });
    assert!(!other.is_well_formed());

    let mut other = initialize(&"admin".to_string(), &valid_msg()).unwrap();
    other.players[0].positions.push(Position { coords: (0, 4), quarter_index: 0 });
    assert!(!other.is_well_formed());
    other.game.token_amount = 5;
    assert!(other.is_well_formed());
}

#[test]
fn a_pool_at_the_limit_is_still_well_formed() {
    let mut msg = valid_msg();
    msg.grid[0].price = u128::MAX;
    msg.grid[1].price = u128::MAX;
    let mut state = initialize(&"admin".to_string(), &msg).unwrap();
    state.players[0].positions.push(Position { coords: (0, 0), quarter_index: 0 });
    state.game.token_amount = u128::MAX;
    assert!(state.is_well_formed());
    state.players[1].positions.push(Position { coords: (0, 1), quarter_index: 0 });
    assert!(!state.is_well_formed());
}
