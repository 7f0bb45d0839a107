use cw_squares::error::ContractError;
use cw_squares::execute::buy_cells::buy_cells;
use cw_squares::execute::choose_winner::{
    choose_winner, GELOTTO_ADDR, GELOTTO_ANNUAL_GRAND_PRIZE_ADDR, GELOTTO_NFT_1_REWARDS_ADDR,
};
use cw_squares::execute::claim_refund::claim_refund;
use cw_squares::execute::register_player::register_player;
use cw_squares::execute::start_game::start_game;
use cw_squares::models::{Cell, Coin, Position, Quarter, Team, Token};
use cw_squares::msg::InstantiateMsg;
use cw_squares::state::{initialize, State};
use cw_squares::util::Transfer;

fn quarters(pcts: [u8; 4]) -> Vec<Quarter> {
    pcts.iter().map(|pct| Quarter { winner: None, name: None, pct: *pct }).collect()
}

fn teams() -> Vec<Team> {
    vec![
        Team { name: "Home".to_string(), color: "red".to_string() },
        Team { name: "Away".to_string(), color: "blue".to_string() },
    ]
}

fn grid(price: u128) -> Vec<Cell> {
    (0..100).map(|_| Cell { wallets: vec![], price }).collect()
}

fn usomething() -> Token {
    Token::Native { denom: "usomething".to_string() }
}

fn native_game(pcts: [u8; 4], price: u128) -> State {
    let msg = InstantiateMsg {
        name: "final".to_string(),
        teams: teams(),
        is_public: true,
        players: None,
        max_players_per_cell: None,
        quarters: quarters(pcts),
        grid: grid(price),
        token: usomething(),
    };
    initialize(&"admin".to_string(), &msg).unwrap()
}

fn coins(amount: u128) -> Vec<Coin> {
    vec![Coin { denom: "usomething".to_string(), amount }]
}

fn pay(recipient: &str, amount: u128) -> Transfer {
    Transfer { recipient: recipient.to_string(), amount, token: usomething() }
}

fn pcts(state: &State) -> Vec<u8> {
    state.game.quarters.iter().map(|quarter| quarter.pct).collect()
}

#[test]
fn exact_payment_buys_the_cell() {
    let mut state = native_game([25, 25, 25, 25], 10);
    let admin = "admin".to_string();
    assert_eq!(buy_cells(&mut state, &admin, &vec![(0, 0)], &coins(10), 0), Ok(()));
    assert_eq!(state.game.token_amount, 10);
    assert_eq!(state.grid[0].wallets, vec!["admin".to_string()]);
    assert_eq!(state.players[0].positions, vec![Position { coords: (0, 0), quarter_index: 0 }]);
    assert!(state.is_well_formed());
}

#[test]
fn underpayment_is_insufficient() {
    let mut state = native_game([25, 25, 25, 25], 10);
    let admin = "admin".to_string();
    assert_eq!(
        buy_cells(&mut state, &admin, &vec![(0, 0)], &coins(9), 0),
        Err(ContractError::InsufficientFunds)
    );
    assert_eq!(state, native_game([25, 25, 25, 25], 10));
}

#[test]
fn overpayment_is_excess() {
    let mut state = native_game([25, 25, 25, 25], 10);
    let admin = "admin".to_string();
    assert_eq!(
        buy_cells(&mut state, &admin, &vec![(0, 0)], &coins(11), 0),
        Err(ContractError::ExcessFunds)
    );
    assert_eq!(state, native_game([25, 25, 25, 25], 10));
}

#[test]
fn one_occupant_takes_the_prize_less_the_tax() {
    let mut state = native_game([25, 25, 25, 25], 1000);
    let admin = "admin".to_string();
    let alice = "alice".to_string();
    register_player(&mut state, &admin, &alice, None, None).unwrap();
    start_game(&mut state, &admin).unwrap();
    buy_cells(&mut state, &alice, &vec![(3, 4)], &coins(1000), 0).unwrap();
    let transfers = choose_winner(&mut state, &admin, (3, 4)).unwrap();
    // 25% of 1000 is 250, of which 90% is 225; the tax of 25 splits 5, 12, 7.
    assert_eq!(
        transfers,
        vec![
            pay(GELOTTO_ADDR, 5),
            pay(GELOTTO_ANNUAL_GRAND_PRIZE_ADDR, 12),
            pay(GELOTTO_NFT_1_REWARDS_ADDR, 7),
            pay("alice", 225),
        ]
    );
    assert_eq!(state.game.quarter_index, 1);
    assert_eq!(state.game.quarters[0].winner, Some((3, 4)));
    assert_eq!(pcts(&state), vec![25, 25, 25, 25]);
    assert_eq!(state.game.token_amount, 1000);
    assert!(!state.game.can_claim_refund);
    assert!(state.is_well_formed());
}

#[test]
fn several_occupants_share_in_equal_parts() {
    let mut state = native_game([25, 25, 25, 25], 100);
    let admin = "admin".to_string();
    let alice = "alice".to_string();
    let bob = "bob".to_string();
    register_player(&mut state, &admin, &alice, None, None).unwrap();
    register_player(&mut state, &admin, &bob, None, None).unwrap();
    start_game(&mut state, &admin).unwrap();
    buy_cells(&mut state, &alice, &vec![(0, 0)], &coins(100), 0).unwrap();
    buy_cells(&mut state, &bob, &vec![(0, 0)], &coins(100), 0).unwrap();
    buy_cells(&mut state, &admin, &vec![(0, 0), (9, 9)], &coins(200), 0).unwrap();
    assert_eq!(state.game.token_amount, 400);
    let transfers = choose_winner(&mut state, &admin, (0, 0)).unwrap();
    // 25% of 400 is 100, of which 90% is 90: 30 for each of three; the tax of
    // 10 splits 2, 5, 3.
    assert_eq!(
        transfers,
        vec![
            pay(GELOTTO_ADDR, 2),
            pay(GELOTTO_ANNUAL_GRAND_PRIZE_ADDR, 5),
            pay(GELOTTO_NFT_1_REWARDS_ADDR, 3),
            pay("alice", 30),
            pay("bob", 30),
            pay("admin", 30),
        ]
    );
}

#[test]
fn last_quarter_unclaimed_makes_refunds_claimable() {
    let mut state = native_game([25, 25, 25, 25], 10);
    let admin = "admin".to_string();
    let alice = "alice".to_string();
    let bob = "bob".to_string();
    register_player(&mut state, &admin, &alice, None, None).unwrap();
    register_player(&mut state, &admin, &bob, None, None).unwrap();
    start_game(&mut state, &admin).unwrap();
    let five = vec![(1, 0), (1, 1), (1, 2), (1, 3), (1, 4)];
    buy_cells(&mut state, &alice, &five, &coins(50), 0).unwrap();
    buy_cells(&mut state, &bob, &vec![(2, 2)], &coins(10), 0).unwrap();
    assert!(!choose_winner(&mut state, &admin, (1, 0)).unwrap().is_empty());
    assert!(!choose_winner(&mut state, &admin, (1, 1)).unwrap().is_empty());
    assert!(!choose_winner(&mut state, &admin, (2, 2)).unwrap().is_empty());
    assert_eq!(claim_refund(&mut state, &alice), Err(ContractError::NotAuthorized));
    assert_eq!(choose_winner(&mut state, &admin, (9, 9)), Ok(vec![]));
    assert_eq!(state.game.quarter_index, 4);
    assert!(state.game.is_over());
    assert!(state.game.can_claim_refund);
    assert_eq!(pcts(&state), vec![25, 25, 25, 25]);
    // floor(50 * 25 / 100)
    assert_eq!(claim_refund(&mut state, &alice), Ok(vec![pay("alice", 12)]));
    // floor(10 * 25 / 100)
    assert_eq!(claim_refund(&mut state, &bob), Ok(vec![pay("bob", 2)]));
    // nothing spent: a transfer of nothing
    assert_eq!(claim_refund(&mut state, &admin), Ok(vec![pay("admin", 0)]));
    assert!(state.is_well_formed());
}

#[test]
fn every_share_carried_forward_refunds_in_full() {
    let mut state = native_game([25, 25, 25, 25], 10);
    let admin = "admin".to_string();
    let alice = "alice".to_string();
    register_player(&mut state, &admin, &alice, None, None).unwrap();
    start_game(&mut state, &admin).unwrap();
    let five = vec![(1, 0), (1, 1), (1, 2), (1, 3), (1, 4)];
    buy_cells(&mut state, &alice, &five, &coins(50), 0).unwrap();
    assert_eq!(choose_winner(&mut state, &admin, (9, 9)), Ok(vec![]));
    assert_eq!(pcts(&state), vec![0, 33, 33, 34]);
    assert_eq!(choose_winner(&mut state, &admin, (9, 9)), Ok(vec![]));
    assert_eq!(pcts(&state), vec![0, 0, 49, 51]);
    assert_eq!(choose_winner(&mut state, &admin, (9, 9)), Ok(vec![]));
    assert_eq!(pcts(&state), vec![0, 0, 0, 100]);
    assert!(!state.game.can_claim_refund);
    assert_eq!(choose_winner(&mut state, &admin, (9, 9)), Ok(vec![]));
    assert_eq!(pcts(&state), vec![0, 0, 0, 100]);
    assert!(state.game.can_claim_refund);
    assert_eq!(claim_refund(&mut state, &alice), Ok(vec![pay("alice", 50)]));
}

#[test]
fn unclaimed_share_is_carried_forward() {
    let mut state = native_game([25, 25, 25, 25], 10);
    let admin = "admin".to_string();
    start_game(&mut state, &admin).unwrap();
    buy_cells(&mut state, &admin, &vec![(0, 0)], &coins(10), 0).unwrap();
    assert!(!choose_winner(&mut state, &admin, (0, 0)).unwrap().is_empty());
    assert_eq!(choose_winner(&mut state, &admin, (5, 5)), Ok(vec![]));
    // each of the two takes floor(25 * 25 / 50) = 12; the one left over goes
    // to the last
    assert_eq!(pcts(&state), vec![25, 0, 37, 38]);
    assert_eq!(pcts(&state).iter().map(|pct| *pct as u32).sum::<u32>(), 100);
    assert_eq!(state.game.quarter_index, 2);
    assert_eq!(state.game.quarters[1].winner, Some((5, 5)));
    assert!(!state.game.can_claim_refund);
    assert!(state.is_well_formed());
}

#[test]
fn carrying_forward_is_proportional() {
    let mut state = native_game([40, 10, 20, 30], 10);
    let admin = "admin".to_string();
    start_game(&mut state, &admin).unwrap();
    assert_eq!(choose_winner(&mut state, &admin, (0, 0)), Ok(vec![]));
    // floor(40 * 10 / 60) = 6, floor(40 * 20 / 60) = 13, floor(40 * 30 / 60) = 20,
    // and the one left over goes to the last
    assert_eq!(pcts(&state), vec![0, 16, 33, 51]);
}

#[test]
fn carrying_forward_to_quarters_without_a_share_fills_the_last() {
    let mut state = native_game([50, 50, 0, 0], 10);
    let admin = "admin".to_string();
    start_game(&mut state, &admin).unwrap();
    buy_cells(&mut state, &admin, &vec![(0, 0)], &coins(10), 0).unwrap();
    assert!(!choose_winner(&mut state, &admin, (0, 0)).unwrap().is_empty());
    assert_eq!(choose_winner(&mut state, &admin, (5, 5)), Ok(vec![]));
    assert_eq!(pcts(&state), vec![50, 0, 0, 50]);
    assert!(state.is_well_formed());
}

#[test]
fn a_quarter_without_a_share_pays_nothing_to_its_winners() {
    let mut state = native_game([100, 0, 0, 0], 10);
    let admin = "admin".to_string();
    start_game(&mut state, &admin).unwrap();
    buy_cells(&mut state, &admin, &vec![(0, 0)], &coins(10), 0).unwrap();
    assert_eq!(
        choose_winner(&mut state, &admin, (0, 0)),
        Ok(vec![
            pay(GELOTTO_ADDR, 0),
            pay(GELOTTO_ANNUAL_GRAND_PRIZE_ADDR, 0),
            pay(GELOTTO_NFT_1_REWARDS_ADDR, 0),
            pay("admin", 9),
        ])
    );
    assert_eq!(
        choose_winner(&mut state, &admin, (0, 0)),
        Ok(vec![
            pay(GELOTTO_ADDR, 0),
            pay(GELOTTO_ANNUAL_GRAND_PRIZE_ADDR, 0),
            pay(GELOTTO_NFT_1_REWARDS_ADDR, 0),
            pay("admin", 0),
        ])
    );
}
