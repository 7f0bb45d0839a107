use vstd::prelude::*;
use cosmwasm_std::StdError;
use crate::models::{Coin, CoinView, Token, TokenView};

verus! {

/// `pct` percent of `total`, rounded down.
pub open spec fn pct_of(total: int, pct: int) -> int {
    total * pct / 100
}

/// Computes `pct` percent of `total`, rounded down.
///
/// The product `total * pct` is never formed, so every result that fits in a
/// `u128` is computed.
pub fn compute_amount_from_pct(total: u128, pct: u8) -> (amount: u128)
    requires
        pct_of(total as int, pct as int) <= u128::MAX,
    ensures
        amount == pct_of(total as int, pct as int),
{
    let hundreds: u128 = total / 100;
    let rest: u128 = total % 100;
    let pct_wide: u128 = pct as u128;
    proof {
        lemma_pct_split(hundreds as int, rest as int, pct as int);
        assert(rest * pct_wide <= 99 * 255) by (nonlinear_arith)
            requires
                rest <= 99,
                pct_wide <= 255,
        ;
    }
    hundreds * pct_wide + rest * pct_wide / 100
}

/// Splits a percentage of `100 * hundreds + rest` into the part owed on the
/// whole hundreds and the part owed on the rest.
pub proof fn lemma_pct_split(hundreds: int, rest: int, pct: int)
    requires
        0 <= hundreds,
        0 <= rest < 100,
        0 <= pct,
    ensures
        pct_of(100 * hundreds + rest, pct) == hundreds * pct + rest * pct / 100,
        0 <= hundreds * pct,
        0 <= rest * pct / 100,
{
    assert((100 * hundreds + rest) * pct == 100 * (hundreds * pct) + rest * pct) by (nonlinear_arith);
    assert(0 <= hundreds * pct) by (nonlinear_arith)
        requires
            0 <= hundreds,
            0 <= pct,
    ;
    assert(0 <= rest * pct) by (nonlinear_arith)
        requires
            0 <= rest,
            0 <= pct,
    ;
    let hp = hundreds * pct;
    let rp = rest * pct;
    assert((100 * hp + rp) / 100 == hp + rp / 100) by (nonlinear_arith)
        requires
            0 <= rp,
    ;
}

/// A percentage of at most 100 of an amount is at most the amount.
pub proof fn lemma_pct_of_bounded(total: int, pct: int)
    requires
        0 <= total,
        0 <= pct <= 100,
    ensures
        0 <= pct_of(total, pct) <= total,
{
    assert(0 <= total * pct <= total * 100) by (nonlinear_arith)
        requires
            0 <= total,
            0 <= pct <= 100,
    ;
}

/// An instruction to pay `amount` of `token` to `recipient`.
#[derive(Debug, PartialEq, Eq)]
pub struct Transfer {
    pub recipient: String,
    pub amount: u128,
    pub token: Token,
}

/// What a [`Transfer`] stands for.
pub struct TransferView {
    pub recipient: Seq<char>,
    pub amount: u128,
    pub token: TokenView,
}

impl View for Transfer {
    type V = TransferView;

    open spec fn view(&self) -> TransferView {
        TransferView { recipient: self.recipient@, amount: self.amount, token: self.token@ }
    }
}

impl DeepView for Transfer {
    type V = TransferView;

    open spec fn deep_view(&self) -> TransferView {
        self@
    }
}

impl Clone for Transfer {
    fn clone(&self) -> (res: Self)
        ensures
            res@ == self@,
    {
        Transfer { recipient: self.recipient.clone(), amount: self.amount, token: self.token.clone() }
    }
}

/// The instruction that pays `amount` of `token` to `recipient`.
pub open spec fn transfer_of(recipient: Seq<char>, token: TokenView, amount: int) -> TransferView {
    TransferView { recipient, amount: amount as u128, token }
}

/// Builds the instruction that pays `amount` of `token` to `to_address`.
pub fn build_transfer(to_address: &String, token: &Token, amount: u128) -> (res: Transfer)
    ensures
        res@ == transfer_of(to_address@, token@, amount as int),
{
    Transfer { recipient: to_address.clone(), amount, token: token.clone() }
}

/// A message to the chain that carries a transfer out.
#[derive(Debug, PartialEq, Eq)]
pub enum ChainMsg {
    /// Has the bank send `amount` to `to_address`.
    BankSend { to_address: String, amount: Vec<Coin> },
    /// Has the contract at `contract_addr` execute `msg`, with `funds` sent
    /// along.
    WasmExecute { contract_addr: String, msg: Vec<u8>, funds: Vec<Coin> },
}

/// What a [`ChainMsg`] stands for.
pub enum ChainMsgView {
    BankSend { to_address: Seq<char>, amount: Seq<CoinView> },
    WasmExecute { contract_addr: Seq<char>, msg: Seq<u8>, funds: Seq<CoinView> },
}

impl View for ChainMsg {
    type V = ChainMsgView;

    open spec fn view(&self) -> ChainMsgView {
        match self {
            ChainMsg::BankSend { to_address, amount } => ChainMsgView::BankSend {
                to_address: to_address@,
                amount: amount.deep_view(),
            },
            ChainMsg::WasmExecute { contract_addr, msg, funds } => ChainMsgView::WasmExecute {
                contract_addr: contract_addr@,
                msg: msg@,
                funds: funds.deep_view(),
            },
        }
    }
}

impl DeepView for ChainMsg {
    type V = ChainMsgView;

    open spec fn deep_view(&self) -> ChainMsgView {
        self@
    }
}

/// `cosmwasm_std::StdError`: what the encoding of a message fails with. Its
/// values are carried through and never looked into.
#[verifier::external_type_specification]
#[verifier::external_body]
pub struct ExStdError(cosmwasm_std::StdError);

/// Why a message to the chain could not be built: the request to a token
/// contract could not be encoded.
#[derive(Debug, PartialEq)]
pub struct EncodeError {
    pub source: StdError,
}

/// The bytes of the request that asks a token contract to transfer `amount`
/// to `recipient`, as `cosmwasm_std::to_json_binary` encodes
/// `cw20::Cw20ExecuteMsg::Transfer`; nothing where it fails to.
pub uninterp spec fn cw20_transfer_json(recipient: Seq<char>, amount: u128) -> Option<Seq<u8>>;

/// Encodes the request that asks a token contract to transfer `amount` to
/// `recipient`.
///
/// The body calls `cosmwasm_std::to_json_binary`, of which `to_binary` is the
/// older name, on `cw20::Cw20ExecuteMsg::Transfer`. Not proved, but taken
/// from those crates: the call encodes the request as JSON, which depends on
/// `recipient` and `amount` alone, so that [`cw20_transfer_json`] names what it
/// returns. What the bytes are is not stated.
#[verifier::external_body]
fn encode_cw20_transfer(recipient: &String, amount: u128) -> (res: Result<Vec<u8>, StdError>)
    ensures
        match res {
            Ok(bytes) => cw20_transfer_json(recipient@, amount) == Some(bytes@),
            Err(_) => cw20_transfer_json(recipient@, amount) is None,
        },
{
    let request = cw20::Cw20ExecuteMsg::Transfer {
        recipient: recipient.clone(),
        amount: cosmwasm_std::Uint128::new(amount),
    };
    match cosmwasm_std::to_json_binary(&request) {
        Ok(binary) => Ok(binary.0),
        Err(e) => Err(e),
    }
}

/// The message that has the bank send `amount` of the coin `denom` to
/// `to_address`.
pub open spec fn bank_send(to_address: Seq<char>, denom: Seq<char>, amount: u128) -> ChainMsgView {
    ChainMsgView::BankSend { to_address, amount: seq![CoinView { denom, amount }] }
}

/// The message that has the contract at `contract_addr` execute `msg`, with
/// no funds sent along.
pub open spec fn wasm_execute(contract_addr: Seq<char>, msg: Seq<u8>) -> ChainMsgView {
    ChainMsgView::WasmExecute { contract_addr, msg, funds: Seq::empty() }
}

/// The message that carries `transfer` out; nothing where the request to the
/// token contract cannot be encoded.
pub open spec fn message_of(transfer: TransferView) -> Option<ChainMsgView> {
    match transfer.token {
        TokenView::Native { denom } => Some(bank_send(transfer.recipient, denom, transfer.amount)),
        TokenView::Cw20 { address } => match cw20_transfer_json(
            transfer.recipient,
            transfer.amount,
        ) {
            Some(msg) => Some(wasm_execute(address, msg)),
            None => None,
        },
    }
}

/// Builds the message that has the bank send `amount` of the native coin
/// `ibc_denom` to `to_address`. It never fails.
pub fn build_native_send_msg(to_address: &String, ibc_denom: &String, amount: u128) -> (res: Result<
    ChainMsg,
    EncodeError,
>)
    ensures
        res is Ok,
        res.unwrap()@ == bank_send(to_address@, ibc_denom@, amount),
{
    let mut coins: Vec<Coin> = Vec::new();
    coins.push(Coin { denom: ibc_denom.clone(), amount });
    assert(coins.deep_view() =~= seq![CoinView { denom: ibc_denom@, amount }]);
    Ok(ChainMsg::BankSend { to_address: to_address.clone(), amount: coins })
}

/// Builds the message that has the token contract at `contract_addr` execute
/// the request `msg`, with no funds sent along.
pub fn build_wasm_execute_msg(contract_addr: &String, msg: Vec<u8>) -> (res: ChainMsg)
    ensures
        res@ == wasm_execute(contract_addr@, msg@),
{
    let funds: Vec<Coin> = Vec::new();
    assert(funds.deep_view() =~= Seq::<CoinView>::empty());
    ChainMsg::WasmExecute { contract_addr: contract_addr.clone(), msg, funds }
}

/// Builds the message that has the token contract at `cw20_token_address`
/// transfer `amount` to `to_address`. It fails where the request cannot be
/// encoded, and only there.
pub fn build_cw20_transfer_msg(
    to_address: &String,
    cw20_token_address: &String,
    amount: u128,
) -> (res: Result<ChainMsg, EncodeError>)
    ensures
        match res {
            Ok(msg) => {
                &&& cw20_transfer_json(to_address@, amount) is Some
                &&& msg@ == wasm_execute(
                    cw20_token_address@,
                    cw20_transfer_json(to_address@, amount).unwrap(),
                )
            },
            Err(_) => cw20_transfer_json(to_address@, amount) is None,
        },
{
    match encode_cw20_transfer(to_address, amount) {
        Ok(msg) => Ok(build_wasm_execute_msg(cw20_token_address, msg)),
        Err(source) => Err(EncodeError { source }),
    }
}

/// Builds the message that carries `transfer` out.
pub fn build_message(transfer: &Transfer) -> (res: Result<ChainMsg, EncodeError>)
    ensures
        match res {
            Ok(msg) => message_of(transfer@) == Some(msg@),
            Err(_) => message_of(transfer@) is None,
        },
{
    match &transfer.token {
        Token::Native { denom } => build_native_send_msg(&transfer.recipient, denom, transfer.amount),
        Token::Cw20 { address } => build_cw20_transfer_msg(
            &transfer.recipient,
            address,
            transfer.amount,
        ),
    }
}

/// Builds the messages that carry `transfers` out, in their order, or fails
/// where one of them cannot be built.
pub fn build_messages(transfers: &Vec<Transfer>) -> (res: Result<Vec<ChainMsg>, EncodeError>)
    ensures
        match res {
            Ok(msgs) => {
                &&& msgs.len() == transfers.len()
                &&& forall|i: int|
                    0 <= i < transfers.len() ==> message_of(#[trigger] transfers.deep_view()[i])
                        == Some(msgs.deep_view()[i])
            },
            Err(_) => exists|i: int|
                0 <= i < transfers.len() && message_of(#[trigger] transfers.deep_view()[i]) is None,
        },
{
    let mut msgs: Vec<ChainMsg> = Vec::new();
    let mut i: usize = 0;
    while i < transfers.len()
        invariant
            i <= transfers.len(),
            msgs.len() == i,
            forall|j: int|
                0 <= j < i ==> message_of(#[trigger] transfers.deep_view()[j]) == Some(
                    msgs.deep_view()[j],
                ),
        decreases transfers.len() - i,
    {
        assert(transfers.deep_view()[i as int] == transfers[i as int]@);
        match build_message(&transfers[i]) {
            Ok(msg) => {
                msgs.push(msg);
            },
            Err(e) => {
                return Err(e);
            },
        }
        i += 1;
    }
    Ok(msgs)
}

} // verus!
