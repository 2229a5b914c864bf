//! The DAR-20 rules (deploy, mint, transfer inscription and execution),
//! the balance arithmetic behind them, and the DashMap, DashDomain and
//! location decisions of the indexer. Each function takes what the indexer
//! has read and says what it is to write.

use vstd::prelude::*;
use crate::amount::{
    amount_readable, amount_readable_exec, format_amount, law_amount_roundtrip, lemma_parse_amount_bounded,
    lemma_parse_amount_reaches_scale, parse_amount, spec_format_amount, spec_parse_amount, u128_max,
};
use crate::models::{
    opt_str, Dar20Inscription, Dar20Mint, Dar20Operation, Dar20Token, Dar20Transfer, DashDomain,
    DashDomainInscription, DashMapClaim, DashMapInscription, Inscription, RawTransaction,
};
use crate::text::{spec_to_uppercase, string_from_chars, to_uppercase};
use crate::parser::{spec_valid_ticker, validate_ticker};

verus! {

/// `unknown`, the address recorded where none is known.
pub open spec fn unknown_text() -> Seq<char> {
    seq!['u', 'n', 'k', 'n', 'o', 'w', 'n']
}

/// `pending`, the recipient of a transfer that is inscribed but not executed.
pub open spec fn pending_text() -> Seq<char> {
    seq!['p', 'e', 'n', 'd', 'i', 'n', 'g']
}

/// The owner recorded for an inscription: its owner, else `unknown`.
pub open spec fn spec_owner_or_unknown(owner: Option<String>) -> Seq<char> {
    match owner {
        Some(o) => o@,
        None => unknown_text(),
    }
}

/// An inscription's owner, or `unknown`.
pub fn owner_or_unknown(owner: &Option<String>) -> (res: String)
    ensures
        res@ == spec_owner_or_unknown(*owner),
{
    match owner {
        Some(o) => o.clone(),
        None => string_from_chars(&vec!['u', 'n', 'k', 'n', 'o', 'w', 'n']),
    }
}

/// The amount that `s` denotes, or `default` where it is no amount.
pub open spec fn parse_or(s: Seq<char>, decimals: nat, default: nat) -> nat {
    match spec_parse_amount(s, decimals) {
        Some(v) => v,
        None => default,
    }
}

/// Reads an amount, falling back to `default`.
pub fn parse_amount_or(s: &String, decimals: u8, default: u128) -> (res: u128)
    requires
        amount_readable(s@, decimals as nat),
    ensures
        res as nat == parse_or(s@, decimals as nat, default as nat),
{
    match parse_amount(s.as_str(), decimals) {
        Some(v) => v,
        None => default,
    }
}

/// The ticker that a DAR-20 operation acts on: its `tick` upper-cased,
/// where that is a valid ticker.
pub open spec fn spec_dar20_tick(tick: Seq<char>) -> Option<Seq<char>> {
    if spec_valid_ticker(spec_to_uppercase(tick)) {
        Some(spec_to_uppercase(tick))
    } else {
        None
    }
}

/// Process DAR-20 operation: the upper-cased ticker, or `None` where it is
/// not a valid ticker and the operation is ignored.
pub fn dar20_tick(dar20: &Dar20Inscription) -> (res: Option<String>)
    ensures
        opt_str(res) == spec_dar20_tick(dar20.tick@),
{
    let tick = to_uppercase(dar20.tick.as_str());
    if validate_ticker(tick.as_str()) {
        Some(tick)
    } else {
        None
    }
}

/// The decimals of a deploy: `dec`, or 18.
pub open spec fn deploy_decimals(dar20: Dar20Inscription) -> u8 {
    match dar20.dec {
        Some(d) => d,
        None => 18,
    }
}

/// The mint limit of a deploy: `lim`, or the max supply.
pub open spec fn deploy_limit_text(dar20: Dar20Inscription) -> Seq<char> {
    match dar20.lim {
        Some(l) => l@,
        None => dar20.max->0@,
    }
}

/// Whether a deploy registers its token: not deployed before, with a max
/// supply, and (in base units) max > 0, lim > 0 and lim <= max.
pub open spec fn spec_deploy_accepted(dar20: Dar20Inscription, already_deployed: bool) -> bool {
    &&& !already_deployed
    &&& dar20.max is Some
    &&& parse_or(dar20.max->0@, deploy_decimals(dar20) as nat, 0) > 0
    &&& parse_or(deploy_limit_text(dar20), deploy_decimals(dar20) as nat, 0) > 0
    &&& parse_or(deploy_limit_text(dar20), deploy_decimals(dar20) as nat, 0) <= parse_or(
        dar20.max->0@,
        deploy_decimals(dar20) as nat,
        0,
    )
}

/// The amounts of a deploy (its max supply and mint limit) are read with
/// its decimals: each must be readable with them (see `amount_readable`).
pub open spec fn deploy_amounts_readable(dar20: Dar20Inscription, already_deployed: bool) -> bool {
    !already_deployed && dar20.max is Some ==> amount_readable(dar20.max->0@, deploy_decimals(dar20) as nat)
        && amount_readable(deploy_limit_text(dar20), deploy_decimals(dar20) as nat)
}

/// Tells whether `deploy_amounts_readable` holds, so that a caller can
/// refuse the deploys whose reading would overflow.
pub fn deploy_amounts_readable_exec(dar20: &Dar20Inscription, already_deployed: bool) -> (b: bool)
    ensures
        b == deploy_amounts_readable(*dar20, already_deployed),
{
    if already_deployed {
        return true;
    }
    match &dar20.max {
        None => true,
        Some(m) => {
            let decimals: u8 = match dar20.dec {
                Some(d) => d,
                None => 18,
            };
            let max_ok = amount_readable_exec(m.as_str(), decimals);
            let lim_ok = match &dar20.lim {
                Some(l) => amount_readable_exec(l.as_str(), decimals),
                None => max_ok,
            };
            max_ok && lim_ok
        },
    }
}

/// Process DAR-20 deploy operation.
/// Canonical BRC-20 rules:
/// - First valid deploy wins (all later deploys with same tick are ignored)
/// - tick must be exactly 4 ASCII characters
/// - max > 0, lim > 0, lim ≤ max
/// - Parameters are immutable once deployed
pub fn plan_deploy(
    dar20: &Dar20Inscription,
    tick: &String,
    already_deployed: bool,
    inscription: &Inscription,
    block_height: u64,
    block_time: u64,
) -> (res: Option<Dar20Token>)
    requires
        deploy_amounts_readable(*dar20, already_deployed),
    ensures
        res is Some <==> spec_deploy_accepted(*dar20, already_deployed),
        res matches Some(token) ==> {
            &&& token.id is None
            &&& token.tick@ == tick@
            &&& token.max_supply@ == dar20.max->0@
            &&& token.mint_limit@ == deploy_limit_text(*dar20)
            &&& token.decimals == deploy_decimals(*dar20)
            &&& token.total_minted@ == seq!['0']
            &&& token.deploy_txid@ == inscription.txid@
            &&& token.deploy_address@ == spec_owner_or_unknown(inscription.owner_address)
            &&& token.block_height == block_height
            &&& token.block_time == block_time
            &&& token.created_at is None
        },
        res matches Some(token) ==> 0 < parse_or(token.mint_limit@, token.decimals as nat, 0)
            <= parse_or(token.max_supply@, token.decimals as nat, 0),
{
    if already_deployed {
        return None;
    }
    let max_supply = match &dar20.max {
        Some(m) => m.clone(),
        None => {
            return None;
        },
    };
    let mint_limit = match &dar20.lim {
        Some(l) => l.clone(),
        None => max_supply.clone(),
    };
    let decimals: u8 = match dar20.dec {
        Some(d) => d,
        None => 18,
    };
    let max_amount = parse_amount_or(&max_supply, decimals, 0);
    let lim_amount = parse_amount_or(&mint_limit, decimals, 0);
    if max_amount == 0 || lim_amount == 0 || lim_amount > max_amount {
        return None;
    }
    Some(
        Dar20Token {
            id: None,
            tick: tick.clone(),
            max_supply,
            mint_limit,
            decimals,
            total_minted: string_from_chars(&vec!['0']),
            deploy_txid: inscription.txid.clone(),
            deploy_address: owner_or_unknown(&inscription.owner_address),
            block_height,
            block_time,
            created_at: None,
        },
    )
}

/// The numbers a mint is judged by, in base units: its amount, the token's
/// mint limit and max supply (`u128::MAX` where unreadable) and what is
/// minted so far (0 where unreadable).
pub open spec fn mint_amount(dar20: Dar20Inscription, token: Dar20Token) -> Option<nat> {
    match dar20.amt {
        Some(a) => spec_parse_amount(a@, token.decimals as nat),
        None => None,
    }
}

pub open spec fn token_limit(token: Dar20Token) -> nat {
    parse_or(token.mint_limit@, token.decimals as nat, u128_max())
}

pub open spec fn token_max(token: Dar20Token) -> nat {
    parse_or(token.max_supply@, token.decimals as nat, u128_max())
}

pub open spec fn token_minted(token: Dar20Token) -> nat {
    parse_or(token.total_minted@, token.decimals as nat, 0)
}

/// The mint's arithmetic stays within `u128`: its amount is readable with
/// the token's decimals (see `amount_readable`), and the minted total plus
/// an amount within the limit does not overflow.
pub open spec fn mint_arithmetic_fits(dar20: Dar20Inscription, token: Dar20Token) -> bool {
    &&& dar20.amt matches Some(a) ==> amount_readable(a@, token.decimals as nat)
    &&& match mint_amount(dar20, token) {
        Some(a) => a <= token_limit(token) ==> token_minted(token) + a <= u128_max(),
        None => true,
    }
}

/// Whether a mint is valid: it has an amount, the amount is within the
/// mint limit, the token is not yet fully minted (minting stops for good
/// once the max supply is reached), and the minted total stays within the
/// max supply.
pub open spec fn spec_mint_accepted(dar20: Dar20Inscription, token: Dar20Token) -> bool {
    &&& mint_amount(dar20, token) is Some
    &&& mint_amount(dar20, token)->0 <= token_limit(token)
    &&& token_minted(token) < token_max(token)
    &&& token_minted(token) + mint_amount(dar20, token)->0 <= token_max(token)
}

/// A valid mint: the record to store, its amount in base units, and the
/// token's new minted total as text.
pub struct MintPlan {
    pub mint: Dar20Mint,
    pub amount: u128,
    pub new_total_minted: String,
}

/// Tells whether `mint_arithmetic_fits` holds, so that a caller can refuse
/// the inputs on which the mint's arithmetic would overflow.
pub fn mint_arithmetic_fits_exec(dar20: &Dar20Inscription, token: &Dar20Token) -> (b: bool)
    ensures
        b == mint_arithmetic_fits(*dar20, *token),
{
    match &dar20.amt {
        None => true,
        Some(a) => {
            if !amount_readable_exec(a.as_str(), token.decimals) {
                return false;
            }
            match parse_amount(a.as_str(), token.decimals) {
                None => true,
                Some(amount) => {
                    proof {
                        lemma_parse_amount_reaches_scale(a@, token.decimals as nat);
                    }
                    let limit = parse_amount_or(&token.mint_limit, token.decimals, u128::MAX);
                    let minted = parse_amount_or(&token.total_minted, token.decimals, 0);
                    amount > limit || minted <= u128::MAX - amount
                },
            }
        },
    }
}

/// Process DAR-20 mint operation.
/// Canonical BRC-20 rules:
/// - Token must be deployed
/// - amt ≤ lim
/// - total_minted + amt ≤ max
/// - Invalid mints are completely ignored (not recorded)
/// - Tokens go to address controlling the mint inscription UTXO
/// - Permissionless, first-come-first-served
/// - Stops permanently once max reached
pub fn plan_mint(
    dar20: &Dar20Inscription,
    tick: &String,
    token: &Dar20Token,
    inscription: &Inscription,
    block_height: u64,
    block_time: u64,
) -> (res: Option<MintPlan>)
    requires
        mint_arithmetic_fits(*dar20, *token),
    ensures
        res is Some <==> spec_mint_accepted(*dar20, *token),
        res matches Some(plan) ==> {
            &&& plan.amount == mint_amount(*dar20, *token)->0
            &&& plan.new_total_minted@ == spec_format_amount(
                token_minted(*token) + plan.amount as nat,
                token.decimals as nat,
            )
            &&& plan.mint.id is None
            &&& plan.mint.tick@ == tick@
            &&& plan.mint.amount@ == dar20.amt->0@
            &&& plan.mint.to_address@ == spec_owner_or_unknown(inscription.owner_address)
            &&& plan.mint.txid@ == inscription.txid@
            &&& plan.mint.block_height == block_height
            &&& plan.mint.block_time == block_time
            &&& plan.mint.valid
            &&& plan.mint.created_at is None
        },
        res matches Some(plan) ==> plan.amount <= token_limit(*token) && spec_parse_amount(
            plan.new_total_minted@,
            token.decimals as nat,
        ) == Some(token_minted(*token) + plan.amount as nat) && token_minted(*token) + plan.amount
            <= token_max(*token),
{
    let amount_str = match &dar20.amt {
        Some(a) => a.clone(),
        None => {
            return None;
        },
    };
    let mint_amount = match parse_amount(amount_str.as_str(), token.decimals) {
        Some(a) => a,
        None => {
            return None;
        },
    };
    proof {
        lemma_parse_amount_reaches_scale(amount_str@, token.decimals as nat);
    }
    let mint_limit = parse_amount_or(&token.mint_limit, token.decimals, u128::MAX);
    let max_supply = parse_amount_or(&token.max_supply, token.decimals, u128::MAX);
    let total_minted = parse_amount_or(&token.total_minted, token.decimals, 0);
    if mint_amount > mint_limit {
        return None;
    }
    if total_minted + mint_amount > max_supply || total_minted >= max_supply {
        return None;
    }
    let new_total = total_minted + mint_amount;
    let new_total_minted = format_amount(new_total, token.decimals);
    proof {
        law_amount_roundtrip(new_total as nat, token.decimals as nat);
    }
    let mint = Dar20Mint {
        id: None,
        tick: tick.clone(),
        amount: amount_str,
        to_address: owner_or_unknown(&inscription.owner_address),
        txid: inscription.txid.clone(),
        block_height,
        block_time,
        valid: true,
        created_at: None,
    };
    Some(MintPlan { mint, amount: mint_amount, new_total_minted })
}

/// A balance after `amount` base units are added to `current` (0 where it
/// is no amount).
pub open spec fn spec_credit(current: Seq<char>, amount: nat, decimals: nat) -> Seq<char> {
    spec_format_amount(parse_or(current, decimals, 0) + amount, decimals)
}

/// Adds `amount` base units to the balance `current`: a mint credits its
/// recipient, an executed transfer its recipient.
pub fn credit_balance(current: &String, amount: u128, decimals: u8) -> (res: String)
    requires
        decimals <= 38,
        parse_or(current@, decimals as nat, 0) + amount <= u128_max(),
    ensures
        res@ == spec_credit(current@, amount as nat, decimals as nat),
        spec_parse_amount(res@, decimals as nat) == Some(parse_or(current@, decimals as nat, 0) + amount as nat),
{
    let c = parse_amount_or(current, decimals, 0);
    let n = c + amount;
    proof {
        law_amount_roundtrip(n as nat, decimals as nat);
    }
    format_amount(n, decimals)
}

/// The available balance: the total less the locked part (never below
/// zero), or the total as stored where the token is unknown.
pub open spec fn spec_available_balance(total: Seq<char>, locked: Seq<char>, decimals: Option<u8>) -> Seq<char> {
    match decimals {
        None => total,
        Some(d) => {
            let t = parse_or(total, d as nat, 0);
            let l = parse_or(locked, d as nat, 0);
            spec_format_amount(if t >= l { (t - l) as nat } else { 0 }, d as nat)
        },
    }
}

/// Get available balance (total - locked) for address and token.
/// This is the canonical BRC-20 behavior: available = balance - locked.
pub fn available_balance(total: &String, locked: &String, decimals: Option<u8>) -> (res: String)
    requires
        decimals matches Some(d) ==> d <= 38,
    ensures
        res@ == spec_available_balance(total@, locked@, decimals),
{
    match decimals {
        None => total.clone(),
        Some(d) => {
            let t = parse_amount_or(total, d, 0);
            let l = parse_amount_or(locked, d, 0);
            format_amount(t.saturating_sub(l), d)
        },
    }
}

/// Whether an inscribed transfer is valid: it has a readable amount and the
/// sender's available balance covers it.
pub open spec fn transfer_amount(dar20: Dar20Inscription, token: Dar20Token) -> Option<nat> {
    mint_amount(dar20, token)
}

/// Process DAR-20 transfer operation (canonical BRC-20, step A): the
/// transfer inscription is recorded with recipient `pending`, valid where
/// the sender's available balance covers the amount; a valid one then
/// locks that amount.
pub fn plan_transfer_inscription(
    dar20: &Dar20Inscription,
    tick: &String,
    token: &Dar20Token,
    inscription: &Inscription,
    block_height: u64,
    block_time: u64,
    sender_available: &String,
) -> (res: Option<Dar20Transfer>)
    requires
        dar20.amt matches Some(a) ==> amount_readable(a@, token.decimals as nat),
    ensures
        res is Some <==> transfer_amount(*dar20, *token) is Some,
        res matches Some(t) ==> {
            &&& t.id is None
            &&& t.tick@ == tick@
            &&& t.amount@ == dar20.amt->0@
            &&& t.from_address@ == spec_owner_or_unknown(inscription.owner_address)
            &&& t.to_address@ == pending_text()
            &&& t.txid@ == inscription.txid@
            &&& t.block_height == block_height
            &&& t.block_time == block_time
            &&& t.valid == (parse_or(sender_available@, token.decimals as nat, 0) >= transfer_amount(
                *dar20,
                *token,
            )->0)
            &&& t.created_at is None
        },
{
    let amount_str = match &dar20.amt {
        Some(a) => a.clone(),
        None => {
            return None;
        },
    };
    let transfer_amount = match parse_amount(amount_str.as_str(), token.decimals) {
        Some(a) => a,
        None => {
            return None;
        },
    };
    proof {
        lemma_parse_amount_reaches_scale(amount_str@, token.decimals as nat);
    }
    let sender_balance = parse_amount_or(sender_available, token.decimals, 0);
    Some(
        Dar20Transfer {
            id: None,
            tick: tick.clone(),
            amount: amount_str,
            from_address: owner_or_unknown(&inscription.owner_address),
            to_address: string_from_chars(&vec!['p', 'e', 'n', 'd', 'i', 'n', 'g']),
            txid: inscription.txid.clone(),
            block_height,
            block_time,
            valid: sender_balance >= transfer_amount,
            created_at: None,
        },
    )
}

/// The locked balance after locking `amount`: `None` where the amount is no
/// amount (the lock fails).
pub open spec fn spec_lock(locked: Seq<char>, amount: Seq<char>, decimals: nat) -> Option<Seq<char>> {
    match spec_parse_amount(amount, decimals) {
        None => None,
        Some(a) => Some(spec_format_amount(parse_or(locked, decimals, 0) + a, decimals)),
    }
}

/// The locked balance after unlocking `amount` (never below zero): `None`
/// where the amount is no amount (the unlock fails).
pub open spec fn spec_unlock(locked: Seq<char>, amount: Seq<char>, decimals: nat) -> Option<Seq<char>> {
    match spec_parse_amount(amount, decimals) {
        None => None,
        Some(a) => {
            let l = parse_or(locked, decimals, 0);
            Some(spec_format_amount(if l >= a { (l - a) as nat } else { 0 }, decimals))
        },
    }
}

/// Lock tokens: add to the locked balance (when a transfer inscription is
/// created).
pub fn lock_amount(locked: &String, amount: &String, decimals: u8) -> (res: Option<String>)
    requires
        amount_readable(locked@, decimals as nat),
        amount_readable(amount@, decimals as nat),
        spec_parse_amount(amount@, decimals as nat) matches Some(a) ==> parse_or(
            locked@,
            decimals as nat,
            0,
        ) + a <= u128_max(),
    ensures
        opt_str(res) == spec_lock(locked@, amount@, decimals as nat),
{
    let current = parse_amount_or(locked, decimals, 0);
    match parse_amount(amount.as_str(), decimals) {
        None => None,
        Some(a) => {
            proof {
                lemma_parse_amount_reaches_scale(amount@, decimals as nat);
            }
            Some(format_amount(current + a, decimals))
        },
    }
}

/// Unlock tokens: subtract from the locked balance (when a transfer
/// inscription's output is spent).
pub fn unlock_amount(locked: &String, amount: &String, decimals: u8) -> (res: Option<String>)
    requires
        amount_readable(locked@, decimals as nat),
        amount_readable(amount@, decimals as nat),
    ensures
        opt_str(res) == spec_unlock(locked@, amount@, decimals as nat),
{
    let current = parse_amount_or(locked, decimals, 0);
    match parse_amount(amount.as_str(), decimals) {
        None => None,
        Some(a) => {
            proof {
                lemma_parse_amount_reaches_scale(amount@, decimals as nat);
            }
            Some(format_amount(current.saturating_sub(a), decimals))
        },
    }
}

/// Why a transfer cannot be executed.
#[derive(Debug, Clone, Copy, PartialEq, Eq, Structural)]
pub enum LedgerError {
    /// The transfer inscription has no amount.
    MissingAmount,
    /// The token is not deployed.
    TokenNotFound,
    /// The amount is not an amount.
    InvalidAmount,
}

/// What executing a transfer does: reject it (it is then recorded invalid),
/// or move `amount` base units, leaving the sender the total given.
pub enum TransferExecution {
    Reject,
    Execute { amount: u128, new_sender_total: String },
}

/// The outcome of executing a transfer, as (error, or reject, or amount
/// and the sender's new total).
pub open spec fn spec_transfer_execution(
    dar20: Dar20Inscription,
    token: Option<Dar20Token>,
    sender_locked: Seq<char>,
    sender_total: Seq<char>,
) -> Result<Option<(nat, Seq<char>)>, LedgerError> {
    match dar20.amt {
        None => Err(LedgerError::MissingAmount),
        Some(amt) => match token {
            None => Err(LedgerError::TokenNotFound),
            Some(t) => match spec_parse_amount(amt@, t.decimals as nat) {
                None => Err(LedgerError::InvalidAmount),
                Some(a) => {
                    let locked = parse_or(sender_locked, t.decimals as nat, 0);
                    let total = parse_or(sender_total, t.decimals as nat, 0);
                    if locked < a || total < a {
                        Ok(None)
                    } else {
                        Ok(Some((a, spec_format_amount((total - a) as nat, t.decimals as nat))))
                    }
                },
            },
        },
    }
}

/// Execute DAR-20 transfer when the transfer inscription's output is spent
/// (canonical BRC-20, step B): with enough locked and total balance, the
/// amount is unlocked, taken from the sender's total and added to the
/// recipient's; otherwise the transfer is recorded invalid.
pub fn plan_transfer_execution(
    dar20: &Dar20Inscription,
    token: &Option<Dar20Token>,
    sender_locked: &String,
    sender_total: &String,
) -> (res: Result<TransferExecution, LedgerError>)
    requires
        dar20.amt matches Some(a) ==> (token matches Some(t) ==> amount_readable(a@, t.decimals as nat)),
    ensures
        match (res, spec_transfer_execution(*dar20, *token, sender_locked@, sender_total@)) {
            (Err(e), Err(s)) => e == s,
            (Ok(TransferExecution::Reject), Ok(None)) => true,
            (Ok(TransferExecution::Execute { amount, new_sender_total }), Ok(Some((a, t)))) => amount
                == a && new_sender_total@ == t,
            _ => false,
        },
{
    let amount_str = match &dar20.amt {
        Some(a) => a,
        None => {
            return Err(LedgerError::MissingAmount);
        },
    };
    let t = match token {
        Some(t) => t,
        None => {
            return Err(LedgerError::TokenNotFound);
        },
    };
    let amount = match parse_amount(amount_str.as_str(), t.decimals) {
        Some(a) => a,
        None => {
            return Err(LedgerError::InvalidAmount);
        },
    };
    proof {
        lemma_parse_amount_reaches_scale(amount_str@, t.decimals as nat);
    }
    let locked = parse_amount_or(sender_locked, t.decimals, 0);
    let total = parse_amount_or(sender_total, t.decimals, 0);
    if locked < amount || total < amount {
        return Ok(TransferExecution::Reject);
    }
    Ok(TransferExecution::Execute { amount, new_sender_total: format_amount(total - amount, t.decimals) })
}

/// Process DashMap claim, first step: the claimed block, or `None` where it
/// lies after the block that carries the claim (a claim for a future block
/// is ignored).
pub fn dashmap_claim_target(dashmap: &DashMapInscription, block_height: u64) -> (res: Option<u64>)
    ensures
        res == (if dashmap.block_height > block_height {
            None
        } else {
            Some(dashmap.block_height)
        }),
{
    if dashmap.block_height > block_height {
        None
    } else {
        Some(dashmap.block_height)
    }
}

fn clone_opt(o: &Option<String>) -> (res: Option<String>)
    ensures
        opt_str(res) == opt_str(*o),
{
    match o {
        Some(s) => Some(s.clone()),
        None => None,
    }
}

/// Process DashMap claim, second step (the block is unclaimed): the claim,
/// owned by the inscription's owner (or `unknown`) and located where the
/// inscription is.
pub fn dashmap_claim_record(
    dashmap: &DashMapInscription,
    inscription: &Inscription,
    block_height: u64,
    block_time: u64,
) -> (claim: DashMapClaim)
    ensures
        claim.id is None,
        claim.block_height == dashmap.block_height,
        claim.owner_address@ == spec_owner_or_unknown(inscription.owner_address),
        claim.inscription_id@ == inscription.inscription_id@,
        opt_str(claim.current_location) == opt_str(inscription.current_location),
        claim.claim_txid@ == inscription.txid@,
        claim.claim_block_height == block_height,
        claim.claim_time == block_time,
        claim.created_at is None,
{
    DashMapClaim {
        id: None,
        block_height: dashmap.block_height,
        owner_address: owner_or_unknown(&inscription.owner_address),
        inscription_id: inscription.inscription_id.clone(),
        current_location: clone_opt(&inscription.current_location),
        claim_txid: inscription.txid.clone(),
        claim_block_height: block_height,
        claim_time: block_time,
        created_at: None,
    }
}

/// Process DashDomain registration (the name is not registered yet): the
/// domain, owned by the inscription's owner (or `unknown`) and located
/// where the inscription is.
pub fn domain_record(
    domain: &DashDomainInscription,
    inscription: &Inscription,
    block_height: u64,
    block_time: u64,
) -> (res: DashDomain)
    ensures
        res.id is None,
        res.name@ == domain.name@,
        res.full_name@ == domain.full_name@,
        res.owner_address@ == spec_owner_or_unknown(inscription.owner_address),
        res.inscription_id@ == inscription.inscription_id@,
        opt_str(res.current_location) == opt_str(inscription.current_location),
        res.registration_txid@ == inscription.txid@,
        res.registration_block == block_height,
        res.registration_time == block_time,
        res.created_at is None,
{
    DashDomain {
        id: None,
        name: domain.name.clone(),
        full_name: domain.full_name.clone(),
        owner_address: owner_or_unknown(&inscription.owner_address),
        inscription_id: inscription.inscription_id.clone(),
        current_location: clone_opt(&inscription.current_location),
        registration_txid: inscription.txid.clone(),
        registration_block: block_height,
        registration_time: block_time,
        created_at: None,
    }
}

/// The first index from `i` on where `m` holds `true`.
pub open spec fn first_true(m: Seq<bool>, i: int) -> Option<int>
    decreases m.len() - i,
{
    if i < 0 || i >= m.len() {
        None
    } else if m[i] {
        Some(i)
    } else {
        first_true(m, i + 1)
    }
}

/// An address, or `unknown`.
pub open spec fn or_unknown(a: Option<Seq<char>>) -> Seq<char> {
    match a {
        Some(s) => s,
        None => unknown_text(),
    }
}

/// The output of `tx` that receives a spent inscription output, and its
/// address: the first output whose value matches the spent value (as
/// `value_matches` reports, one entry per output), else output 0; where the
/// spent value is unknown (`None`), output 0. The index is cut to 32 bits.
pub open spec fn spec_receiving_output(tx: RawTransaction, value_matches: Option<Seq<bool>>) -> (u32, Seq<char>) {
    match value_matches {
        Some(m) => match first_true(m, 0) {
            Some(i) => ((i % 0x1_0000_0000) as u32, or_unknown(crate::parser::spec_output_address(tx.vout@[i]))),
            None => (0, or_unknown(crate::parser::spec_first_output_address(tx))),
        },
        None => (0, or_unknown(crate::parser::spec_first_output_address(tx))),
    }
}

/// Finds which output of `tx` receives a spent inscription output (see
/// `spec_receiving_output`).
pub fn receiving_output(tx: &RawTransaction, value_matches: &Option<Vec<bool>>) -> (res: (u32, String))
    requires
        value_matches matches Some(m) ==> m@.len() == tx.vout@.len(),
    ensures
        res.0 == spec_receiving_output(
            *tx,
            match value_matches {
                Some(m) => Some(m@),
                None => None,
            },
        ).0,
        res.1@ == spec_receiving_output(
            *tx,
            match value_matches {
                Some(m) => Some(m@),
                None => None,
            },
        ).1,
{
    match value_matches {
        Some(m) => {
            let n = m.len();
            let mut i: usize = 0;
            while i < n
                invariant
                    n == m@.len() == tx.vout@.len(),
                    *value_matches == Some(*m),
                    i <= n,
                    first_true(m@, 0) == first_true(m@, i as int),
                decreases n - i,
            {
                if m[i] {
                    let addr = owner_or_unknown(&crate::parser::output_address(&tx.vout[i]));
                    return (((i as u64) % 0x1_0000_0000) as u32, addr);
                }
                i = i + 1;
            }
            (0, owner_or_unknown(&crate::parser::get_first_output_address(tx)))
        },
        None => (0, owner_or_unknown(&crate::parser::get_first_output_address(tx))),
    }
}

/// Where an output spent by `tx` moves to: the spent output's location, the
/// receiving output's location in `tx`, and the new owner.
pub struct UtxoMove {
    pub spent_location: String,
    pub new_location: String,
    pub new_owner: String,
}

/// Detect inscription transfers: an input of `tx` that spends output
/// `spent_vout` of `spent_txid` moves whatever sits there to the receiving
/// output of `tx` (see `spec_receiving_output`).
pub fn plan_utxo_move(
    tx: &RawTransaction,
    spent_txid: &String,
    spent_vout: u32,
    value_matches: &Option<Vec<bool>>,
) -> (res: UtxoMove)
    requires
        value_matches matches Some(m) ==> m@.len() == tx.vout@.len(),
    ensures
        res.spent_location@ == crate::parser::location_text(spent_txid@, spent_vout as nat),
        res.new_location@ == crate::parser::location_text(
            tx.txid@,
            spec_receiving_output(
                *tx,
                match value_matches {
                    Some(m) => Some(m@),
                    None => None,
                },
            ).0 as nat,
        ),
        res.new_owner@ == spec_receiving_output(
            *tx,
            match value_matches {
                Some(m) => Some(m@),
                None => None,
            },
        ).1,
{
    let spent_location = crate::parser::location_string(spent_txid, spent_vout);
    let (new_vout, new_owner) = receiving_output(tx, value_matches);
    let new_location = crate::parser::location_string(&tx.txid, new_vout);
    UtxoMove { spent_location, new_location, new_owner }
}

/// Whether an inscription is a DAR-20 transfer inscription.
pub open spec fn spec_is_dar20_transfer(inscription: Inscription) -> bool {
    crate::parser::spec_parse_dar20(inscription.content_type@, inscription.content@) matches Some(v)
        && v.0 == Dar20Operation::Transfer
}

/// Whether an inscription is a DAR-20 transfer inscription.
pub fn is_dar20_transfer(inscription: &Inscription) -> (b: bool)
    ensures
        b == spec_is_dar20_transfer(*inscription),
{
    match crate::parser::parse_dar20(inscription) {
        Some(d) => d.operation == Dar20Operation::Transfer,
        None => false,
    }
}

/// The sender of a DAR-20 transfer being executed: the `from` address of
/// its transfer record, else the inscription's owner, else `unknown`.
pub fn transfer_sender(record: &Option<Dar20Transfer>, inscription: &Inscription) -> (res: String)
    ensures
        res@ == (match record {
            Some(r) => r.from_address@,
            None => spec_owner_or_unknown(inscription.owner_address),
        }),
{
    match record {
        Some(r) => r.from_address.clone(),
        None => owner_or_unknown(&inscription.owner_address),
    }
}

/// An executed transfer moves tokens and creates none: the sender's new
/// total and the recipient's credited total add up to what the two held
/// before.
pub proof fn law_transfer_conserves_balances(
    dar20: Dar20Inscription,
    token: Dar20Token,
    sender_locked: Seq<char>,
    sender_total: Seq<char>,
    recipient_total: Seq<char>,
)
    requires
        dar20.amt matches Some(a) ==> amount_readable(a@, token.decimals as nat),
        spec_transfer_execution(dar20, Some(token), sender_locked, sender_total) is Ok,
        spec_transfer_execution(dar20, Some(token), sender_locked, sender_total)->Ok_0 is Some,
        parse_or(recipient_total, token.decimals as nat, 0) + spec_transfer_execution(
            dar20,
            Some(token),
            sender_locked,
            sender_total,
        )->Ok_0->0 .0 <= u128_max(),
    ensures
        ({
            let (a, new_sender) = spec_transfer_execution(
                dar20,
                Some(token),
                sender_locked,
                sender_total,
            )->Ok_0->0;
            let d = token.decimals as nat;
            parse_or(new_sender, d, 0) + parse_or(spec_credit(recipient_total, a, d), d, 0)
                == parse_or(sender_total, d, 0) + parse_or(recipient_total, d, 0)
        }),
{
    let d = token.decimals as nat;
    let (a, new_sender) = spec_transfer_execution(dar20, Some(token), sender_locked, sender_total)->Ok_0->0;
    lemma_parse_amount_reaches_scale(dar20.amt->0@, d);
    let total = parse_or(sender_total, d, 0);
    lemma_parse_amount_bounded(sender_total, d);
    law_amount_roundtrip((total - a) as nat, d);
    law_amount_roundtrip(parse_or(recipient_total, d, 0) + a, d);
}

/// Locking an amount and then unlocking the same amount leaves the locked
/// balance where it was.
pub proof fn law_lock_then_unlock(locked: Seq<char>, amount: Seq<char>, decimals: nat)
    requires
        amount_readable(amount, decimals),
        spec_parse_amount(amount, decimals) is Some,
        parse_or(locked, decimals, 0) + spec_parse_amount(amount, decimals)->0 <= u128_max(),
    ensures
        spec_lock(locked, amount, decimals) is Some,
        spec_unlock(spec_lock(locked, amount, decimals)->0, amount, decimals) == Some(
            spec_format_amount(parse_or(locked, decimals, 0), decimals),
        ),
{
    let a = spec_parse_amount(amount, decimals)->0;
    let l = parse_or(locked, decimals, 0);
    lemma_parse_amount_reaches_scale(amount, decimals);
    lemma_parse_amount_bounded(locked, decimals);
    law_amount_roundtrip(l + a, decimals);
}

/// Locking the amount of a valid transfer takes exactly that amount out of
/// the sender's available balance, so the same tokens cannot back a second
/// transfer.
pub proof fn law_lock_reduces_available(total: Seq<char>, locked: Seq<char>, amount: Seq<char>, decimals: nat)
    requires
        amount_readable(amount, decimals),
        spec_parse_amount(amount, decimals) is Some,
        parse_or(locked, decimals, 0) + spec_parse_amount(amount, decimals)->0 <= parse_or(total, decimals, 0),
    ensures
        spec_lock(locked, amount, decimals) is Some,
        parse_or(
            spec_available_balance(total, spec_lock(locked, amount, decimals)->0, Some(decimals as u8)),
            decimals,
            0,
        ) + spec_parse_amount(amount, decimals)->0 == parse_or(
            spec_available_balance(total, locked, Some(decimals as u8)),
            decimals,
            0,
        ),
{
    let a = spec_parse_amount(amount, decimals)->0;
    let l = parse_or(locked, decimals, 0);
    let t = parse_or(total, decimals, 0);
    lemma_parse_amount_reaches_scale(amount, decimals);
    lemma_parse_amount_bounded(total, decimals);
    assert((decimals as u8) as nat == decimals);
    law_amount_roundtrip(l + a, decimals);
    law_amount_roundtrip((t - (l + a)) as nat, decimals);
    law_amount_roundtrip((t - l) as nat, decimals);
}

/// The available balance and the locked balance add up to the total where
/// the locked part does not exceed it; otherwise nothing is available.
pub proof fn law_available_plus_locked(total: Seq<char>, locked: Seq<char>, decimals: nat)
    requires
        decimals <= 38,
    ensures
        ({
            let t = parse_or(total, decimals, 0);
            let l = parse_or(locked, decimals, 0);
            let avail = spec_available_balance(total, locked, Some(decimals as u8));
            &&& l <= t ==> parse_or(avail, decimals, 0) + l == t
            &&& l > t ==> parse_or(avail, decimals, 0) == 0
        }),
{
    let t = parse_or(total, decimals, 0);
    let l = parse_or(locked, decimals, 0);
    lemma_parse_amount_bounded(total, decimals);
    assert((decimals as u8) as nat == decimals);
    if l <= t {
        law_amount_roundtrip((t - l) as nat, decimals);
    } else {
        law_amount_roundtrip(0, decimals);
    }
}

/// Once a token's minted total has reached its max supply, no mint is
/// accepted, whatever its amount: minting stops for good.
pub proof fn law_fully_minted_token_accepts_no_mint(dar20: Dar20Inscription, token: Dar20Token)
    requires
        token_minted(token) >= token_max(token),
    ensures
        !spec_mint_accepted(dar20, token),
{
}

/// Minting never takes the minted total past the max supply: the total a
/// mint writes reads back as at most the max supply (for every mint the
/// indexer gets through, that is whose arithmetic does not overflow).
pub proof fn law_mint_keeps_total_within_max(dar20: Dar20Inscription, token: Dar20Token)
    requires
        mint_arithmetic_fits(dar20, token),
        spec_mint_accepted(dar20, token),
    ensures
        parse_or(
            spec_format_amount(token_minted(token) + mint_amount(dar20, token)->0, token.decimals as nat),
            token.decimals as nat,
            0,
        ) <= token_max(token),
{
    let d = token.decimals as nat;
    lemma_parse_amount_reaches_scale(dar20.amt->0@, d);
    lemma_parse_amount_bounded(token.max_supply@, d);
    law_amount_roundtrip(token_minted(token) + mint_amount(dar20, token)->0, d);
}

/// A transfer inscription locks only what is available: where the locked
/// balance was within the total, it still is after a valid transfer (one
/// whose amount the available balance covers) locks its amount.
pub proof fn law_lock_stays_within_total(total: Seq<char>, locked: Seq<char>, amount: Seq<char>, decimals: u8)
    requires
        amount_readable(amount, decimals as nat),
        spec_parse_amount(amount, decimals as nat) is Some,
        parse_or(locked, decimals as nat, 0) <= parse_or(total, decimals as nat, 0),
        parse_or(spec_available_balance(total, locked, Some(decimals)), decimals as nat, 0)
            >= spec_parse_amount(amount, decimals as nat)->0,
    ensures
        spec_lock(locked, amount, decimals as nat) is Some,
        parse_or(spec_lock(locked, amount, decimals as nat)->0, decimals as nat, 0) <= parse_or(
            total,
            decimals as nat,
            0,
        ),
{
    let d = decimals as nat;
    lemma_parse_amount_reaches_scale(amount, d);
    law_available_plus_locked(total, locked, d);
    assert((d as u8) == decimals);
    lemma_parse_amount_bounded(total, d);
    law_amount_roundtrip(parse_or(locked, d, 0) + spec_parse_amount(amount, d)->0, d);
}

/// The address an output pays, read off its fields: its `address`, else the
/// first of its `addresses`, else `unknown`.
pub open spec fn paid_address_or_unknown(o: crate::models::TxOutput) -> Seq<char> {
    match o.script_pub_key.address {
        Some(a) => a@,
        None => match o.script_pub_key.addresses {
            Some(v) => if v@.len() > 0 {
                v@[0]@
            } else {
                unknown_text()
            },
            None => unknown_text(),
        },
    }
}

/// From any `k <= i`, the first `true` is at `i` when `i` holds `true` and
/// nothing between `k` and `i` does.
proof fn lemma_first_true_at(m: Seq<bool>, k: int, i: int)
    requires
        0 <= k <= i < m.len(),
        m[i],
        forall|j: int| k <= j < i ==> !m[j],
    ensures
        first_true(m, k) == Some(i),
    decreases i - k,
{
    if k < i {
        lemma_first_true_at(m, k + 1, i);
    }
}

/// Nothing from `k` on holds `true`: there is no first `true`.
proof fn lemma_first_true_none(m: Seq<bool>, k: int)
    requires
        0 <= k,
        forall|j: int| k <= j < m.len() ==> !m[j],
    ensures
        first_true(m, k) is None,
    decreases m.len() - k,
{
    if k < m.len() {
        lemma_first_true_none(m, k + 1);
    }
}

/// A spent inscription output moves to the first output whose value
/// matches, and its new owner is that very output's address (its
/// `address`, else the first of its `addresses`, else `unknown`).
pub proof fn law_receiving_output_is_first_match(tx: RawTransaction, m: Seq<bool>, i: int)
    requires
        m.len() == tx.vout@.len(),
        0 <= i < m.len(),
        i < 0x1_0000_0000,
        m[i],
        forall|j: int| 0 <= j < i ==> !m[j],
    ensures
        spec_receiving_output(tx, Some(m)).0 == i,
        spec_receiving_output(tx, Some(m)).1 == paid_address_or_unknown(tx.vout@[i]),
{
    lemma_first_true_at(m, 0, i);
    assert(i % 0x1_0000_0000 == i);
}

/// With no output matching the spent value, or with the value unknown, the
/// inscription moves to output 0, owned by the first output's address (or
/// `unknown` where there is no output).
pub proof fn law_receiving_output_falls_back_to_first(tx: RawTransaction, m: Option<Seq<bool>>)
    requires
        m matches Some(v) ==> v.len() == tx.vout@.len() && forall|j: int| 0 <= j < v.len() ==> !v[j],
    ensures
        spec_receiving_output(tx, m).0 == 0,
        spec_receiving_output(tx, m).1 == (if tx.vout@.len() > 0 {
            paid_address_or_unknown(tx.vout@[0])
        } else {
            unknown_text()
        }),
{
    if let Some(v) = m {
        lemma_first_true_none(v, 0);
    }
}

/// A mint is accepted exactly when its amount reads as a number `a` with
/// the token's decimals, `a` is at most the mint limit, the token is not
/// yet fully minted, and the minted total plus `a` stays within the max
/// supply (the limit and the max read as `u128::MAX`, the minted total as
/// 0, where their texts are no amounts). So a mint of exactly the limit,
/// with room left under the max supply, is accepted.
pub proof fn law_mint_accepted_by_the_numbers(dar20: Dar20Inscription, token: Dar20Token)
    ensures
        spec_mint_accepted(dar20, token) <==> ({
            let d = token.decimals as nat;
            &&& dar20.amt is Some
            &&& spec_parse_amount(dar20.amt->0@, d) is Some
            &&& spec_parse_amount(dar20.amt->0@, d)->0 <= parse_or(token.mint_limit@, d, u128_max())
            &&& parse_or(token.total_minted@, d, 0) < parse_or(token.max_supply@, d, u128_max())
            &&& parse_or(token.total_minted@, d, 0) + spec_parse_amount(dar20.amt->0@, d)->0 <= parse_or(
                token.max_supply@,
                d,
                u128_max(),
            )
        }),
{
}

/// A deploy registers its token exactly when the token is not deployed
/// yet, the deploy gives a max supply, and, read with its decimals (`dec`,
/// else 18), the max supply `M` and the mint limit `L` (`lim`, else the max
/// supply; either 0 where it is no amount) satisfy `M > 0`, `L > 0` and
/// `L <= M`. So a limit equal to the max supply is accepted.
pub proof fn law_deploy_accepted_by_the_numbers(dar20: Dar20Inscription, already_deployed: bool)
    ensures
        spec_deploy_accepted(dar20, already_deployed) <==> ({
            let d: nat = match dar20.dec {
                Some(x) => x as nat,
                None => 18,
            };
            let lim_text = match dar20.lim {
                Some(l) => l@,
                None => dar20.max->0@,
            };
            &&& !already_deployed
            &&& dar20.max is Some
            &&& parse_or(dar20.max->0@, d, 0) > 0
            &&& parse_or(lim_text, d, 0) > 0
            &&& parse_or(lim_text, d, 0) <= parse_or(dar20.max->0@, d, 0)
        }),
{
}

} // verus!
