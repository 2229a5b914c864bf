//! The parts of the index store's queries that are decided in code: where a
//! new record says it is located, how names and patterns are normalised,
//! which ordering and filters a listing asks for, and how a stored balance
//! row is presented.

use vstd::prelude::*;
use crate::amount::{format_amount, spec_format_amount};
use crate::ledger::{parse_amount_or, parse_or, spec_available_balance, available_balance};
use crate::models::{opt_str, Dar20Balance, DashDomain, DashMapClaim, Inscription};
use crate::parser::{dash_suffix, location_string, location_text};
use crate::text::{chars_of, spec_to_lowercase, string_from_chars, to_lowercase};

verus! {

/// The location an inscription is stored with: its current location, else
/// its creation identifier.
pub fn inscription_store_location(inscription: &Inscription) -> (res: String)
    ensures
        res@ == (match inscription.current_location {
            Some(l) => l@,
            None => inscription.inscription_id@,
        }),
{
    match &inscription.current_location {
        Some(l) => l.clone(),
        None => inscription.inscription_id.clone(),
    }
}

/// The location a DashMap claim is stored with: its current location, else
/// output 0 of the claiming transaction.
pub fn claim_store_location(claim: &DashMapClaim) -> (res: String)
    ensures
        res@ == (match claim.current_location {
            Some(l) => l@,
            None => location_text(claim.claim_txid@, 0),
        }),
{
    match &claim.current_location {
        Some(l) => l.clone(),
        None => location_string(&claim.claim_txid, 0),
    }
}

/// The location a domain is stored with: its current location, else
/// output 0 of the registering transaction.
pub fn domain_store_location(domain: &DashDomain) -> (res: String)
    ensures
        res@ == (match domain.current_location {
            Some(l) => l@,
            None => location_text(domain.registration_txid@, 0),
        }),
{
    match &domain.current_location {
        Some(l) => l.clone(),
        None => location_string(&domain.registration_txid, 0),
    }
}

/// `str::trim_end_matches` for a string pattern: `s` with every trailing
/// repetition of `suffix` removed.
pub open spec fn trim_end_matches(s: Seq<char>, suffix: Seq<char>) -> Seq<char>
    decreases s.len(),
{
    if suffix.len() > 0 && s.len() >= suffix.len() && s.subrange(
        s.len() - suffix.len(),
        s.len() as int,
    ) == suffix {
        trim_end_matches(s.subrange(0, s.len() - suffix.len()), suffix)
    } else {
        s
    }
}

/// The name a domain is looked up by: lower-cased, with any trailing
/// `.dash` removed.
pub open spec fn spec_domain_lookup_name(name: Seq<char>) -> Seq<char> {
    trim_end_matches(spec_to_lowercase(name), dash_suffix())
}

/// Normalises a domain name for lookup (`alice.DASH` is `alice`).
pub fn domain_lookup_name(name: &str) -> (res: String)
    ensures
        res@ == spec_domain_lookup_name(name@),
{
    let lowered = to_lowercase(name);
    let mut v = chars_of(lowered.as_str());
    let suffix = vec!['.', 'd', 'a', 's', 'h'];
    assert(suffix@ =~= dash_suffix());
    while v.len() >= 5 && crate::text::ends_with_chars(&v, &suffix)
        invariant
            trim_end_matches(v@, dash_suffix()) == spec_domain_lookup_name(name@),
            suffix@ == dash_suffix(),
        decreases v@.len(),
    {
        let ghost before = v@;
        let n = v.len();
        v = crate::text::char_range(&v, 0, n - 5);
        assert(v@ =~= before.subrange(0, before.len() - 5));
    }
    proof {
        if v@.len() >= 5 {
            assert(!crate::text::ends_with(v@, dash_suffix()));
        }
    }
    string_from_chars(&v)
}

/// The `LIKE` pattern for a content-type filter: the type anywhere.
pub fn content_type_pattern(content_type: &str) -> (res: String)
    ensures
        res@ == seq!['%'] + content_type@ + seq!['%'],
{
    let mut v: Vec<char> = vec!['%'];
    let c = chars_of(content_type);
    let mut i: usize = 0;
    while i < c.len()
        invariant
            i <= c@.len(),
            v@ == seq!['%'] + c@.subrange(0, i as int),
        decreases c@.len() - i,
    {
        v.push(c[i]);
        i = i + 1;
        assert(v@ =~= seq!['%'] + c@.subrange(0, i as int));
    }
    v.push('%');
    assert(c@.subrange(0, c@.len() as int) =~= c@);
    assert(v@ =~= seq!['%'] + content_type@ + seq!['%']);
    string_from_chars(&v)
}

/// The `LIKE` pattern for a domain search: names that start with the
/// lower-cased prefix.
pub fn domain_search_pattern(prefix: &str) -> (res: String)
    ensures
        res@ == spec_to_lowercase(prefix@) + seq!['%'],
{
    let lowered = to_lowercase(prefix);
    let mut v = chars_of(lowered.as_str());
    v.push('%');
    string_from_chars(&v)
}

/// A stored balance row as the store presents it: the available balance
/// (total less locked, never below zero), the total as stored, and the
/// locked balance as stored where it is positive.
pub open spec fn balance_row_is(
    b: Dar20Balance,
    id: i64,
    tick: Seq<char>,
    address: Seq<char>,
    total: Seq<char>,
    locked: Seq<char>,
    decimals: u8,
) -> bool {
    &&& b.id == Some(id)
    &&& b.tick@ == tick
    &&& b.address@ == address
    &&& b.balance@ == spec_available_balance(total, locked, Some(decimals))
    &&& opt_str(b.total_balance) == Some(total)
    &&& opt_str(b.locked_balance) == (if parse_or(locked, decimals as nat, 0) > 0 {
        Some(locked)
    } else {
        None
    })
    &&& b.updated_at is None
}

/// Presents a stored balance row (see `balance_row_is`).
pub fn balance_row(
    id: i64,
    tick: String,
    address: String,
    total_balance: String,
    locked_balance: String,
    decimals: u8,
) -> (res: Dar20Balance)
    requires
        decimals <= 38,
    ensures
        balance_row_is(res, id, tick@, address@, total_balance@, locked_balance@, decimals),
{
    let available = available_balance(&total_balance, &locked_balance, Some(decimals));
    let locked = parse_amount_or(&locked_balance, decimals, 0);
    Dar20Balance {
        id: Some(id),
        tick,
        address,
        balance: available,
        total_balance: Some(total_balance),
        locked_balance: if locked > 0 {
            Some(locked_balance)
        } else {
            None
        },
        updated_at: None,
    }
}

/// The validity filter of a listing: none, or `valid = 1` / `valid = 0`.
pub open spec fn valid_clause(valid: Option<bool>) -> Seq<char> {
    match valid {
        Some(true) => " AND valid = 1"@,
        Some(false) => " AND valid = 0"@,
        None => Seq::empty(),
    }
}

fn append_valid_clause(query: &mut String, valid: Option<bool>)
    ensures
        final(query)@ == old(query)@ + valid_clause(valid),
{
    match valid {
        Some(true) => query.append(" AND valid = 1"),
        Some(false) => query.append(" AND valid = 0"),
        None => {
            assert(query@ =~= query@ + Seq::<char>::empty());
        },
    }
}

/// The query that counts a token's mints, filtered by recipient where
/// `has_address` (the address is then the second parameter) and by validity.
pub fn mint_count_query(has_address: bool, valid: Option<bool>) -> (res: String)
    ensures
        res@ == "SELECT COUNT(*) FROM dar20_mints WHERE tick = ?"@ + (if has_address {
            " AND to_address = ?"@
        } else {
            Seq::empty()
        }) + valid_clause(valid),
{
    let mut q = "SELECT COUNT(*) FROM dar20_mints WHERE tick = ?".to_owned();
    if has_address {
        q.append(" AND to_address = ?");
    }
    append_valid_clause(&mut q, valid);
    q
}

/// The query that lists a token's mints, newest block first, with the
/// filters of `mint_count_query` and then `LIMIT` and `OFFSET` parameters.
pub fn mint_list_query(has_address: bool, valid: Option<bool>) -> (res: String)
    ensures
        res@ == "SELECT id, tick, amount, to_address, txid, block_height, block_time, valid FROM dar20_mints WHERE tick = ?"@
            + (if has_address {
            " AND to_address = ?"@
        } else {
            Seq::empty()
        }) + valid_clause(valid) + " ORDER BY block_height DESC LIMIT ? OFFSET ?"@,
{
    let mut q =
        "SELECT id, tick, amount, to_address, txid, block_height, block_time, valid FROM dar20_mints WHERE tick = ?".to_owned();
    if has_address {
        q.append(" AND to_address = ?");
    }
    append_valid_clause(&mut q, valid);
    q.append(" ORDER BY block_height DESC LIMIT ? OFFSET ?");
    q
}

/// The sender and recipient filters of a transfer listing, in that order.
pub open spec fn transfer_party_clauses(has_from: bool, has_to: bool) -> Seq<char> {
    (if has_from {
        " AND from_address = ?"@
    } else {
        Seq::empty()
    }) + (if has_to {
        " AND to_address = ?"@
    } else {
        Seq::empty()
    })
}

fn append_party_clauses(query: &mut String, has_from: bool, has_to: bool)
    ensures
        final(query)@ == old(query)@ + transfer_party_clauses(has_from, has_to),
{
    let ghost start = query@;
    if has_from {
        query.append(" AND from_address = ?");
    }
    if has_to {
        query.append(" AND to_address = ?");
    }
    assert(query@ =~= start + transfer_party_clauses(has_from, has_to));
}

/// The query that counts a token's transfers, filtered by sender, then
/// recipient (each a parameter where present), and by validity.
pub fn transfer_count_query(has_from: bool, has_to: bool, valid: Option<bool>) -> (res: String)
    ensures
        res@ == "SELECT COUNT(*) FROM dar20_transfers WHERE tick = ?"@ + transfer_party_clauses(
            has_from,
            has_to,
        ) + valid_clause(valid),
{
    let mut q = "SELECT COUNT(*) FROM dar20_transfers WHERE tick = ?".to_owned();
    append_party_clauses(&mut q, has_from, has_to);
    append_valid_clause(&mut q, valid);
    q
}

/// The query that lists a token's transfers, newest block first, with the
/// filters of `transfer_count_query` and then `LIMIT` and `OFFSET`.
pub fn transfer_list_query(has_from: bool, has_to: bool, valid: Option<bool>) -> (res: String)
    ensures
        res@ == "SELECT id, tick, amount, from_address, to_address, txid, block_height, block_time, valid FROM dar20_transfers WHERE tick = ?"@
            + transfer_party_clauses(has_from, has_to) + valid_clause(valid)
            + " ORDER BY block_height DESC LIMIT ? OFFSET ?"@,
{
    let mut q =
        "SELECT id, tick, amount, from_address, to_address, txid, block_height, block_time, valid FROM dar20_transfers WHERE tick = ?".to_owned();
    append_party_clauses(&mut q, has_from, has_to);
    append_valid_clause(&mut q, valid);
    q.append(" ORDER BY block_height DESC LIMIT ? OFFSET ?");
    q
}

/// Whether `s` is the word `w`.
pub fn is_word(s: &str, w: &Vec<char>) -> (b: bool)
    ensures
        b == (s@ == w@),
{
    let c = chars_of(s);
    if c.len() != w.len() {
        return false;
    }
    let mut i: usize = 0;
    while i < c.len()
        invariant
            c@ == s@,
            c@.len() == w@.len(),
            i <= c@.len(),
            forall|k: int| 0 <= k < i ==> c@[k] == w@[k],
        decreases c@.len() - i,
    {
        if c[i] != w[i] {
            return false;
        }
        i = i + 1;
    }
    assert(c@ =~= w@);
    true
}

/// The ordering of a token listing: by minted total for `minted`, else
/// newest deploy first (`holders` is sorted later, by the caller).
pub fn token_order(sort: &str) -> (res: &'static str)
    ensures
        res@ == (if sort@ == seq!['m', 'i', 'n', 't', 'e', 'd'] {
            "CAST(total_minted AS REAL) DESC"@
        } else {
            "block_height DESC"@
        }),
{
    if is_word(sort, &vec!['m', 'i', 'n', 't', 'e', 'd']) {
        "CAST(total_minted AS REAL) DESC"
    } else {
        "block_height DESC"
    }
}

/// The ordering of a DashMap listing: by claimed block for `height`, else
/// newest claim first.
pub fn dashmap_order(sort: &str) -> (res: &'static str)
    ensures
        res@ == (if sort@ == seq!['h', 'e', 'i', 'g', 'h', 't'] {
            "block_height DESC"@
        } else {
            "claim_block_height DESC, id DESC"@
        }),
{
    if is_word(sort, &vec!['h', 'e', 'i', 'g', 'h', 't']) {
        "block_height DESC"
    } else {
        "claim_block_height DESC, id DESC"
    }
}

/// The ordering of a domain listing: by name for `name`, else newest
/// registration first.
pub fn domain_order(sort: &str) -> (res: &'static str)
    ensures
        res@ == (if sort@ == seq!['n', 'a', 'm', 'e'] {
            "name ASC"@
        } else {
            "registration_block DESC, id DESC"@
        }),
{
    if is_word(sort, &vec!['n', 'a', 'm', 'e']) {
        "name ASC"
    } else {
        "registration_block DESC, id DESC"
    }
}

/// The block that a reindex from `height` marks as the last one indexed.
/// The store keeps heights as `i64`: the height is converted, one is taken
/// off (saturating at `i64::MIN`), and the result converted back, so that a
/// reindex from block 0 marks `u64::MAX` (the stored `-1`).
pub fn reindex_last_block(height: u64) -> (res: u64)
    ensures
        res == (if height == 0 {
            u64::MAX
        } else if height == 0x8000_0000_0000_0000 {
            height
        } else {
            (height - 1) as u64
        }),
{
    if height == 0 {
        u64::MAX
    } else if height == 0x8000_0000_0000_0000 {
        height
    } else {
        height - 1
    }
}

} // verus!
