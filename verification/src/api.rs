//! The decisions of the HTTP API's handlers: query defaults, the window of
//! a paginated listing, inscription numbers and holder ranks, and how
//! health, sync and statistics responses are assembled.

use vstd::prelude::*;
use crate::models::{opt_str, Dar20Balance, Inscription};
use crate::text::{chars_of, spec_to_lowercase, string_from_chars, to_lowercase};
use crate::parser::dash_suffix;

verus! {

/// Health of one service.
#[derive(Debug, Clone)]
pub struct ServiceHealth {
    pub status: String,
    pub latency_ms: u64,
}

/// Health of the API server.
#[derive(Debug, Clone)]
pub struct HealthStatus {
    pub status: String,
    pub database: ServiceHealth,
    pub timestamp: u64,
    pub uptime_seconds: u64,
}

/// The database's health status when its check fails: `error: ` and the
/// error's message.
pub fn service_error_status(message: &str) -> (res: String)
    ensures
        res@ == "error: "@ + message@,
{
    let mut s = "error: ".to_owned();
    s.append(message);
    s
}

/// The server's health: `healthy` exactly where the database reports `ok`.
pub fn health_status(database: ServiceHealth, timestamp: u64, uptime_seconds: u64) -> (res: HealthStatus)
    ensures
        res.status@ == (if database.status@ == seq!['o', 'k'] {
            "healthy"@
        } else {
            "unhealthy"@
        }),
        res.database == database,
        res.timestamp == timestamp,
        res.uptime_seconds == uptime_seconds,
{
    let ok = crate::store::is_word(database.status.as_str(), &vec!['o', 'k']);
    let status = if ok {
        "healthy".to_owned()
    } else {
        "unhealthy".to_owned()
    };
    HealthStatus { status, database, timestamp, uptime_seconds }
}

/// The first page.
pub fn default_page() -> (r: u32)
    ensures
        r == 1,
{
    1
}

/// The default number of items per page.
pub fn default_limit() -> (r: u32)
    ensures
        r == 20,
{
    20
}

/// The default number of holders per page.
pub fn default_holders_limit() -> (r: u32)
    ensures
        r == 100,
{
    100
}

/// Inscriptions are listed newest first by default.
pub fn default_sort() -> (r: String)
    ensures
        r@ == "desc"@,
{
    "desc".to_owned()
}

/// Tokens are listed by deploy by default.
pub fn default_token_sort() -> (r: String)
    ensures
        r@ == "deploy"@,
{
    "deploy".to_owned()
}

/// DashMap claims are listed newest first by default.
pub fn default_dashmap_sort() -> (r: String)
    ensures
        r@ == "newest"@,
{
    "newest".to_owned()
}

/// Domains are listed newest first by default.
pub fn default_domain_sort() -> (r: String)
    ensures
        r@ == "newest"@,
{
    "newest".to_owned()
}

/// Query of a paginated listing.
#[derive(Debug, Clone)]
pub struct PaginationParams {
    pub page: u32,
    pub limit: u32,
}

/// Query of the inscription listing.
#[derive(Debug, Clone)]
pub struct InscriptionQueryParams {
    pub page: u32,
    pub limit: u32,
    /// Filter by content type (e.g. "image/png", "text/plain", "application/json")
    pub content_type: Option<String>,
    /// Include full content in response (default: false for list, true for single)
    pub include_content: Option<bool>,
    /// Sort order: "desc" (newest first) or "asc" (oldest first)
    pub sort: String,
}

/// Query of the token listing.
#[derive(Debug, Clone)]
pub struct TokenQueryParams {
    pub page: u32,
    pub limit: u32,
    /// Sort by: "deploy" (deploy time), "minted" (total minted), "holders" (holder count)
    pub sort: String,
}

/// Query of a token's holders.
#[derive(Debug, Clone)]
pub struct HoldersParams {
    pub page: u32,
    pub limit: u32,
}

/// Query of a token's mints.
#[derive(Debug, Clone)]
pub struct MintsParams {
    pub page: u32,
    pub limit: u32,
    /// Filter by address
    pub address: Option<String>,
    /// Filter by validity (true/false)
    pub valid: Option<bool>,
}

/// Query of a token's transfers.
#[derive(Debug, Clone)]
pub struct TransfersParams {
    pub page: u32,
    pub limit: u32,
    /// Filter by sender address
    pub from: Option<String>,
    /// Filter by recipient address
    pub to: Option<String>,
    /// Filter by validity (true/false)
    pub valid: Option<bool>,
}

/// Query of the DashMap listing.
#[derive(Debug, Clone)]
pub struct DashMapQueryParams {
    pub page: u32,
    pub limit: u32,
    /// Sort: "newest" (by claim time) or "height" (by block height)
    pub sort: String,
}

/// Query of the domain listing.
#[derive(Debug, Clone)]
pub struct DomainQueryParams {
    pub page: u32,
    pub limit: u32,
    /// Sort: "newest" (by registration time) or "name" (alphabetical)
    pub sort: String,
}

/// Query of the domain search.
#[derive(Debug, Clone)]
pub struct SearchParams {
    pub q: String,
    pub page: u32,
    pub limit: u32,
}

/// The page, the page size and the number of items skipped of a listing.
#[derive(Debug, Clone, Copy)]
pub struct PageWindow {
    pub page: u32,
    pub limit: u32,
    pub offset: u32,
}

/// The page asked for, at least 1.
pub open spec fn clamped_page(page: u32) -> nat {
    if page < 1 {
        1
    } else {
        page as nat
    }
}

/// The page size asked for, at most `max_limit`.
pub open spec fn clamped_limit(limit: u32, max_limit: u32) -> nat {
    if limit < max_limit {
        limit as nat
    } else {
        max_limit as nat
    }
}

/// The window's offset stays within `u32`.
pub open spec fn window_fits(page: u32, limit: u32, max_limit: u32) -> bool {
    (clamped_page(page) - 1) * clamped_limit(limit, max_limit) <= u32::MAX
}

/// Tells whether `window_fits` holds.
pub fn window_fits_exec(page: u32, limit: u32, max_limit: u32) -> (b: bool)
    ensures
        b == window_fits(page, limit, max_limit),
{
    let p: u64 = if page < 1 {
        1
    } else {
        page as u64
    };
    let l: u64 = if limit < max_limit {
        limit as u64
    } else {
        max_limit as u64
    };
    assert((p - 1) * l <= 0xffff_ffff * 0xffff_ffff) by (nonlinear_arith)
        requires
            1 <= p <= 0xffff_ffff,
            l <= 0xffff_ffff,
    ;
    (p - 1) * l <= u32::MAX as u64
}

/// The window of a listing: the page at least 1, the page size at most
/// `max_limit`, and the items of the earlier pages skipped.
pub fn page_window(page: u32, limit: u32, max_limit: u32) -> (w: PageWindow)
    requires
        window_fits(page, limit, max_limit),
    ensures
        w.page as nat == clamped_page(page),
        w.limit as nat == clamped_limit(limit, max_limit),
        w.offset as nat == (clamped_page(page) - 1) * clamped_limit(limit, max_limit),
{
    let l = if limit < max_limit {
        limit
    } else {
        max_limit
    };
    let p = if page < 1 {
        1
    } else {
        page
    };
    PageWindow { page: p, limit: l, offset: (p - 1) * l }
}

/// The number of items before page `page` (counted from 1, not clamped) of
/// `limit` items.
pub fn page_offset(page: u32, limit: u32) -> (offset: u32)
    requires
        page >= 1,
        (page - 1) * limit <= u32::MAX,
    ensures
        offset == (page - 1) * limit,
{
    (page - 1) * limit
}

/// Inscriptions are listed oldest first only for `asc` (in any case).
pub open spec fn spec_sort_descending(sort: Seq<char>) -> bool {
    spec_to_lowercase(sort) != seq!['a', 's', 'c']
}

/// Whether a listing is sorted newest first.
pub fn sort_descending(sort: &str) -> (b: bool)
    ensures
        b == spec_sort_descending(sort@),
{
    let lowered = to_lowercase(sort);
    !crate::store::is_word(lowered.as_str(), &vec!['a', 's', 'c'])
}

/// The number of the inscription at position `index` of a page that skips
/// `offset`: counting down from `total` when newest first, up from 1 when
/// oldest first.
pub open spec fn spec_inscription_number(sort_desc: bool, total: u64, offset: u32, index: nat) -> nat {
    let position = offset + index;
    if sort_desc {
        if total >= position {
            (total - position) as nat
        } else {
            0
        }
    } else {
        (position + 1) as nat
    }
}

/// The number of an inscription in a listing (see `spec_inscription_number`).
pub fn inscription_number(sort_desc: bool, total: u64, offset: u32, index: usize) -> (n: u64)
    requires
        offset + index <= u32::MAX,
    ensures
        n as nat == spec_inscription_number(sort_desc, total, offset, index as nat),
{
    let position = offset + index as u32;
    if sort_desc {
        total.saturating_sub(position as u64)
    } else {
        position as u64 + 1
    }
}

/// Inscription numbers follow the position in the listing: newest first,
/// the item at position `offset + index` is number `total - (offset +
/// index)` (0 once past `total`), so neighbours on a page differ by one;
/// oldest first, it is number `offset + index + 1`.
pub proof fn law_inscription_numbers_follow_position(total: u64, offset: u32, index: nat)
    ensures
        offset + index <= total ==> spec_inscription_number(true, total, offset, index) + offset + index == total,
        offset + index > total ==> spec_inscription_number(true, total, offset, index) == 0,
        offset + index < total ==> spec_inscription_number(true, total, offset, index) == spec_inscription_number(
            true,
            total,
            offset,
            index + 1,
        ) + 1,
        spec_inscription_number(false, total, offset, index) == offset + index + 1,
{
}

/// Inscription summary (without full content for list views)
#[derive(Debug, Clone)]
pub struct InscriptionSummary {
    pub id: i64,
    pub inscription_id: String,
    pub inscription_number: u64,
    pub txid: String,
    pub vout: u32,
    pub content_type: String,
    pub content_size: u32,
    pub owner_address: Option<String>,
    pub current_location: Option<String>,
    pub block_height: u64,
    pub block_time: u64,
    pub content: Option<String>,
}

/// The summary of an inscription in a listing: its fields, its number, an
/// id of 0 where it has none, and its content only where asked for.
pub fn inscription_summary(inscription: Inscription, number: u64, include_content: bool) -> (s: InscriptionSummary)
    ensures
        s.id == (match inscription.id {
            Some(i) => i,
            None => 0,
        }),
        s.inscription_id == inscription.inscription_id,
        s.inscription_number == number,
        s.txid == inscription.txid,
        s.vout == inscription.vout,
        s.content_type == inscription.content_type,
        s.content_size == inscription.content_size,
        s.owner_address == inscription.owner_address,
        s.current_location == inscription.current_location,
        s.block_height == inscription.block_height,
        s.block_time == inscription.block_time,
        s.content == (if include_content {
            Some(inscription.content)
        } else {
            None
        }),
{
    InscriptionSummary {
        id: match inscription.id {
            Some(i) => i,
            None => 0,
        },
        inscription_id: inscription.inscription_id,
        inscription_number: number,
        txid: inscription.txid,
        vout: inscription.vout,
        content_type: inscription.content_type,
        content_size: inscription.content_size,
        owner_address: inscription.owner_address,
        current_location: inscription.current_location,
        block_height: inscription.block_height,
        block_time: inscription.block_time,
        content: if include_content {
            Some(inscription.content)
        } else {
            None
        },
    }
}

/// The rank of the holder at position `index` of a page that skips `offset`.
pub fn holder_rank(offset: u32, index: usize) -> (rank: u32)
    requires
        offset + index + 1 <= u32::MAX,
    ensures
        rank == offset + index + 1,
{
    offset + index as u32 + 1
}

/// A holder's total balance: the stored total, else the balance field.
pub fn holder_total(balance: &Dar20Balance) -> (res: String)
    ensures
        res@ == (match balance.total_balance {
            Some(t) => t@,
            None => balance.balance@,
        }),
{
    match &balance.total_balance {
        Some(t) => t.clone(),
        None => balance.balance.clone(),
    }
}

/// The locked balance shown for an address: only where it is neither `0`
/// nor empty.
pub fn shown_locked_balance(locked: Option<String>) -> (res: Option<String>)
    ensures
        res == (match locked {
            Some(l) => if l@ != seq!['0'] && l@.len() > 0 {
                Some(l)
            } else {
                None
            },
            None => None,
        }),
{
    match locked {
        Some(l) => {
            let c = chars_of(l.as_str());
            let zero = vec!['0'];
            assert(zero@ =~= seq!['0']);
            if !crate::store::is_word(l.as_str(), &zero) && c.len() > 0 {
                Some(l)
            } else {
                None
            }
        },
        None => None,
    }
}

/// A holder's rank is looked up only where the balance is not `0`.
pub fn wants_rank(balance: &String) -> (b: bool)
    ensures
        b == (balance@ != seq!['0']),
{
    let zero = vec!['0'];
    assert(zero@ =~= seq!['0']);
    !crate::store::is_word(balance.as_str(), &zero)
}

/// The full name of a domain: the name and `.dash`.
pub fn domain_full_name(name: &String) -> (res: String)
    ensures
        res@ == name@ + dash_suffix(),
{
    let mut v = chars_of(name.as_str());
    v.push('.');
    v.push('d');
    v.push('a');
    v.push('s');
    v.push('h');
    assert(v@ =~= name@ + dash_suffix());
    string_from_chars(&v)
}

/// How far the index is behind the chain, and whether it counts as synced
/// (at most two blocks behind).
pub fn sync_progress(indexed: u64, chain_height: u64) -> (res: (u64, bool))
    ensures
        res.0 == (if chain_height >= indexed {
            (chain_height - indexed) as u64
        } else {
            0
        }),
        res.1 == (res.0 <= 2),
{
    let behind = chain_height.saturating_sub(indexed);
    (behind, behind <= 2)
}

/// An address with its number of claimed blocks.
#[derive(Debug, Clone)]
pub struct TopClaimer {
    pub address: String,
    pub blocks_claimed: u64,
}

/// An address with its number of domains.
#[derive(Debug, Clone)]
pub struct TopDomainOwner {
    pub address: String,
    pub domains_count: u64,
}

/// Domain statistics.
#[derive(Debug, Clone)]
pub struct DomainStats {
    pub total_registered: u64,
    pub unique_owners: u64,
    pub top_owners: Vec<TopDomainOwner>,
}

/// The top claimers, in the order given, from (address, count) rows.
pub fn top_claimers(rows: Vec<(String, u64)>) -> (res: Vec<TopClaimer>)
    ensures
        res@.len() == rows@.len(),
        forall|i: int| 0 <= i < rows@.len() ==> #[trigger] res@[i].address == rows@[i].0
            && res@[i].blocks_claimed == rows@[i].1,
{
    let mut res: Vec<TopClaimer> = Vec::new();
    let mut rows = rows;
    let ghost all = rows@;
    let mut i: usize = 0;
    let n = rows.len();
    while i < n
        invariant
            n == all.len(),
            i <= n,
            rows@ == all.subrange(i as int, n as int),
            res@.len() == i,
            forall|k: int| 0 <= k < i ==> #[trigger] res@[k].address == all[k].0 && res@[k].blocks_claimed
                == all[k].1,
        decreases n - i,
    {
        let (address, count) = rows.remove(0);
        res.push(TopClaimer { address, blocks_claimed: count });
        i = i + 1;
        assert(rows@ =~= all.subrange(i as int, n as int));
    }
    res
}

/// Domain statistics from the totals and the (address, count) rows of the
/// top owners, in the order given.
pub fn domain_stats(total_registered: u64, unique_owners: u64, rows: Vec<(String, u64)>) -> (res: DomainStats)
    ensures
        res.total_registered == total_registered,
        res.unique_owners == unique_owners,
        res.top_owners@.len() == rows@.len(),
        forall|i: int| 0 <= i < rows@.len() ==> #[trigger] res.top_owners@[i].address == rows@[i].0
            && res.top_owners@[i].domains_count == rows@[i].1,
{
    let mut owners: Vec<TopDomainOwner> = Vec::new();
    let mut rows = rows;
    let ghost all = rows@;
    let mut i: usize = 0;
    let n = rows.len();
    while i < n
        invariant
            n == all.len(),
            i <= n,
            rows@ == all.subrange(i as int, n as int),
            owners@.len() == i,
            forall|k: int| 0 <= k < i ==> #[trigger] owners@[k].address == all[k].0
                && owners@[k].domains_count == all[k].1,
        decreases n - i,
    {
        let (address, count) = rows.remove(0);
        owners.push(TopDomainOwner { address, domains_count: count });
        i = i + 1;
        assert(rows@ =~= all.subrange(i as int, n as int));
    }
    DomainStats { total_registered, unique_owners, top_owners: owners }
}

} // verus!
