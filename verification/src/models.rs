//! The records that the indexer reads from the node and keeps: decoded
//! transactions, inscriptions, DAR-20 tokens and their ledger, DashMap
//! claims, DashDomain registrations, and the API's response envelopes.

use vstd::prelude::*;

verus! {

/// The contents of an optional string.
pub open spec fn opt_str(o: Option<String>) -> Option<Seq<char>> {
    match o {
        Some(s) => Some(s@),
        None => None,
    }
}

/// A decoded transaction as the node's `getrawtransaction` gives it.
#[derive(Debug, Clone)]
pub struct RawTransaction {
    pub txid: String,
    pub version: i32,
    pub size: u32,
    pub locktime: u32,
    pub vin: Vec<TxInput>,
    pub vout: Vec<TxOutput>,
    pub blockhash: Option<String>,
    pub blockheight: Option<u64>,
    pub confirmations: Option<u32>,
    pub time: Option<u64>,
    pub blocktime: Option<u64>,
}

/// A transaction input.
#[derive(Debug, Clone)]
pub struct TxInput {
    pub txid: Option<String>,
    pub vout: Option<u32>,
    pub script_sig: Option<ScriptSig>,
    pub sequence: u64,
    /// For coinbase transactions
    pub coinbase: Option<String>,
}

/// An input's unlocking script, as assembly text (`script_asm`) and as hex.
#[derive(Debug, Clone)]
pub struct ScriptSig {
    pub script_asm: String,
    pub hex: String,
}

/// A transaction output. The node reports the value in DASH as a JSON
/// number; `value_bits` holds the bit pattern of that `f64`.
#[derive(Debug, Clone)]
pub struct TxOutput {
    pub value_bits: u64,
    pub n: u32,
    pub script_pub_key: ScriptPubKey,
}

/// An output's locking script and the addresses it pays.
#[derive(Debug, Clone)]
pub struct ScriptPubKey {
    pub script_asm: String,
    pub hex: String,
    pub script_type: Option<String>,
    pub addresses: Option<Vec<String>>,
    pub address: Option<String>,
}

/// Parsed inscription data. `created_at` is a Unix time in seconds.
#[derive(Debug, Clone)]
pub struct Inscription {
    pub id: Option<i64>,
    /// Immutable creation identifier (`txid:vout`)
    pub inscription_id: String,
    /// Creation transaction ID
    pub txid: String,
    /// Creation output index
    pub vout: u32,
    pub content_type: String,
    /// Hex-encoded content
    pub content: String,
    pub content_size: u32,
    /// Current owner (updated on transfer)
    pub owner_address: Option<String>,
    /// Current UTXO location (`txid:vout`, updated on transfer)
    pub current_location: Option<String>,
    pub block_height: u64,
    pub block_time: u64,
    pub created_at: Option<i64>,
}

/// DAR-20 operation types
#[derive(Debug, Clone, Copy, PartialEq, Eq, Structural)]
pub enum Dar20Operation {
    Deploy,
    Mint,
    Transfer,
}

/// DAR-20 inscription data
#[derive(Debug, Clone)]
pub struct Dar20Inscription {
    /// `"dar-20"`
    pub protocol: String,
    pub operation: Dar20Operation,
    /// Token ticker (e.g. `"DASH"`)
    pub tick: String,
    /// Max supply (deploy)
    pub max: Option<String>,
    /// Mint limit per transaction (deploy)
    pub lim: Option<String>,
    /// Amount (mint/transfer)
    pub amt: Option<String>,
    /// Decimals (deploy, default 18)
    pub dec: Option<u8>,
}

/// DAR-20 token deployment record
#[derive(Debug, Clone)]
pub struct Dar20Token {
    pub id: Option<i64>,
    pub tick: String,
    pub max_supply: String,
    pub mint_limit: String,
    pub decimals: u8,
    pub total_minted: String,
    pub deploy_txid: String,
    pub deploy_address: String,
    pub block_height: u64,
    pub block_time: u64,
    pub created_at: Option<i64>,
}

/// DAR-20 mint record
#[derive(Debug, Clone)]
pub struct Dar20Mint {
    pub id: Option<i64>,
    pub tick: String,
    pub amount: String,
    pub to_address: String,
    pub txid: String,
    pub block_height: u64,
    pub block_time: u64,
    /// Whether the mint was within limits
    pub valid: bool,
    pub created_at: Option<i64>,
}

/// DAR-20 transfer record
#[derive(Debug, Clone)]
pub struct Dar20Transfer {
    pub id: Option<i64>,
    pub tick: String,
    pub amount: String,
    pub from_address: String,
    pub to_address: String,
    pub txid: String,
    pub block_height: u64,
    pub block_time: u64,
    /// Whether the sender had sufficient balance
    pub valid: bool,
    pub created_at: Option<i64>,
}

/// DAR-20 balance for an address
#[derive(Debug, Clone)]
pub struct Dar20Balance {
    pub id: Option<i64>,
    pub tick: String,
    pub address: String,
    /// Available balance (total - locked)
    pub balance: String,
    /// Total balance (including locked)
    pub total_balance: Option<String>,
    /// Locked balance (in pending transfers)
    pub locked_balance: Option<String>,
    pub updated_at: Option<i64>,
}

/// DashMap claim record (like Bitmap)
#[derive(Debug, Clone)]
pub struct DashMapClaim {
    pub id: Option<i64>,
    /// The claimed block
    pub block_height: u64,
    /// Current owner (updated on transfer)
    pub owner_address: String,
    pub inscription_id: String,
    /// Current UTXO location (`txid:vout`, updated on transfer)
    pub current_location: Option<String>,
    pub claim_txid: String,
    /// Block where the claim was made
    pub claim_block_height: u64,
    pub claim_time: u64,
    pub created_at: Option<i64>,
}

/// DashDomain registration record (like bitdomain)
#[derive(Debug, Clone)]
pub struct DashDomain {
    pub id: Option<i64>,
    /// Domain name without `.dash` (e.g. `"alice"`)
    pub name: String,
    /// Full domain (e.g. `"alice.dash"`)
    pub full_name: String,
    /// Current owner (updated on transfer)
    pub owner_address: String,
    pub inscription_id: String,
    /// Current UTXO location (`txid:vout`, updated on transfer)
    pub current_location: Option<String>,
    pub registration_txid: String,
    pub registration_block: u64,
    pub registration_time: u64,
    pub created_at: Option<i64>,
}

/// Parsed DashDomain inscription
#[derive(Debug, Clone)]
pub struct DashDomainInscription {
    /// Domain name without `.dash`
    pub name: String,
    /// Full domain with `.dash`
    pub full_name: String,
}

/// Parsed DashMap inscription
#[derive(Debug, Clone, Copy)]
pub struct DashMapInscription {
    /// The block being claimed
    pub block_height: u64,
}

/// Indexer statistics
#[derive(Debug, Clone, Copy)]
pub struct IndexerStats {
    pub total_inscriptions: u64,
    pub total_tokens: u64,
    pub total_holders: u64,
    pub total_mints: u64,
    pub total_transfers: u64,
    pub total_dashmap_claims: u64,
    pub total_domains: u64,
    pub last_indexed_block: u64,
}

impl Default for IndexerStats {
    fn default() -> (s: Self)
        ensures
            s.total_inscriptions == 0 && s.total_tokens == 0 && s.total_holders == 0
                && s.total_mints == 0 && s.total_transfers == 0 && s.total_dashmap_claims == 0
                && s.total_domains == 0 && s.last_indexed_block == 0,
    {
        IndexerStats {
            total_inscriptions: 0,
            total_tokens: 0,
            total_holders: 0,
            total_mints: 0,
            total_transfers: 0,
            total_dashmap_claims: 0,
            total_domains: 0,
            last_indexed_block: 0,
        }
    }
}

/// API response wrapper
#[derive(Debug)]
pub struct ApiResponse<T> {
    pub success: bool,
    pub data: Option<T>,
    pub error: Option<String>,
}

impl<T> ApiResponse<T> {
    /// A successful response carrying `data`.
    pub fn success(data: T) -> (res: Self)
        ensures
            res.success,
            res.data == Some(data),
            res.error is None,
    {
        ApiResponse { success: true, data: Some(data), error: None }
    }

    /// A failed response carrying the message `msg`: the text that
    /// converting `msg` into a `String` gives.
    pub fn error<M: Into<String>>(msg: M) -> (res: Self)
        ensures
            !res.success,
            res.data is None,
            res.error matches Some(e) && call_ensures(M::into, (msg,), e),
    {
        ApiResponse { success: false, data: None, error: Some(msg.into()) }
    }
}

/// `From<&str> for String`: a new `String` holding the same characters.
/// Believed, not proved; with it a `&str` message is stored as it is.
pub assume_specification<'a>[ <String as core::convert::From<&'a str>>::from ](s: &str) -> (ret: String)
    ensures
        ret@ == s@,
;

/// `From<T> for T` (std's reflexive impl): gives its argument back
/// unchanged, as its documentation says. Believed, not proved; with it a
/// `String` message is stored as it is.
pub assume_specification<X>[ <X as core::convert::From<X>>::from ](x: X) -> (ret: X)
    ensures
        ret == x,
;

/// The page count covers the items and no more: with a limit, pages of
/// `limit` items hold all `total` items, and one page fewer would not
/// (unless the count saturates at `u32::MAX`); with no limit there is no
/// page for no items, and `u32::MAX` otherwise.
pub proof fn law_total_pages_cover_the_items(total: nat, limit: nat)
    ensures
        limit > 0 && spec_total_pages(total, limit) < u32::MAX ==> spec_total_pages(total, limit) * limit
            >= total && (total == 0 || (spec_total_pages(total, limit) - 1) * limit < total),
        limit > 0 && total == 0 ==> spec_total_pages(total, limit) == 0,
        limit == 0 ==> spec_total_pages(total, limit) == (if total == 0 {
            0
        } else {
            u32::MAX as nat
        }),
{
    if limit > 0 {
        let p = ((total + limit - 1) as nat) / limit;
        vstd::arithmetic::div_mod::lemma_fundamental_div_mod((total + limit - 1) as int, limit as int);
        let r = ((total + limit - 1) as nat) % limit;
        assert(p * limit >= total && (total == 0 || (p - 1) * limit < total) && (total == 0 ==> p == 0))
            by (nonlinear_arith)
            requires
                limit > 0,
                (total + limit - 1) == limit * p + r,
                0 <= r < limit,
                p >= 0,
        ;
    }
}

/// Pagination parameters of a response
#[derive(Debug, Clone, Copy)]
pub struct Pagination {
    pub page: u32,
    pub limit: u32,
    pub total: u64,
    pub total_pages: u32,
}

/// The number of pages of `limit` items that `total` items fill, as the
/// `f64` quotient's ceiling converted to `u32`: saturating at `u32::MAX`,
/// and with `limit == 0` infinite (`u32::MAX`) or, for no items, not a
/// number (`0`).
pub open spec fn spec_total_pages(total: nat, limit: nat) -> nat {
    if limit == 0 {
        if total == 0 {
            0
        } else {
            u32::MAX as nat
        }
    } else {
        let pages = ((total + limit - 1) as nat) / limit;
        if pages > u32::MAX {
            u32::MAX as nat
        } else {
            pages
        }
    }
}

impl Pagination {
    /// The pagination block for page `page` of `limit` items out of `total`.
    /// The page count is exact with no limit (0) and for totals up to 2^53
    /// (all that an `f64` holds exactly); above that, with a limit, the
    /// float division the count stands for rounds.
    pub fn new(page: u32, limit: u32, total: u64) -> (res: Self)
        requires
            limit == 0 || total <= 9007199254740992,
        ensures
            res.page == page,
            res.limit == limit,
            res.total == total,
            res.total_pages as nat == spec_total_pages(total as nat, limit as nat),
    {
        let total_pages: u32 = if limit == 0 {
            if total == 0 {
                0
            } else {
                u32::MAX
            }
        } else {
            let pages: u64 = total / (limit as u64) + if total % (limit as u64) == 0 {
                0
            } else {
                1
            };
            proof {
                let l = limit as nat;
                let t = total as nat;
                vstd::arithmetic::div_mod::lemma_fundamental_div_mod(t as int, l as int);
                assert(pages == ((t + l - 1) as nat) / l) by (nonlinear_arith)
                    requires
                        l > 0,
                        t == l * (t / l) + t % l,
                        0 <= t % l < l,
                        pages == t / l + if t % l == 0 {
                            0int
                        } else {
                            1int
                        },
                ;
            }
            if pages > u32::MAX as u64 {
                u32::MAX
            } else {
                pages as u32
            }
        };
        Pagination { page, limit, total, total_pages }
    }
}

/// Paginated response
#[derive(Debug)]
pub struct PaginatedResponse<T> {
    pub items: Vec<T>,
    pub pagination: Pagination,
}

} // verus!
