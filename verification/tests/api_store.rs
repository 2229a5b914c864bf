use dash_ord::api::{
    default_dashmap_sort, default_domain_sort, default_holders_limit, default_limit, default_page,
    default_sort, default_token_sort, domain_full_name, domain_stats, health_status, holder_rank,
    holder_total, inscription_number, inscription_summary, page_offset, page_window,
    service_error_status, shown_locked_balance, sort_descending, sync_progress, top_claimers,
    wants_rank, window_fits_exec, ServiceHealth,
};
use dash_ord::models::{ApiResponse, Dar20Balance, DashDomain, DashMapClaim, IndexerStats, Inscription, Pagination};
use dash_ord::rpc::{rpc_outcome, RpcError, RpcOutcome};
use dash_ord::store::{
    balance_row, claim_store_location, content_type_pattern, dashmap_order, domain_lookup_name,
    domain_order, domain_search_pattern, domain_store_location, inscription_store_location,
    mint_count_query, mint_list_query, reindex_last_block, token_order, transfer_count_query,
    transfer_list_query,
};

#[test]
fn pagination_pages() {
    let p = Pagination::new(2, 20, 41);
    assert_eq!((p.page, p.limit, p.total, p.total_pages), (2, 20, 41, 3));
    assert_eq!(Pagination::new(1, 20, 40).total_pages, 2);
    assert_eq!(Pagination::new(1, 20, 0).total_pages, 0);
    assert_eq!(Pagination::new(1, 0, 5).total_pages, u32::MAX);
    assert_eq!(Pagination::new(1, 0, 0).total_pages, 0);
    assert_eq!(Pagination::new(1, 1, 9007199254740992).total_pages, u32::MAX);
    assert_eq!(Pagination::new(3, 0, u64::MAX).total_pages, u32::MAX);
}

#[test]
fn api_response_envelopes() {
    let ok = ApiResponse::success(5u32);
    assert!(ok.success);
    assert_eq!(ok.data, Some(5));
    assert!(ok.error.is_none());
    let err = ApiResponse::<u32>::error("Token not found");
    assert!(!err.success);
    assert!(err.data.is_none());
    assert_eq!(err.error, Some("Token not found".to_string()));
    let owned = ApiResponse::<u32>::error(String::from("no such block"));
    assert_eq!(owned.error, Some("no such block".to_string()));
}

#[test]
fn query_defaults() {
    assert_eq!(default_page(), 1);
    assert_eq!(default_limit(), 20);
    assert_eq!(default_holders_limit(), 100);
    assert_eq!(default_sort(), "desc");
    assert_eq!(default_token_sort(), "deploy");
    assert_eq!(default_dashmap_sort(), "newest");
    assert_eq!(default_domain_sort(), "newest");
}

#[test]
fn listing_windows() {
    let w = page_window(0, 500, 100);
    assert_eq!((w.page, w.limit, w.offset), (1, 100, 0));
    let w = page_window(3, 20, 100);
    assert_eq!((w.page, w.limit, w.offset), (3, 20, 40));
    assert!(window_fits_exec(3, 20, 100));
    assert!(!window_fits_exec(u32::MAX, 100, 100));
    assert_eq!(page_offset(4, 10), 30);
}

#[test]
fn inscription_numbers_and_ranks() {
    assert_eq!(inscription_number(true, 100, 20, 0), 80);
    assert_eq!(inscription_number(true, 10, 20, 5), 0);
    assert_eq!(inscription_number(false, 100, 20, 0), 21);
    assert_eq!(holder_rank(100, 4), 105);
    assert!(sort_descending("desc"));
    assert!(!sort_descending("ASC"));
    assert!(sort_descending("ascending"));
}

#[test]
fn summaries_and_balances() {
    let ins = Inscription {
        id: None,
        inscription_id: "a:0".into(),
        txid: "a".into(),
        vout: 0,
        content_type: "text/plain".into(),
        content: "6869".into(),
        content_size: 2,
        owner_address: None,
        current_location: None,
        block_height: 1,
        block_time: 2,
        created_at: None,
    };
    let s = inscription_summary(ins.clone(), 7, false);
    assert_eq!((s.id, s.inscription_number, s.content.clone()), (0, 7, None));
    let s = inscription_summary(ins, 7, true);
    assert_eq!(s.content, Some("6869".to_string()));
    let b = Dar20Balance { id: None, tick: "DASH".into(), address: "X".into(), balance: "4".into(), total_balance: None, locked_balance: None, updated_at: None };
    assert_eq!(holder_total(&b), "4");
    assert_eq!(shown_locked_balance(Some("0".into())), None);
    assert_eq!(shown_locked_balance(Some("".into())), None);
    assert_eq!(shown_locked_balance(Some("2".into())), Some("2".to_string()));
    assert!(!wants_rank(&"0".to_string()));
    assert!(wants_rank(&"0.5".to_string()));
}

#[test]
fn health_sync_and_stats() {
    let h = health_status(ServiceHealth { status: "ok".into(), latency_ms: 3 }, 9, 8);
    assert_eq!(h.status, "healthy");
    let h = health_status(ServiceHealth { status: service_error_status("down"), latency_ms: 3 }, 9, 8);
    assert_eq!(h.status, "unhealthy");
    assert_eq!(h.database.status, "error: down");
    assert_eq!(sync_progress(10, 12), (2, true));
    assert_eq!(sync_progress(10, 13), (3, false));
    assert_eq!(sync_progress(10, 5), (0, true));
    let tops = top_claimers(vec![("A".into(), 3), ("B".into(), 1)]);
    assert_eq!((tops[0].address.as_str(), tops[0].blocks_claimed, tops[1].address.as_str()), ("A", 3, "B"));
    let ds = domain_stats(4, 2, vec![("A".into(), 3)]);
    assert_eq!((ds.total_registered, ds.unique_owners, ds.top_owners[0].domains_count), (4, 2, 3));
    assert_eq!(domain_full_name(&"bob".to_string()), "bob.dash");
    let st = IndexerStats::default();
    assert_eq!(st.total_inscriptions + st.last_indexed_block, 0);
}

#[test]
fn store_locations_and_names() {
    let claim = DashMapClaim { id: None, block_height: 1, owner_address: "X".into(), inscription_id: "i".into(), current_location: None, claim_txid: "ct".into(), claim_block_height: 2, claim_time: 3, created_at: None };
    assert_eq!(claim_store_location(&claim), "ct:0");
    let domain = DashDomain { id: None, name: "n".into(), full_name: "n.dash".into(), owner_address: "X".into(), inscription_id: "i".into(), current_location: Some("z:2".into()), registration_txid: "rt".into(), registration_block: 1, registration_time: 1, created_at: None };
    assert_eq!(domain_store_location(&domain), "z:2");
    let ins = Inscription { id: None, inscription_id: "a:0".into(), txid: "a".into(), vout: 0, content_type: "t".into(), content: "".into(), content_size: 0, owner_address: None, current_location: None, block_height: 1, block_time: 2, created_at: None };
    assert_eq!(inscription_store_location(&ins), "a:0");
    assert_eq!(domain_lookup_name("Alice.DASH"), "alice");
    assert_eq!(domain_lookup_name("bob.dash.dash"), "bob");
    assert_eq!(domain_lookup_name(".dash"), "");
    assert_eq!(content_type_pattern("image"), "%image%");
    assert_eq!(domain_search_pattern("AL"), "al%");
    assert_eq!(reindex_last_block(0), u64::MAX);
    assert_eq!(reindex_last_block(5), 4);
    assert_eq!(reindex_last_block(0x8000_0000_0000_0000), 0x8000_0000_0000_0000);
}

#[test]
fn store_queries_and_orders() {
    assert_eq!(mint_count_query(true, Some(false)), "SELECT COUNT(*) FROM dar20_mints WHERE tick = ? AND to_address = ? AND valid = 0");
    assert_eq!(mint_list_query(false, None), "SELECT id, tick, amount, to_address, txid, block_height, block_time, valid FROM dar20_mints WHERE tick = ? ORDER BY block_height DESC LIMIT ? OFFSET ?");
    assert_eq!(transfer_count_query(true, true, Some(true)), "SELECT COUNT(*) FROM dar20_transfers WHERE tick = ? AND from_address = ? AND to_address = ? AND valid = 1");
    assert_eq!(transfer_list_query(false, true, None), "SELECT id, tick, amount, from_address, to_address, txid, block_height, block_time, valid FROM dar20_transfers WHERE tick = ? AND to_address = ? ORDER BY block_height DESC LIMIT ? OFFSET ?");
    assert_eq!(token_order("minted"), "CAST(total_minted AS REAL) DESC");
    assert_eq!(token_order("holders"), "block_height DESC");
    assert_eq!(dashmap_order("height"), "block_height DESC");
    assert_eq!(dashmap_order("newest"), "claim_block_height DESC, id DESC");
    assert_eq!(domain_order("name"), "name ASC");
    assert_eq!(domain_order("x"), "registration_block DESC, id DESC");
}

#[test]
fn balance_rows() {
    let b = balance_row(3, "DASH".into(), "X".into(), "10.5".into(), "0.5".into(), 1);
    assert_eq!(b.id, Some(3));
    assert_eq!(b.balance, "10");
    assert_eq!(b.total_balance, Some("10.5".to_string()));
    assert_eq!(b.locked_balance, Some("0.5".to_string()));
    let b = balance_row(3, "DASH".into(), "X".into(), "10".into(), "0".into(), 1);
    assert_eq!(b.locked_balance, None);
}

#[test]
fn rpc_outcomes() {
    assert!(matches!(rpc_outcome(None, Some(5u64)), RpcOutcome::Value(5)));
    assert!(matches!(rpc_outcome::<u64>(None, None), RpcOutcome::MissingResult));
    match rpc_outcome(Some(RpcError { code: -5, message: "no tx".into() }), Some(1u64)) {
        RpcOutcome::NodeError(e) => assert_eq!((e.code, e.message.as_str()), (-5, "no tx")),
        _ => panic!("expected node error"),
    }
}

#[test]
fn case_mapping_reaches_public_functions() {
    assert!(!sort_descending("ASC"));
    assert!(!sort_descending("aSc"));
    assert!(sort_descending("desc"));
    assert_eq!(domain_lookup_name("Alice.DASH"), "alice");
}
