use dash_ord::ledger::{
    available_balance, credit_balance, dar20_tick, dashmap_claim_record, dashmap_claim_target,
    deploy_amounts_readable_exec, domain_record, is_dar20_transfer, lock_amount, mint_arithmetic_fits_exec, plan_deploy, plan_mint,
    plan_transfer_execution, plan_transfer_inscription, plan_utxo_move, receiving_output, transfer_sender,
    unlock_amount, LedgerError, TransferExecution,
};
use dash_ord::models::{
    Dar20Inscription, Dar20Operation, Dar20Token, Dar20Transfer, DashDomainInscription,
    DashMapInscription, Inscription, RawTransaction, ScriptPubKey, TxOutput,
};
use dash_ord::sync::{sync_start, sync_step, SyncEvent, SyncState, SyncTask};

fn dar20(op: Dar20Operation, tick: &str, max: Option<&str>, lim: Option<&str>, amt: Option<&str>, dec: Option<u8>) -> Dar20Inscription {
    Dar20Inscription {
        protocol: "dar-20".to_string(),
        operation: op,
        tick: tick.to_string(),
        max: max.map(String::from),
        lim: lim.map(String::from),
        amt: amt.map(String::from),
        dec,
    }
}

fn inscription(owner: Option<&str>, content: &str) -> Inscription {
    Inscription {
        id: None,
        inscription_id: "tx1:0".to_string(),
        txid: "tx1".to_string(),
        vout: 0,
        content_type: "text/plain".to_string(),
        content: hex::encode(content.as_bytes()),
        content_size: content.len() as u32,
        owner_address: owner.map(String::from),
        current_location: Some("tx1:0".to_string()),
        block_height: 5,
        block_time: 500,
        created_at: None,
    }
}

fn token(max: &str, lim: &str, minted: &str, decimals: u8) -> Dar20Token {
    Dar20Token {
        id: Some(1),
        tick: "DASH".to_string(),
        max_supply: max.to_string(),
        mint_limit: lim.to_string(),
        decimals,
        total_minted: minted.to_string(),
        deploy_txid: "d".to_string(),
        deploy_address: "Xd".to_string(),
        block_height: 1,
        block_time: 1,
        created_at: None,
    }
}

#[test]
fn ticker_is_uppercased_and_checked() {
    assert_eq!(dar20_tick(&dar20(Dar20Operation::Mint, "dash", None, None, None, None)), Some("DASH".to_string()));
    assert_eq!(dar20_tick(&dar20(Dar20Operation::Mint, "da", None, None, None, None)), None);
}

#[test]
fn deploy_rules() {
    let ins = inscription(Some("Xa"), "");
    let d = dar20(Dar20Operation::Deploy, "DASH", Some("1000"), None, None, None);
    let t = plan_deploy(&d, &"DASH".to_string(), false, &ins, 9, 90).unwrap();
    assert_eq!(t.max_supply, "1000");
    assert_eq!(t.mint_limit, "1000");
    assert_eq!(t.decimals, 18);
    assert_eq!(t.total_minted, "0");
    assert_eq!(t.deploy_address, "Xa");
    assert_eq!(t.deploy_txid, "tx1");
    assert_eq!((t.block_height, t.block_time), (9, 90));
    // first deploy wins
    assert!(plan_deploy(&d, &"DASH".to_string(), true, &ins, 9, 90).is_none());
    // missing max, zero max, zero limit, limit above max
    let none_max = dar20(Dar20Operation::Deploy, "DASH", None, Some("1"), None, None);
    assert!(plan_deploy(&none_max, &"DASH".to_string(), false, &ins, 9, 90).is_none());
    let zero = dar20(Dar20Operation::Deploy, "DASH", Some("0"), None, None, None);
    assert!(plan_deploy(&zero, &"DASH".to_string(), false, &ins, 9, 90).is_none());
    let zero_lim = dar20(Dar20Operation::Deploy, "DASH", Some("10"), Some("x"), None, None);
    assert!(plan_deploy(&zero_lim, &"DASH".to_string(), false, &ins, 9, 90).is_none());
    let big_lim = dar20(Dar20Operation::Deploy, "DASH", Some("10"), Some("11"), None, Some(0));
    assert!(plan_deploy(&big_lim, &"DASH".to_string(), false, &ins, 9, 90).is_none());
    let unknown = plan_deploy(&d, &"DASH".to_string(), false, &inscription(None, ""), 9, 90).unwrap();
    assert_eq!(unknown.deploy_address, "unknown");
}

#[test]
fn mint_rules() {
    let ins = inscription(Some("Xm"), "");
    let tok = token("100", "10", "95", 0);
    let m = dar20(Dar20Operation::Mint, "DASH", None, None, Some("5"), None);
    assert!(mint_arithmetic_fits_exec(&m, &tok));
    let plan = plan_mint(&m, &"DASH".to_string(), &tok, &ins, 3, 30).unwrap();
    assert_eq!(plan.amount, 5);
    assert_eq!(plan.new_total_minted, "100");
    assert_eq!(plan.mint.to_address, "Xm");
    assert_eq!(plan.mint.amount, "5");
    assert!(plan.mint.valid);
    // over the limit
    let m = dar20(Dar20Operation::Mint, "DASH", None, None, Some("11"), None);
    assert!(plan_mint(&m, &"DASH".to_string(), &tok, &ins, 3, 30).is_none());
    // over the max supply
    let m = dar20(Dar20Operation::Mint, "DASH", None, None, Some("6"), None);
    assert!(plan_mint(&m, &"DASH".to_string(), &tok, &ins, 3, 30).is_none());
    // no amount, bad amount
    let m = dar20(Dar20Operation::Mint, "DASH", None, None, None, None);
    assert!(plan_mint(&m, &"DASH".to_string(), &tok, &ins, 3, 30).is_none());
    let m = dar20(Dar20Operation::Mint, "DASH", None, None, Some("1.5"), None);
    assert!(plan_mint(&m, &"DASH".to_string(), &tok, &ins, 3, 30).is_none());
    // a fully minted token takes no mint at all, not even one of zero
    let full = token("100", "10", "100", 0);
    let m = dar20(Dar20Operation::Mint, "DASH", None, None, Some("1"), None);
    assert!(plan_mint(&m, &"DASH".to_string(), &full, &ins, 3, 30).is_none());
    let m = dar20(Dar20Operation::Mint, "DASH", None, None, Some("0"), None);
    assert!(plan_mint(&m, &"DASH".to_string(), &full, &ins, 3, 30).is_none());
    // below the max a zero mint is still a mint
    assert!(plan_mint(&m, &"DASH".to_string(), &tok, &ins, 3, 30).is_some());
}

#[test]
fn mint_overflow_is_detected() {
    let tok = token("x", "x", "340282366920938463463374607431768211455", 0);
    let m = dar20(Dar20Operation::Mint, "DASH", None, None, Some("1"), None);
    assert!(!mint_arithmetic_fits_exec(&m, &tok));
    let tok = token("1", "1", "0", 39);
    assert!(!mint_arithmetic_fits_exec(&m, &tok));
    // an amount that is no number is never scaled, whatever the decimals
    let junk = dar20(Dar20Operation::Mint, "DASH", None, None, Some("lots"), None);
    assert!(mint_arithmetic_fits_exec(&junk, &tok));
    assert!(plan_mint(&junk, &"DASH".to_string(), &tok, &inscription(None, ""), 3, 30).is_none());
}

#[test]
fn deploy_with_unreadable_numbers_and_large_decimals_is_ignored() {
    let ins = inscription(Some("Xa"), "");
    let d = dar20(Dar20Operation::Deploy, "DASH", Some("many"), Some("few"), None, Some(60));
    assert!(deploy_amounts_readable_exec(&d, false));
    assert!(plan_deploy(&d, &"DASH".to_string(), false, &ins, 1, 1).is_none());
    let numeric = dar20(Dar20Operation::Deploy, "DASH", Some("5"), None, None, Some(60));
    assert!(!deploy_amounts_readable_exec(&numeric, false));
    assert!(deploy_amounts_readable_exec(&numeric, true));
}

#[test]
fn credit_adds_to_balance() {
    assert_eq!(credit_balance(&"1.5".to_string(), 500, 3), "2");
    assert_eq!(credit_balance(&"junk".to_string(), 7, 0), "7");
}

#[test]
fn available_balance_subtracts_locked() {
    assert_eq!(available_balance(&"10".to_string(), &"3".to_string(), Some(0)), "7");
    assert_eq!(available_balance(&"3".to_string(), &"10".to_string(), Some(0)), "0");
    assert_eq!(available_balance(&"1.25".to_string(), &"0.25".to_string(), Some(2)), "1");
    assert_eq!(available_balance(&"10".to_string(), &"3".to_string(), None), "10");
}

#[test]
fn transfer_inscription_checks_available_balance() {
    let ins = inscription(Some("Xs"), "");
    let tok = token("100", "10", "50", 0);
    let t = dar20(Dar20Operation::Transfer, "DASH", None, None, Some("5"), None);
    let rec = plan_transfer_inscription(&t, &"DASH".to_string(), &tok, &ins, 4, 40, &"5".to_string()).unwrap();
    assert!(rec.valid);
    assert_eq!(rec.to_address, "pending");
    assert_eq!(rec.from_address, "Xs");
    let rec = plan_transfer_inscription(&t, &"DASH".to_string(), &tok, &ins, 4, 40, &"4".to_string()).unwrap();
    assert!(!rec.valid);
    let bad = dar20(Dar20Operation::Transfer, "DASH", None, None, Some("x"), None);
    assert!(plan_transfer_inscription(&bad, &"DASH".to_string(), &tok, &ins, 4, 40, &"5".to_string()).is_none());
}

#[test]
fn lock_and_unlock() {
    assert_eq!(lock_amount(&"1".to_string(), &"2".to_string(), 0), Some("3".to_string()));
    assert_eq!(lock_amount(&"1".to_string(), &"x".to_string(), 0), None);
    assert_eq!(unlock_amount(&"3".to_string(), &"2".to_string(), 0), Some("1".to_string()));
    assert_eq!(unlock_amount(&"1".to_string(), &"2".to_string(), 0), Some("0".to_string()));
    assert_eq!(unlock_amount(&"1".to_string(), &"".to_string(), 0), None);
    let locked = lock_amount(&"0.5".to_string(), &"1.25".to_string(), 2).unwrap();
    assert_eq!(unlock_amount(&locked, &"1.25".to_string(), 2), Some("0.5".to_string()));
}

#[test]
fn locking_takes_amount_out_of_available() {
    let total = "10.5".to_string();
    let before = available_balance(&total, &"2".to_string(), Some(1));
    assert_eq!(before, "8.5");
    let locked = lock_amount(&"2".to_string(), &"3.5".to_string(), 1).unwrap();
    assert_eq!(locked, "5.5");
    assert_eq!(available_balance(&total, &locked, Some(1)), "5");
}

#[test]
fn minting_stays_within_max_and_locking_within_total() {
    let ins = inscription(Some("Xm"), "");
    let tok = token("100", "10", "92", 0);
    let m = dar20(Dar20Operation::Mint, "DASH", None, None, Some("8"), None);
    let plan = plan_mint(&m, &"DASH".to_string(), &tok, &ins, 3, 30).unwrap();
    assert_eq!(plan.new_total_minted, "100");
    let next = token("100", "10", &plan.new_total_minted, 0);
    let again = dar20(Dar20Operation::Mint, "DASH", None, None, Some("1"), None);
    assert!(plan_mint(&again, &"DASH".to_string(), &next, &ins, 3, 30).is_none());
    // available 4 of total 10 with 6 locked: locking 4 reaches the total exactly
    assert_eq!(available_balance(&"10".to_string(), &"6".to_string(), Some(0)), "4");
    assert_eq!(lock_amount(&"6".to_string(), &"4".to_string(), 0), Some("10".to_string()));
}

#[test]
fn transfer_execution_outcomes() {
    let tok = Some(token("100", "10", "50", 0));
    let t = dar20(Dar20Operation::Transfer, "DASH", None, None, Some("5"), None);
    match plan_transfer_execution(&t, &tok, &"5".to_string(), &"8".to_string()) {
        Ok(TransferExecution::Execute { amount, new_sender_total }) => {
            assert_eq!(amount, 5);
            assert_eq!(new_sender_total, "3");
            // conservation: the recipient is credited what the sender lost
            assert_eq!(credit_balance(&"2".to_string(), amount, 0), "7");
        }
        _ => panic!("expected execution"),
    }
    assert!(matches!(plan_transfer_execution(&t, &tok, &"4".to_string(), &"8".to_string()), Ok(TransferExecution::Reject)));
    assert!(matches!(plan_transfer_execution(&t, &tok, &"5".to_string(), &"4".to_string()), Ok(TransferExecution::Reject)));
    let no_amt = dar20(Dar20Operation::Transfer, "DASH", None, None, None, None);
    assert!(matches!(plan_transfer_execution(&no_amt, &tok, &"5".to_string(), &"8".to_string()), Err(LedgerError::MissingAmount)));
    assert!(matches!(plan_transfer_execution(&t, &None, &"5".to_string(), &"8".to_string()), Err(LedgerError::TokenNotFound)));
    let bad = dar20(Dar20Operation::Transfer, "DASH", None, None, Some("?"), None);
    assert!(matches!(plan_transfer_execution(&bad, &tok, &"5".to_string(), &"8".to_string()), Err(LedgerError::InvalidAmount)));
}

#[test]
fn dashmap_and_domain_records() {
    let ins = inscription(None, "");
    assert_eq!(dashmap_claim_target(&DashMapInscription { block_height: 6 }, 5), None);
    assert_eq!(dashmap_claim_target(&DashMapInscription { block_height: 5 }, 5), Some(5));
    let c = dashmap_claim_record(&DashMapInscription { block_height: 3 }, &ins, 5, 50);
    assert_eq!(c.block_height, 3);
    assert_eq!(c.owner_address, "unknown");
    assert_eq!(c.current_location, Some("tx1:0".to_string()));
    assert_eq!((c.claim_block_height, c.claim_time), (5, 50));
    let d = domain_record(&DashDomainInscription { name: "bob".into(), full_name: "bob.dash".into() }, &ins, 5, 50);
    assert_eq!(d.name, "bob");
    assert_eq!(d.full_name, "bob.dash");
    assert_eq!(d.registration_txid, "tx1");
}

fn out(address: Option<&str>) -> TxOutput {
    TxOutput {
        value_bits: 0,
        n: 0,
        script_pub_key: ScriptPubKey { script_asm: String::new(), hex: String::new(), script_type: None, addresses: None, address: address.map(String::from) },
    }
}

#[test]
fn receiving_output_selection() {
    let tx = RawTransaction {
        txid: "t".into(),
        version: 1,
        size: 1,
        locktime: 0,
        vin: vec![],
        vout: vec![out(Some("X0")), out(None), out(Some("X2"))],
        blockhash: None,
        blockheight: None,
        confirmations: None,
        time: None,
        blocktime: None,
    };
    assert_eq!(receiving_output(&tx, &Some(vec![false, false, true])), (2, "X2".to_string()));
    assert_eq!(receiving_output(&tx, &Some(vec![false, true, true])), (1, "unknown".to_string()));
    assert_eq!(receiving_output(&tx, &Some(vec![false, false, false])), (0, "X0".to_string()));
    assert_eq!(receiving_output(&tx, &None), (0, "X0".to_string()));
}

#[test]
fn utxo_move_locations() {
    let tx = RawTransaction {
        txid: "spend".into(),
        version: 1,
        size: 1,
        locktime: 0,
        vin: vec![],
        vout: vec![out(Some("Xseller")), out(Some("Xbuyer")), out(Some("Xchange"))],
        blockhash: None,
        blockheight: None,
        confirmations: None,
        time: None,
        blocktime: None,
    };
    let m = plan_utxo_move(&tx, &"prev".to_string(), 3, &Some(vec![false, true, false]));
    assert_eq!(m.spent_location, "prev:3");
    assert_eq!(m.new_location, "spend:1");
    assert_eq!(m.new_owner, "Xbuyer");
    let fallback = plan_utxo_move(&tx, &"prev".to_string(), 0, &None);
    assert_eq!(fallback.spent_location, "prev:0");
    assert_eq!(fallback.new_location, "spend:0");
    assert_eq!(fallback.new_owner, "Xseller");
}

#[test]
fn transfer_detection_and_sender() {
    let ins = inscription(Some("Xo"), r#"{"p":"dar-20","op":"transfer","tick":"DASH","amt":"1"}"#);
    assert!(is_dar20_transfer(&ins));
    let mint = inscription(Some("Xo"), r#"{"p":"dar-20","op":"mint","tick":"DASH","amt":"1"}"#);
    assert!(!is_dar20_transfer(&mint));
    assert_eq!(transfer_sender(&None, &ins), "Xo");
    let rec = Dar20Transfer {
        id: None,
        tick: "DASH".into(),
        amount: "1".into(),
        from_address: "Xfrom".into(),
        to_address: "pending".into(),
        txid: "tx1".into(),
        block_height: 1,
        block_time: 1,
        valid: true,
        created_at: None,
    };
    assert_eq!(transfer_sender(&Some(rec), &ins), "Xfrom");
}

#[test]
fn sync_loop_steps() {
    let (s, task) = sync_start(10);
    assert_eq!(task, SyncTask::PollChain);
    let step = sync_step(s, SyncEvent::ChainHeightFailed);
    assert_eq!((step.sleep_secs, step.next), (10, SyncTask::PollChain));
    let step = sync_step(s, SyncEvent::ChainHeight(11));
    assert_eq!(step.store_chain_height, Some(11));
    assert_eq!(step.next, SyncTask::IndexBlock(10));
    let s = step.state;
    let step = sync_step(s, SyncEvent::BlockFailed);
    assert_eq!((step.sleep_secs, step.next, step.store_last_indexed), (5, SyncTask::IndexBlock(10), None));
    let step = sync_step(s, SyncEvent::BlockIndexed);
    assert_eq!(step.store_last_indexed, Some(10));
    assert_eq!(step.next, SyncTask::IndexBlock(11));
    let step = sync_step(step.state, SyncEvent::BlockIndexed);
    assert_eq!(step.store_last_indexed, Some(11));
    assert_eq!((step.sleep_secs, step.next), (15, SyncTask::PollChain));
    let step = sync_step(SyncState { current_block: 999, chain_height: 2000 }, SyncEvent::BlockIndexed);
    assert!(step.log_progress);
}

#[test]
fn sync_run_stores_consecutive_blocks() {
    let (mut state, _) = sync_start(7);
    let events = [
        SyncEvent::ChainHeightFailed,
        SyncEvent::ChainHeight(9),
        SyncEvent::BlockFailed,
        SyncEvent::BlockIndexed,
        SyncEvent::BlockFailed,
        SyncEvent::BlockIndexed,
        SyncEvent::BlockIndexed,
        SyncEvent::ChainHeight(12),
        SyncEvent::BlockIndexed,
    ];
    let mut stored = Vec::new();
    for e in events {
        let step = sync_step(state, e);
        if let Some(b) = step.store_last_indexed {
            stored.push(b);
        }
        state = step.state;
    }
    assert_eq!(stored, vec![7, 8, 9, 10]);
    assert_eq!(state.current_block, 11);
}
