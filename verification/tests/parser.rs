use dash_ord::amount::{amount_readable_exec, format_amount, parse_amount};
use dash_ord::json::JsonField;
use dash_ord::models::{Dar20Operation, Inscription, RawTransaction, ScriptPubKey, ScriptSig, TxInput, TxOutput};
use dash_ord::parser::{
    content_text, dar20_from_fields, get_first_output_address, get_sender_address, location_string, parse_dar20,
    parse_dash_domain, parse_dashmap, parse_inscription, validate_domain_name, validate_ticker,
};
use dash_ord::script::{parse_script_chunks, parse_script_sig_inscription};

#[test]
fn test_validate_ticker() {
    // Canonical BRC-20: tick must be exactly 4 ASCII characters
    assert!(validate_ticker("DASH"));
    assert!(validate_ticker("ORDI"));
    assert!(validate_ticker("ABCD"));
    assert!(!validate_ticker("D20")); // Too short (3 chars)
    assert!(!validate_ticker("A")); // Too short (1 char)
    assert!(!validate_ticker("ABCDEF")); // Too long (6 chars)
    assert!(!validate_ticker("ABCDEFG")); // Too long (7 chars)
    assert!(!validate_ticker("")); // Too short (0 chars)
    assert!(!validate_ticker("DASH!")); // Invalid char
    assert!(!validate_ticker("ABC")); // Too short (3 chars)
    assert!(!validate_ticker("ABCDE")); // Too long (5 chars)
}

#[test]
fn test_parse_amount() {
    assert_eq!(parse_amount("100", 18), Some(100_000_000_000_000_000_000u128));
    assert_eq!(parse_amount("1.5", 18), Some(1_500_000_000_000_000_000u128));
    assert_eq!(parse_amount("0.000001", 18), Some(1_000_000_000_000u128));
}

#[test]
fn test_format_amount() {
    assert_eq!(format_amount(100_000_000_000_000_000_000u128, 18), "100");
    assert_eq!(format_amount(1_500_000_000_000_000_000u128, 18), "1.5");
    assert_eq!(format_amount(1_000_000_000_000u128, 18), "0.000001");
}

#[test]
fn ticker_non_ascii_and_digits() {
    assert!(validate_ticker("d4sh"));
    assert!(validate_ticker("1234"));
    assert!(!validate_ticker("DAS\u{e9}"));
    assert!(!validate_ticker("DA H"));
}

#[test]
fn parse_amount_edge_cases() {
    // beyond 38 decimals only texts that never reach the scale can be read
    assert_eq!(parse_amount("abc", 60), None);
    assert_eq!(parse_amount("1.2.3", 60), None);
    assert_eq!(parse_amount("x.5", 39), None);
    assert!(amount_readable_exec("abc", 60));
    assert!(!amount_readable_exec("1", 39));
    assert!(!amount_readable_exec("1.5", 39));
    assert!(amount_readable_exec("1.5", 38));
    assert_eq!(parse_amount("+5", 2), Some(500));
    assert_eq!(parse_amount("1.+5", 2), Some(105));
    assert_eq!(parse_amount("", 18), None);
    assert_eq!(parse_amount("+", 18), None);
    assert_eq!(parse_amount("-1", 18), None);
    assert_eq!(parse_amount("1.", 18), None);
    assert_eq!(parse_amount(".5", 18), None);
    assert_eq!(parse_amount("1.2.3", 18), None);
    assert_eq!(parse_amount("1.123", 2), None);
    assert_eq!(parse_amount("1.12", 2), Some(112));
    assert_eq!(parse_amount("007", 0), Some(7));
    assert_eq!(parse_amount("abc", 0), None);
    assert_eq!(parse_amount("340282366920938463463374607431768211455", 0), Some(u128::MAX));
    assert_eq!(parse_amount("340282366920938463463374607431768211456", 0), None);
    assert_eq!(parse_amount("340282366920938463463374607431768211455", 1), None);
    assert_eq!(parse_amount("1", 38), Some(100_000_000_000_000_000_000_000_000_000_000_000_000u128));
}

#[test]
fn format_amount_edge_cases() {
    assert_eq!(format_amount(0, 18), "0");
    assert_eq!(format_amount(0, 0), "0");
    assert_eq!(format_amount(12345, 0), "12345");
    assert_eq!(format_amount(12345, 2), "123.45");
    assert_eq!(format_amount(12300, 4), "1.23");
    assert_eq!(format_amount(5, 3), "0.005");
    assert_eq!(format_amount(u128::MAX, 38), "3.40282366920938463463374607431768211455");
}

#[test]
fn amount_roundtrip_on_values() {
    for (a, d) in [(0u128, 18u8), (1, 18), (1_500, 3), (123_456_789, 4), (u128::MAX, 0), (u128::MAX, 38), (10, 1)] {
        let text = format_amount(a, d);
        assert_eq!(parse_amount(&text, d), Some(a), "{} with {} decimals", text, d);
    }
}

#[test]
fn canonical_text_roundtrip_on_values() {
    for (t, d) in [("0", 18u8), ("1.05", 2), ("0.5", 1), ("123", 0), ("7.000001", 6), ("100", 3)] {
        let a = parse_amount(t, d).unwrap();
        assert_eq!(format_amount(a, d), t, "{} with {} decimals", t, d);
    }
    // texts outside the canonical form come back canonical
    assert_eq!(format_amount(parse_amount("1.50", 2).unwrap(), 2), "1.5");
    assert_eq!(format_amount(parse_amount("007", 0).unwrap(), 0), "7");
}

fn envelope_hex(content_type: &str, content: &[u8]) -> String {
    let mut script: Vec<u8> = Vec::new();
    script.push(3);
    script.extend_from_slice(b"ord");
    script.push(0x51);
    script.push(content_type.len() as u8);
    script.extend_from_slice(content_type.as_bytes());
    script.push(0);
    script.push(content.len() as u8);
    script.extend_from_slice(content);
    hex::encode(&script)
}

#[test]
fn content_text_decodes_hex_then_utf8() {
    assert_eq!(content_text(&"0aFf".to_string()), None);
    assert_eq!(content_text(&"616263".to_string()), Some("abc".to_string()));
    assert_eq!(content_text(&"414243".to_string()), Some("ABC".to_string()));
    assert_eq!(content_text(&"abc".to_string()), None);
    assert_eq!(content_text(&"zz".to_string()), None);
    assert_eq!(content_text(&"".to_string()), Some(String::new()));
    assert_eq!(content_text(&"c3a9".to_string()), Some("\u{e9}".to_string()));
}

#[test]
fn script_chunks_opcodes() {
    let script = vec![0x00, 0x02, 0xaa, 0xbb, 0x4c, 0x01, 0xcc, 0x4d, 0x01, 0x00, 0xdd, 0x51, 0x60, 0x61, 0x4e, 0x01, 0, 0, 0, 0xee];
    let chunks = parse_script_chunks(&script).unwrap();
    assert_eq!(
        chunks,
        vec![vec![], vec![0xaa, 0xbb], vec![0xcc], vec![0xdd], vec![1], vec![16], vec![0xee]]
    );
}

#[test]
fn script_chunks_stop_at_truncated_push() {
    let script = vec![0x01, 0x07, 0x05, 0x01, 0x02];
    assert_eq!(parse_script_chunks(&script).unwrap(), vec![vec![0x07]]);
    let script = vec![0x4d, 0x01];
    assert_eq!(parse_script_chunks(&script).unwrap(), Vec::<Vec<u8>>::new());
}

#[test]
fn script_sig_envelope() {
    let hex = envelope_hex("text/plain", b"hello");
    assert_eq!(
        parse_script_sig_inscription(&hex),
        Some(("text/plain".to_string(), "68656c6c6f".to_string()))
    );
    let not_ord = hex::encode(vec![3u8, b'o', b'r', b'x', 0x51, 1, b'a', 0, 1, b'b']);
    assert_eq!(parse_script_sig_inscription(&not_ord), None);
    assert_eq!(parse_script_sig_inscription("zz"), None);
}

#[test]
fn script_sig_content_skips_signature_and_opcodes() {
    let mut script: Vec<u8> = vec![3, b'o', b'r', b'd', 0x51, 1, b't', 0, 2, b'a', b'b', 0x51, 2, b'c', b'd'];
    script.push(70);
    script.push(0x30);
    script.extend_from_slice(&[7u8; 69]);
    script.extend_from_slice(&[2, b'e', b'f']);
    let hex = hex::encode(&script);
    assert_eq!(parse_script_sig_inscription(&hex), Some(("t".to_string(), "61626364".to_string())));
}

#[test]
fn script_sig_content_falls_back_to_chunk_four() {
    let script: Vec<u8> = vec![3, b'o', b'r', b'd', 0x51, 1, b't', 0, 0x52];
    let hex = hex::encode(&script);
    assert_eq!(parse_script_sig_inscription(&hex), Some(("t".to_string(), "02".to_string())));
    let script: Vec<u8> = vec![3, b'o', b'r', b'd', 0x51, 1, b't', 0, 0];
    let hex = hex::encode(&script);
    assert_eq!(parse_script_sig_inscription(&hex), Some(("t".to_string(), "".to_string())));
    let script: Vec<u8> = vec![3, b'o', b'r', b'd', 0x51, 1, b't', 0, 0x53, 0x54];
    let hex = hex::encode(&script);
    assert_eq!(parse_script_sig_inscription(&hex), Some(("t".to_string(), "03".to_string())));
}

fn output(address: Option<&str>, addresses: Option<Vec<&str>>) -> TxOutput {
    TxOutput {
        value_bits: 0,
        n: 0,
        script_pub_key: ScriptPubKey {
            script_asm: String::new(),
            hex: String::new(),
            script_type: None,
            addresses: addresses.map(|v| v.into_iter().map(String::from).collect()),
            address: address.map(String::from),
        },
    }
}

fn tx_with(inputs: Vec<Option<String>>, outputs: Vec<TxOutput>) -> RawTransaction {
    RawTransaction {
        txid: "abcd".to_string(),
        version: 2,
        size: 100,
        locktime: 0,
        vin: inputs
            .into_iter()
            .map(|h| TxInput {
                txid: None,
                vout: None,
                script_sig: h.map(|hex| ScriptSig { script_asm: String::new(), hex }),
                sequence: 0,
                coinbase: None,
            })
            .collect(),
        vout: outputs,
        blockhash: None,
        blockheight: Some(77),
        confirmations: None,
        time: None,
        blocktime: None,
    }
}

#[test]
fn first_output_address_prefers_address_then_list() {
    let tx = tx_with(vec![], vec![output(Some("Xa"), Some(vec!["Xb"]))]);
    assert_eq!(get_first_output_address(&tx), Some("Xa".to_string()));
    let tx = tx_with(vec![], vec![output(None, Some(vec!["Xb", "Xc"]))]);
    assert_eq!(get_first_output_address(&tx), Some("Xb".to_string()));
    assert_eq!(get_sender_address(&tx), Some("Xb".to_string()));
    let tx = tx_with(vec![], vec![output(None, Some(vec![]))]);
    assert_eq!(get_first_output_address(&tx), None);
    let tx = tx_with(vec![], vec![]);
    assert_eq!(get_first_output_address(&tx), None);
}

#[test]
fn inscription_from_first_matching_input() {
    let hex = envelope_hex("text/plain", b"alice.dash");
    let tx = tx_with(vec![None, Some("00".to_string()), Some(hex)], vec![output(Some("Xowner"), None)]);
    let ins = parse_inscription(&tx).unwrap();
    assert_eq!(ins.inscription_id, "abcd:0");
    assert_eq!(ins.current_location, Some("abcd:0".to_string()));
    assert_eq!(ins.txid, "abcd");
    assert_eq!(ins.vout, 0);
    assert_eq!(ins.content_type, "text/plain");
    assert_eq!(ins.content, hex::encode(b"alice.dash"));
    assert_eq!(ins.content_size, 10);
    assert_eq!(ins.owner_address, Some("Xowner".to_string()));
    assert_eq!(ins.block_height, 77);
    assert_eq!(ins.block_time, 0);
    let plain = tx_with(vec![Some("00".to_string())], vec![]);
    assert!(parse_inscription(&plain).is_none());
}

#[test]
fn location_text_joins_txid_and_vout() {
    assert_eq!(location_string(&"ff".to_string(), 0), "ff:0");
    assert_eq!(location_string(&"ff".to_string(), 4294967295), "ff:4294967295");
}

fn inscription(content_type: &str, content: &str) -> Inscription {
    Inscription {
        id: None,
        inscription_id: "t:0".to_string(),
        txid: "t".to_string(),
        vout: 0,
        content_type: content_type.to_string(),
        content: hex::encode(content.as_bytes()),
        content_size: content.len() as u32,
        owner_address: Some("Xowner".to_string()),
        current_location: Some("t:0".to_string()),
        block_height: 10,
        block_time: 1000,
        created_at: None,
    }
}

#[test]
fn dar20_mint_is_read() {
    let ins = inscription("application/json", r#"{"p":"dar-20","op":"mint","tick":"dash","amt":"100"}"#);
    let d = parse_dar20(&ins).unwrap();
    assert_eq!(d.protocol, "dar-20");
    assert_eq!(d.operation, Dar20Operation::Mint);
    assert_eq!(d.tick, "DASH");
    assert_eq!(d.amt, Some("100".to_string()));
    assert_eq!(d.max, None);
    assert_eq!(d.dec, Some(18));
}

#[test]
fn dar20_deploy_reads_decimals_cut_to_a_byte() {
    let ins = inscription("text/plain", r#"{"p":"dar-20","op":"deploy","tick":"ORDI","max":"21000000","lim":"1000","dec":264}"#);
    let d = parse_dar20(&ins).unwrap();
    assert_eq!(d.operation, Dar20Operation::Deploy);
    assert_eq!(d.max, Some("21000000".to_string()));
    assert_eq!(d.lim, Some("1000".to_string()));
    assert_eq!(d.dec, Some(8));
    let ins = inscription("text/plain", r#"{"p":"dar-20","op":"deploy","tick":"ORDI","max":"1","dec":"8"}"#);
    assert_eq!(parse_dar20(&ins).unwrap().dec, Some(18));
}

#[test]
fn dar20_rejections() {
    assert!(parse_dar20(&inscription("image/png", r#"{"p":"dar-20","op":"mint","tick":"dash"}"#)).is_none());
    assert!(parse_dar20(&inscription("text/plain", r#"{"p":"brc-20","op":"mint","tick":"dash"}"#)).is_none());
    assert!(parse_dar20(&inscription("text/plain", r#"{"p":"dar-20","op":"burn","tick":"dash"}"#)).is_none());
    assert!(parse_dar20(&inscription("text/plain", r#"{"p":"dar-20","op":"mint"}"#)).is_none());
    assert!(parse_dar20(&inscription("text/plain", r#"{"p":"dar-20","op":"mint","tick":5}"#)).is_none());
    assert!(parse_dar20(&inscription("text/plain", "not json")).is_none());
}

#[test]
fn dar20_fields_assembled() {
    let text = |s: &str| Some(JsonField::Text(s.to_string()));
    let d = dar20_from_fields(
        &text("dar-20"),
        &text("transfer"),
        Some("ABCD".to_string()),
        &Some(JsonField::Unsigned(5)),
        &Some(JsonField::Missing),
        &text("7.5"),
        &Some(JsonField::Unsigned(6)),
    )
    .unwrap();
    assert_eq!(d.operation, Dar20Operation::Transfer);
    assert_eq!(d.tick, "ABCD");
    assert_eq!(d.max, None);
    assert_eq!(d.lim, None);
    assert_eq!(d.amt, Some("7.5".to_string()));
    assert_eq!(d.dec, Some(6));
    assert!(dar20_from_fields(&text("dar-20"), &text("mint"), None, &None, &None, &None, &None).is_none());
    assert!(dar20_from_fields(&Some(JsonField::Other), &text("mint"), Some("A".into()), &None, &None, &None, &None).is_none());
}

#[test]
fn dash_domain_registrations() {
    let d = parse_dash_domain(&inscription("text/plain", "  Alice.DASH\n")).unwrap();
    assert_eq!(d.name, "alice");
    assert_eq!(d.full_name, "alice.dash");
    assert!(parse_dash_domain(&inscription("text/plain", "5.dashmap")).is_none());
    assert!(parse_dash_domain(&inscription("text/plain", "-bob.dash")).is_none());
    assert!(parse_dash_domain(&inscription("text/plain", "12345.dash")).is_none());
    assert!(parse_dash_domain(&inscription("application/json", "alice.dash")).is_none());
    assert!(parse_dash_domain(&inscription("text/plain", ".dash")).is_none());
}

#[test]
fn domain_name_rules() {
    assert!(validate_domain_name("alice"));
    assert!(validate_domain_name("a-1"));
    assert!(!validate_domain_name(""));
    assert!(!validate_domain_name("-a"));
    assert!(!validate_domain_name("a-"));
    assert!(!validate_domain_name("Alice"));
    assert!(!validate_domain_name("123"));
    assert!(validate_domain_name(&"a".repeat(64)));
    assert!(!validate_domain_name(&"a".repeat(65)));
    assert!(!validate_domain_name("caf\u{e9}"));
}

#[test]
fn dashmap_claims() {
    assert_eq!(parse_dashmap(&inscription("text/plain", "2386000.dashmap")).unwrap().block_height, 2386000);
    assert_eq!(parse_dashmap(&inscription("text/plain;charset=utf-8", " 5.DASHMAP \n")).unwrap().block_height, 5);
    assert_eq!(parse_dashmap(&inscription("text/plain", "7.DashMap")).unwrap().block_height, 7);
    assert_eq!(parse_dashmap(&inscription("text/plain", "+8 .dashmap")).unwrap().block_height, 8);
    assert!(parse_dashmap(&inscription("text/plain", "5.dAshmap")).is_none());
    assert!(parse_dashmap(&inscription("text/plain", "x.dashmap")).is_none());
    assert!(parse_dashmap(&inscription("text/plain", "18446744073709551616.dashmap")).is_none());
    assert!(parse_dashmap(&inscription("image/png", "5.dashmap")).is_none());
}
