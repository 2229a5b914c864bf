//! Reading inscriptions out of transactions, and the DAR-20, DashMap and
//! DashDomain texts out of inscriptions.

use vstd::prelude::*;
use vstd::utf8::{decode_utf8, valid_utf8};
use crate::json::{json_field, opt_field, spec_json_field, JsonField, JsonFieldView};
use crate::models::{
    opt_str, Dar20Inscription, Dar20Operation, DashDomainInscription, DashMapInscription,
    Inscription, RawTransaction, TxInput, TxOutput,
};
use crate::script::{
    hex_decode, parse_script_sig_inscription, spec_hex_decode, spec_script_sig_inscription,
    utf8_string,
};
use crate::text::{
    all_digits, chars_of, contains_chars, contains_seq, ends_with, ends_with_chars, is_digit,
    is_whitespace, lemma_spec_digits, parse_u64_chars, push_digits, spec_digits, spec_parse_unsigned, spec_to_lowercase,
    spec_to_uppercase, spec_trim, trim_end_ws, trim_start_ws, string_from_chars, strip_suffix, strip_suffix_chars,
    to_lowercase, to_uppercase, trim_chars,
};

verus! {

/// `txid:vout`, the text of an output's location.
pub open spec fn location_text(txid: Seq<char>, vout: nat) -> Seq<char> {
    txid + seq![':'] + spec_digits(vout)
}

/// Writes the location `txid:vout`.
pub fn location_string(txid: &String, vout: u32) -> (res: String)
    ensures
        res@ == location_text(txid@, vout as nat),
{
    let mut v = chars_of(txid.as_str());
    v.push(':');
    push_digits(vout as u128, &mut v);
    string_from_chars(&v)
}

/// The address an output pays: its `address`, else the first of its
/// `addresses`.
pub open spec fn spec_output_address(o: TxOutput) -> Option<Seq<char>> {
    match o.script_pub_key.address {
        Some(a) => Some(a@),
        None => match o.script_pub_key.addresses {
            Some(v) => if v@.len() > 0 {
                Some(v@[0]@)
            } else {
                None
            },
            None => None,
        },
    }
}

/// The address that the first output of `tx` pays, if any.
pub open spec fn spec_first_output_address(tx: RawTransaction) -> Option<Seq<char>> {
    if tx.vout@.len() == 0 {
        None
    } else {
        spec_output_address(tx.vout@[0])
    }
}

/// The address an output pays (see `spec_output_address`).
pub fn output_address(o: &TxOutput) -> (res: Option<String>)
    ensures
        opt_str(res) == spec_output_address(*o),
{
    match &o.script_pub_key.address {
        Some(a) => Some(a.clone()),
        None => match &o.script_pub_key.addresses {
            Some(v) => {
                if v.len() > 0 {
                    Some(v[0].clone())
                } else {
                    None
                }
            },
            None => None,
        },
    }
}

/// Get first output address from transaction (usually the inscription holder)
pub fn get_first_output_address(tx: &RawTransaction) -> (res: Option<String>)
    ensures
        opt_str(res) == spec_first_output_address(*tx),
{
    if tx.vout.len() == 0 {
        None
    } else {
        output_address(&tx.vout[0])
    }
}

/// Get sender address from transaction: for reveal transactions the first
/// output's address stands for both sender and receiver.
pub fn get_sender_address(tx: &RawTransaction) -> (res: Option<String>)
    ensures
        opt_str(res) == spec_first_output_address(*tx),
{
    get_first_output_address(tx)
}

/// The envelope (content type and hex content) of the first input, from
/// index `j` on, whose `scriptSig` carries one.
pub open spec fn spec_first_envelope(vin: Seq<TxInput>, j: int) -> Option<(Seq<char>, Seq<char>)>
    decreases vin.len() - j,
{
    if j < 0 || j >= vin.len() {
        None
    } else {
        match vin[j].script_sig {
            Some(ss) => match spec_script_sig_inscription(ss.hex@) {
                Some(r) => Some(r),
                None => spec_first_envelope(vin, j + 1),
            },
            None => spec_first_envelope(vin, j + 1),
        }
    }
}

/// `ins` is the inscription that transaction `tx` creates with the envelope
/// `env`: it sits at output 0, which is also its current location, belongs
/// to the first output's address, and records the block of `tx`.
pub open spec fn is_created_inscription(ins: Inscription, tx: RawTransaction, env: (Seq<char>, Seq<char>)) -> bool {
    &&& ins.id is None
    &&& ins.inscription_id@ == location_text(tx.txid@, 0)
    &&& ins.txid@ == tx.txid@
    &&& ins.vout == 0
    &&& ins.content_type@ == env.0
    &&& ins.content@ == env.1
    &&& ins.content_size as nat == (env.1.len() / 2) % 0x1_0000_0000
    &&& opt_str(ins.owner_address) == spec_first_output_address(tx)
    &&& opt_str(ins.current_location) == Some(location_text(tx.txid@, 0))
    &&& ins.block_height == (match tx.blockheight {
        Some(h) => h,
        None => 0,
    })
    &&& ins.block_time == (match tx.blocktime {
        Some(t) => t,
        None => 0,
    })
    &&& ins.created_at is None
}

/// Parse the inscription that a transaction creates: the `ord` envelope in
/// the `scriptSig` of its first input that carries one.
pub fn parse_inscription(tx: &RawTransaction) -> (res: Option<Inscription>)
    ensures
        res is Some <==> spec_first_envelope(tx.vin@, 0) is Some,
        res matches Some(ins) ==> is_created_inscription(ins, *tx, spec_first_envelope(tx.vin@, 0)->0),
{
    let n = tx.vin.len();
    let mut j: usize = 0;
    while j < n
        invariant
            n == tx.vin@.len(),
            j <= n,
            spec_first_envelope(tx.vin@, 0) == spec_first_envelope(tx.vin@, j as int),
        decreases n - j,
    {
        let input = &tx.vin[j];
        match &input.script_sig {
            Some(script_sig) => {
                match parse_script_sig_inscription(script_sig.hex.as_str()) {
                    Some(found) => {
                        let (content_type, content) = found;
                        let inscription_id = location_string(&tx.txid, 0);
                        let current_location = location_string(&tx.txid, 0);
                        let content_size = ((content.as_str().unicode_len() / 2) as u64 % 0x1_0000_0000) as u32;
                        let ins = Inscription {
                            id: None,
                            inscription_id,
                            txid: tx.txid.clone(),
                            vout: 0,
                            content_type,
                            content,
                            content_size,
                            owner_address: get_first_output_address(tx),
                            current_location: Some(current_location),
                            block_height: match tx.blockheight {
                                Some(h) => h,
                                None => 0,
                            },
                            block_time: match tx.blocktime {
                                Some(t) => t,
                                None => 0,
                            },
                            created_at: None,
                        };
                        return Some(ins);
                    },
                    None => {},
                }
            },
            None => {},
        }
        j = j + 1;
    }
    None
}

/// The text that hex content decodes to, where it is valid UTF-8.
pub open spec fn spec_content_text(content_hex: Seq<char>) -> Option<Seq<char>> {
    match spec_hex_decode(content_hex) {
        Some(b) => if valid_utf8(b) {
            Some(decode_utf8(b))
        } else {
            None
        },
        None => None,
    }
}

/// Decodes hex content and reads it as UTF-8 text.
pub fn content_text(content_hex: &String) -> (res: Option<String>)
    ensures
        opt_str(res) == spec_content_text(content_hex@),
{
    match hex_decode(content_hex.as_str()) {
        Some(bytes) => utf8_string(bytes),
        None => None,
    }
}

/// ASCII letters and digits.
pub open spec fn is_ascii_alphanumeric(c: char) -> bool {
    ('a' <= c && c <= 'z') || ('A' <= c && c <= 'Z') || ('0' <= c && c <= '9')
}

/// A valid DAR-20 ticker: exactly four ASCII letters or digits.
pub open spec fn spec_valid_ticker(tick: Seq<char>) -> bool {
    tick.len() == 4 && forall|i: int| 0 <= i < 4 ==> is_ascii_alphanumeric(#[trigger] tick[i])
}

/// Validate DAR-20 ticker (exactly 4 ASCII characters, alphanumeric).
/// Canonical BRC-20 rule: tick must be exactly 4 ASCII chars (case-insensitive).
/// (The length is counted in bytes; where every character is ASCII that is
/// the number of characters, and otherwise the ticker fails either way.)
pub fn validate_ticker(tick: &str) -> (b: bool)
    ensures
        b == spec_valid_ticker(tick@),
{
    let v = chars_of(tick);
    if v.len() != 4 {
        return false;
    }
    let mut i: usize = 0;
    while i < 4
        invariant
            v@ == tick@,
            v@.len() == 4,
            i <= 4,
            forall|k: int| 0 <= k < i ==> is_ascii_alphanumeric(#[trigger] v@[k]),
        decreases 4 - i,
    {
        let c = v[i];
        if !(('a' <= c && c <= 'z') || ('A' <= c && c <= 'Z') || ('0' <= c && c <= '9')) {
            return false;
        }
        i = i + 1;
    }
    true
}

/// The characters a domain name may hold: `a-z`, `0-9` and `-`.
pub open spec fn is_domain_char(c: char) -> bool {
    ('a' <= c && c <= 'z') || ('0' <= c && c <= '9') || c == '-'
}

/// Domain name rules: 1 to 64 characters out of `a-z`, `0-9` and `-`, not
/// starting or ending with `-`, and not digits only.
pub open spec fn spec_valid_domain_name(name: Seq<char>) -> bool {
    &&& 1 <= name.len() <= 64
    &&& name[0] != '-'
    &&& name.last() != '-'
    &&& forall|i: int| 0 <= i < name.len() ==> is_domain_char(#[trigger] name[i])
    &&& !all_digits(name)
}

/// Validate domain name rules
/// - Length: 1-64 characters
/// - Allowed: a-z, 0-9, - (hyphen)
/// - Cannot start or end with hyphen
/// - Cannot be only numbers
pub fn validate_domain_name(name: &str) -> (b: bool)
    ensures
        b == spec_valid_domain_name(name@),
{
    let v = chars_of(name);
    let n = v.len();
    if n < 1 || n > 64 {
        return false;
    }
    if v[0] == '-' || v[n - 1] == '-' {
        return false;
    }
    let mut i: usize = 0;
    let mut only_digits = true;
    while i < n
        invariant
            v@ == name@,
            n == v@.len(),
            i <= n,
            forall|k: int| 0 <= k < i ==> is_domain_char(#[trigger] v@[k]),
            only_digits == (forall|k: int| 0 <= k < i ==> is_digit(#[trigger] v@[k])),
        decreases n - i,
    {
        let c = v[i];
        if !(('a' <= c && c <= 'z') || ('0' <= c && c <= '9') || c == '-') {
            return false;
        }
        if !('0' <= c && c <= '9') {
            only_digits = false;
        }
        i = i + 1;
    }
    !only_digits
}

/// A ticker is valid exactly when it has four characters, each an ASCII
/// letter (either case) or digit.
pub proof fn law_ticker_is_four_ascii_letters_or_digits(tick: Seq<char>)
    ensures
        spec_valid_ticker(tick) <==> (tick.len() == 4 && forall|i: int|
            0 <= i < 4 ==> ('a' <= #[trigger] tick[i] <= 'z' || 'A' <= tick[i] <= 'Z' || '0' <= tick[i] <= '9')),
{
}

/// A domain name is valid exactly when it has 1 to 64 characters, all
/// lower-case ASCII letters, digits or hyphens, neither its first nor its
/// last is a hyphen, and at least one is not a digit.
pub proof fn law_domain_name_rules(name: Seq<char>)
    ensures
        spec_valid_domain_name(name) <==> ({
            &&& 1 <= name.len() <= 64
            &&& name[0] != '-'
            &&& name[name.len() - 1] != '-'
            &&& forall|i: int|
                0 <= i < name.len() ==> ('a' <= #[trigger] name[i] <= 'z' || '0' <= name[i] <= '9' || name[i]
                    == '-')
            &&& exists|i: int| 0 <= i < name.len() && !('0' <= #[trigger] name[i] <= '9')
        }),
{
    if spec_valid_domain_name(name) {
        assert(!all_digits(name));
        let i = choose|i: int| 0 <= i < name.len() && !is_digit(#[trigger] name[i]);
        assert(!('0' <= name[i] <= '9'));
    }
}

/// The DAR-20 operation named by `op`.
pub open spec fn spec_dar20_operation(op: Seq<char>) -> Option<Dar20Operation> {
    if op == seq!['d', 'e', 'p', 'l', 'o', 'y'] {
        Some(Dar20Operation::Deploy)
    } else if op == seq!['m', 'i', 'n', 't'] {
        Some(Dar20Operation::Mint)
    } else if op == seq!['t', 'r', 'a', 'n', 's', 'f', 'e', 'r'] {
        Some(Dar20Operation::Transfer)
    } else {
        None
    }
}

/// The protocol tag `dar-20`.
pub open spec fn dar20_tag() -> Seq<char> {
    seq!['d', 'a', 'r', '-', '2', '0']
}

/// The text that a field holds, if it is a string.
pub open spec fn field_text(f: Option<JsonFieldView>) -> Option<Seq<char>> {
    match f {
        Some(JsonFieldView::Text(s)) => Some(s),
        _ => None,
    }
}

/// The decimals that the `dec` field gives: a `u64` number cut to its low
/// eight bits, or 18 where there is none.
pub open spec fn field_decimals(f: Option<JsonFieldView>) -> u8 {
    match f {
        Some(JsonFieldView::Unsigned(v)) => (v % 256) as u8,
        _ => 18,
    }
}

/// The DAR-20 data that the JSON fields describe, as (operation, ticker,
/// max, lim, amt, dec): `p` must be the string `dar-20`, `op` a known
/// operation and `tick` a string (given here already upper-cased).
pub open spec fn spec_dar20_from_fields(
    p: Option<JsonFieldView>,
    op: Option<JsonFieldView>,
    tick_upper: Option<Seq<char>>,
    max: Option<JsonFieldView>,
    lim: Option<JsonFieldView>,
    amt: Option<JsonFieldView>,
    dec: Option<JsonFieldView>,
) -> Option<(Dar20Operation, Seq<char>, Option<Seq<char>>, Option<Seq<char>>, Option<Seq<char>>, u8)> {
    if field_text(p) != Some(dar20_tag()) {
        None
    } else {
        match field_text(op) {
            None => None,
            Some(o) => match spec_dar20_operation(o) {
                None => None,
                Some(operation) => match tick_upper {
                    None => None,
                    Some(t) => Some(
                        (operation, t, field_text(max), field_text(lim), field_text(amt), field_decimals(dec)),
                    ),
                },
            },
        }
    }
}

/// `d` holds the DAR-20 data `v` (see `spec_dar20_from_fields`).
pub open spec fn dar20_is(
    d: Dar20Inscription,
    v: (Dar20Operation, Seq<char>, Option<Seq<char>>, Option<Seq<char>>, Option<Seq<char>>, u8),
) -> bool {
    &&& d.protocol@ == dar20_tag()
    &&& d.operation == v.0
    &&& d.tick@ == v.1
    &&& opt_str(d.max) == v.2
    &&& opt_str(d.lim) == v.3
    &&& opt_str(d.amt) == v.4
    &&& d.dec == Some(v.5)
}

fn field_string(f: &Option<JsonField>) -> (res: Option<String>)
    ensures
        opt_str(res) == field_text(opt_field(*f)),
{
    match f {
        Some(JsonField::Text(s)) => Some(s.clone()),
        _ => None,
    }
}

fn chars_equal(a: &Vec<char>, b: &Vec<char>) -> (r: bool)
    ensures
        r == (a@ == b@),
{
    if a.len() != b.len() {
        return false;
    }
    let mut i: usize = 0;
    while i < a.len()
        invariant
            a@.len() == b@.len(),
            i <= a@.len(),
            forall|k: int| 0 <= k < i ==> a@[k] == b@[k],
        decreases a@.len() - i,
    {
        if a[i] != b[i] {
            return false;
        }
        i = i + 1;
    }
    assert(a@ =~= b@);
    true
}

/// Builds the DAR-20 data from the JSON fields `p`, `op`, `max`, `lim`,
/// `amt` and `dec` of an inscription and its upper-cased `tick`.
pub fn dar20_from_fields(
    p: &Option<JsonField>,
    op: &Option<JsonField>,
    tick_upper: Option<String>,
    max: &Option<JsonField>,
    lim: &Option<JsonField>,
    amt: &Option<JsonField>,
    dec: &Option<JsonField>,
) -> (res: Option<Dar20Inscription>)
    ensures
        res is Some <==> spec_dar20_from_fields(
            opt_field(*p),
            opt_field(*op),
            opt_str(tick_upper),
            opt_field(*max),
            opt_field(*lim),
            opt_field(*amt),
            opt_field(*dec),
        ) is Some,
        res matches Some(d) ==> dar20_is(
            d,
            spec_dar20_from_fields(
                opt_field(*p),
                opt_field(*op),
                opt_str(tick_upper),
                opt_field(*max),
                opt_field(*lim),
                opt_field(*amt),
                opt_field(*dec),
            )->0,
        ),
{
    let protocol = match p {
        Some(JsonField::Text(s)) => s,
        _ => {
            return None;
        },
    };
    let pc = chars_of(protocol.as_str());
    let tag = vec!['d', 'a', 'r', '-', '2', '0'];
    if !chars_equal(&pc, &tag) {
        return None;
    }
    let op_text = match op {
        Some(JsonField::Text(s)) => s,
        _ => {
            return None;
        },
    };
    let oc = chars_of(op_text.as_str());
    let operation = if chars_equal(&oc, &vec!['d', 'e', 'p', 'l', 'o', 'y']) {
        Dar20Operation::Deploy
    } else if chars_equal(&oc, &vec!['m', 'i', 'n', 't']) {
        Dar20Operation::Mint
    } else if chars_equal(&oc, &vec!['t', 'r', 'a', 'n', 's', 'f', 'e', 'r']) {
        Dar20Operation::Transfer
    } else {
        return None;
    };
    let tick = match tick_upper {
        Some(t) => t,
        None => {
            return None;
        },
    };
    let decimals: u8 = match dec {
        Some(JsonField::Unsigned(v)) => (*v % 256) as u8,
        _ => 18,
    };
    Some(
        Dar20Inscription {
            protocol: protocol.clone(),
            operation,
            tick,
            max: field_string(max),
            lim: field_string(lim),
            amt: field_string(amt),
            dec: Some(decimals),
        },
    )
}

/// `json` and `text`, the content types that may carry DAR-20 data.
pub open spec fn json_word() -> Seq<char> {
    seq!['j', 's', 'o', 'n']
}

pub open spec fn text_word() -> Seq<char> {
    seq!['t', 'e', 'x', 't']
}

/// The DAR-20 data of an inscription with the given content type and hex
/// content: the type names `json` or `text`, the content is UTF-8 JSON, and
/// its fields describe a DAR-20 operation (see `spec_dar20_from_fields`;
/// the ticker is upper-cased).
pub open spec fn spec_parse_dar20(content_type: Seq<char>, content: Seq<char>) -> Option<
    (Dar20Operation, Seq<char>, Option<Seq<char>>, Option<Seq<char>>, Option<Seq<char>>, u8),
> {
    if !contains_seq(content_type, json_word()) && !contains_seq(content_type, text_word()) {
        None
    } else {
        match spec_content_text(content) {
            None => None,
            Some(text) => spec_dar20_from_fields(
                spec_json_field(text, seq!['p']),
                spec_json_field(text, seq!['o', 'p']),
                match field_text(spec_json_field(text, seq!['t', 'i', 'c', 'k'])) {
                    Some(t) => Some(spec_to_uppercase(t)),
                    None => None,
                },
                spec_json_field(text, seq!['m', 'a', 'x']),
                spec_json_field(text, seq!['l', 'i', 'm']),
                spec_json_field(text, seq!['a', 'm', 't']),
                spec_json_field(text, seq!['d', 'e', 'c']),
            ),
        }
    }
}

/// Parse DAR-20 data from inscription
pub fn parse_dar20(inscription: &Inscription) -> (res: Option<Dar20Inscription>)
    ensures
        res is Some <==> spec_parse_dar20(inscription.content_type@, inscription.content@) is Some,
        res matches Some(d) ==> dar20_is(d, spec_parse_dar20(inscription.content_type@, inscription.content@)->0),
{
    let ct = chars_of(inscription.content_type.as_str());
    let json_pat = vec!['j', 's', 'o', 'n'];
    let text_pat = vec!['t', 'e', 'x', 't'];
    assert(json_pat@ =~= json_word());
    assert(text_pat@ =~= text_word());
    if !contains_chars(&ct, &json_pat) && !contains_chars(&ct, &text_pat) {
        return None;
    }
    let text = match content_text(&inscription.content) {
        Some(t) => t,
        None => {
            return None;
        },
    };
    let t = text.as_str();
    proof {
        reveal_strlit("p");
        reveal_strlit("op");
        reveal_strlit("tick");
        reveal_strlit("max");
        reveal_strlit("lim");
        reveal_strlit("amt");
        reveal_strlit("dec");
    }
    let p = json_field(t, "p");
    let op = json_field(t, "op");
    let tick = json_field(t, "tick");
    let tick_upper = match &tick {
        Some(JsonField::Text(s)) => Some(to_uppercase(s.as_str())),
        _ => None,
    };
    let max = json_field(t, "max");
    let lim = json_field(t, "lim");
    let amt = json_field(t, "amt");
    let dec = json_field(t, "dec");
    assert("p"@ =~= seq!['p']);
    assert("op"@ =~= seq!['o', 'p']);
    assert("tick"@ =~= seq!['t', 'i', 'c', 'k']);
    assert("max"@ =~= seq!['m', 'a', 'x']);
    assert("lim"@ =~= seq!['l', 'i', 'm']);
    assert("amt"@ =~= seq!['a', 'm', 't']);
    assert("dec"@ =~= seq!['d', 'e', 'c']);
    dar20_from_fields(&p, &op, tick_upper, &max, &lim, &amt, &dec)
}

/// The `.dash` suffix of a domain and the `.dashmap` suffix of a claim.
pub open spec fn dash_suffix() -> Seq<char> {
    seq!['.', 'd', 'a', 's', 'h']
}

pub open spec fn dashmap_suffix() -> Seq<char> {
    seq!['.', 'd', 'a', 's', 'h', 'm', 'a', 'p']
}

/// The domain registration of an inscription, as (name, full name): the
/// content type names `text`; the UTF-8 content, trimmed and lower-cased,
/// ends with `.dash` (and not `.dashmap`), and what comes before is a valid
/// domain name.
pub open spec fn spec_parse_dash_domain(content_type: Seq<char>, content: Seq<char>) -> Option<(Seq<char>, Seq<char>)> {
    if !contains_seq(content_type, text_word()) {
        None
    } else {
        match spec_content_text(content) {
            None => None,
            Some(text) => {
                let t = spec_to_lowercase(spec_trim(text));
                if !ends_with(t, dash_suffix()) || ends_with(t, dashmap_suffix()) {
                    None
                } else {
                    let name = t.subrange(0, t.len() - 5);
                    if spec_valid_domain_name(name) {
                        Some((name, t))
                    } else {
                        None
                    }
                }
            },
        }
    }
}

/// Parse DashDomain inscription (format: "name.dash")
/// Example: "alice.dash" registers domain "alice"
pub fn parse_dash_domain(inscription: &Inscription) -> (res: Option<DashDomainInscription>)
    ensures
        res is Some <==> spec_parse_dash_domain(inscription.content_type@, inscription.content@) is Some,
        res matches Some(d) ==> spec_parse_dash_domain(inscription.content_type@, inscription.content@)
            == Some((d.name@, d.full_name@)),
        res matches Some(d) ==> spec_valid_domain_name(d.name@) && d.full_name@ == d.name@
            + dash_suffix(),
{
    let ct = chars_of(inscription.content_type.as_str());
    let text_pat = vec!['t', 'e', 'x', 't'];
    assert(text_pat@ =~= text_word());
    if !contains_chars(&ct, &text_pat) {
        return None;
    }
    let text = match content_text(&inscription.content) {
        Some(t) => t,
        None => {
            return None;
        },
    };
    let trimmed = string_from_chars(&trim_chars(&chars_of(text.as_str())));
    let lowered = to_lowercase(trimmed.as_str());
    let lc = chars_of(lowered.as_str());
    let dash = vec!['.', 'd', 'a', 's', 'h'];
    let dashmap = vec!['.', 'd', 'a', 's', 'h', 'm', 'a', 'p'];
    assert(dash@ =~= dash_suffix());
    assert(dashmap@ =~= dashmap_suffix());
    if !ends_with_chars(&lc, &dash) || ends_with_chars(&lc, &dashmap) {
        return None;
    }
    let name = match strip_suffix_chars(&lc, &dash) {
        Some(n) => n,
        None => {
            return None;
        },
    };
    let name_string = string_from_chars(&name);
    if !validate_domain_name(name_string.as_str()) {
        return None;
    }
    proof {
        let t = lc@;
        assert(t =~= t.subrange(0, t.len() - 5) + dash_suffix());
    }
    Some(DashDomainInscription { name: name_string, full_name: lowered })
}

/// Every valid name registers: a text inscription whose content is a valid
/// domain name followed by `.dash` registers that name, with that full
/// name. (Lower-casing leaves such a text as it is: it holds only `a-z`,
/// `0-9`, `-` and `.`, which have no other lower-case form.)
pub proof fn law_valid_domain_name_registers(content_type: Seq<char>, content: Seq<char>, name: Seq<char>)
    requires
        contains_seq(content_type, text_word()),
        spec_valid_domain_name(name),
        spec_content_text(content) == Some(name + dash_suffix()),
        spec_to_lowercase(name + dash_suffix()) == name + dash_suffix(),
    ensures
        spec_parse_dash_domain(content_type, content) == Some((name, name + dash_suffix())),
{
    let t = name + dash_suffix();
    assert(is_domain_char(name[0]));
    assert(t[0] == name[0]);
    assert(!is_whitespace(t[0]));
    assert(trim_start_ws(t) == t);
    assert(t.last() == 'h');
    assert(trim_end_ws(t) == t);
    assert(spec_trim(t) == t);
    assert(t.subrange(t.len() - 5, t.len() as int) =~= dash_suffix());
    assert(ends_with(t, dash_suffix()));
    if t.len() >= 8 {
        let tail = t.subrange(t.len() - 8, t.len() as int);
        assert(tail[7] == 'h');
        assert(tail != dashmap_suffix());
    }
    assert(!ends_with(t, dashmap_suffix()));
    assert(t.subrange(0, t.len() - 5) =~= name);
}

/// Upper-case and mixed-case spellings of `.dashmap` that a claim may end with.
pub open spec fn dashmap_suffix_upper() -> Seq<char> {
    seq!['.', 'D', 'A', 'S', 'H', 'M', 'A', 'P']
}

pub open spec fn dashmap_suffix_mixed() -> Seq<char> {
    seq!['.', 'D', 'a', 's', 'h', 'M', 'a', 'p']
}

/// The block height that a DashMap claim names: the content type names
/// `text`; the trimmed UTF-8 content ends with `.dashmap` in any case, and
/// with it spelled `.dashmap`, `.DASHMAP` or `.DashMap` what comes before,
/// trimmed, is a `u64` as `FromStr` reads one.
pub open spec fn spec_parse_dashmap(content_type: Seq<char>, content: Seq<char>) -> Option<nat> {
    if !contains_seq(content_type, text_word()) {
        None
    } else {
        match spec_content_text(content) {
            None => None,
            Some(text) => {
                let t = spec_trim(text);
                if !ends_with(spec_to_lowercase(t), dashmap_suffix()) {
                    None
                } else {
                    let block = if ends_with(t, dashmap_suffix()) {
                        strip_suffix(t, dashmap_suffix())
                    } else if ends_with(t, dashmap_suffix_upper()) {
                        strip_suffix(t, dashmap_suffix_upper())
                    } else {
                        strip_suffix(t, dashmap_suffix_mixed())
                    };
                    match block {
                        None => None,
                        Some(b) => spec_parse_unsigned(spec_trim(b), u64::MAX as nat),
                    }
                }
            },
        }
    }
}

/// Every block number claims: a text inscription whose content is the
/// numeral of a block height `n` followed by `.dashmap` claims block `n`.
/// (Lower-casing leaves such a text as it is: digits, `.` and `a-z` have no
/// other lower-case form.)
pub proof fn law_block_numeral_claims_its_block(content_type: Seq<char>, content: Seq<char>, n: nat)
    requires
        contains_seq(content_type, text_word()),
        n <= u64::MAX,
        spec_content_text(content) == Some(spec_digits(n) + dashmap_suffix()),
        spec_to_lowercase(spec_digits(n) + dashmap_suffix()) == spec_digits(n) + dashmap_suffix(),
    ensures
        spec_parse_dashmap(content_type, content) == Some(n),
{
    let ds = spec_digits(n);
    lemma_spec_digits(n);
    let t = ds + dashmap_suffix();
    assert(is_digit(ds[0]));
    assert(t[0] == ds[0]);
    assert(trim_start_ws(t) == t);
    assert(t.last() == 'p');
    assert(trim_end_ws(t) == t);
    assert(spec_trim(t) == t);
    assert(t.subrange(t.len() - 8, t.len() as int) =~= dashmap_suffix());
    assert(t.subrange(0, t.len() - 8) =~= ds);
    assert(strip_suffix(t, dashmap_suffix()) == Some(ds));
    assert(is_digit(ds.last()));
    assert(trim_start_ws(ds) == ds);
    assert(trim_end_ws(ds) == ds);
    assert(ds[0] != '+');
    assert(spec_parse_unsigned(ds, u64::MAX as nat) == Some(n));
}

/// Parse DashMap inscription (format: "blockheight.dashmap")
/// Example: "2386000.dashmap" claims block 2386000
pub fn parse_dashmap(inscription: &Inscription) -> (res: Option<DashMapInscription>)
    ensures
        res is Some <==> spec_parse_dashmap(inscription.content_type@, inscription.content@) is Some,
        res matches Some(d) ==> spec_parse_dashmap(inscription.content_type@, inscription.content@)
            == Some(d.block_height as nat),
{
    let ct = chars_of(inscription.content_type.as_str());
    let text_pat = vec!['t', 'e', 'x', 't'];
    assert(text_pat@ =~= text_word());
    if !contains_chars(&ct, &text_pat) {
        return None;
    }
    let text = match content_text(&inscription.content) {
        Some(t) => t,
        None => {
            return None;
        },
    };
    let trimmed = trim_chars(&chars_of(text.as_str()));
    let trimmed_string = string_from_chars(&trimmed);
    let lowered = to_lowercase(trimmed_string.as_str());
    let suffix = vec!['.', 'd', 'a', 's', 'h', 'm', 'a', 'p'];
    let suffix_upper = vec!['.', 'D', 'A', 'S', 'H', 'M', 'A', 'P'];
    let suffix_mixed = vec!['.', 'D', 'a', 's', 'h', 'M', 'a', 'p'];
    assert(suffix@ =~= dashmap_suffix());
    assert(suffix_upper@ =~= dashmap_suffix_upper());
    assert(suffix_mixed@ =~= dashmap_suffix_mixed());
    if !ends_with_chars(&chars_of(lowered.as_str()), &suffix) {
        return None;
    }
    let block = if ends_with_chars(&trimmed, &suffix) {
        strip_suffix_chars(&trimmed, &suffix)
    } else if ends_with_chars(&trimmed, &suffix_upper) {
        strip_suffix_chars(&trimmed, &suffix_upper)
    } else {
        strip_suffix_chars(&trimmed, &suffix_mixed)
    };
    let block = match block {
        Some(b) => b,
        None => {
            return None;
        },
    };
    match parse_u64_chars(&trim_chars(&block)) {
        Some(h) => Some(DashMapInscription { block_height: h }),
        None => None,
    }
}

} // verus!
