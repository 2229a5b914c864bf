//! Script-level parsing: hex text to bytes, bytes to pushed data chunks,
//! and the inscription envelope carried in a `scriptSig`.

use vstd::prelude::*;
use vstd::utf8::{decode_utf8, valid_utf8};

verus! {

/// The value of a hex digit character, upper or lower case.
pub open spec fn hex_digit_value(c: char) -> Option<nat> {
    if '0' <= c && c <= '9' {
        Some((c as int - 48) as nat)
    } else if 'a' <= c && c <= 'f' {
        Some((c as int - 87) as nat)
    } else if 'A' <= c && c <= 'F' {
        Some((c as int - 55) as nat)
    } else {
        None
    }
}

/// The bytes that hex text denotes: `None` where the text has an odd
/// number of characters or a character that is not a hex digit.
pub open spec fn spec_hex_decode(s: Seq<char>) -> Option<Seq<u8>> {
    if s.len() % 2 == 0 && forall|i: int| 0 <= i < s.len() ==> (#[trigger] hex_digit_value(s[i])) is Some {
        Some(
            Seq::new(
                s.len() / 2,
                |i: int| (hex_digit_value(s[2 * i])->0 * 16 + hex_digit_value(s[2 * i + 1])->0) as u8,
            ),
        )
    } else {
        None
    }
}

/// The lower-case hex digit for `n < 16`.
pub open spec fn hex_char(n: nat) -> char {
    if n < 10 {
        (n + 48) as char
    } else {
        (n + 87) as char
    }
}

/// Lower-case hex text of `b`, two digits per byte, high nibble first.
pub open spec fn spec_hex_encode(b: Seq<u8>) -> Seq<char>
    decreases b.len(),
{
    if b.len() == 0 {
        Seq::empty()
    } else {
        seq![hex_char((b[0] / 16) as nat), hex_char((b[0] % 16) as nat)] + spec_hex_encode(
            b.drop_first(),
        )
    }
}

/// `hex::decode`: the bytes of hex text, or `None` where the crate returns
/// an error (odd length, or a character that is not a hex digit; the crate
/// reads the text's UTF-8 bytes, and a text with any other character than
/// the ASCII hex digits is refused either way).
#[verifier::external_body]
pub(crate) fn hex_decode(s: &str) -> (res: Option<Vec<u8>>)
    ensures
        res is Some <==> spec_hex_decode(s@) is Some,
        res matches Some(b) ==> spec_hex_decode(s@) == Some(b@),
{
    hex::decode(s).ok()
}

/// `hex::encode`: lower-case hex text of the bytes.
#[verifier::external_body]
pub(crate) fn hex_encode(bytes: &Vec<u8>) -> (res: String)
    ensures
        res@ == spec_hex_encode(bytes@),
{
    hex::encode(bytes)
}

/// `String::from_utf8`: the text of valid UTF-8 bytes, `None` otherwise.
#[verifier::external_body]
pub(crate) fn utf8_string(bytes: Vec<u8>) -> (res: Option<String>)
    ensures
        res is Some <==> valid_utf8(bytes@),
        res matches Some(s) ==> s@ == decode_utf8(bytes@),
{
    String::from_utf8(bytes).ok()
}

/// A little-endian 16-bit length.
pub open spec fn le16(b0: u8, b1: u8) -> nat {
    b0 as nat + 256 * b1 as nat
}

/// A little-endian 32-bit length.
pub open spec fn le32(b0: u8, b1: u8, b2: u8, b3: u8) -> nat {
    b0 as nat + 256 * b1 as nat + 65536 * b2 as nat + 16777216 * b3 as nat
}

/// The data pushed by `len` bytes at `start`, followed by the chunks after
/// them; nothing where the script ends before the data does.
pub open spec fn spec_push_then(script: Seq<u8>, start: int, len: nat) -> Seq<Seq<u8>>
    decreases script.len() - start + 1, 0nat,
{
    if start + len > script.len() || start < 0 {
        Seq::empty()
    } else {
        seq![script.subrange(start, start + len)] + spec_chunks_from(script, start + len)
    }
}

/// The data chunks of `script` from `offset` on: `OP_0` pushes an empty
/// chunk, opcodes `0x01..=0x4b` and `OP_PUSHDATA1/2/4` push the bytes that
/// follow, `OP_1..=OP_16` push the single byte `1..=16`, any other opcode
/// is skipped, and a push that runs past the end stops the parse.
pub open spec fn spec_chunks_from(script: Seq<u8>, offset: int) -> Seq<Seq<u8>>
    decreases script.len() - offset, 1nat,
{
    if offset < 0 || offset >= script.len() {
        Seq::empty()
    } else {
        let op = script[offset];
        if op == 0 {
            seq![Seq::<u8>::empty()] + spec_chunks_from(script, offset + 1)
        } else if op <= 0x4b {
            spec_push_then(script, offset + 1, op as nat)
        } else if op == 0x4c {
            if offset + 1 >= script.len() {
                Seq::empty()
            } else {
                spec_push_then(script, offset + 2, script[offset + 1] as nat)
            }
        } else if op == 0x4d {
            if offset + 3 > script.len() {
                Seq::empty()
            } else {
                spec_push_then(script, offset + 3, le16(script[offset + 1], script[offset + 2]))
            }
        } else if op == 0x4e {
            if offset + 5 > script.len() {
                Seq::empty()
            } else {
                spec_push_then(
                    script,
                    offset + 5,
                    le32(script[offset + 1], script[offset + 2], script[offset + 3], script[offset + 4]),
                )
            }
        } else if 0x51 <= op && op <= 0x60 {
            seq![seq![(op - 0x50) as u8]] + spec_chunks_from(script, offset + 1)
        } else {
            spec_chunks_from(script, offset + 1)
        }
    }
}

/// The bytes of `v` from `start` to `end`.
fn copy_range(v: &Vec<u8>, start: usize, end: usize) -> (res: Vec<u8>)
    requires
        start <= end <= v@.len(),
    ensures
        res@ == v@.subrange(start as int, end as int),
{
    let mut res: Vec<u8> = Vec::new();
    let mut i = start;
    while i < end
        invariant
            start <= i <= end <= v@.len(),
            res@ == v@.subrange(start as int, i as int),
        decreases end - i,
    {
        res.push(v[i]);
        i = i + 1;
        assert(res@ =~= v@.subrange(start as int, i as int));
    }
    res
}

/// The contents of a vector of byte vectors.
pub open spec fn chunks_view(chunks: Seq<Vec<u8>>) -> Seq<Seq<u8>> {
    chunks.map_values(|c: Vec<u8>| c@)
}

/// Splits a script into the data chunks it pushes (see `spec_chunks_from`).
/// Parsing stops quietly at a truncated push, so the result is always `Some`.
pub fn parse_script_chunks(script: &Vec<u8>) -> (res: Option<Vec<Vec<u8>>>)
    ensures
        res matches Some(chunks) && chunks_view(chunks@) == spec_chunks_from(script@, 0),
{
    let mut chunks: Vec<Vec<u8>> = Vec::new();
    let mut offset: usize = 0;
    let n = script.len();
    while offset < n
        invariant_except_break
            n == script@.len(),
            offset <= n,
            spec_chunks_from(script@, 0) == chunks_view(chunks@) + spec_chunks_from(script@, offset as int),
        ensures
            spec_chunks_from(script@, 0) == chunks_view(chunks@),
        decreases n - offset,
    {
        let ghost before = chunks_view(chunks@);
        let op = script[offset];
        if op == 0 {
            chunks.push(Vec::new());
            offset = offset + 1;
            assert(chunks_view(chunks@) =~= before + seq![Seq::<u8>::empty()]);
            assert(before + spec_chunks_from(script@, offset - 1) =~= chunks_view(chunks@)
                + spec_chunks_from(script@, offset as int));
        } else if op <= 0x4b || op == 0x4c || op == 0x4d || op == 0x4e {
            let start: usize;
            let length: usize;
            if op <= 0x4b {
                start = offset + 1;
                length = op as usize;
            } else if op == 0x4c {
                if offset + 1 >= n {
                    assert(spec_chunks_from(script@, offset as int) =~= Seq::<Seq<u8>>::empty());
                    assert(chunks_view(chunks@) + Seq::<Seq<u8>>::empty() =~= chunks_view(chunks@));
                    break;
                }
                start = offset + 2;
                length = script[offset + 1] as usize;
            } else if op == 0x4d {
                if n - offset < 3 {
                    assert(spec_chunks_from(script@, offset as int) =~= Seq::<Seq<u8>>::empty());
                    assert(chunks_view(chunks@) + Seq::<Seq<u8>>::empty() =~= chunks_view(chunks@));
                    break;
                }
                start = offset + 3;
                length = script[offset + 1] as usize + 256 * (script[offset + 2] as usize);
            } else {
                if n - offset < 5 {
                    assert(spec_chunks_from(script@, offset as int) =~= Seq::<Seq<u8>>::empty());
                    assert(chunks_view(chunks@) + Seq::<Seq<u8>>::empty() =~= chunks_view(chunks@));
                    break;
                }
                start = offset + 5;
                let l: u64 = script[offset + 1] as u64 + 256 * (script[offset + 2] as u64) + 65536
                    * (script[offset + 3] as u64) + 16777216 * (script[offset + 4] as u64);
                assert(l == le32(script@[offset + 1], script@[offset + 2], script@[offset + 3], script@[offset + 4]));
                if l > (n - start) as u64 {
                    let ghost ln = le32(script@[offset + 1], script@[offset + 2], script@[offset + 3], script@[offset + 4]);
                    assert(start + ln > script@.len());
                    assert(spec_push_then(script@, start as int, ln) =~= Seq::<Seq<u8>>::empty());
                    assert(spec_chunks_from(script@, offset as int) =~= Seq::<Seq<u8>>::empty());
                    assert(chunks_view(chunks@) + Seq::<Seq<u8>>::empty() =~= chunks_view(chunks@));
                    break;
                }
                length = l as usize;
            }
            assert(spec_chunks_from(script@, offset as int) == spec_push_then(
                script@,
                start as int,
                length as nat,
            ));
            if length > n - start {
                assert(spec_chunks_from(script@, offset as int) =~= Seq::<Seq<u8>>::empty());
                assert(chunks_view(chunks@) + Seq::<Seq<u8>>::empty() =~= chunks_view(chunks@));
                break;
            }
            let data = copy_range(script, start, start + length);
            chunks.push(data);
            offset = start + length;
            assert(chunks_view(chunks@) =~= before + seq![script@.subrange(start as int, offset as int)]);
            assert(before + spec_push_then(script@, start as int, length as nat) =~= chunks_view(chunks@)
                + spec_chunks_from(script@, offset as int));
        } else if 0x51 <= op && op <= 0x60 {
            let mut single: Vec<u8> = Vec::new();
            single.push(op - 0x50);
            chunks.push(single);
            offset = offset + 1;
            assert(chunks_view(chunks@) =~= before + seq![seq![(op - 0x50) as u8]]);
            assert(before + (seq![seq![(op - 0x50) as u8]] + spec_chunks_from(script@, offset as int))
                =~= chunks_view(chunks@) + spec_chunks_from(script@, offset as int));
        } else {
            offset = offset + 1;
        }
    }
    Some(chunks)
}

/// The protocol tag that opens an inscription envelope: the bytes of `ord`.
pub open spec fn ord_tag() -> Seq<u8> {
    seq![0x6fu8, 0x72u8, 0x64u8]
}

/// A chunk that `OP_1..=OP_16` pushed (a single byte `1..=16`).
pub open spec fn is_small_number_chunk(c: Seq<u8>) -> bool {
    c.len() == 1 && 1 <= c[0] && c[0] <= 16
}

/// A chunk that looks like a DER signature: 65 to 72 bytes from `0x30`.
pub open spec fn is_signature_chunk(c: Seq<u8>) -> bool {
    65 <= c.len() && c.len() <= 72 && c[0] == 0x30
}

/// The content gathered from chunk `i` on, after `acc`: empty chunks and
/// small-number chunks are skipped; the scan stops at a signature, or at a
/// last chunk shorter than 50 bytes once more than 100 bytes are gathered;
/// every other chunk is appended.
pub open spec fn spec_collect_content(chunks: Seq<Seq<u8>>, i: int, acc: Seq<u8>) -> Seq<u8>
    decreases chunks.len() - i,
{
    if i < 0 || i >= chunks.len() {
        acc
    } else {
        let c = chunks[i];
        if c.len() == 0 || is_small_number_chunk(c) {
            spec_collect_content(chunks, i + 1, acc)
        } else if is_signature_chunk(c) {
            acc
        } else if acc.len() > 100 && c.len() < 50 && i == chunks.len() - 1 {
            acc
        } else {
            spec_collect_content(chunks, i + 1, acc + c)
        }
    }
}

/// The inscription content of an envelope's chunks: what is gathered from
/// chunk 4 on, or chunk 4 itself where nothing is gathered.
pub open spec fn spec_inscription_content(chunks: Seq<Seq<u8>>) -> Seq<u8> {
    let gathered = spec_collect_content(chunks, 4, Seq::empty());
    if gathered.len() == 0 && chunks.len() > 4 {
        chunks[4]
    } else {
        gathered
    }
}

/// The content type (as text) and the content (as lower-case hex) of the
/// inscription envelope in a `scriptSig` given as hex text: the envelope is
/// `ord <1> <content-type> <0> <content...>`, with at least five chunks.
pub open spec fn spec_script_sig_inscription(script_hex: Seq<char>) -> Option<(Seq<char>, Seq<char>)> {
    match spec_hex_decode(script_hex) {
        None => None,
        Some(script) => {
            let chunks = spec_chunks_from(script, 0);
            if chunks.len() < 5 || chunks[0] != ord_tag() || !valid_utf8(chunks[2]) {
                None
            } else {
                Some((decode_utf8(chunks[2]), spec_hex_encode(spec_inscription_content(chunks))))
            }
        },
    }
}

/// Gathering from chunk `k + 1` of the chunks with `c` put in at `j <= k`
/// is gathering from chunk `k` of the chunks as they were.
proof fn lemma_collect_after_insert(chunks: Seq<Seq<u8>>, j: int, c: Seq<u8>, k: int, acc: Seq<u8>)
    requires
        0 <= j <= k,
        j < chunks.len(),
    ensures
        spec_collect_content(chunks.insert(j, c), k + 1, acc) == spec_collect_content(chunks, k, acc),
    decreases chunks.len() - k,
{
    let ins = chunks.insert(j, c);
    assert(ins.len() == chunks.len() + 1);
    if k < chunks.len() {
        assert(ins[k + 1] == chunks[k]);
        lemma_collect_after_insert(chunks, j, c, k + 1, acc);
        lemma_collect_after_insert(chunks, j, c, k + 1, acc + chunks[k]);
    }
}

/// Gathering from chunk `i <= j` is the same whether or not an empty or
/// small-number chunk `c` is put in at `j`, before an existing chunk.
proof fn lemma_collect_insert_opcode(chunks: Seq<Seq<u8>>, j: int, c: Seq<u8>, i: int, acc: Seq<u8>)
    requires
        0 <= i <= j < chunks.len(),
        c.len() == 0 || is_small_number_chunk(c),
    ensures
        spec_collect_content(chunks.insert(j, c), i, acc) == spec_collect_content(chunks, i, acc),
    decreases j - i,
{
    let ins = chunks.insert(j, c);
    assert(ins.len() == chunks.len() + 1);
    if i < j {
        assert(ins[i] == chunks[i]);
        lemma_collect_insert_opcode(chunks, j, c, i + 1, acc);
        lemma_collect_insert_opcode(chunks, j, c, i + 1, acc + chunks[i]);
    } else {
        assert(ins[j] == c);
        lemma_collect_after_insert(chunks, j, c, j, acc);
    }
}

/// `OP_0` and `OP_1..=OP_16` between the content pushes of an envelope
/// neither cut nor change the content: putting such a chunk anywhere after
/// chunk 4 and before the last chunk leaves the inscription content as it
/// was. (So `hello`, `OP_0`, ` world` gives `hello world`.)
pub proof fn law_opcodes_between_pushes_keep_content(chunks: Seq<Seq<u8>>, j: int, c: Seq<u8>)
    requires
        4 < j < chunks.len(),
        c.len() == 0 || is_small_number_chunk(c),
    ensures
        spec_inscription_content(chunks.insert(j, c)) == spec_inscription_content(chunks),
{
    lemma_collect_insert_opcode(chunks, j, c, 4, Seq::empty());
    assert(chunks.insert(j, c)[4] == chunks[4]);
}

/// The chunks of a script read from a position past a prefix are those of
/// the script without it.
proof fn lemma_chunks_shift(p: Seq<u8>, r: Seq<u8>, k: int)
    requires
        0 <= k,
    ensures
        spec_chunks_from(p + r, p.len() + k) == spec_chunks_from(r, k),
    decreases r.len() - k, 1nat,
{
    let s = p + r;
    let o = p.len() + k;
    if k < r.len() {
        assert(s[o] == r[k]);
        let op = r[k];
        if op == 0 {
            lemma_chunks_shift(p, r, k + 1);
        } else if op <= 0x4b {
            lemma_push_shift(p, r, k + 1, op as nat);
        } else if op == 0x4c {
            if k + 1 < r.len() {
                assert(s[o + 1] == r[k + 1]);
                lemma_push_shift(p, r, k + 2, r[k + 1] as nat);
            }
        } else if op == 0x4d {
            if k + 3 <= r.len() {
                assert(s[o + 1] == r[k + 1] && s[o + 2] == r[k + 2]);
                lemma_push_shift(p, r, k + 3, le16(r[k + 1], r[k + 2]));
            }
        } else if op == 0x4e {
            if k + 5 <= r.len() {
                assert(s[o + 1] == r[k + 1] && s[o + 2] == r[k + 2] && s[o + 3] == r[k + 3] && s[o + 4]
                    == r[k + 4]);
                lemma_push_shift(p, r, k + 5, le32(r[k + 1], r[k + 2], r[k + 3], r[k + 4]));
            }
        } else {
            lemma_chunks_shift(p, r, k + 1);
        }
    }
}

/// The same for the data of a push and what follows it.
proof fn lemma_push_shift(p: Seq<u8>, r: Seq<u8>, k: int, len: nat)
    requires
        0 <= k <= r.len(),
    ensures
        spec_push_then(p + r, p.len() + k, len) == spec_push_then(r, k, len),
    decreases r.len() - k + 1, 0nat,
{
    let s = p + r;
    let o = p.len() + k;
    if k + len <= r.len() {
        assert(s.subrange(o, o + len) =~= r.subrange(k, k + len));
        lemma_chunks_shift(p, r, k + len as int);
    }
}

/// `OP_0` ahead of a script pushes an empty chunk, then the script's chunks.
pub proof fn law_op_0_pushes_empty_chunk(r: Seq<u8>)
    ensures
        spec_chunks_from(seq![0u8] + r, 0) == seq![Seq::<u8>::empty()] + spec_chunks_from(r, 0),
{
    lemma_chunks_shift(seq![0u8], r, 0);
    assert((seq![0u8] + r)[0] == 0u8);
}

/// `OP_1`..`OP_16` ahead of a script push the single byte 1 to 16, then the
/// script's chunks.
pub proof fn law_small_number_pushes_its_value(v: u8, r: Seq<u8>)
    requires
        1 <= v <= 16,
    ensures
        spec_chunks_from(seq![(0x50 + v) as u8] + r, 0) == seq![seq![v]] + spec_chunks_from(r, 0),
{
    let op = (0x50 + v) as u8;
    lemma_chunks_shift(seq![op], r, 0);
    assert((seq![op] + r)[0] == op);
    assert((op - 0x50) as u8 == v);
}

/// A direct push (opcode 1 to 75, the length) ahead of a script gives its
/// bytes as one chunk, then the script's chunks.
pub proof fn law_direct_push_gives_its_bytes(d: Seq<u8>, r: Seq<u8>)
    requires
        1 <= d.len() <= 75,
    ensures
        spec_chunks_from(seq![d.len() as u8] + d + r, 0) == seq![d] + spec_chunks_from(r, 0),
{
    let h = seq![d.len() as u8] + d;
    let s = h + r;
    assert(seq![d.len() as u8] + d + r == s);
    assert(s[0] == d.len() as u8);
    assert(s.subrange(1, 1 + d.len() as int) =~= d);
    lemma_chunks_shift(h, r, 0);
    assert(h.len() == 1 + d.len());
    assert(spec_chunks_from(s, 0) == spec_push_then(s, 1, d.len()));
    assert(spec_push_then(s, 1, d.len()) == seq![s.subrange(1, 1 + d.len() as int)] + spec_chunks_from(s, 1 + d.len() as int));
}

/// `OP_PUSHDATA1` with a one-byte length ahead of a script gives that many
/// bytes as one chunk, then the script's chunks.
pub proof fn law_pushdata1_gives_its_bytes(d: Seq<u8>, r: Seq<u8>)
    requires
        d.len() <= 255,
    ensures
        spec_chunks_from(seq![0x4cu8, d.len() as u8] + d + r, 0) == seq![d] + spec_chunks_from(r, 0),
{
    let h = seq![0x4cu8, d.len() as u8] + d;
    let s = h + r;
    assert(seq![0x4cu8, d.len() as u8] + d + r == s);
    assert(s[0] == 0x4cu8 && s[1] == d.len() as u8);
    assert(s.subrange(2, 2 + d.len() as int) =~= d);
    lemma_chunks_shift(h, r, 0);
    assert(h.len() == 2 + d.len());
    assert(spec_chunks_from(s, 0) == spec_push_then(s, 2, d.len()));
    assert(spec_push_then(s, 2, d.len()) == seq![s.subrange(2, 2 + d.len() as int)] + spec_chunks_from(s, 2 + d.len() as int));
}

/// `OP_PUSHDATA2` with a two-byte length, low byte first, ahead of a script
/// gives that many bytes as one chunk, then the script's chunks.
pub proof fn law_pushdata2_gives_its_bytes(lo: u8, hi: u8, d: Seq<u8>, r: Seq<u8>)
    requires
        d.len() == lo + 256 * hi,
    ensures
        spec_chunks_from(seq![0x4du8, lo, hi] + d + r, 0) == seq![d] + spec_chunks_from(r, 0),
{
    let h = seq![0x4du8, lo, hi] + d;
    let s = h + r;
    assert(seq![0x4du8, lo, hi] + d + r == s);
    assert(s[0] == 0x4du8 && s[1] == lo && s[2] == hi);
    assert(s.subrange(3, 3 + d.len() as int) =~= d);
    lemma_chunks_shift(h, r, 0);
    assert(h.len() == 3 + d.len());
    assert(le16(lo, hi) == d.len());
    assert(spec_chunks_from(s, 0) == spec_push_then(s, 3, d.len()));
    assert(spec_push_then(s, 3, d.len()) == seq![s.subrange(3, 3 + d.len() as int)] + spec_chunks_from(s, 3 + d.len() as int));
}

/// `OP_PUSHDATA4` with a four-byte length, low byte first, ahead of a
/// script gives that many bytes as one chunk, then the script's chunks.
pub proof fn law_pushdata4_gives_its_bytes(b0: u8, b1: u8, b2: u8, b3: u8, d: Seq<u8>, r: Seq<u8>)
    requires
        d.len() == b0 + 256 * b1 + 65536 * b2 + 16777216 * b3,
    ensures
        spec_chunks_from(seq![0x4eu8, b0, b1, b2, b3] + d + r, 0) == seq![d] + spec_chunks_from(r, 0),
{
    let h = seq![0x4eu8, b0, b1, b2, b3] + d;
    let s = h + r;
    assert(seq![0x4eu8, b0, b1, b2, b3] + d + r == s);
    assert(s[0] == 0x4eu8 && s[1] == b0 && s[2] == b1 && s[3] == b2 && s[4] == b3);
    assert(s.subrange(5, 5 + d.len() as int) =~= d);
    lemma_chunks_shift(h, r, 0);
    assert(h.len() == 5 + d.len());
    assert(le32(b0, b1, b2, b3) == d.len());
    assert(spec_chunks_from(s, 0) == spec_push_then(s, 5, d.len()));
    assert(spec_push_then(s, 5, d.len()) == seq![s.subrange(5, 5 + d.len() as int)] + spec_chunks_from(s, 5 + d.len() as int));
}

/// A data chunk of an envelope: not empty, not a small number, not a
/// signature.
pub open spec fn is_data_chunk(c: Seq<u8>) -> bool {
    c.len() > 0 && !is_small_number_chunk(c) && !(65 <= c.len() <= 72 && c[0] == 0x30)
}

/// The content of an envelope whose content is one data push is that push;
/// two data pushes, the first at most 100 bytes, are joined; and a
/// signature after the first push ends the content there, whatever follows.
pub proof fn law_envelope_content_is_its_pushes(head: Seq<Seq<u8>>, x: Seq<u8>, y: Seq<u8>, sig: Seq<u8>, rest: Seq<Seq<u8>>)
    requires
        head.len() == 4,
        is_data_chunk(x),
        is_data_chunk(y),
        x.len() <= 100,
        65 <= sig.len() <= 72,
        sig[0] == 0x30,
    ensures
        spec_inscription_content(head.push(x)) == x,
        spec_inscription_content(head.push(x).push(y)) == x + y,
        spec_inscription_content(head.push(x).push(sig) + rest) == x,
{
    let e: Seq<u8> = Seq::empty();
    let c1 = head.push(x);
    assert(c1[4] == x);
    assert(spec_collect_content(c1, 5, e + x) == e + x);
    assert(e + x =~= x);
    let c2 = head.push(x).push(y);
    assert(c2[4] == x && c2[5] == y);
    assert(spec_collect_content(c2, 6, e + x + y) == e + x + y);
    assert(spec_collect_content(c2, 5, e + x) == spec_collect_content(c2, 6, e + x + y));
    assert(e + x + y =~= x + y);
    let c3 = head.push(x).push(sig) + rest;
    assert(c3[4] == x && c3[5] == sig);
    assert(is_signature_chunk(sig));
    assert(!is_small_number_chunk(sig));
    assert(spec_collect_content(c3, 5, e + x) == e + x);
    assert(spec_collect_content(c3, 4, e) == spec_collect_content(c3, 5, e + x));
}

/// Appends `src` to `dst`.
fn append_bytes(dst: &mut Vec<u8>, src: &Vec<u8>)
    ensures
        final(dst)@ == old(dst)@ + src@,
{
    let mut i: usize = 0;
    let ghost start = dst@;
    while i < src.len()
        invariant
            i <= src@.len(),
            dst@ == start + src@.subrange(0, i as int),
        decreases src@.len() - i,
    {
        dst.push(src[i]);
        i = i + 1;
        assert(dst@ =~= start + src@.subrange(0, i as int));
    }
    assert(src@.subrange(0, i as int) =~= src@);
}

/// Reads the inscription envelope of a `scriptSig` given as hex text: its
/// content type and its content as lower-case hex.
pub fn parse_script_sig_inscription(script_hex: &str) -> (res: Option<(String, String)>)
    ensures
        res is Some <==> spec_script_sig_inscription(script_hex@) is Some,
        res matches Some(r) ==> spec_script_sig_inscription(script_hex@) == Some((r.0@, r.1@)),
{
    let script = match hex_decode(script_hex) {
        Some(b) => b,
        None => {
            return None;
        },
    };
    let chunks = match parse_script_chunks(&script) {
        Some(c) => c,
        None => {
            return None;
        },
    };
    let ghost cv = chunks_view(chunks@);
    let len = chunks.len();
    if len < 5 {
        return None;
    }
    assert(cv[0] == chunks@[0]@);
    if !(chunks[0].len() == 3 && chunks[0][0] == 0x6f && chunks[0][1] == 0x72 && chunks[0][2] == 0x64) {
        assert(cv[0] != ord_tag());
        return None;
    }
    assert(cv[0] =~= ord_tag());
    let content_type = match utf8_string(copy_range(&chunks[2], 0, chunks[2].len())) {
        Some(t) => t,
        None => {
            assert(chunks@[2]@.subrange(0, chunks@[2]@.len() as int) =~= cv[2]);
            return None;
        },
    };
    assert(chunks@[2]@.subrange(0, chunks@[2]@.len() as int) =~= cv[2]);
    let mut content: Vec<u8> = Vec::new();
    let mut i: usize = 4;
    while i < len
        invariant_except_break
            len == chunks@.len(),
            cv == chunks_view(chunks@),
            4 <= i <= len,
            spec_collect_content(cv, 4, Seq::empty()) == spec_collect_content(cv, i as int, content@),
        ensures
            spec_collect_content(cv, 4, Seq::empty()) == content@,
        decreases len - i,
    {
        let chunk = &chunks[i];
        assert(cv[i as int] == chunk@);
        if chunk.len() == 0 || (chunk.len() == 1 && chunk[0] >= 1 && chunk[0] <= 16) {
            i = i + 1;
        } else if chunk.len() >= 65 && chunk.len() <= 72 && chunk[0] == 0x30 {
            break;
        } else if content.len() > 100 && chunk.len() < 50 && i == len - 1 {
            break;
        } else {
            append_bytes(&mut content, chunk);
            i = i + 1;
        }
    }
    if content.len() == 0 {
        content = copy_range(&chunks[4], 0, chunks[4].len());
        assert(content@ =~= cv[4]);
    }
    let encoded = hex_encode(&content);
    Some((content_type, encoded))
}

} // verus!
