//! Decimal token amounts: the text form that inscriptions and the ledger
//! store, and the `u128` base-unit form used for arithmetic.

use vstd::prelude::*;
use crate::text::{
    all_digits, chars_of, digit_value, digits_value, is_digit, lemma_digits_value_append_zeros,
    lemma_canonical_digits, lemma_digits_value_below, lemma_digits_value_injective,
    lemma_digits_value_leading_zeros, lemma_pow10_add, lemma_pow10_positive, lemma_spec_digits,
    lemma_spec_digits_len, pow10, unsigned_body,
    parse_u128_range, pow10_u128, push_digits, repeat_char, spec_digits, spec_parse_unsigned, string_from_chars,
};

verus! {

/// The largest `u128`, as a mathematical integer.
pub open spec fn u128_max() -> nat {
    340282366920938463463374607431768211455nat
}

/// No character of `s` is a `.`.
pub open spec fn dot_free(s: Seq<char>) -> bool {
    forall|i: int| 0 <= i < s.len() ==> s[i] != '.'
}

/// `k` is the position of the only `.` in `s`.
pub open spec fn is_sole_dot(s: Seq<char>, k: int) -> bool {
    &&& 0 <= k < s.len()
    &&& s[k] == '.'
    &&& forall|i: int| 0 <= i < s.len() && i != k ==> s[i] != '.'
}

/// The integer-and-fraction reading of an amount with exactly one `.`:
/// `int_part` and `frac_part` are the two sides of the dot.
pub open spec fn spec_parse_split_amount(int_part: Seq<char>, frac_part: Seq<char>, decimals: nat) -> Option<nat> {
    if frac_part.len() > decimals {
        None
    } else {
        match (spec_parse_unsigned(int_part, u128_max()), spec_parse_unsigned(frac_part, u128_max())) {
            (Some(i), Some(f)) => {
                let ip = i * pow10(decimals);
                let fp = f * pow10((decimals - frac_part.len()) as nat);
                if ip <= u128_max() && fp <= u128_max() && ip + fp <= u128_max() {
                    Some(ip + fp)
                } else {
                    None
                }
            },
            _ => None,
        }
    }
}

/// The amount, in base units with `decimals` decimal places, that the text
/// `s` denotes; `None` where `s` is not an amount or the value overflows a
/// `u128`. The text is an unsigned integer (as `FromStr` reads one), or two
/// such integers around one `.`, the second with at most `decimals` digits.
pub open spec fn spec_parse_amount(s: Seq<char>, decimals: nat) -> Option<nat> {
    if dot_free(s) {
        match spec_parse_unsigned(s, u128_max()) {
            Some(i) => if i * pow10(decimals) <= u128_max() {
                Some(i * pow10(decimals))
            } else {
                None
            },
            None => None,
        }
    } else if exists|k: int| is_sole_dot(s, k) {
        let k = choose|k: int| is_sole_dot(s, k);
        spec_parse_split_amount(s.subrange(0, k), s.subrange(k + 1, s.len() as int), decimals)
    } else {
        None
    }
}

/// Whether reading `s` gets as far as scaling by ten to the `decimals`:
/// `s` is an unsigned integer, or two such integers around one `.`, the
/// second with at most `decimals` digits. Only then is the scale needed.
pub open spec fn reaches_scale(s: Seq<char>, decimals: nat) -> bool {
    if dot_free(s) {
        spec_parse_unsigned(s, u128_max()) is Some
    } else if exists|k: int| is_sole_dot(s, k) {
        let k = choose|k: int| is_sole_dot(s, k);
        &&& spec_parse_unsigned(s.subrange(0, k), u128_max()) is Some
        &&& s.len() - k - 1 <= decimals
        &&& spec_parse_unsigned(s.subrange(k + 1, s.len() as int), u128_max()) is Some
    } else {
        false
    }
}

/// `s` can be read with `decimals` decimal places: the scale, ten to the
/// `decimals`, fits a `u128`, or the reading stops before it needs it.
pub open spec fn amount_readable(s: Seq<char>, decimals: nat) -> bool {
    decimals <= 38 || !reaches_scale(s, decimals)
}

/// Only a text that reaches the scale denotes an amount.
pub proof fn lemma_parse_amount_reaches_scale(s: Seq<char>, decimals: nat)
    ensures
        spec_parse_amount(s, decimals) is Some ==> reaches_scale(s, decimals),
{
}

/// `s` with `'0'`s put in front until it is `width` long.
pub open spec fn pad_left_zeros(s: Seq<char>, width: nat) -> Seq<char> {
    if s.len() < width {
        repeat_char('0', (width - s.len()) as nat) + s
    } else {
        s
    }
}

/// `s` without its trailing `'0'`s.
pub open spec fn trim_trailing_zeros(s: Seq<char>) -> Seq<char>
    decreases s.len(),
{
    if s.len() > 0 && s.last() == '0' {
        trim_trailing_zeros(s.drop_last())
    } else {
        s
    }
}

/// The text of `amount` base units with `decimals` decimal places: the
/// integer part, then, where the fraction is not zero, a `.` and the
/// fraction's digits without trailing zeros.
pub open spec fn spec_format_amount(amount: nat, decimals: nat) -> Seq<char> {
    let divisor = pow10(decimals);
    let integer = amount / divisor;
    let fraction = amount % divisor;
    if fraction == 0 {
        spec_digits(integer)
    } else {
        spec_digits(integer) + seq!['.'] + trim_trailing_zeros(
            pad_left_zeros(spec_digits(fraction), decimals),
        )
    }
}

/// Reads `amount` as a number of base units with `decimals` decimal places:
/// `"1.5"` with 18 decimals is `1_500_000_000_000_000_000`.
pub fn parse_amount(amount: &str, decimals: u8) -> (res: Option<u128>)
    requires
        amount_readable(amount@, decimals as nat),
    ensures
        res is Some <==> spec_parse_amount(amount@, decimals as nat) is Some,
        res matches Some(v) ==> spec_parse_amount(amount@, decimals as nat) == Some(v as nat),
{
    let chars = chars_of(amount);
    let n = chars.len();
    let ghost s = amount@;
    let mut p: usize = 0;
    while p < n && chars[p] != '.'
        invariant
            chars@ == s,
            n == s.len(),
            p <= n,
            forall|i: int| 0 <= i < p ==> s[i] != '.',
        decreases n - p,
    {
        p = p + 1;
    }
    if p == n {
        assert(dot_free(s));
        assert(chars@.subrange(0, n as int) =~= s);
        let integer = parse_u128_range(&chars, 0, n);
        match integer {
            None => {
                return None;
            },
            Some(i) => {
                assert(reaches_scale(s, decimals as nat));
                let multiplier = pow10_u128(decimals as u32);
                return i.checked_mul(multiplier);
            },
        }
    }
    assert(!dot_free(s));
    let mut q: usize = p + 1;
    while q < n
        invariant
            chars@ == s,
            n == s.len(),
            p < q <= n,
            s == amount@,
            s[p as int] == '.',
            forall|i: int| 0 <= i < p ==> s[i] != '.',
            forall|i: int| p < i < q ==> s[i] != '.',
        decreases n - q,
    {
        if chars[q] == '.' {
            assert forall|k: int| !is_sole_dot(s, k) by {
                if is_sole_dot(s, k) {
                    assert(s[p as int] == '.' && s[q as int] == '.');
                }
            }
            assert(!dot_free(s));
            return None;
        }
        q = q + 1;
    }
    assert(is_sole_dot(s, p as int));
    assert forall|k: int| is_sole_dot(s, k) implies k == p by {}
    let ghost k = choose|k: int| is_sole_dot(s, k);
    assert(k == p);
    let frac_len = n - p - 1;
    assert(s.subrange(p + 1, n as int).len() == frac_len);
    let integer = parse_u128_range(&chars, 0, p);
    if frac_len > decimals as usize {
        return None;
    }
    let fraction = parse_u128_range(&chars, p + 1, n);
    match (integer, fraction) {
        (Some(i), Some(f)) => {
            assert(reaches_scale(s, decimals as nat));
            let multiplier = pow10_u128(decimals as u32);
            let fraction_multiplier = pow10_u128(decimals as u32 - frac_len as u32);
            match (i.checked_mul(multiplier), f.checked_mul(fraction_multiplier)) {
                (Some(ip), Some(fp)) => ip.checked_add(fp),
                _ => None,
            }
        },
        _ => None,
    }
}

/// Tells whether `amount_readable` holds, so that a caller can refuse the
/// texts whose reading would need a scale beyond `u128`.
pub fn amount_readable_exec(amount: &str, decimals: u8) -> (b: bool)
    ensures
        b == amount_readable(amount@, decimals as nat),
{
    if decimals <= 38 {
        return true;
    }
    let chars = chars_of(amount);
    let n = chars.len();
    let ghost s = amount@;
    let mut p: usize = 0;
    while p < n && chars[p] != '.'
        invariant
            chars@ == s,
            n == s.len(),
            p <= n,
            forall|i: int| 0 <= i < p ==> s[i] != '.',
        decreases n - p,
    {
        p = p + 1;
    }
    if p == n {
        assert(dot_free(s));
        assert(chars@.subrange(0, n as int) =~= s);
        return parse_u128_range(&chars, 0, n).is_none();
    }
    assert(!dot_free(s));
    let mut q: usize = p + 1;
    while q < n
        invariant
            chars@ == s,
            n == s.len(),
            p < q <= n,
            s == amount@,
            s[p as int] == '.',
            forall|i: int| 0 <= i < p ==> s[i] != '.',
            forall|i: int| p < i < q ==> s[i] != '.',
        decreases n - q,
    {
        if chars[q] == '.' {
            assert forall|k: int| !is_sole_dot(s, k) by {
                if is_sole_dot(s, k) {
                    assert(s[p as int] == '.' && s[q as int] == '.');
                }
            }
            return true;
        }
        q = q + 1;
    }
    assert(is_sole_dot(s, p as int));
    assert forall|k: int| is_sole_dot(s, k) implies k == p by {}
    let ghost k = choose|k: int| is_sole_dot(s, k);
    assert(k == p);
    let frac_len = n - p - 1;
    let integer = parse_u128_range(&chars, 0, p);
    let fraction = parse_u128_range(&chars, p + 1, n);
    !(integer.is_some() && frac_len <= decimals as usize && fraction.is_some())
}

/// Writes `amount` base units with `decimals` decimal places as text:
/// `1_500_000_000_000_000_000` with 18 decimals is `"1.5"`.
pub fn format_amount(amount: u128, decimals: u8) -> (res: String)
    requires
        decimals <= 38,
    ensures
        res@ == spec_format_amount(amount as nat, decimals as nat),
{
    let divisor = pow10_u128(decimals as u32);
    proof {
        lemma_pow10_positive(decimals as nat);
    }
    let integer = amount / divisor;
    let fraction = amount % divisor;
    let mut out: Vec<char> = Vec::new();
    push_digits(integer, &mut out);
    assert(out@ =~= spec_digits(integer as nat));
    if fraction != 0 {
        out.push('.');
        let mut digits: Vec<char> = Vec::new();
        push_digits(fraction, &mut digits);
        assert(digits@ =~= spec_digits(fraction as nat));
        let mut padded: Vec<char> = Vec::new();
        let width = decimals as usize;
        let mut z: usize = 0;
        let dl = digits.len();
        if dl < width {
            while z < width - dl
                invariant
                    dl < width,
                    z <= width - dl,
                    padded@ == repeat_char('0', z as nat),
                decreases width - dl - z,
            {
                padded.push('0');
                z = z + 1;
                assert(padded@ =~= repeat_char('0', z as nat));
            }
        }
        let mut j: usize = 0;
        let ghost prefix = padded@;
        while j < dl
            invariant
                dl == digits@.len(),
                j <= dl,
                padded@ == prefix + digits@.subrange(0, j as int),
            decreases dl - j,
        {
            padded.push(digits[j]);
            j = j + 1;
            assert(padded@ =~= prefix + digits@.subrange(0, j as int));
        }
        assert(digits@.subrange(0, dl as int) =~= digits@);
        assert(padded@ =~= pad_left_zeros(spec_digits(fraction as nat), decimals as nat));
        while padded.len() > 0 && padded[padded.len() - 1] == '0'
            invariant
                trim_trailing_zeros(padded@) == trim_trailing_zeros(
                    pad_left_zeros(spec_digits(fraction as nat), decimals as nat),
                ),
            decreases padded.len(),
        {
            let ghost before = padded@;
            padded.pop();
            assert(padded@ =~= before.drop_last());
        }
        assert(trim_trailing_zeros(padded@) == padded@);
        let mut t: usize = 0;
        let ghost head = out@;
        while t < padded.len()
            invariant
                t <= padded@.len(),
                out@ == head + padded@.subrange(0, t as int),
            decreases padded@.len() - t,
        {
            out.push(padded[t]);
            t = t + 1;
            assert(out@ =~= head + padded@.subrange(0, t as int));
        }
        assert(padded@.subrange(0, padded@.len() as int) =~= padded@);
    }
    string_from_chars(&out)
}

/// Removing trailing zeros leaves a prefix that the removed zeros complete.
pub proof fn lemma_trim_trailing_zeros(s: Seq<char>)
    ensures
        trim_trailing_zeros(s).len() <= s.len(),
        s =~= trim_trailing_zeros(s) + repeat_char('0', (s.len() - trim_trailing_zeros(s).len()) as nat),
        trim_trailing_zeros(s).len() == 0 || trim_trailing_zeros(s).last() != '0',
    decreases s.len(),
{
    if s.len() > 0 && s.last() == '0' {
        let d = s.drop_last();
        lemma_trim_trailing_zeros(d);
        let t = trim_trailing_zeros(d);
        let m = (d.len() - t.len()) as nat;
        assert(d =~= t + repeat_char('0', m));
        assert(s =~= d.push('0'));
        assert(repeat_char('0', m).push('0') =~= repeat_char('0', m + 1));
        assert(s =~= t + repeat_char('0', m + 1));
    } else {
        assert(s =~= s + repeat_char('0', 0));
    }
}

/// Digit strings hold no `.` and do not start with `+`.
proof fn lemma_digits_no_dot_no_sign(s: Seq<char>)
    requires
        all_digits(s),
    ensures
        dot_free(s),
        unsigned_body(s) == s,
{
    if s.len() > 0 {
        assert(is_digit(s[0]));
    }
    assert forall|i: int| 0 <= i < s.len() implies s[i] != '.' by {
        assert(is_digit(s[i]));
    }
}

/// A digit string of positive value reads back as that value.
proof fn lemma_parse_digits(s: Seq<char>)
    requires
        all_digits(s),
        s.len() > 0,
        digits_value(s) <= u128_max(),
    ensures
        spec_parse_unsigned(s, u128_max()) == Some(digits_value(s)),
{
    lemma_digits_no_dot_no_sign(s);
}

/// The fraction part that `format_amount` writes: its digits denote the
/// fraction once scaled back to `decimals` places.
proof fn lemma_fraction_text(f: nat, decimals: nat)
    requires
        0 < f < pow10(decimals),
    ensures
        ({
            let t = trim_trailing_zeros(pad_left_zeros(spec_digits(f), decimals));
            &&& 0 < t.len() <= decimals
            &&& all_digits(t)
            &&& digits_value(t) * pow10((decimals - t.len()) as nat) == f
            &&& digits_value(t) <= f
        }),
{
    assert(decimals >= 1) by {
        if decimals == 0 {
            assert(pow10(0) == 1);
        }
    }
    lemma_spec_digits(f);
    lemma_spec_digits_len(f, decimals);
    let ds = spec_digits(f);
    let z = (decimals - ds.len()) as nat;
    let p = pad_left_zeros(ds, decimals);
    assert(p =~= repeat_char('0', z) + ds) by {
        if ds.len() == decimals {
            assert(repeat_char('0', 0) + ds =~= ds);
        }
    }
    lemma_digits_value_leading_zeros(ds, z);
    assert(p.len() == decimals);
    assert(all_digits(p)) by {
        assert forall|i: int| 0 <= i < p.len() implies is_digit(#[trigger] p[i]) by {
            if i >= z {
                assert(p[i] == ds[i - z]);
            }
        }
    }
    lemma_trim_trailing_zeros(p);
    let t = trim_trailing_zeros(p);
    let m = (p.len() - t.len()) as nat;
    lemma_digits_value_append_zeros(t, m);
    assert(digits_value(p) == digits_value(t) * pow10(m));
    assert(all_digits(t)) by {
        assert forall|i: int| 0 <= i < t.len() implies is_digit(#[trigger] t[i]) by {
            assert(t[i] == p[i]);
        }
    }
    if t.len() == 0 {
        assert(t =~= Seq::<char>::empty());
        assert(digits_value(t) == 0);
        assert(0 * pow10(m) == 0);
    }
    lemma_pow10_positive(m);
    let v = digits_value(t);
    let w = pow10(m);
    assert(v <= v * w) by (nonlinear_arith)
        requires
            w >= 1,
    ;
}

/// Every amount read from text fits in a `u128`.
pub proof fn lemma_parse_amount_bounded(s: Seq<char>, decimals: nat)
    ensures
        spec_parse_amount(s, decimals) matches Some(v) ==> v <= u128_max(),
{
}

/// Writing an amount and reading the text back gives the same amount.
pub proof fn law_amount_roundtrip(amount: nat, decimals: nat)
    requires
        amount <= u128_max(),
        decimals <= 38,
    ensures
        spec_parse_amount(spec_format_amount(amount, decimals), decimals) == Some(amount),
{
    let div = pow10(decimals);
    lemma_pow10_positive(decimals);
    let i = amount / div;
    let f = amount % div;
    vstd::arithmetic::div_mod::lemma_fundamental_div_mod(amount as int, div as int);
    assert(amount == div * i + f);
    assert(i * div == div * i) by (nonlinear_arith);
    assert(i <= amount) by (nonlinear_arith)
        requires
            div >= 1,
            amount == div * i + f,
            f >= 0,
            i >= 0,
    ;
    lemma_spec_digits(i);
    let d = spec_digits(i);
    lemma_parse_digits(d);
    lemma_digits_no_dot_no_sign(d);
    let s = spec_format_amount(amount, decimals);
    if f == 0 {
        assert(s == d);
    } else {
        lemma_fraction_text(f, decimals);
        let t = trim_trailing_zeros(pad_left_zeros(spec_digits(f), decimals));
        assert(s == d + seq!['.'] + t);
        lemma_parse_digits(t);
        lemma_digits_no_dot_no_sign(t);
        let k = d.len() as int;
        assert(s[k] == '.');
        assert(is_sole_dot(s, k)) by {
            assert forall|j: int| 0 <= j < s.len() && j != k implies s[j] != '.' by {
                if j < k {
                    assert(s[j] == d[j]);
                } else {
                    assert(s[j] == t[j - k - 1]);
                }
            }
        }
        assert(!dot_free(s));
        assert forall|k2: int| is_sole_dot(s, k2) implies k2 == k by {}
        let kc = choose|k2: int| is_sole_dot(s, k2);
        assert(kc == k);
        assert(s.subrange(0, k) =~= d);
        assert(s.subrange(k + 1, s.len() as int) =~= t);
    }
}

/// A numeral as `to_string` writes one: digits, without a leading zero
/// unless it is `0` itself.
pub open spec fn canonical_numeral(s: Seq<char>) -> bool {
    &&& s.len() > 0
    &&& all_digits(s)
    &&& (s.len() == 1 || s[0] != '0')
}

/// A fraction as `format_amount` writes one: one to `decimals` digits, the
/// last not `0`.
pub open spec fn canonical_fraction(f: Seq<char>, decimals: nat) -> bool {
    &&& 1 <= f.len() <= decimals
    &&& all_digits(f)
    &&& f.last() != '0'
}

/// An amount text in the form that `format_amount` writes: a canonical
/// numeral, alone or followed by `.` and a canonical fraction.
pub open spec fn canonical_amount_text(s: Seq<char>, decimals: nat) -> bool {
    ||| canonical_numeral(s)
    ||| exists|k: int|
        0 <= k < s.len() && #[trigger] s[k] == '.' && canonical_numeral(s.subrange(0, k)) && canonical_fraction(
            s.subrange(k + 1, s.len() as int),
            decimals,
        )
}

/// Trailing zeros put after a text that does not end in `0` are all that
/// trimming removes.
proof fn lemma_trim_appended_zeros(t: Seq<char>, m: nat)
    requires
        t.len() > 0,
        t.last() != '0',
    ensures
        trim_trailing_zeros(t + repeat_char('0', m)) == t,
    decreases m,
{
    if m == 0 {
        assert(t + repeat_char('0', 0) =~= t);
    } else {
        let u = t + repeat_char('0', m);
        assert(u.last() == '0');
        assert(u.drop_last() =~= t + repeat_char('0', (m - 1) as nat));
        lemma_trim_appended_zeros(t, (m - 1) as nat);
    }
}

/// Reading an amount text in canonical form and writing the amount again
/// gives the same text.
pub proof fn law_canonical_text_roundtrip(s: Seq<char>, decimals: nat)
    requires
        decimals <= 38,
        canonical_amount_text(s, decimals),
        spec_parse_amount(s, decimals) is Some,
    ensures
        spec_format_amount(spec_parse_amount(s, decimals)->0, decimals) == s,
{
    let div = pow10(decimals);
    lemma_pow10_positive(decimals);
    if canonical_numeral(s) {
        lemma_digits_no_dot_no_sign(s);
        let v = digits_value(s);
        let a = v * div;
        assert(spec_parse_amount(s, decimals) == Some(a));
        assert(a == v * div + 0);
        vstd::arithmetic::div_mod::lemma_fundamental_div_mod_converse(a as int, div as int, v as int, 0);
        lemma_canonical_digits(s);
        assert(spec_format_amount(a, decimals) == spec_digits(v));
    } else {
        let k = choose|k: int|
            0 <= k < s.len() && #[trigger] s[k] == '.' && canonical_numeral(s.subrange(0, k))
                && canonical_fraction(s.subrange(k + 1, s.len() as int), decimals);
        let ip = s.subrange(0, k);
        let fp = s.subrange(k + 1, s.len() as int);
        lemma_digits_no_dot_no_sign(ip);
        lemma_digits_no_dot_no_sign(fp);
        assert(is_sole_dot(s, k)) by {
            assert forall|j: int| 0 <= j < s.len() && j != k implies s[j] != '.' by {
                if j < k {
                    assert(s[j] == ip[j]);
                } else {
                    assert(s[j] == fp[j - k - 1]);
                }
            }
        }
        assert(!dot_free(s));
        assert forall|k2: int| is_sole_dot(s, k2) implies k2 == k by {}
        let kc = choose|k2: int| is_sole_dot(s, k2);
        assert(kc == k);
        let i = digits_value(ip);
        let f = digits_value(fp);
        let l = fp.len();
        let m = (decimals - l) as nat;
        let pm = pow10(m);
        let pl = pow10(l);
        let fv = f * pm;
        lemma_digits_value_below(fp);
        lemma_pow10_add(l, m);
        lemma_pow10_positive(m);
        assert(l + m == decimals);
        assert(div == pl * pm);
        assert(fv < div) by (nonlinear_arith)
            requires
                f < pl,
                pm >= 1,
                div == pl * pm,
                fv == f * pm,
        ;
        assert(is_digit(fp[fp.len() - 1]));
        assert(f >= 1) by {
            assert(f == digits_value(fp.drop_last()) * 10 + digit_value(fp.last()));
        }
        assert(fv >= 1) by (nonlinear_arith)
            requires
                f >= 1,
                pm >= 1,
                fv == f * pm,
        ;
        let a = i * div + fv;
        assert(spec_parse_amount(s, decimals) == Some(a));
        vstd::arithmetic::div_mod::lemma_fundamental_div_mod_converse(a as int, div as int, i as int, fv as int);
        lemma_canonical_digits(ip);
        lemma_spec_digits(fv);
        lemma_spec_digits_len(fv, decimals);
        let ds = spec_digits(fv);
        let z = (decimals - ds.len()) as nat;
        let p = pad_left_zeros(ds, decimals);
        assert(p =~= repeat_char('0', z) + ds) by {
            if ds.len() == decimals {
                assert(repeat_char('0', 0) + ds =~= ds);
            }
        }
        lemma_digits_value_leading_zeros(ds, z);
        assert(all_digits(p)) by {
            assert forall|j: int| 0 <= j < p.len() implies is_digit(#[trigger] p[j]) by {
                if j >= z {
                    assert(p[j] == ds[j - z]);
                }
            }
        }
        let q = fp + repeat_char('0', m);
        lemma_digits_value_append_zeros(fp, m);
        assert(all_digits(q)) by {
            assert forall|j: int| 0 <= j < q.len() implies is_digit(#[trigger] q[j]) by {
                if j < l {
                    assert(q[j] == fp[j]);
                }
            }
        }
        lemma_digits_value_injective(p, q);
        lemma_trim_appended_zeros(fp, m);
        assert(spec_format_amount(a, decimals) == spec_digits(i) + seq!['.'] + fp);
        assert(s =~= ip + seq!['.'] + fp);
    }
}

/// A whole number `n` of units is `n * 10^decimals` base units: its
/// numeral reads as that many, and that many are written as its numeral.
pub proof fn law_whole_units(n: nat, decimals: nat)
    requires
        n * pow10(decimals) <= u128_max(),
    ensures
        spec_parse_amount(spec_digits(n), decimals) == Some(n * pow10(decimals)),
        spec_format_amount(n * pow10(decimals), decimals) == spec_digits(n),
{
    let div = pow10(decimals);
    lemma_pow10_positive(decimals);
    assert(n <= n * div) by (nonlinear_arith)
        requires
            div >= 1,
    ;
    lemma_spec_digits(n);
    lemma_digits_no_dot_no_sign(spec_digits(n));
    lemma_parse_digits(spec_digits(n));
    assert(n * div == n * div + 0);
    vstd::arithmetic::div_mod::lemma_fundamental_div_mod_converse((n * div) as int, div as int, n as int, 0);
}

/// `i.f`, with a fraction `f` of one to `decimals` digits, is `i` whole
/// units and `f` units of the `f.len()`-th decimal place:
/// `i * 10^decimals + f * 10^(decimals - f.len())` base units.
pub proof fn law_fraction_digits_scale(i: nat, f: Seq<char>, decimals: nat)
    requires
        all_digits(f),
        1 <= f.len() <= decimals,
        i * pow10(decimals) + digits_value(f) * pow10((decimals - f.len()) as nat) <= u128_max(),
    ensures
        spec_parse_amount(spec_digits(i) + seq!['.'] + f, decimals) == Some(
            i * pow10(decimals) + digits_value(f) * pow10((decimals - f.len()) as nat),
        ),
{
    let div = pow10(decimals);
    let pm = pow10((decimals - f.len()) as nat);
    lemma_pow10_positive(decimals);
    lemma_pow10_positive((decimals - f.len()) as nat);
    let fv = digits_value(f);
    assert(i <= i * div && fv <= fv * pm) by (nonlinear_arith)
        requires
            div >= 1,
            pm >= 1,
    ;
    lemma_spec_digits(i);
    let ip = spec_digits(i);
    lemma_digits_no_dot_no_sign(ip);
    lemma_digits_no_dot_no_sign(f);
    lemma_parse_digits(ip);
    let s = ip + seq!['.'] + f;
    let k = ip.len() as int;
    assert(s[k] == '.');
    assert(is_sole_dot(s, k)) by {
        assert forall|j: int| 0 <= j < s.len() && j != k implies s[j] != '.' by {
            if j < k {
                assert(s[j] == ip[j]);
            } else {
                assert(s[j] == f[j - k - 1]);
            }
        }
    }
    assert(!dot_free(s));
    assert forall|k2: int| is_sole_dot(s, k2) implies k2 == k by {}
    let kc = choose|k2: int| is_sole_dot(s, k2);
    assert(kc == k);
    assert(s.subrange(0, k) =~= ip);
    assert(s.subrange(k + 1, s.len() as int) =~= f);
    if fv > 0 {
        lemma_parse_digits(f);
    } else {
        assert(spec_parse_unsigned(f, u128_max()) == Some(0nat));
    }
}

} // verus!
