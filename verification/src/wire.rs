//! The streaming wire format: observations travel to live observers as
//! ASCII JSON records with fields `ratio`, `dim_early`, `dim_late`,
//! `layer_early`, `layer_late`, `timestamp` and `source_name`, the numeric
//! fields as raw fixed-point integers.
//!
//! The encoder and the parser are exact inverses: parsing an encoded
//! observation recovers it field for field, and the parser accepts nothing
//! but canonical encodings.

use vstd::prelude::*;
use vstd::arithmetic::div_mod::lemma_fundamental_div_mod;

use crate::{PratyabhijnaError, RVMetric};

verus! {

/// Whether a character is a decimal digit.
pub open spec fn is_dec_digit(c: char) -> bool {
    48 <= c as int <= 57
}

/// The digit character of a value in `0..=9`.
pub open spec fn digit_char(d: int) -> char
    recommends
        0 <= d <= 9,
{
    if d == 0 {
        '0'
    } else if d == 1 {
        '1'
    } else if d == 2 {
        '2'
    } else if d == 3 {
        '3'
    } else if d == 4 {
        '4'
    } else if d == 5 {
        '5'
    } else if d == 6 {
        '6'
    } else if d == 7 {
        '7'
    } else if d == 8 {
        '8'
    } else {
        '9'
    }
}

/// The value of a digit character.
pub open spec fn digit_val(c: char) -> int {
    c as int - 48
}

/// The canonical decimal numeral of a non-negative integer: no sign, no
/// leading zeros (except for the single digit of zero itself).
pub open spec fn spec_u64_dec(n: int) -> Seq<char>
    recommends
        n >= 0,
    decreases n,
{
    if n < 10 {
        seq![digit_char(n)]
    } else {
        spec_u64_dec(n / 10).push(digit_char(n % 10))
    }
}

/// The integer a sequence of digit characters denotes.
pub open spec fn dec_val(s: Seq<char>) -> int
    decreases s.len(),
{
    if s.len() == 0 {
        0
    } else {
        dec_val(s.drop_last()) * 10 + digit_val(s.last())
    }
}

/// Whether every character of `s` is a decimal digit.
pub open spec fn all_dec_digits(s: Seq<char>) -> bool {
    forall|i: int| 0 <= i < s.len() ==> is_dec_digit(#[trigger] s[i])
}

/// Powers of ten.
pub open spec fn pow10(k: nat) -> int
    decreases k,
{
    if k == 0 {
        1
    } else {
        10 * pow10((k - 1) as nat)
    }
}

proof fn lemma_pow10_pos(k: nat)
    ensures
        pow10(k) >= 1,
    decreases k,
{
    if k > 0 {
        lemma_pow10_pos((k - 1) as nat);
    }
}

/// A digit character denotes its digit, and only `0` denotes the zero
/// character.
proof fn lemma_digit_char_val(d: int)
    requires
        0 <= d <= 9,
    ensures
        digit_val(digit_char(d)) == d,
        is_dec_digit(digit_char(d)),
        d > 0 ==> digit_val(digit_char(d)) != 0,
{
}

/// The canonical numeral of `n` is non-empty, all digits, has no leading
/// zero (unless it is the single digit `0`), and denotes `n`.
proof fn lemma_dec_props(n: int)
    requires
        n >= 0,
    ensures
        spec_u64_dec(n).len() >= 1,
        all_dec_digits(spec_u64_dec(n)),
        dec_val(spec_u64_dec(n)) == n,
        spec_u64_dec(n).len() > 1 ==> digit_val(spec_u64_dec(n)[0]) != 0,
        n < 10 ==> spec_u64_dec(n).len() == 1,
        n >= 10 ==> spec_u64_dec(n).len() >= 2,
    decreases n,
{
    if n < 10 {
        lemma_digit_char_val(n);
        assert(spec_u64_dec(n).drop_last() =~= Seq::<char>::empty());
        assert(dec_val(Seq::<char>::empty()) == 0);
    } else {
        lemma_fundamental_div_mod(n, 10);
        lemma_dec_props(n / 10);
        lemma_digit_char_val(n % 10);
        let t = spec_u64_dec(n / 10);
        let s = spec_u64_dec(n);
        assert(s == t.push(digit_char(n % 10)));
        assert(s.drop_last() =~= t);
        assert(s[0] == t[0]);
        if n / 10 < 10 {
            // The single leading digit is `n / 10`, which is at least 1.
            lemma_digit_char_val(n / 10);
            assert(t[0] == digit_char(n / 10));
        }
    }
}

/// Numerals of length `k` denote less than `10^k`.
proof fn lemma_dec_val_upper(s: Seq<char>)
    requires
        all_dec_digits(s),
    ensures
        0 <= dec_val(s) < pow10(s.len()),
    decreases s.len(),
{
    if s.len() > 0 {
        let t = s.drop_last();
        assert(forall|i: int| 0 <= i < t.len() ==> is_dec_digit(#[trigger] t[i]));
        lemma_dec_val_upper(t);
        assert(is_dec_digit(s[s.len() - 1]));
    }
}

/// Append one digit character to a string.
fn push_digit(s: &mut String, d: u64)
    requires
        d < 10,
    ensures
        final(s)@ == old(s)@ + seq![digit_char(d as int)],
{
    proof {
        reveal_strlit("0");
        reveal_strlit("1");
        reveal_strlit("2");
        reveal_strlit("3");
        reveal_strlit("4");
        reveal_strlit("5");
        reveal_strlit("6");
        reveal_strlit("7");
        reveal_strlit("8");
        reveal_strlit("9");
    }
    if d == 0 {
        s.append("0");
    } else if d == 1 {
        s.append("1");
    } else if d == 2 {
        s.append("2");
    } else if d == 3 {
        s.append("3");
    } else if d == 4 {
        s.append("4");
    } else if d == 5 {
        s.append("5");
    } else if d == 6 {
        s.append("6");
    } else if d == 7 {
        s.append("7");
    } else if d == 8 {
        s.append("8");
    } else {
        s.append("9");
    }
    proof {
        assert(final(s)@ =~= old(s)@ + seq![digit_char(d as int)]);
    }
}

/// Append the canonical decimal numeral of `n` to a string.
fn push_u64(s: &mut String, n: u64)
    ensures
        final(s)@ == old(s)@ + spec_u64_dec(n as int),
    decreases n,
{
    if n < 10 {
        push_digit(s, n);
    } else {
        push_u64(s, n / 10);
        push_digit(s, n % 10);
        proof {
            assert(final(s)@ =~= old(s)@ + spec_u64_dec(n as int));
        }
    }
}

/// Whether a character may appear unescaped in the quoted source name:
/// printable ASCII without the quote and the backslash.
pub open spec fn wire_char_ok(c: char) -> bool {
    &&& 0x20 <= c as int <= 0x7e
    &&& c as int != 0x22
    &&& c as int != 0x5c
}

/// Whether a source name can travel on the wire as it is.
pub open spec fn wire_name_ok(name: Seq<char>) -> bool {
    forall|i: int| 0 <= i < name.len() ==> wire_char_ok(#[trigger] name[i])
}

/// The wire encoding of an observation.
pub open spec fn spec_encode(m: RVMetric) -> Seq<char> {
    "{\"ratio\":"@ + spec_u64_dec(m.r_v as int) + ",\"dim_early\":"@ + spec_u64_dec(
        m.pr_early as int,
    ) + ",\"dim_late\":"@ + spec_u64_dec(m.pr_late as int) + ",\"layer_early\":"@ + spec_u64_dec(
        m.layer_early as int,
    ) + ",\"layer_late\":"@ + spec_u64_dec(m.layer_late as int) + ",\"timestamp\":"@
        + spec_u64_dec(m.timestamp as int) + ",\"source_name\":\""@ + m.model_name@ + "\"}"@
}

/// The end of the run of decimal digits starting at `i`: the first
/// position at or after `i` holding no digit, or the end of the input.
pub open spec fn digit_run_end(s: Seq<char>, i: int) -> int
    recommends
        0 <= i <= s.len(),
    decreases s.len() - i,
{
    if i < 0 || i >= s.len() || !is_dec_digit(s[i]) {
        i
    } else {
        digit_run_end(s, i + 1)
    }
}

/// The digit run ends exactly where the digits stop.
proof fn lemma_digit_run_is(s: Seq<char>, i: int, m: int)
    requires
        0 <= i <= m <= s.len(),
        forall|k: int| i <= k < m ==> is_dec_digit(#[trigger] s[k]),
        m == s.len() || !is_dec_digit(s[m]),
    ensures
        digit_run_end(s, i) == m,
    decreases m - i,
{
    if i < m {
        lemma_digit_run_is(s, i + 1, m);
    }
}

/// The run end never lies before its start nor past the input.
proof fn lemma_digit_run_ge(s: Seq<char>, i: int)
    requires
        0 <= i <= s.len(),
    ensures
        i <= digit_run_end(s, i) <= s.len(),
    decreases s.len() - i,
{
    if i < s.len() && is_dec_digit(s[i]) {
        lemma_digit_run_ge(s, i + 1);
    }
}

/// A digit at `j`, with digits everywhere from `i` to `j`, pushes the run
/// end past `j`.
proof fn lemma_digit_run_past(s: Seq<char>, i: int, j: int)
    requires
        0 <= i <= j < s.len(),
        forall|k: int| i <= k < j ==> is_dec_digit(#[trigger] s[k]),
        is_dec_digit(s[j]),
    ensures
        digit_run_end(s, i) > j,
    decreases j - i,
{
    if i < j {
        lemma_digit_run_past(s, i + 1, j);
    } else {
        lemma_digit_run_ge(s, i + 1);
    }
}

/// The end of the run of wire-safe characters starting at `i`.
pub open spec fn wire_run_end(s: Seq<char>, i: int) -> int
    recommends
        0 <= i <= s.len(),
    decreases s.len() - i,
{
    if i < 0 || i >= s.len() || !wire_char_ok(s[i]) {
        i
    } else {
        wire_run_end(s, i + 1)
    }
}

/// The wire-safe run ends exactly where the safe characters stop.
proof fn lemma_wire_run_is(s: Seq<char>, i: int, m: int)
    requires
        0 <= i <= m <= s.len(),
        forall|k: int| i <= k < m ==> wire_char_ok(#[trigger] s[k]),
        m == s.len() || !wire_char_ok(s[m]),
    ensures
        wire_run_end(s, i) == m,
    decreases m - i,
{
    if i < m {
        lemma_wire_run_is(s, i + 1, m);
    }
}

/// `pow10` does not decrease.
proof fn lemma_pow10_le(a: nat, b: nat)
    requires
        a <= b,
    ensures
        pow10(a) <= pow10(b),
    decreases b,
{
    if a < b {
        lemma_pow10_le(a, (b - 1) as nat);
        lemma_pow10_pos((b - 1) as nat);
    }
}

/// Matching a fixed literal at position `i` of the input.
pub open spec fn spec_expect(s: Seq<char>, i: int, lit: Seq<char>) -> Option<int> {
    if i + lit.len() <= s.len() && s.subrange(i, i + lit.len()) == lit {
        Some(i + lit.len())
    } else {
        None
    }
}

/// Scanning a canonical decimal numeral at position `i` of the input:
/// yields its value and the position after it, refusing an empty run, a
/// leading zero, an over-long run, and a value beyond `u64`.
pub open spec fn spec_scan(s: Seq<char>, i: int) -> Option<(int, int)> {
    let m = digit_run_end(s, i);
    if m == i {
        None
    } else if m - i > 1 && digit_val(s[i]) == 0 {
        None
    } else if m - i > 30 {
        None
    } else if dec_val(s.subrange(i, m)) > u64::MAX {
        None
    } else {
        Some((dec_val(s.subrange(i, m)), m))
    }
}

/// The fields denoted by a wire record, in order, with the source name
/// last. `None` when the input is not a canonical encoding.
pub open spec fn spec_parse(s: Seq<char>) -> Option<(int, int, int, int, int, int, Seq<char>)> {
    match spec_expect(s, 0, "{\"ratio\":"@) {
        None => None,
        Some(i0) => match spec_scan(s, i0) {
            None => None,
            Some((r_v, i1)) => match spec_expect(s, i1, ",\"dim_early\":"@) {
                None => None,
                Some(i2) => match spec_scan(s, i2) {
                    None => None,
                    Some((pr_early, i3)) => match spec_expect(s, i3, ",\"dim_late\":"@) {
                        None => None,
                        Some(i4) => match spec_scan(s, i4) {
                            None => None,
                            Some((pr_late, i5)) => match spec_expect(s, i5, ",\"layer_early\":"@) {
                                None => None,
                                Some(i6) => match spec_scan(s, i6) {
                                    None => None,
                                    Some((layer_early, i7)) => match spec_expect(
                                        s,
                                        i7,
                                        ",\"layer_late\":"@,
                                    ) {
                                        None => None,
                                        Some(i8) => match spec_scan(s, i8) {
                                            None => None,
                                            Some((layer_late, i9)) => match spec_expect(
                                                s,
                                                i9,
                                                ",\"timestamp\":"@,
                                            ) {
                                                None => None,
                                                Some(i10) => match spec_scan(s, i10) {
                                                    None => None,
                                                    Some((timestamp, i11)) => match spec_expect(
                                                        s,
                                                        i11,
                                                        ",\"source_name\":\""@,
                                                    ) {
                                                        None => None,
                                                        Some(i12) => {
                                                            let k = wire_run_end(s, i12);
                                                            if k == s.len() || s[k] as int != 0x22 {
                                                                None
                                                            } else {
                                                                match spec_expect(s, k, "\"}"@) {
                                                                    None => None,
                                                                    Some(end) => {
                                                                        if end != s.len()
                                                                            || layer_early
                                                                            > usize::MAX
                                                                            || layer_late
                                                                            > usize::MAX {
                                                                            None
                                                                        } else {
                                                                            Some(
                                                                                (
                                                                                    r_v,
                                                                                    pr_early,
                                                                                    pr_late,
                                                                                    layer_early,
                                                                                    layer_late,
                                                                                    timestamp,
                                                                                    s.subrange(
                                                                                        i12,
                                                                                        k,
                                                                                    ),
                                                                                ),
                                                                            )
                                                                        }
                                                                    },
                                                                }
                                                            }
                                                        },
                                                    },
                                                },
                                            },
                                        },
                                    },
                                },
                            },
                        },
                    },
                },
            },
        },
    }
}

/// Numerals below `10^k` have at most `k` digits.
proof fn lemma_dec_len(n: int, k: nat)
    requires
        0 <= n < pow10(k),
        k >= 1,
    ensures
        spec_u64_dec(n).len() <= k,
    decreases k,
{
    if n >= 10 {
        lemma_fundamental_div_mod(n, 10);
        lemma_dec_len(n / 10, (k - 1) as nat);
    }
}

/// Peel the last piece off a known prefix of `s`.
proof fn lemma_split_prefix(s: Seq<char>, g: Seq<char>, piece: Seq<char>, p: int)
    requires
        p == g.len(),
        p + piece.len() <= s.len(),
        s.subrange(0, p + piece.len()) == g + piece,
    ensures
        s.subrange(0, p) == g,
        s.subrange(p, p + piece.len()) == piece,
{
    assert(s.subrange(0, p) =~= s.subrange(0, p + piece.len()).subrange(0, p));
    assert((g + piece).subrange(0, p) =~= g);
    assert(s.subrange(p, p + piece.len()) =~= s.subrange(0, p + piece.len()).subrange(
        p,
        p + piece.len(),
    ));
    assert((g + piece).subrange(p, p + piece.len()) =~= piece);
}

/// A segment of `s` that holds the canonical numeral of `n`, followed by a
/// non-digit (or nothing), is scanned back to exactly `n`.
proof fn lemma_scan_of_dec(s: Seq<char>, p: int, n: int)
    requires
        0 <= n <= u64::MAX,
        0 <= p,
        p + spec_u64_dec(n).len() <= s.len(),
        s.subrange(p, p + spec_u64_dec(n).len()) == spec_u64_dec(n),
        p + spec_u64_dec(n).len() == s.len() || !is_dec_digit(s[p + spec_u64_dec(n).len()]),
    ensures
        spec_scan(s, p) == Some((n, p + spec_u64_dec(n).len())),
{
    lemma_dec_props(n);
    let d = spec_u64_dec(n);
    let q = p + d.len();
    assert forall|k: int| p <= k < q implies is_dec_digit(#[trigger] s[k]) by {
        assert(s.subrange(p, q)[k - p] == s[k]);
        assert(d[k - p] == s[k]);
    }
    lemma_digit_run_is(s, p, q);
    assert(u64::MAX < pow10(20)) by {
        reveal_with_fuel(pow10, 21);
    }
    lemma_dec_len(n, 20);
    if d.len() > 1 {
        assert(s.subrange(p, q)[0] == s[p]);
        assert(digit_val(s[p]) != 0);
    }
    assert(dec_val(s.subrange(p, q)) == n);
}

#[verifier::rlimit(100)]
#[verifier::spinoff_prover]
/// Round trip: parsing a serialized observation recovers every field.
///
/// Together with the contracts of `encode_metric` and `parse_metric` this
/// says that serializing an observation whose source name is wire-safe and
/// parsing the result back yields field-for-field equality.
pub proof fn lemma_parse_inverts_encode(v: RVMetric)
    requires
        wire_name_ok(v.model_name@),
    ensures
        spec_parse(spec_encode(v)) == Some(
            (
                v.r_v as int,
                v.pr_early as int,
                v.pr_late as int,
                v.layer_early as int,
                v.layer_late as int,
                v.timestamp as int,
                v.model_name@,
            ),
        ),
{
    let s = spec_encode(v);
    let c1 = "{\"ratio\":"@;
    let d1 = spec_u64_dec(v.r_v as int);
    let c2 = ",\"dim_early\":"@;
    let d2 = spec_u64_dec(v.pr_early as int);
    let c3 = ",\"dim_late\":"@;
    let d3 = spec_u64_dec(v.pr_late as int);
    let c4 = ",\"layer_early\":"@;
    let d4 = spec_u64_dec(v.layer_early as int);
    let c5 = ",\"layer_late\":"@;
    let d5 = spec_u64_dec(v.layer_late as int);
    let c6 = ",\"timestamp\":"@;
    let d6 = spec_u64_dec(v.timestamp as int);
    let c7 = ",\"source_name\":\""@;
    let nm = v.model_name@;
    let c8 = "\"}"@;

    let g1 = c1;
    let g2 = g1 + d1;
    let g3 = g2 + c2;
    let g4 = g3 + d2;
    let g5 = g4 + c3;
    let g6 = g5 + d3;
    let g7 = g6 + c4;
    let g8 = g7 + d4;
    let g9 = g8 + c5;
    let g10 = g9 + d5;
    let g11 = g10 + c6;
    let g12 = g11 + d6;
    let g13 = g12 + c7;
    let g14 = g13 + nm;
    let g15 = g14 + c8;
    assert(s == g15);
    assert(s.subrange(0, s.len() as int) =~= s);

    lemma_split_prefix(s, g14, c8, g14.len() as int);
    lemma_split_prefix(s, g13, nm, g13.len() as int);
    lemma_split_prefix(s, g12, c7, g12.len() as int);
    lemma_split_prefix(s, g11, d6, g11.len() as int);
    lemma_split_prefix(s, g10, c6, g10.len() as int);
    lemma_split_prefix(s, g9, d5, g9.len() as int);
    lemma_split_prefix(s, g8, c5, g8.len() as int);
    lemma_split_prefix(s, g7, d4, g7.len() as int);
    lemma_split_prefix(s, g6, c4, g6.len() as int);
    lemma_split_prefix(s, g5, d3, g5.len() as int);
    lemma_split_prefix(s, g4, c3, g4.len() as int);
    lemma_split_prefix(s, g3, d2, g3.len() as int);
    lemma_split_prefix(s, g2, c2, g2.len() as int);
    lemma_split_prefix(s, g1, d1, g1.len() as int);

    // The literal fragments' characters, where the scans need them.
    reveal_strlit("{\"ratio\":");
    reveal_strlit(",\"dim_early\":");
    reveal_strlit(",\"dim_late\":");
    reveal_strlit(",\"layer_early\":");
    reveal_strlit(",\"layer_late\":");
    reveal_strlit(",\"timestamp\":");
    reveal_strlit(",\"source_name\":\"");
    reveal_strlit("\"}");

    let p1 = g1.len() as int;
    let p2 = g2.len() as int;
    let p3 = g3.len() as int;
    let p4 = g4.len() as int;
    let p5 = g5.len() as int;
    let p6 = g6.len() as int;
    let p7 = g7.len() as int;
    let p8 = g8.len() as int;
    let p9 = g9.len() as int;
    let p10 = g10.len() as int;
    let p11 = g11.len() as int;
    let p12 = g12.len() as int;
    let p13 = g13.len() as int;
    let p14 = g14.len() as int;

    assert(spec_expect(s, 0, c1) == Some(p1));
    assert(s[p2] == c2[0]);
    lemma_scan_of_dec(s, p1, v.r_v as int);
    assert(spec_expect(s, p2, c2) == Some(p3));
    assert(s[p4] == c3[0]);
    lemma_scan_of_dec(s, p3, v.pr_early as int);
    assert(spec_expect(s, p4, c3) == Some(p5));
    assert(s[p6] == c4[0]);
    lemma_scan_of_dec(s, p5, v.pr_late as int);
    assert(spec_expect(s, p6, c4) == Some(p7));
    assert(s[p8] == c5[0]);
    lemma_scan_of_dec(s, p7, v.layer_early as int);
    assert(spec_expect(s, p8, c5) == Some(p9));
    assert(s[p10] == c6[0]);
    lemma_scan_of_dec(s, p9, v.layer_late as int);
    assert(spec_expect(s, p10, c6) == Some(p11));
    assert(s[p12] == c7[0]);
    lemma_scan_of_dec(s, p11, v.timestamp as int);
    assert(spec_expect(s, p12, c7) == Some(p13));

    // The name runs up to the closing quote, which is not wire-safe.
    assert forall|k: int| p13 <= k < p14 implies wire_char_ok(#[trigger] s[k]) by {
        assert(s.subrange(p13, p14)[k - p13] == s[k]);
        assert(nm[k - p13] == s[k]);
    }
    assert(s[p14] == c8[0]);
    assert(!wire_char_ok(s[p14]));
    lemma_wire_run_is(s, p13, p14);
    assert(s[p14] as int == 0x22);
    assert(spec_expect(s, p14, c8) == Some(s.len() as int));
    assert(s.subrange(p13, p14) == nm);
}

/// Whether the character at `j` is a decimal digit.
fn char_at_is_digit(s: &str, j: usize) -> (r: bool)
    requires
        j < s@.len(),
    ensures
        r == is_dec_digit(s@[j as int]),
{
    let c = s.get_char(j);
    let code = c as u32;
    48 <= code && code <= 57
}

/// Match a fixed literal at position `i` of the input.
fn expect_lit(s: &str, s_len: usize, i: usize, lit: &str) -> (r: Option<usize>)
    requires
        s_len == s@.len(),
        i <= s_len,
    ensures
        match r {
            Some(j) => i <= j <= s_len && spec_expect(s@, i as int, lit@) == Some(j as int),
            None => spec_expect(s@, i as int, lit@) is None,
        },
{
    let l = lit.unicode_len();
    if l > s_len - i {
        return None;
    }
    let mut k: usize = 0;
    while k < l
        invariant
            k <= l,
            l == lit@.len(),
            s_len == s@.len(),
            i + l <= s_len,
            forall|t: int| 0 <= t < k ==> s@[i + t] == lit@[t],
        decreases l - k,
    {
        if s.get_char(i + k) != lit.get_char(k) {
            proof {
                assert(s@.subrange(i as int, i + l) != lit@) by {
                    assert(s@.subrange(i as int, i + l)[k as int] != lit@[k as int]);
                }
            }
            return None;
        }
        k = k + 1;
    }
    proof {
        assert(s@.subrange(i as int, i + l) =~= lit@);
    }
    Some(i + l)
}

/// Scan a canonical decimal numeral at position `i` of the input.
fn scan_u64(s: &str, s_len: usize, i: usize) -> (r: Option<(u64, usize)>)
    requires
        s_len == s@.len(),
        i <= s_len,
    ensures
        match r {
            Some((val, j)) => i < j <= s_len && spec_scan(s@, i as int) == Some(
                (val as int, j as int),
            ),
            None => spec_scan(s@, i as int) is None,
        },
{
    let mut j: usize = i;
    let mut acc: u128 = 0;
    while j < s_len && char_at_is_digit(s, j)
        invariant
            i <= j <= s_len,
            s_len == s@.len(),
            j - i <= 30,
            forall|k: int| i <= k < j ==> is_dec_digit(#[trigger] s@[k]),
            acc == dec_val(s@.subrange(i as int, j as int)),
        decreases s_len - j,
    {
        if j - i >= 30 {
            // A thirty-first digit: longer than any canonical numeral.
            proof {
                lemma_digit_run_past(s@, i as int, j as int);
            }
            return None;
        }
        let c = s.get_char(j);
        let d = (c as u32) - 48;
        proof {
            let prefix = s@.subrange(i as int, j as int);
            let grown = s@.subrange(i as int, j + 1);
            assert(grown.drop_last() =~= prefix);
            assert(grown.last() == s@[j as int]);
            assert(forall|k: int| i <= k < j + 1 ==> is_dec_digit(#[trigger] s@[k]));
            lemma_dec_val_upper(grown);
            lemma_dec_val_upper(prefix);
            lemma_pow10_le(prefix.len() as nat, 29);
            assert(pow10(29) * 10 < 0x4000_0000_0000_0000_0000_0000_0000_0000) by {
                reveal_with_fuel(pow10, 31);
            }
        }
        acc = acc * 10 + (d as u128);
        j = j + 1;
    }
    proof {
        lemma_digit_run_is(s@, i as int, j as int);
    }
    if j == i {
        return None;
    }
    if j - i > 1 {
        let c0 = s.get_char(i);
        if (c0 as u32) == 48 {
            return None;
        }
    }
    if acc > 0xffff_ffff_ffff_ffff {
        return None;
    }
    Some((acc as u64, j))
}

/// Scan the run of wire-safe characters at position `i` of the input.
fn scan_name(s: &str, s_len: usize, i: usize) -> (j: usize)
    requires
        s_len == s@.len(),
        i <= s_len,
    ensures
        i <= j <= s_len,
        j == wire_run_end(s@, i as int),
        forall|k: int| i <= k < j ==> wire_char_ok(#[trigger] s@[k]),
{
    let mut j: usize = i;
    loop
        invariant
            i <= j <= s_len,
            s_len == s@.len(),
            forall|k: int| i <= k < j ==> wire_char_ok(#[trigger] s@[k]),
        ensures
            i <= j <= s_len,
            forall|k: int| i <= k < j ==> wire_char_ok(#[trigger] s@[k]),
            j == s_len || !wire_char_ok(s@[j as int]),
        decreases s_len - j,
    {
        if j == s_len {
            break ;
        }
        let c = s.get_char(j);
        let code = c as u32;
        if code < 0x20 || code > 0x7e || code == 0x22 || code == 0x5c {
            break ;
        }
        j = j + 1;
    }
    proof {
        lemma_wire_run_is(s@, i as int, j as int);
    }
    j
}

/// Parse a wire record back into an observation.
///
/// The parser is pinned to [`spec_parse`]: it accepts exactly the canonical
/// encodings and recovers every field. Together with
/// [`lemma_parse_inverts_encode`] this makes serialization and parsing
/// exact inverses.
pub fn parse_metric(s: &str) -> (r: Option<RVMetric>)
    ensures
        match spec_parse(s@) {
            Some(f) => r matches Some(m) && m.r_v == f.0 && m.pr_early == f.1 && m.pr_late == f.2
                && m.layer_early == f.3 && m.layer_late == f.4 && m.timestamp == f.5
                && m.model_name@ == f.6,
            None => r is None,
        },
{
    let s_len = s.unicode_len();
    let i0 = match expect_lit(s, s_len, 0, "{\"ratio\":") {
        Some(j) => j,
        None => {
            return None;
        },
    };
    let (r_v, i1) = match scan_u64(s, s_len, i0) {
        Some(p) => p,
        None => {
            return None;
        },
    };
    let i2 = match expect_lit(s, s_len, i1, ",\"dim_early\":") {
        Some(j) => j,
        None => {
            return None;
        },
    };
    let (pr_early, i3) = match scan_u64(s, s_len, i2) {
        Some(p) => p,
        None => {
            return None;
        },
    };
    let i4 = match expect_lit(s, s_len, i3, ",\"dim_late\":") {
        Some(j) => j,
        None => {
            return None;
        },
    };
    let (pr_late, i5) = match scan_u64(s, s_len, i4) {
        Some(p) => p,
        None => {
            return None;
        },
    };
    let i6 = match expect_lit(s, s_len, i5, ",\"layer_early\":") {
        Some(j) => j,
        None => {
            return None;
        },
    };
    let (layer_early, i7) = match scan_u64(s, s_len, i6) {
        Some(p) => p,
        None => {
            return None;
        },
    };
    let i8 = match expect_lit(s, s_len, i7, ",\"layer_late\":") {
        Some(j) => j,
        None => {
            return None;
        },
    };
    let (layer_late, i9) = match scan_u64(s, s_len, i8) {
        Some(p) => p,
        None => {
            return None;
        },
    };
    let i10 = match expect_lit(s, s_len, i9, ",\"timestamp\":") {
        Some(j) => j,
        None => {
            return None;
        },
    };
    let (timestamp, i11) = match scan_u64(s, s_len, i10) {
        Some(p) => p,
        None => {
            return None;
        },
    };
    let i12 = match expect_lit(s, s_len, i11, ",\"source_name\":\"") {
        Some(j) => j,
        None => {
            return None;
        },
    };
    let k = scan_name(s, s_len, i12);
    if k == s_len {
        return None;
    }
    let quote = s.get_char(k);
    if (quote as u32) != 0x22 {
        return None;
    }
    let name = s.substring_char(i12, k).to_owned();
    let end = match expect_lit(s, s_len, k, "\"}") {
        Some(j) => j,
        None => {
            return None;
        },
    };
    if end != s_len {
        return None;
    }
    if layer_early > usize::MAX as u64 || layer_late > usize::MAX as u64 {
        return None;
    }
    Some(RVMetric {
        r_v,
        pr_early,
        pr_late,
        layer_early: layer_early as usize,
        layer_late: layer_late as usize,
        timestamp,
        model_name: name,
    })
}

/// An inbound frame on a subscriber's connection, reduced to what the
/// protocol decision needs.
#[derive(Debug)]
pub enum ControlFrame {
    /// A keep-alive probe carrying opaque payload bytes.
    Ping(Vec<u8>),
    /// The answer to an earlier probe.
    Pong(Vec<u8>),
    /// The peer is closing the connection.
    Close,
    /// Anything else (inbound data frames are not part of the protocol).
    Other,
}

/// What the connection handler must do with an inbound frame.
#[derive(Debug)]
pub enum ControlAction {
    /// Answer the probe with its own payload.
    ReplyPong(Vec<u8>),
    /// Terminate the connection cleanly.
    Disconnect,
    /// Nothing: keep streaming.
    Ignore,
}

/// The protocol decision for one inbound frame: a ping is answered with a
/// pong carrying the same payload, a close frame ends the connection, and
/// everything else is ignored.
pub fn control_response(frame: ControlFrame) -> (r: ControlAction)
    ensures
        match frame {
            ControlFrame::Ping(d) => r matches ControlAction::ReplyPong(p) && p@ == d@,
            ControlFrame::Close => r is Disconnect,
            _ => r is Ignore,
        },
{
    match frame {
        ControlFrame::Ping(d) => ControlAction::ReplyPong(d),
        ControlFrame::Close => ControlAction::Disconnect,
        _ => ControlAction::Ignore,
    }
}

/// Whether the source name is wire-safe, by inspection of each character.
fn name_is_wire_safe(name: &String) -> (r: bool)
    ensures
        r == wire_name_ok(name@),
{
    let n = name.as_str().unicode_len();
    let mut i: usize = 0;
    while i < n
        invariant
            i <= n,
            n == name@.len(),
            forall|j: int| 0 <= j < i ==> wire_char_ok(#[trigger] name@[j]),
        decreases n - i,
    {
        let c = name.as_str().get_char(i);
        let code = c as u32;
        if code < 0x20 || code > 0x7e || code == 0x22 || code == 0x5c {
            return false;
        }
        i = i + 1;
    }
    true
}

/// Serialize an observation for the streaming boundary. Fails with
/// `TransportError` exactly when the source name cannot travel unescaped;
/// the observation is then dropped from that sink only.
pub fn encode_metric(metric: &RVMetric) -> (r: Result<String, PratyabhijnaError>)
    ensures
        match r {
            Ok(s) => wire_name_ok(metric.model_name@) && s@ == spec_encode(*metric),
            Err(e) => {
                &&& e == PratyabhijnaError::TransportError
                &&& !wire_name_ok(metric.model_name@)
            },
        },
{
    if !name_is_wire_safe(&metric.model_name) {
        return Err(PratyabhijnaError::TransportError);
    }
    let mut s = String::new();
    s.append("{\"ratio\":");
    push_u64(&mut s, metric.r_v);
    s.append(",\"dim_early\":");
    push_u64(&mut s, metric.pr_early);
    s.append(",\"dim_late\":");
    push_u64(&mut s, metric.pr_late);
    s.append(",\"layer_early\":");
    push_u64(&mut s, metric.layer_early as u64);
    s.append(",\"layer_late\":");
    push_u64(&mut s, metric.layer_late as u64);
    s.append(",\"timestamp\":");
    push_u64(&mut s, metric.timestamp);
    s.append(",\"source_name\":\"");
    s.append(metric.model_name.as_str());
    s.append("\"}");
    proof {
        assert(s@ =~= spec_encode(*metric));
    }
    Ok(s)
}

} // verus!
