//! Fixed-point decimal numbers.
//!
//! The upstream services exchange coordinates and metric values as decimal
//! text. The library models such a value exactly as a sign, a mantissa and
//! a scale: the value is `(-1)^neg * mant / 10^scale`. Parsed values are
//! normalized (no trailing zero among the fractional digits) and bounded,
//! which keeps every later computation inside `u64`.

use vstd::prelude::*;
use vstd::string::StringExecFns;

verus! {

/// A fixed-point decimal: `(-1)^neg * mant / 10^scale`.
#[derive(Clone, Copy, PartialEq, Eq, Structural, Debug)]
pub struct Dec {
    pub neg: bool,
    pub mant: u64,
    pub scale: u32,
}

/// Smallest mantissa rejected by the decimal parser (`10^17`).
pub const DEC_MANT_LIMIT: u64 = 100_000_000_000_000_000;

/// Largest scale accepted by the decimal parser.
pub const DEC_SCALE_LIMIT: u32 = 17;

pub open spec fn pow10(n: nat) -> nat
    decreases n,
{
    if n == 0 {
        1
    } else {
        10 * pow10((n - 1) as nat)
    }
}

/// ASCII digit.
pub open spec fn is_digit(b: u8) -> bool {
    48 <= b <= 57
}

pub open spec fn all_digits(s: Seq<u8>) -> bool {
    forall|i: int| 0 <= i < s.len() ==> is_digit(#[trigger] s[i])
}

/// Numeric value of a run of ASCII digits, most significant first.
pub open spec fn digits_val(s: Seq<u8>) -> nat
    decreases s.len(),
{
    if s.len() == 0 {
        0
    } else {
        digits_val(s.drop_last()) * 10 + (s.last() - 48) as nat
    }
}

/// Position `k` carries the single dot of a decimal body: digits on both
/// sides, and at least one digit somewhere.
pub open spec fn dot_at(s: Seq<u8>, k: int) -> bool {
    &&& 0 <= k < s.len()
    &&& s[k] == 46
    &&& all_digits(s.subrange(0, k))
    &&& all_digits(s.subrange(k + 1, s.len() as int))
    &&& (k > 0 || k + 1 < s.len())
}

/// The unsigned body of a decimal token: `D+`, `D+ . D*` or `. D+`.
pub open spec fn dec_body_ok(s: Seq<u8>) -> bool {
    (s.len() > 0 && all_digits(s)) || (exists|k: int| dot_at(s, k))
}

/// Mantissa (the digits run together) and scale (count of fractional
/// digits) of a well-formed decimal body.
pub open spec fn dec_parts(s: Seq<u8>) -> (nat, nat) {
    if s.len() > 0 && all_digits(s) {
        (digits_val(s), 0)
    } else {
        let k = choose|k: int| dot_at(s, k);
        (digits_val(s.subrange(0, k) + s.subrange(k + 1, s.len() as int)), (s.len() - k - 1) as nat)
    }
}

/// Strip trailing fractional zeros: `(5150, 2)` becomes `(515, 1)`.
pub open spec fn norm(m: nat, sc: nat) -> (nat, nat)
    decreases sc,
{
    if sc > 0 && m % 10 == 0 {
        norm(m / 10, (sc - 1) as nat)
    } else {
        (m, sc)
    }
}

/// Grammar and value of a decimal token such as `-0.12`: an optional sign,
/// then digits with at most one dot and at least one digit. A token whose
/// digit string reaches `10^17`, or with more than 17 fractional digits,
/// is rejected as out of range.
pub open spec fn dec_token(s: Seq<u8>) -> Option<Dec> {
    let neg = s.len() > 0 && s[0] == 45;
    let body = if s.len() > 0 && (s[0] == 45 || s[0] == 43) {
        s.subrange(1, s.len() as int)
    } else {
        s
    };
    if dec_body_ok(body) {
        let (m, sc) = dec_parts(body);
        if m < DEC_MANT_LIMIT && sc <= DEC_SCALE_LIMIT {
            let (nm, nsc) = norm(m, sc);
            Some(Dec { neg, mant: nm as u64, scale: nsc as u32 })
        } else {
            None
        }
    } else {
        None
    }
}

/// A parsed decimal is bounded and normalized.
pub open spec fn dec_wf(d: Dec) -> bool {
    &&& d.mant < DEC_MANT_LIMIT
    &&& d.scale <= DEC_SCALE_LIMIT
    &&& (d.scale > 0 ==> d.mant % 10 != 0)
}

proof fn lemma_norm_wf(m: nat, sc: nat)
    requires
        m < DEC_MANT_LIMIT,
        sc <= DEC_SCALE_LIMIT,
    ensures
        norm(m, sc).0 <= m,
        norm(m, sc).1 <= sc,
        norm(m, sc).1 > 0 ==> norm(m, sc).0 % 10 != 0,
    decreases sc,
{
    if sc > 0 && m % 10 == 0 {
        lemma_norm_wf(m / 10, (sc - 1) as nat);
    }
}

/// Every decimal the parser accepts is well-formed.
pub proof fn lemma_dec_token_wf(s: Seq<u8>)
    ensures
        dec_token(s) matches Some(d) ==> dec_wf(d),
{
    let neg = s.len() > 0 && s[0] == 45;
    let body = if s.len() > 0 && (s[0] == 45 || s[0] == 43) {
        s.subrange(1, s.len() as int)
    } else {
        s
    };
    if dec_body_ok(body) {
        let (m, sc) = dec_parts(body);
        if m < DEC_MANT_LIMIT && sc <= DEC_SCALE_LIMIT {
            lemma_norm_wf(m, sc);
        }
    }
}

/// `digits_val` of a concatenation.
proof fn lemma_digits_val_concat(a: Seq<u8>, b: Seq<u8>)
    ensures
        digits_val(a + b) == digits_val(a) * pow10(b.len()) + digits_val(b),
    decreases b.len(),
{
    if b.len() == 0 {
        assert(a + b =~= a);
        assert(pow10(b.len()) == 1);
        assert(digits_val(b) == 0);
        assert(digits_val(a) * 1 == digits_val(a));
    } else {
        lemma_digits_val_concat(a, b.drop_last());
        assert((a + b).drop_last() =~= a + b.drop_last());
        assert((a + b).last() == b.last());
        let x = digits_val(a);
        let p = pow10((b.len() - 1) as nat);
        let y = digits_val(b.drop_last());
        let d = (b.last() - 48) as nat;
        assert(digits_val(a + b) == (x * p + y) * 10 + d);
        assert(pow10(b.len()) == 10 * p);
        assert((x * p + y) * 10 + d == x * (10 * p) + (y * 10 + d)) by (nonlinear_arith);
        assert(digits_val(b) == y * 10 + d);
        assert(x * (10 * p) == x * pow10(b.len()));
    }
}

/// A decimal body carries at most one dot.
proof fn lemma_dot_unique(s: Seq<u8>, k1: int, k2: int)
    requires
        dot_at(s, k1),
        dot_at(s, k2),
    ensures
        k1 == k2,
{
    if k1 < k2 {
        assert(s.subrange(k1 + 1, s.len() as int)[k2 - k1 - 1] == s[k2]);
    }
    if k2 < k1 {
        assert(s.subrange(k2 + 1, s.len() as int)[k1 - k2 - 1] == s[k1]);
    }
}

proof fn lemma_push_digit(s: Seq<u8>, c: u8)
    requires
        all_digits(s),
        is_digit(c),
    ensures
        all_digits(s.push(c)),
        digits_val(s.push(c)) == digits_val(s) * 10 + (c - 48) as nat,
{
    assert(s.push(c).drop_last() =~= s);
    assert forall|i: int| 0 <= i < s.push(c).len() implies is_digit(#[trigger] s.push(c)[i]) by {
        if i < s.len() {
            assert(s.push(c)[i] == s[i]);
        }
    }
}

/// A byte that is neither a digit nor a dot spoils the whole body.
proof fn lemma_body_bad_char(body: Seq<u8>, idx: int)
    requires
        0 <= idx < body.len(),
        !is_digit(body[idx]),
        body[idx] != 46,
    ensures
        !dec_body_ok(body),
{
    assert forall|k: int| !#[trigger] dot_at(body, k) by {
        if dot_at(body, k) {
            if idx < k {
                assert(body.subrange(0, k)[idx] == body[idx]);
            } else if idx > k {
                assert(body.subrange(k + 1, body.len() as int)[idx - k - 1] == body[idx]);
            }
        }
    }
}

/// Two dots spoil the whole body.
proof fn lemma_body_two_dots(body: Seq<u8>, p: int, q: int)
    requires
        0 <= p < q < body.len(),
        body[p] == 46,
        body[q] == 46,
    ensures
        !dec_body_ok(body),
{
    assert(!is_digit(body[p]));
    assert forall|k: int| !#[trigger] dot_at(body, k) by {
        if dot_at(body, k) {
            if p < k {
                assert(body.subrange(0, k)[p] == body[p]);
            } else if p > k {
                assert(body.subrange(k + 1, body.len() as int)[p - k - 1] == body[p]);
            } else {
                assert(body.subrange(k + 1, body.len() as int)[q - k - 1] == body[q]);
            }
        }
    }
}

/// Parses the whole byte slice as one decimal token.
pub fn parse_dec(s: &[u8]) -> (r: Option<Dec>)
    ensures
        r == dec_token(s@),
{
    let n = s.len();
    let mut i: usize = 0;
    let neg = n > 0 && s[0] == 45;
    if n > 0 && (s[0] == 45 || s[0] == 43) {
        i = 1;
    }
    let body_start = i;
    let ghost body = s@.subrange(body_start as int, n as int);
    proof {
        if body_start == 0 {
            assert(body =~= s@);
        }
    }
    let mut mant: u64 = 0;
    let mut big = false;
    let mut dot: Option<usize> = None;
    let ghost mut digs: Seq<u8> = Seq::empty();
    proof {
        assert(digs =~= s@.subrange(body_start as int, body_start as int));
    }
    while i < n
        invariant
            body_start <= i <= n,
            n == s@.len(),
            neg == (s@.len() > 0 && s@[0] == 45),
            body_start == if n > 0 && (s@[0] == 45 || s@[0] == 43) {
                1int
            } else {
                0int
            },
            body == s@.subrange(body_start as int, n as int),
            match dot {
                None => digs == s@.subrange(body_start as int, i as int) && all_digits(digs),
                Some(p) => {
                    &&& body_start <= p < i
                    &&& s@[p as int] == 46
                    &&& digs == s@.subrange(body_start as int, p as int) + s@.subrange(
                        p as int + 1,
                        i as int,
                    )
                    &&& all_digits(s@.subrange(body_start as int, p as int))
                    &&& all_digits(s@.subrange(p as int + 1, i as int))
                },
            },
            !big ==> mant == digits_val(digs) && mant < DEC_MANT_LIMIT,
            big ==> digits_val(digs) >= DEC_MANT_LIMIT,
        decreases n - i,
    {
        let c = s[i];
        if 48 <= c && c <= 57 {
            proof {
                lemma_push_digit(digs, c);
            }
            if !big {
                let next = mant * 10 + (c - 48) as u64;
                if next >= DEC_MANT_LIMIT {
                    big = true;
                } else {
                    mant = next;
                }
            }
            proof {
                match dot {
                    None => {
                        assert(digs.push(c) =~= s@.subrange(body_start as int, i as int + 1));
                    },
                    Some(p) => {
                        assert(s@.subrange(p as int + 1, i as int).push(c) =~= s@.subrange(
                            p as int + 1,
                            i as int + 1,
                        ));
                        assert(digs.push(c) =~= s@.subrange(body_start as int, p as int)
                            + s@.subrange(p as int + 1, i as int + 1));
                        lemma_push_digit(s@.subrange(p as int + 1, i as int), c);
                    },
                }
                digs = digs.push(c);
            }
            i = i + 1;
        } else if c == 46 && dot.is_none() {
            proof {
                assert(s@.subrange(body_start as int, i as int) + s@.subrange(
                    i as int + 1,
                    i as int + 1,
                ) =~= digs);
            }
            dot = Some(i);
            i = i + 1;
        } else {
            proof {
                let idx = i as int - body_start as int;
                assert(body[idx] == s@[i as int]);
                if c == 46 {
                    let p = dot->Some_0;
                    assert(body[p as int - body_start as int] == s@[p as int]);
                    lemma_body_two_dots(body, p as int - body_start as int, idx);
                } else {
                    lemma_body_bad_char(body, idx);
                }
                // name the token body as dec_token states it, so the
                // solver connects it to the scanned range
                let bspec = if s@.len() > 0 && (s@[0] == 45 || s@[0] == 43) {
                    s@.subrange(1, s@.len() as int)
                } else {
                    s@
                };
                assert(body == bspec);
            }
            return None;
        }
    }
    // The whole input is scanned; decide the grammar and the value.
    match dot {
        None => {
            proof {
                assert(body =~= digs);
            }
            if i == body_start {
                proof {
                    assert forall|k: int| !#[trigger] dot_at(body, k) by {}
                }
                return None;
            }
            if big {
                return None;
            }
            let r = normalize(neg, mant, 0);
            proof {
                assert(dec_parts(body) == (digits_val(body), 0nat));
            }
            Some(r)
        },
        Some(p) => {
            let ghost k = p as int - body_start as int;
            proof {
                assert(body[k] == s@[p as int]);
                assert(body.subrange(0, k) =~= s@.subrange(body_start as int, p as int));
                assert(body.subrange(k + 1, body.len() as int) =~= s@.subrange(
                    p as int + 1,
                    n as int,
                ));
            }
            if i == body_start + 1 {
                // the body is a lone dot
                proof {
                    assert(digs.len() == 0);
                    assert forall|kk: int| !#[trigger] dot_at(body, kk) by {
                        if dot_at(body, kk) {
                            if kk < k {
                                assert(body.subrange(0, k)[kk] == body[kk]);
                                assert(is_digit(body[kk]));
                                assert(body.subrange(kk + 1, body.len() as int)[k - kk - 1]
                                    == body[k]);
                            } else if kk > k {
                                assert(body.subrange(k + 1, body.len() as int)[kk - k - 1]
                                    == body[kk]);
                                assert(body.subrange(0, kk)[k] == body[k]);
                            }
                        }
                    }
                }
                return None;
            }
            proof {
                assert(digs.len() > 0);
                assert(dot_at(body, k));
                assert(!is_digit(body[k]));
                let kc = choose|kk: int| dot_at(body, kk);
                lemma_dot_unique(body, kc, k);
                assert(body.subrange(0, k) + body.subrange(k + 1, body.len() as int) =~= digs);
            }
            if big {
                return None;
            }
            let frac_len = n - p - 1;
            if frac_len > DEC_SCALE_LIMIT as usize {
                return None;
            }
            let r = normalize(neg, mant, frac_len as u32);
            Some(r)
        },
    }
}

/// The decimal digit `n` as a character; `n` is taken modulo the digits.
pub open spec fn digit_char(n: nat) -> char {
    if n == 0 {
        '0'
    } else if n == 1 {
        '1'
    } else if n == 2 {
        '2'
    } else if n == 3 {
        '3'
    } else if n == 4 {
        '4'
    } else if n == 5 {
        '5'
    } else if n == 6 {
        '6'
    } else if n == 7 {
        '7'
    } else if n == 8 {
        '8'
    } else {
        '9'
    }
}

/// Decimal digits of `n`, most significant first, no leading zeros
/// (a single `0` for zero).
pub open spec fn digits_of(n: nat) -> Seq<char>
    decreases n,
{
    if n < 10 {
        seq![digit_char(n)]
    } else {
        digits_of(n / 10).push(digit_char(n % 10))
    }
}

/// Exactly `w` digits of `n % 10^w`, zero padded, most significant first.
pub open spec fn padded_digits(n: nat, w: nat) -> Seq<char>
    decreases w,
{
    if w == 0 {
        Seq::empty()
    } else {
        padded_digits(n / 10, (w - 1) as nat).push(digit_char(n % 10))
    }
}

/// The magnitude `m / 10^sc` in tenths, rounded half away from zero.
pub open spec fn tenths(m: nat, sc: nat) -> nat {
    if sc == 0 {
        m * 10
    } else {
        (m + pow10((sc - 1) as nat) / 2) / pow10((sc - 1) as nat)
    }
}

/// Rendering with exactly one fractional digit, e.g. `-3.5`.
pub open spec fn fmt1(neg: bool, t: nat) -> Seq<char> {
    (if neg {
        seq!['-']
    } else {
        Seq::<char>::empty()
    }) + digits_of(t / 10) + seq!['.', digit_char(t % 10)]
}

/// The decimal rounded to one fractional digit, as text.
pub open spec fn dec_fmt1(d: Dec) -> Seq<char> {
    fmt1(d.neg, tenths(d.mant as nat, d.scale as nat))
}

/// Plain rendering of a normalized decimal, e.g. `-0.12`, `51.5`, `7`.
pub open spec fn dec_display(d: Dec) -> Seq<char> {
    (if d.neg {
        seq!['-']
    } else {
        Seq::<char>::empty()
    }) + digits_of((d.mant as nat) / pow10(d.scale as nat)) + (if d.scale == 0 {
        Seq::<char>::empty()
    } else {
        seq!['.'] + padded_digits((d.mant as nat) % pow10(d.scale as nat), d.scale as nat)
    })
}

proof fn lemma_pow10_17()
    ensures
        pow10(17) == DEC_MANT_LIMIT,
{
    reveal_with_fuel(pow10, 18);
}

proof fn lemma_pow10_mono(a: nat, b: nat)
    requires
        a <= b,
    ensures
        pow10(a) <= pow10(b),
        pow10(a) >= 1,
    decreases b,
{
    if a < b {
        lemma_pow10_mono(a, (b - 1) as nat);
    } else if b > 0 {
        lemma_pow10_mono((a - 1) as nat, (b - 1) as nat);
    }
}

/// `10^n` as a machine integer.
fn pow10_u64(n: u32) -> (r: u64)
    requires
        n <= 18,
    ensures
        r == pow10(n as nat),
    decreases n,
{
    if n == 0 {
        1
    } else {
        let r = pow10_u64(n - 1);
        proof {
            lemma_pow10_mono((n - 1) as nat, 17);
            lemma_pow10_17();
        }
        10 * r
    }
}

/// One decimal digit as text.
fn digit_str(d: u64) -> (r: &'static str)
    requires
        d < 10,
    ensures
        r@ == seq![digit_char(d as nat)],
{
    proof {
        reveal_strlit("0");
        reveal_strlit("1");
        reveal_strlit("2");
        reveal_strlit("3");
        reveal_strlit("4");
        reveal_strlit("5");
        reveal_strlit("6");
        reveal_strlit("7");
        reveal_strlit("8");
        reveal_strlit("9");
    }
    if d == 0 {
        proof {
            assert("0"@ =~= seq![digit_char(0)]);
        }
        "0"
    } else if d == 1 {
        proof {
            assert("1"@ =~= seq![digit_char(1)]);
        }
        "1"
    } else if d == 2 {
        proof {
            assert("2"@ =~= seq![digit_char(2)]);
        }
        "2"
    } else if d == 3 {
        proof {
            assert("3"@ =~= seq![digit_char(3)]);
        }
        "3"
    } else if d == 4 {
        proof {
            assert("4"@ =~= seq![digit_char(4)]);
        }
        "4"
    } else if d == 5 {
        proof {
            assert("5"@ =~= seq![digit_char(5)]);
        }
        "5"
    } else if d == 6 {
        proof {
            assert("6"@ =~= seq![digit_char(6)]);
        }
        "6"
    } else if d == 7 {
        proof {
            assert("7"@ =~= seq![digit_char(7)]);
        }
        "7"
    } else if d == 8 {
        proof {
            assert("8"@ =~= seq![digit_char(8)]);
        }
        "8"
    } else {
        proof {
            assert("9"@ =~= seq![digit_char(9)]);
        }
        "9"
    }
}

/// Appends the decimal digits of `n`.
pub(crate) fn push_digits(out: &mut String, n: u64)
    ensures
        final(out)@ == old(out)@ + digits_of(n as nat),
    decreases n,
{
    if n < 10 {
        out.append(digit_str(n));
        proof {
            assert(final(out)@ =~= old(out)@ + digits_of(n as nat));
        }
    } else {
        push_digits(out, n / 10);
        out.append(digit_str(n % 10));
        proof {
            assert(final(out)@ =~= old(out)@ + digits_of(n as nat));
        }
    }
}

/// Appends exactly `w` zero-padded digits of `n % 10^w`.
fn push_padded(out: &mut String, n: u64, w: u32)
    ensures
        final(out)@ == old(out)@ + padded_digits(n as nat, w as nat),
    decreases w,
{
    if w == 0 {
        proof {
            assert(final(out)@ =~= old(out)@ + padded_digits(n as nat, 0));
        }
    } else {
        push_padded(out, n / 10, w - 1);
        out.append(digit_str(n % 10));
        proof {
            assert(final(out)@ =~= old(out)@ + padded_digits(n as nat, w as nat));
        }
    }
}

/// The decimal's magnitude in tenths, rounded half away from zero.
fn tenths_exec(d: Dec) -> (t: u64)
    requires
        dec_wf(d),
    ensures
        t == tenths(d.mant as nat, d.scale as nat),
{
    if d.scale == 0 {
        d.mant * 10
    } else {
        let p = pow10_u64(d.scale - 1);
        proof {
            lemma_pow10_mono((d.scale - 1) as nat, 17);
            lemma_pow10_17();
        }
        (d.mant + p / 2) / p
    }
}

/// Renders the decimal with exactly one fractional digit, rounding half
/// away from zero: `51.5074` becomes `51.5`.
pub fn format_one_decimal(d: Dec) -> (r: String)
    requires
        dec_wf(d),
    ensures
        r@ == dec_fmt1(d),
{
    let t = tenths_exec(d);
    let mut out = String::new();
    if d.neg {
        proof {
            reveal_strlit("-");
            assert("-"@ =~= seq!['-']);
        }
        out.append("-");
    }
    push_digits(&mut out, t / 10);
    proof {
        reveal_strlit(".");
        assert("."@ =~= seq!['.']);
    }
    out.append(".");
    out.append(digit_str(t % 10));
    proof {
        assert(out@ =~= dec_fmt1(d));
    }
    out
}

/// Renders the decimal in its plain form: `-0.12`, `51.5`, `7`.
pub fn dec_to_string(d: Dec) -> (r: String)
    requires
        dec_wf(d),
    ensures
        r@ == dec_display(d),
{
    let p = pow10_u64(d.scale);
    proof {
        lemma_pow10_mono(0, d.scale as nat);
    }
    let ip = d.mant / p;
    let fp = d.mant % p;
    let mut out = String::new();
    if d.neg {
        proof {
            reveal_strlit("-");
            assert("-"@ =~= seq!['-']);
        }
        out.append("-");
    }
    push_digits(&mut out, ip);
    if d.scale > 0 {
        proof {
            reveal_strlit(".");
            assert("."@ =~= seq!['.']);
        }
        out.append(".");
        push_padded(&mut out, fp, d.scale);
    }
    proof {
        assert(out@ =~= dec_display(d));
    }
    out
}

/// Strips trailing fractional zeros, mirroring [`norm`].
fn normalize(neg: bool, mant: u64, scale: u32) -> (r: Dec)
    requires
        mant < DEC_MANT_LIMIT,
        scale <= DEC_SCALE_LIMIT,
    ensures
        r.neg == neg,
        (r.mant as nat, r.scale as nat) == norm(mant as nat, scale as nat),
        dec_wf(r),
{
    let mut m: u64 = mant;
    let mut sc: u32 = scale;
    while sc > 0 && m % 10 == 0
        invariant
            m <= mant < DEC_MANT_LIMIT,
            sc <= scale,
            norm(mant as nat, scale as nat) == norm(m as nat, sc as nat),
        decreases sc,
    {
        m = m / 10;
        sc = sc - 1;
    }
    Dec { neg, mant: m, scale: sc }
}

} // verus!
