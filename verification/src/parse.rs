//! Lexing and decimal-number parsing for the source format's free text fields
//! (path data, track point lists, polygon pad point lists).
//!
//! A number token is an optional sign, decimal digits, and an optional dot with
//! fraction digits; anything else fails to parse and is skipped by the callers,
//! never fatal. Values are micro-units; fraction digits beyond the sixth are
//! dropped.

use vstd::prelude::*;
use crate::num::MAX_COORD;
use crate::num::in_range;

verus! {

/// ASCII decimal digit.
pub open spec fn is_digit(b: u8) -> bool {
    48 <= b && b <= 57
}

/// ASCII whitespace, the token separators of the source format.
pub open spec fn is_space(b: u8) -> bool {
    b == 32 || b == 9 || b == 10 || b == 13
}

pub open spec fn all_digits(s: Seq<u8>) -> bool {
    forall|i: int| 0 <= i < s.len() ==> is_digit(#[trigger] s[i])
}

/// Value of a digit string, most significant first.
pub open spec fn digits_val(s: Seq<u8>) -> int
    decreases s.len(),
{
    if s.len() == 0 {
        0
    } else {
        digits_val(s.drop_last()) * 10 + (s.last() - 48)
    }
}

/// Index of the first dot, or the length if there is none.
pub open spec fn dot_index(s: Seq<u8>) -> int
    decreases s.len(),
{
    if s.len() == 0 {
        0
    } else if s[0] == 46 {
        0
    } else {
        1 + dot_index(s.drop_first())
    }
}

pub open spec fn pow10(k: nat) -> int
    decreases k,
{
    if k == 0 {
        1
    } else {
        10 * pow10((k - 1) as nat)
    }
}

/// Digits before the dot.
pub open spec fn int_part(s: Seq<u8>) -> Seq<u8> {
    s.take(dot_index(s))
}

/// Digits after the dot; empty when there is no dot.
pub open spec fn frac_part(s: Seq<u8>) -> Seq<u8> {
    if dot_index(s) == s.len() {
        Seq::empty()
    } else {
        s.skip(dot_index(s) + 1)
    }
}

/// An unsigned number: digits, at most one dot, at least one digit in all.
pub open spec fn magnitude_wf(s: Seq<u8>) -> bool {
    &&& all_digits(int_part(s))
    &&& all_digits(frac_part(s))
    &&& int_part(s).len() + frac_part(s).len() >= 1
}

/// The fraction digits as micro-units: the first six digits, zero-padded.
pub open spec fn frac_scaled(fp: Seq<u8>) -> int {
    if fp.len() >= 6 {
        digits_val(fp.take(6))
    } else {
        digits_val(fp) * pow10((6 - fp.len()) as nat)
    }
}

/// The magnitude of an unsigned number token, in micro-units.
pub open spec fn magnitude_val(s: Seq<u8>) -> int {
    digits_val(int_part(s)) * 1_000_000 + frac_scaled(frac_part(s))
}

/// What parsing a number token yields: `None` for a malformed token and for a
/// value beyond the engine's coordinate range.
pub open spec fn spec_parse_micro(s: Seq<u8>) -> Option<i64> {
    if s.len() >= 1 && (s[0] == 45 || s[0] == 43) {
        let rest = s.drop_first();
        if magnitude_wf(rest) && magnitude_val(rest) <= MAX_COORD as int {
            if s[0] == 45 {
                Some((-magnitude_val(rest)) as i64)
            } else {
                Some(magnitude_val(rest) as i64)
            }
        } else {
            None
        }
    } else if magnitude_wf(s) && magnitude_val(s) <= MAX_COORD as int {
        Some(magnitude_val(s) as i64)
    } else {
        None
    }
}

proof fn lemma_digits_val_nonneg(s: Seq<u8>)
    requires
        all_digits(s),
    ensures
        digits_val(s) >= 0,
    decreases s.len(),
{
    if s.len() > 0 {
        assert(all_digits(s.drop_last()));
        lemma_digits_val_nonneg(s.drop_last());
        assert(digits_val(s.drop_last()) * 10 >= 0);
    }
}

proof fn lemma_pow10_pos(k: nat)
    ensures
        pow10(k) >= 1,
    decreases k,
{
    if k > 0 {
        lemma_pow10_pos((k - 1) as nat);
    }
}

/// A well-formed magnitude is never negative.
proof fn lemma_magnitude_nonneg(s: Seq<u8>)
    requires
        magnitude_wf(s),
    ensures
        magnitude_val(s) >= 0,
        frac_scaled(frac_part(s)) >= 0,
{
    let ip = int_part(s);
    let fp = frac_part(s);
    lemma_digits_val_nonneg(ip);
    if fp.len() >= 6 {
        assert(all_digits(fp.take(6)));
        lemma_digits_val_nonneg(fp.take(6));
    } else {
        lemma_digits_val_nonneg(fp);
        lemma_pow10_pos((6 - fp.len()) as nat);
        assert(digits_val(fp) * pow10((6 - fp.len()) as nat) >= 0) by (nonlinear_arith)
            requires
                digits_val(fp) >= 0,
                pow10((6 - fp.len()) as nat) >= 0,
        ;
    }
    assert(digits_val(ip) * 1_000_000 >= 0);
}

/// Pins the first-dot index: no dot before `p`, and a dot at `p` unless `p` is
/// the length.
proof fn lemma_dot_index_char(s: Seq<u8>, p: int)
    requires
        0 <= p <= s.len(),
        forall|i: int| 0 <= i < p ==> #[trigger] s[i] != 46,
        p < s.len() ==> s[p] == 46,
    ensures
        dot_index(s) == p,
    decreases p,
{
    if p > 0 {
        lemma_dot_index_char(s.drop_first(), p - 1);
    }
}

/// Parses an unsigned number from `tok[start..]`; `Some` exactly when the tail
/// is well formed and its value is in range.
#[verifier::rlimit(100)]
fn parse_magnitude(tok: &[u8], start: usize) -> (r: Option<i64>)
    requires
        start <= tok@.len(),
    ensures
        ({
            let sub = tok@.skip(start as int);
            if magnitude_wf(sub) && magnitude_val(sub) <= MAX_COORD as int {
                r == Some(magnitude_val(sub) as i64)
            } else {
                r is None
            }
        }),
{
    let ghost sub = tok@.skip(start as int);
    let n = tok.len();
    // find the first dot
    let mut dp: usize = start;
    while dp < n && tok[dp] != 46
        invariant
            start <= dp <= n,
            n == tok@.len(),
            forall|i: int| start <= i < dp ==> #[trigger] tok@[i] != 46,
        decreases n - dp,
    {
        dp += 1;
    }
    proof {
        lemma_dot_index_char(sub, dp - start);
    }
    // integer digits
    let mut ival: i64 = 0;
    let mut over: bool = false;
    let ghost ip = int_part(sub);
    let mut i: usize = start;
    if i == dp && dp == n {
        // no digits at all
        return None;
    }
    while i < dp
        invariant
            start <= i <= dp <= n,
            n == tok@.len(),
            sub == tok@.skip(start as int),
            ip == int_part(sub),
            ip.len() == dp - start,
            forall|k: int| 0 <= k < ip.len() ==> ip[k] == tok@[start + k],
            all_digits(ip.take(i - start)),
            !over ==> 0 <= ival <= 1_000_000_000 && ival == digits_val(ip.take(i - start)),
            over ==> digits_val(ip.take(i - start)) > 1_000_000_000,
        decreases dp - i,
    {
        let b = tok[i];
        if b < 48 || b > 57 {
            proof {
                assert(ip[i - start] == b);
                assert(!all_digits(ip));
            }
            return None;
        }
        proof {
            assert(ip.take(i + 1 - start).drop_last() =~= ip.take(i - start));
            assert(ip.take(i + 1 - start).last() == b);
            if over {
                lemma_digits_val_nonneg(ip.take(i - start));
            }
        }
        if !over {
            ival = ival * 10 + ((b - 48) as i64);
            if ival > 1_000_000_000 {
                over = true;
            }
        }
        i += 1;
    }
    proof {
        assert(ip.take(dp - start) =~= ip);
    }
    // fraction digits
    let ghost fp = frac_part(sub);
    let mut fval: i64 = 0;
    let mut fcount: usize = 0;
    let mut j: usize = if dp < n {
        dp + 1
    } else {
        dp
    };
    let ghost fstart = j as int;
    if dp < n && j == n && i == dp && dp == start {
        // a lone dot
        return None;
    }
    while j < n
        invariant
            fstart <= j <= n,
            n == tok@.len(),
            sub == tok@.skip(start as int),
            fp == frac_part(sub),
            fstart == if dp < n { dp + 1 } else { dp as int },
            start <= dp <= n,
            dot_index(sub) == dp - start,
            fp.len() == n - fstart,
            forall|k: int| 0 <= k < fp.len() ==> fp[k] == tok@[fstart + k],
            all_digits(fp.take(j - fstart)),
            fcount == if j - fstart <= 6 { j - fstart } else { 6 },
            0 <= fval,
            fcount == 0 ==> fval == 0,
            fcount == 1 ==> fval <= 9,
            fcount == 2 ==> fval <= 99,
            fcount == 3 ==> fval <= 999,
            fcount == 4 ==> fval <= 9_999,
            fcount == 5 ==> fval <= 99_999,
            fcount == 6 ==> fval <= 999_999,
            fval == digits_val(fp.take(fcount as int)),
        decreases n - j,
    {
        let b = tok[j];
        if b < 48 || b > 57 {
            proof {
                assert(fp[j - fstart] == b);
                assert(!all_digits(fp));
            }
            return None;
        }
        proof {
            assert(fp.take(j + 1 - fstart).drop_last() =~= fp.take(j - fstart));
        }
        if fcount < 6 {
            proof {
                assert(fp.take(fcount + 1).drop_last() =~= fp.take(fcount as int));
                assert(fp.take(fcount + 1).last() == b);
            }
            fval = fval * 10 + ((b - 48) as i64);
            fcount += 1;
        }
        j += 1;
    }
    proof {
        assert(fp.take(fp.len() as int) =~= fp);
        assert(all_digits(fp));
        assert(all_digits(ip));
        if dp == n {
            assert(fp =~= Seq::<u8>::empty());
        }
    }
    // no digits at all?
    if dp == start && (dp >= n || dp + 1 >= n) {
        proof {
            assert(ip.len() + fp.len() == 0);
        }
        return None;
    }
    // scale the fraction to six digits
    let scale: i64 = if fcount == 0 {
        1_000_000
    } else if fcount == 1 {
        100_000
    } else if fcount == 2 {
        10_000
    } else if fcount == 3 {
        1_000
    } else if fcount == 4 {
        100
    } else if fcount == 5 {
        10
    } else {
        1
    };
    proof {
        reveal_with_fuel(pow10, 8);
        if fp.len() >= 6 {
            assert(frac_scaled(fp) == digits_val(fp.take(6)));
        } else {
            assert(frac_scaled(fp) == digits_val(fp) * pow10((6 - fp.len()) as nat));
            assert(fp.take(fp.len() as int) =~= fp);
        }
        lemma_digits_val_nonneg(ip);
    }
    proof {
        assert(0 <= fval as int * scale as int <= 999_999_000_000) by (nonlinear_arith)
            requires
                0 <= fval as int <= 999_999,
                1 <= scale as int <= 1_000_000,
        ;
    }
    let fmicro: i64 = fval * scale;
    if over {
        proof {
            assert(digits_val(ip) * 1_000_000 > 1_000_000_000_000_000);
            assert(frac_scaled(fp) >= 0);
        }
        return None;
    }
    let val: i64 = ival * 1_000_000 + fmicro;
    proof {
        reveal_with_fuel(pow10, 8);
        if fp.len() >= 6 {
            assert(fcount == 6);
            assert(scale == 1);
            assert(fval == digits_val(fp.take(6)));
            assert(fmicro == fval);
            assert(frac_scaled(fp) == digits_val(fp.take(6)));
            assert(fmicro == frac_scaled(fp));
        } else {
            assert(fcount == fp.len());
            assert(fval == digits_val(fp));
            assert(fmicro == frac_scaled(fp));
        }
        assert(magnitude_wf(sub));
        assert(val == magnitude_val(sub));
    }
    if val > MAX_COORD {
        return None;
    }
    Some(val)
}

/// Parses one number token to micro-units.
pub fn parse_micro(tok: &[u8]) -> (r: Option<i64>)
    ensures
        r == spec_parse_micro(tok@),
        r is Some ==> in_range(r->0 as int),
{
    let n = tok.len();
    if n == 0 {
        return None;
    }
    let first = tok[0];
    if first == 45 || first == 43 {
        proof {
            assert(tok@.skip(1) =~= tok@.drop_first());
        }
        proof {
            if magnitude_wf(tok@.drop_first()) {
                lemma_magnitude_nonneg(tok@.drop_first());
            }
        }
        match parse_magnitude(tok, 1) {
            Some(v) => {
                if first == 45 {
                    Some(-v)
                } else {
                    Some(v)
                }
            },
            None => None,
        }
    } else {
        proof {
            assert(tok@.skip(0) =~= tok@);
            if magnitude_wf(tok@) {
                lemma_magnitude_nonneg(tok@);
            }
        }
        parse_magnitude(tok, 0)
    }
}

/// Splitting on whitespace, one byte at a time: `cur` is the token being
/// collected.
pub open spec fn spec_tokenize_acc(s: Seq<u8>, cur: Seq<u8>) -> Seq<Seq<u8>>
    decreases s.len(),
{
    if s.len() == 0 {
        if cur.len() == 0 {
            Seq::empty()
        } else {
            seq![cur]
        }
    } else if is_space(s[0]) {
        if cur.len() == 0 {
            spec_tokenize_acc(s.drop_first(), Seq::empty())
        } else {
            seq![cur] + spec_tokenize_acc(s.drop_first(), Seq::empty())
        }
    } else {
        spec_tokenize_acc(s.drop_first(), cur.push(s[0]))
    }
}

/// The whitespace-separated tokens of `s`, in order.
pub open spec fn spec_tokenize(s: Seq<u8>) -> Seq<Seq<u8>> {
    spec_tokenize_acc(s, Seq::empty())
}

/// Splits on ASCII whitespace; empty tokens never appear.
pub fn tokenize(s: &[u8]) -> (r: Vec<Vec<u8>>)
    ensures
        r.deep_view() == spec_tokenize(s@),
{
    let n = s.len();
    let mut out: Vec<Vec<u8>> = Vec::new();
    let mut cur: Vec<u8> = Vec::new();
    let mut i: usize = 0;
    proof {
        assert(out.deep_view() =~= Seq::<Seq<u8>>::empty());
        assert(s@.skip(0) =~= s@);
    }
    while i < n
        invariant
            0 <= i <= n,
            n == s@.len(),
            spec_tokenize(s@) == out.deep_view() + spec_tokenize_acc(s@.skip(i as int), cur@),
        decreases n - i,
    {
        let b = s[i];
        let ghost rest = s@.skip(i as int);
        proof {
            assert(rest.drop_first() =~= s@.skip(i + 1));
            assert(rest[0] == s@[i as int]);
            assert(rest.len() > 0);
        }
        if b == 32 || b == 9 || b == 10 || b == 13 {
            if cur.len() > 0 {
                let ghost old_out = out.deep_view();
                let ghost tokv = cur@;
                proof {
                    assert(spec_tokenize_acc(rest, tokv) == seq![tokv] + spec_tokenize_acc(
                        rest.drop_first(),
                        Seq::<u8>::empty(),
                    ));
                }
                out.push(cur);
                cur = Vec::new();
                proof {
                    assert(cur@ =~= Seq::<u8>::empty());
                    assert(out.deep_view() =~~= old_out + seq![tokv]);
                    assert((old_out + seq![tokv]) + spec_tokenize_acc(
                        s@.skip(i + 1),
                        Seq::<u8>::empty(),
                    ) =~~= old_out + (seq![tokv] + spec_tokenize_acc(
                        s@.skip(i + 1),
                        Seq::<u8>::empty(),
                    )));
                }
            } else {
                proof {
                    assert(cur@ =~= Seq::<u8>::empty());
                    assert(spec_tokenize_acc(rest, cur@) == spec_tokenize_acc(
                        rest.drop_first(),
                        Seq::<u8>::empty(),
                    ));
                }
            }
        } else {
            let ghost old_cur = cur@;
            proof {
                assert(spec_tokenize_acc(rest, old_cur) == spec_tokenize_acc(
                    rest.drop_first(),
                    old_cur.push(rest[0]),
                ));
            }
            cur.push(b);
        }
        i += 1;
    }
    proof {
        assert(s@.skip(n as int) =~= Seq::<u8>::empty());
    }
    if cur.len() > 0 {
        let ghost old_out = out.deep_view();
        let ghost tokv = cur@;
        out.push(cur);
        proof {
            assert(out.deep_view() =~~= old_out + seq![tokv]);
        }
    } else {
        proof {
            assert(out.deep_view() + Seq::<Seq<u8>>::empty() =~~= out.deep_view());
        }
    }
    out
}

/// The numbers among a token list, in order; malformed tokens are skipped.
pub open spec fn spec_coord_list(toks: Seq<Seq<u8>>) -> Seq<i64>
    decreases toks.len(),
{
    if toks.len() == 0 {
        Seq::empty()
    } else {
        match spec_parse_micro(toks[0]) {
            Some(v) => seq![v] + spec_coord_list(toks.drop_first()),
            None => spec_coord_list(toks.drop_first()),
        }
    }
}

/// A value that parses is in the engine's range.
pub proof fn lemma_parse_in_range(t: Seq<u8>)
    ensures
        spec_parse_micro(t) is Some ==> in_range(spec_parse_micro(t)->0 as int),
{
    if t.len() >= 1 && (t[0] == 45 || t[0] == 43) {
        if magnitude_wf(t.drop_first()) {
            lemma_magnitude_nonneg(t.drop_first());
        }
    } else if magnitude_wf(t) {
        lemma_magnitude_nonneg(t);
    }
}

/// Every value of a coordinate list is in the engine's range.
pub proof fn lemma_coord_list_in_range(toks: Seq<Seq<u8>>)
    ensures
        forall|i: int|
            0 <= i < spec_coord_list(toks).len() ==> in_range(
                #[trigger] spec_coord_list(toks)[i] as int,
            ),
    decreases toks.len(),
{
    if toks.len() > 0 {
        lemma_coord_list_in_range(toks.drop_first());
        lemma_parse_in_range(toks[0]);
        match spec_parse_micro(toks[0]) {
            Some(v) => {
                assert(spec_coord_list(toks) == seq![v] + spec_coord_list(toks.drop_first()));
                assert forall|i: int| 0 <= i < spec_coord_list(toks).len() implies in_range(
                    #[trigger] spec_coord_list(toks)[i] as int,
                ) by {
                    if i > 0 {
                        assert(spec_coord_list(toks)[i] == spec_coord_list(toks.drop_first())[i
                            - 1]);
                    }
                }
            },
            None => {
                assert forall|i: int| 0 <= i < spec_coord_list(toks).len() implies in_range(
                    #[trigger] spec_coord_list(toks)[i] as int,
                ) by {
                    assert(spec_coord_list(toks)[i] == spec_coord_list(toks.drop_first())[i]);
                }
            },
        }
    }
}

/// Parses every number token in `s`, skipping what does not parse.
pub fn parse_coords(s: &[u8]) -> (r: Vec<i64>)
    ensures
        r@ == spec_coord_list(spec_tokenize(s@)),
        forall|i: int| 0 <= i < r@.len() ==> in_range(#[trigger] r@[i] as int),
{
    let toks = tokenize(s);
    let ghost full = toks.deep_view();
    let mut r: Vec<i64> = Vec::new();
    let mut i: usize = 0;
    proof {
        assert(full.skip(0) =~= full);
        assert(Seq::<i64>::empty() + spec_coord_list(full) =~= spec_coord_list(full));
    }
    while i < toks.len()
        invariant
            0 <= i <= toks.len(),
            full == toks.deep_view(),
            toks.deep_view().len() == toks@.len(),
            forall|k: int| 0 <= k < toks@.len() ==> #[trigger] toks@[k]@ == full[k],
            spec_coord_list(full) == r@ + spec_coord_list(full.skip(i as int)),
            forall|k: int| 0 <= k < r@.len() ==> in_range(#[trigger] r@[k] as int),
        decreases toks.len() - i,
    {
        proof {
            assert(full.skip(i as int).drop_first() =~= full.skip(i + 1));
            assert(full.skip(i as int)[0] == full[i as int]);
        }
        match parse_micro(toks[i].as_slice()) {
            Some(v) => {
                let ghost old_r = r@;
                r.push(v);
                proof {
                    assert(r@ =~= old_r + seq![v]);
                    assert(old_r + seq![v] + spec_coord_list(full.skip(i + 1)) =~= old_r + (seq![v]
                        + spec_coord_list(full.skip(i + 1))));
                }
            },
            None => {},
        }
        i += 1;
    }
    proof {
        assert(full.skip(toks@.len() as int) =~= Seq::<Seq<u8>>::empty());
        assert(r@ + Seq::<i64>::empty() =~= r@);
    }
    r
}

} // verus!
