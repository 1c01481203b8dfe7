//! The byte-level wire form of the claims object.
//!
//! A claims object `{ subject, expiresAt }` travels inside the token as the
//! JSON text `{"sub":"<subject>","exp":<millis>}`.  This module states that
//! text exactly — decimal rendering of the expiry, backslash escaping of
//! quote and backslash in the subject — writes it, parses it back, and
//! proves that parsing a written object returns the object.

use vstd::prelude::*;

verus! {

/// ASCII decimal digit.
pub open spec fn spec_is_digit(b: u8) -> bool {
    48 <= b <= 57
}

/// The decimal rendering of `n`, most significant digit first, no sign,
/// no leading zeros (a single `0` for zero).
pub open spec fn spec_dec_digits(n: nat) -> Seq<u8>
    decreases n,
{
    if n < 10 {
        seq![(48 + n) as u8]
    } else {
        spec_dec_digits(n / 10).push((48 + n % 10) as u8)
    }
}

/// The value of a digit string, most significant digit first.
pub open spec fn spec_digits_val(s: Seq<u8>) -> int
    decreases s.len(),
{
    if s.len() == 0 {
        0
    } else {
        spec_digits_val(s.drop_last()) * 10 + (s.last() - 48)
    }
}

/// Every byte of `s` is an ASCII decimal digit.
pub open spec fn spec_all_digits(s: Seq<u8>) -> bool {
    forall|i: int| 0 <= i < s.len() ==> spec_is_digit(#[trigger] s[i])
}

/// Rendering a number and reading the digit string back returns the number.
pub proof fn lemma_dec_digits(n: nat)
    ensures
        spec_digits_val(spec_dec_digits(n)) == n,
        spec_all_digits(spec_dec_digits(n)),
        spec_dec_digits(n).len() >= 1,
    decreases n,
{
    if n < 10 {
        let s = spec_dec_digits(n);
        assert(s.drop_last() =~= Seq::<u8>::empty());
        assert(spec_digits_val(Seq::<u8>::empty()) == 0);
        assert(s.last() == (48 + n) as u8);
        assert((48 + n) as u8 == 48 + n);
    } else {
        lemma_dec_digits(n / 10);
        let s = spec_dec_digits(n);
        assert(s.drop_last() =~= spec_dec_digits(n / 10));
        assert(n % 10 < 10);
        assert(s.last() == (48 + n % 10) as u8);
        assert((48 + n % 10) as u8 == 48 + n % 10);
        vstd::arithmetic::div_mod::lemma_fundamental_div_mod(n as int, 10);
        assert(spec_digits_val(s) == (n / 10) * 10 + n % 10);
    }
}

/// A digit string is worth at least as much as any of its prefixes.
pub proof fn lemma_digits_val_prefix_le(s: Seq<u8>, i: int)
    requires
        0 <= i <= s.len(),
        spec_all_digits(s),
    ensures
        spec_digits_val(s.subrange(0, i)) <= spec_digits_val(s),
        spec_digits_val(s) >= 0,
    decreases s.len() - i,
{
    if i == s.len() {
        assert(s.subrange(0, i) =~= s);
        lemma_digits_val_nonneg(s);
    } else {
        lemma_digits_val_prefix_le(s, i + 1);
        let p = s.subrange(0, i + 1);
        assert(p.drop_last() =~= s.subrange(0, i));
        lemma_digits_val_nonneg(s.subrange(0, i));
        assert(spec_digits_val(p) == spec_digits_val(s.subrange(0, i)) * 10 + (s[i] - 48));
        assert(spec_digits_val(s.subrange(0, i)) * 10 >= spec_digits_val(s.subrange(0, i)))
            by (nonlinear_arith)
            requires spec_digits_val(s.subrange(0, i)) >= 0;
    }
}

/// The value of an all-digit string is never negative.
pub proof fn lemma_digits_val_nonneg(s: Seq<u8>)
    requires
        spec_all_digits(s),
    ensures
        spec_digits_val(s) >= 0,
    decreases s.len(),
{
    if s.len() > 0 {
        assert(spec_all_digits(s.drop_last()));
        lemma_digits_val_nonneg(s.drop_last());
        assert(spec_digits_val(s.drop_last()) * 10 >= 0) by (nonlinear_arith)
            requires spec_digits_val(s.drop_last()) >= 0;
    }
}

/// The JSON string escaping applied to the subject: quote and backslash get
/// a preceding backslash, every other byte passes through.
pub open spec fn spec_escape(s: Seq<u8>) -> Seq<u8>
    decreases s.len(),
{
    if s.len() == 0 {
        Seq::empty()
    } else {
        (if s[0] == 34 || s[0] == 92 {
            seq![92u8, s[0]]
        } else {
            seq![s[0]]
        }) + spec_escape(s.drop_first())
    }
}

/// Escaping ASCII bytes yields ASCII bytes: the escape only copies input
/// bytes and inserts backslashes.
pub proof fn lemma_escape_ascii(s: Seq<u8>)
    requires
        forall|i: int| 0 <= i < s.len() ==> #[trigger] s[i] < 128,
    ensures
        forall|i: int| 0 <= i < spec_escape(s).len() ==> #[trigger] spec_escape(s)[i] < 128,
    decreases s.len(),
{
    if s.len() > 0 {
        assert(forall|i: int|
            0 <= i < s.drop_first().len() ==> #[trigger] s.drop_first()[i] < 128);
        lemma_escape_ascii(s.drop_first());
        let head = if s[0] == 34 || s[0] == 92 { seq![92u8, s[0]] } else { seq![s[0]] };
        let tail = spec_escape(s.drop_first());
        assert(spec_escape(s) == head + tail);
        assert forall|i: int| 0 <= i < spec_escape(s).len() implies #[trigger] spec_escape(
            s,
        )[i] < 128 by {
            if i < head.len() {
                assert(spec_escape(s)[i] == head[i]);
            } else {
                assert(spec_escape(s)[i] == tail[i - head.len()]);
            }
        }
    }
}

/// Escaping distributes over concatenation.
pub proof fn lemma_escape_append(a: Seq<u8>, b: Seq<u8>)
    ensures
        spec_escape(a + b) == spec_escape(a) + spec_escape(b),
    decreases a.len(),
{
    if a.len() == 0 {
        assert(a + b =~= b);
        assert(spec_escape(a) + spec_escape(b) =~= spec_escape(b));
    } else {
        assert((a + b).drop_first() =~= a.drop_first() + b);
        lemma_escape_append(a.drop_first(), b);
        assert((a + b).len() > 0);
        assert((a + b)[0] == a[0]);
        let head = if a[0] == 34 || a[0] == 92 { seq![92u8, a[0]] } else { seq![a[0]] };
        assert(spec_escape(a + b) == head + (spec_escape(a.drop_first()) + spec_escape(b)));
        assert(head + (spec_escape(a.drop_first()) + spec_escape(b)) =~= (head + spec_escape(
            a.drop_first(),
        )) + spec_escape(b));
    }
}

/// The scanner for a JSON string body: starting just after the opening
/// quote, it collects bytes (honouring the two escapes) until the closing
/// quote, returning the unescaped content and the index just past that
/// quote.
pub open spec fn spec_scan_string(s: Seq<u8>, i: int) -> Option<(Seq<u8>, int)>
    decreases s.len() - i,
{
    if i < 0 || i >= s.len() {
        None
    } else if s[i] == 34 {
        Some((Seq::empty(), i + 1))
    } else if s[i] == 92 {
        if i + 1 < s.len() && (s[i + 1] == 34 || s[i + 1] == 92) {
            match spec_scan_string(s, i + 2) {
                Some(p) => Some((seq![s[i + 1]] + p.0, p.1)),
                None => None,
            }
        } else {
            None
        }
    } else {
        match spec_scan_string(s, i + 1) {
            Some(p) => Some((seq![s[i]] + p.0, p.1)),
            None => None,
        }
    }
}

/// Scanning an escaped subject followed by its closing quote recovers the
/// subject and stops just past the quote.
pub proof fn lemma_scan_escaped(s: Seq<u8>, pre: Seq<u8>, sub: Seq<u8>, rest: Seq<u8>)
    requires
        s == pre + spec_escape(sub) + seq![34u8] + rest,
    ensures
        spec_scan_string(s, pre.len() as int) == Some(
            (sub, pre.len() + spec_escape(sub).len() + 1int),
        ),
    decreases sub.len(),
{
    let i = pre.len() as int;
    if sub.len() == 0 {
        assert(spec_escape(sub) =~= Seq::<u8>::empty());
        assert(s[i] == 34);
        assert(spec_scan_string(s, i) == Some((Seq::<u8>::empty(), i + 1)));
    } else {
        let b = sub[0];
        let tail = sub.drop_first();
        let head = if b == 34 || b == 92 { seq![92u8, b] } else { seq![b] };
        assert(spec_escape(sub) == head + spec_escape(tail));
        if b == 34 || b == 92 {
            let pre2 = pre + seq![92u8, b];
            assert(s =~= pre2 + spec_escape(tail) + seq![34u8] + rest);
            lemma_scan_escaped(s, pre2, tail, rest);
            assert(s[i] == 92);
            assert(s[i + 1] == b);
            assert(i + 1 < s.len());
            let p = spec_scan_string(s, i + 2)->Some_0;
            assert(p.0 == tail && p.1 == pre2.len() + spec_escape(tail).len() + 1);
            assert(seq![s[i + 1]] + tail =~= sub);
            assert(pre2.len() + spec_escape(tail).len() + 1 == i + spec_escape(sub).len() + 1);
        } else {
            let pre2 = pre + seq![b];
            assert(s =~= pre2 + spec_escape(tail) + seq![34u8] + rest);
            lemma_scan_escaped(s, pre2, tail, rest);
            assert(s[i] == b);
            assert(b != 34 && b != 92);
            let p = spec_scan_string(s, i + 1)->Some_0;
            assert(p.0 == tail && p.1 == pre2.len() + spec_escape(tail).len() + 1);
            assert(seq![s[i]] + tail =~= sub);
        }
    }
}

/// The opening text of the claims object, `{"sub":"`.
pub open spec fn spec_claims_prefix() -> Seq<u8> {
    seq![123u8, 34u8, 115u8, 117u8, 98u8, 34u8, 58u8, 34u8]
}

/// The text between the subject's closing quote and the expiry digits,
/// `,"exp":`.
pub open spec fn spec_exp_key() -> Seq<u8> {
    seq![44u8, 34u8, 101u8, 120u8, 112u8, 34u8, 58u8]
}

/// The full claims text `{"sub":"<escaped subject>","exp":<digits>}`.
pub open spec fn spec_claims_json(sub: Seq<u8>, exp: u64) -> Seq<u8> {
    spec_claims_prefix() + spec_escape(sub) + seq![34u8] + spec_exp_key() + spec_dec_digits(
        exp as nat,
    ) + seq![125u8]
}

/// The strict claims parser: accepts exactly the texts this module writes
/// (up to redundant digit forms), returning subject bytes and expiry.
pub open spec fn spec_parse_claims(c: Seq<u8>) -> Option<(Seq<u8>, u64)> {
    if c.len() < 8 || c.subrange(0, 8) != spec_claims_prefix() {
        None
    } else {
        match spec_scan_string(c, 8) {
            None => None,
            Some((sub, j)) => {
                if j + 7 + 1 < c.len() && c.subrange(j, j + 7) == spec_exp_key() && c[c.len() - 1]
                    == 125 && spec_all_digits(c.subrange(j + 7, c.len() - 1)) && spec_digits_val(
                    c.subrange(j + 7, c.len() - 1),
                ) <= u64::MAX {
                    Some((sub, spec_digits_val(c.subrange(j + 7, c.len() - 1)) as u64))
                } else {
                    None
                }
            },
        }
    }
}

/// Parsing a written claims object returns the object.
pub proof fn lemma_claims_round_trip(sub: Seq<u8>, exp: u64)
    ensures
        spec_parse_claims(spec_claims_json(sub, exp)) == Some((sub, exp)),
{
    let c = spec_claims_json(sub, exp);
    let digits = spec_dec_digits(exp as nat);
    lemma_dec_digits(exp as nat);
    assert(c.subrange(0, 8) =~= spec_claims_prefix());
    let rest = spec_exp_key() + digits + seq![125u8];
    assert(c =~= spec_claims_prefix() + spec_escape(sub) + seq![34u8] + rest);
    lemma_scan_escaped(c, spec_claims_prefix(), sub, rest);
    let j = 8 + spec_escape(sub).len() as int + 1;
    assert(spec_scan_string(c, 8) == Some((sub, j)));
    assert(c.subrange(j, j + 7) =~= spec_exp_key());
    assert(c.subrange(j + 7, c.len() - 1) =~= digits);
    assert(c[c.len() - 1] == 125);
    assert(j + 7 + 1 < c.len());
}

/// Render `n` in decimal, most significant digit first.
pub fn u64_to_dec(n: u64) -> (r: Vec<u8>)
    ensures
        r@ == spec_dec_digits(n as nat),
    decreases n,
{
    if n < 10 {
        let mut v: Vec<u8> = Vec::new();
        v.push(48 + (n as u8));
        proof {
            assert(v@ =~= seq![(48 + n as nat) as u8]);
        }
        v
    } else {
        let mut v = u64_to_dec(n / 10);
        v.push(48 + ((n % 10) as u8));
        proof {
            assert(v@ =~= spec_dec_digits((n / 10) as nat).push((48 + (n as nat) % 10) as u8));
        }
        v
    }
}

/// Append the escaped form of `src` to `out`.
pub fn escape_into(src: &Vec<u8>, out: &mut Vec<u8>)
    ensures
        final(out)@ == old(out)@ + spec_escape(src@),
{
    let ghost entry = out@;
    let mut i: usize = 0;
    while i < src.len()
        invariant
            i <= src@.len(),
            out@ == entry + spec_escape(src@.subrange(0, i as int)),
        decreases src@.len() - i,
    {
        let b = src[i];
        proof {
            assert(src@.subrange(0, i + 1) =~= src@.subrange(0, i as int) + seq![src@[i as int]]);
            lemma_escape_append(src@.subrange(0, i as int), seq![src@[i as int]]);
            assert(seq![src@[i as int]].drop_first() =~= Seq::<u8>::empty());
            assert(spec_escape(Seq::<u8>::empty()) == Seq::<u8>::empty());
            if b == 34 || b == 92 {
                assert(spec_escape(seq![src@[i as int]]) =~= seq![92u8, src@[i as int]]);
            } else {
                assert(spec_escape(seq![src@[i as int]]) =~= seq![src@[i as int]]);
            }
        }
        if b == 34 || b == 92 {
            out.push(92);
            out.push(b);
            proof {
                assert(out@ =~= entry + spec_escape(src@.subrange(0, i + 1)));
            }
        } else {
            out.push(b);
            proof {
                assert(out@ =~= entry + spec_escape(src@.subrange(0, i + 1)));
            }
        }
        i = i + 1;
    }
    proof {
        assert(src@.subrange(0, src@.len() as int) =~= src@);
    }
}

/// Write the claims object `{"sub":"...","exp":...}` for this subject and
/// expiry instant.
pub fn write_claims(sub: &Vec<u8>, exp: u64) -> (r: Vec<u8>)
    ensures
        r@ == spec_claims_json(sub@, exp),
{
    let mut v: Vec<u8> = Vec::new();
    v.push(123);
    v.push(34);
    v.push(115);
    v.push(117);
    v.push(98);
    v.push(34);
    v.push(58);
    v.push(34);
    proof {
        assert(v@ =~= spec_claims_prefix());
    }
    escape_into(sub, &mut v);
    v.push(34);
    v.push(44);
    v.push(34);
    v.push(101);
    v.push(120);
    v.push(112);
    v.push(34);
    v.push(58);
    proof {
        assert(v@ =~= spec_claims_prefix() + spec_escape(sub@) + seq![34u8] + spec_exp_key());
    }
    let mut d = u64_to_dec(exp);
    v.append(&mut d);
    v.push(125);
    proof {
        assert(v@ =~= spec_claims_json(sub@, exp));
    }
    v
}

/// Scan a JSON string body starting just after its opening quote; return
/// the unescaped content and the index just past the closing quote.
pub fn scan_string(c: &Vec<u8>, start: usize) -> (r: Option<(Vec<u8>, usize)>)
    requires
        start <= c@.len(),
    ensures
        match r {
            Some(p) => spec_scan_string(c@, start as int) == Some((p.0@, p.1 as int)) && start
                < p.1 <= c@.len(),
            None => spec_scan_string(c@, start as int) is None,
        },
{
    let mut i: usize = start;
    let mut acc: Vec<u8> = Vec::new();
    loop
        invariant
            start <= i <= c@.len(),
            spec_scan_string(c@, start as int) is Some <==> spec_scan_string(c@, i as int)
                is Some,
            spec_scan_string(c@, i as int) matches Some(p) ==> spec_scan_string(
                c@,
                start as int,
            ) == Some((acc@ + p.0, p.1)),
        decreases c@.len() - i,
    {
        if i >= c.len() {
            return None;
        }
        let b = c[i];
        if b == 34 {
            proof {
                assert(spec_scan_string(c@, i as int) == Some((Seq::<u8>::empty(), i + 1int)));
                assert(acc@ + Seq::<u8>::empty() =~= acc@);
            }
            return Some((acc, i + 1));
        } else if b == 92 {
            if i + 1 < c.len() && (c[i + 1] == 34 || c[i + 1] == 92) {
                let nb = c[i + 1];
                proof {
                    if spec_scan_string(c@, i + 2) is Some {
                        let p = spec_scan_string(c@, i + 2)->Some_0;
                        assert(spec_scan_string(c@, i as int) == Some(
                            (seq![c@[i + 1]] + p.0, p.1),
                        ));
                        assert(acc@ + (seq![c@[i + 1]] + p.0) =~= acc@.push(c@[i + 1]) + p.0);
                    }
                }
                acc.push(nb);
                i = i + 2;
            } else {
                return None;
            }
        } else {
            proof {
                if spec_scan_string(c@, i + 1) is Some {
                    let p = spec_scan_string(c@, i + 1)->Some_0;
                    assert(spec_scan_string(c@, i as int) == Some((seq![c@[i as int]] + p.0, p.1)));
                    assert(acc@ + (seq![c@[i as int]] + p.0) =~= acc@.push(c@[i as int]) + p.0);
                }
            }
            acc.push(b);
            i = i + 1;
        }
    }
}

/// Parse a claims object written by [`write_claims`]; return the subject
/// bytes and the expiry instant.
pub fn parse_claims(c: &Vec<u8>) -> (r: Option<(Vec<u8>, u64)>)
    ensures
        match r {
            Some(p) => spec_parse_claims(c@) == Some((p.0@, p.1)),
            None => spec_parse_claims(c@) is None,
        },
{
    if c.len() < 8 {
        return None;
    }
    if !(c[0] == 123 && c[1] == 34 && c[2] == 115 && c[3] == 117 && c[4] == 98 && c[5] == 34
        && c[6] == 58 && c[7] == 34) {
        proof {
            assert(c@.subrange(0, 8) != spec_claims_prefix());
        }
        return None;
    }
    proof {
        assert(c@.subrange(0, 8) =~= spec_claims_prefix());
    }
    let scanned = scan_string(c, 8);
    let (sub, j) = match scanned {
        None => { return None; },
        Some(p) => p,
    };
    if c.len() - j < 9 {
        return None;
    }
    if !(c[j] == 44 && c[j + 1] == 34 && c[j + 2] == 101 && c[j + 3] == 120 && c[j + 4] == 112
        && c[j + 5] == 34 && c[j + 6] == 58) {
        proof {
            assert(c@.subrange(j as int, j + 7) != spec_exp_key());
        }
        return None;
    }
    proof {
        assert(c@.subrange(j as int, j + 7) =~= spec_exp_key());
    }
    if c[c.len() - 1] != 125 {
        return None;
    }
    let ghost digits = c@.subrange(j + 7, c@.len() - 1);
    let stop = c.len() - 1;
    let mut i: usize = j + 7;
    let mut acc: u64 = 0;
    while i < stop
        invariant
            j + 7 <= i <= stop,
            stop == c@.len() - 1,
            j + 9 <= c@.len(),
            digits == c@.subrange(j + 7, c@.len() - 1),
            c@.subrange(0, 8) == spec_claims_prefix(),
            spec_scan_string(c@, 8) == Some((sub@, j as int)),
            c@.subrange(j as int, j + 7) == spec_exp_key(),
            c@[c@.len() - 1] == 125,
            spec_all_digits(c@.subrange(j + 7, i as int)),
            acc == spec_digits_val(c@.subrange(j + 7, i as int)),
        decreases stop - i,
    {
        let b = c[i];
        if b < 48 || b > 57 {
            proof {
                assert(digits[i - (j + 7)] == c@[i as int]);
                assert(!spec_all_digits(digits));
            }
            return None;
        }
        let d = b - 48;
        proof {
            assert(c@.subrange(j + 7, i + 1).drop_last() =~= c@.subrange(j + 7, i as int));
            assert(spec_digits_val(c@.subrange(j + 7, i + 1)) == acc * 10 + d);
            assert(spec_all_digits(c@.subrange(j + 7, i + 1)));
        }
        if acc > (u64::MAX - (d as u64)) / 10 {
            proof {
                vstd::arithmetic::div_mod::lemma_fundamental_div_mod(
                    u64::MAX - (d as u64),
                    10,
                );
                assert(acc * 10 + d > u64::MAX);
                if spec_all_digits(digits) {
                    lemma_digits_val_prefix_le(digits, i + 1 - (j + 7));
                    assert(digits.subrange(0, i + 1 - (j + 7)) =~= c@.subrange(j + 7, i + 1));
                    assert(spec_digits_val(digits) > u64::MAX);
                }
            }
            return None;
        }
        proof {
            vstd::arithmetic::div_mod::lemma_fundamental_div_mod(u64::MAX - (d as u64), 10);
            assert(acc * 10 + d <= u64::MAX);
        }
        acc = acc * 10 + (d as u64);
        i = i + 1;
    }
    proof {
        assert(c@.subrange(j + 7, i as int) =~= digits);
        assert(c@[c@.len() - 1] == 125);
    }
    Some((sub, acc))
}

} // verus!
