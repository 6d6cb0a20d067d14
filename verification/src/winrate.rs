//! Win-rate parsing: a percentage text such as `"52.5%"` becomes the exact
//! decimal numeral of its value divided by one hundred (`"0.525"`), with no
//! floating point involved. Unparsable text yields nothing, never a default.

use vstd::prelude::*;

verus! {

/// A decimal digit.
pub open spec fn is_digit(c: char) -> bool {
    '0' <= c && c <= '9'
}

/// `s` with every `'%'` removed.
pub open spec fn strip_percent(s: Seq<char>) -> Seq<char>
    decreases s.len(),
{
    if s.len() == 0 {
        Seq::empty()
    } else {
        let rest = strip_percent(s.drop_last());
        if s.last() == '%' {
            rest
        } else {
            rest.push(s.last())
        }
    }
}

/// Every character of `s` is a decimal digit.
pub open spec fn all_digits(s: Seq<char>) -> bool {
    forall|i: int| 0 <= i < s.len() ==> is_digit(s[i])
}

/// The index of the first `'.'` in `s`, or `s.len()` if there is none.
pub open spec fn first_dot(s: Seq<char>) -> int
    decreases s.len(),
{
    if s.len() == 0 {
        0
    } else if s[0] == '.' {
        0
    } else {
        1 + first_dot(s.subrange(1, s.len() as int))
    }
}

/// The digits before the first `'.'` (all of `s` if there is no dot).
pub open spec fn int_digits(s: Seq<char>) -> Seq<char> {
    s.subrange(0, first_dot(s))
}

/// The digits after the first `'.'` (empty if there is no dot).
pub open spec fn frac_digits(s: Seq<char>) -> Seq<char> {
    if first_dot(s) == s.len() {
        Seq::empty()
    } else {
        s.subrange(first_dot(s) + 1, s.len() as int)
    }
}

/// `s` is an unsigned decimal numeral: digits, at most one `'.'`, and at
/// least one digit somewhere.
pub open spec fn valid_decimal(s: Seq<char>) -> bool {
    &&& all_digits(int_digits(s))
    &&& all_digits(frac_digits(s))
    &&& int_digits(s).len() + frac_digits(s).len() >= 1
}

/// `n` zero characters.
pub open spec fn zeros(n: nat) -> Seq<char> {
    Seq::new(n, |i: int| '0')
}

/// `s` without leading `'0'` characters.
pub open spec fn strip_lead_zeros(s: Seq<char>) -> Seq<char>
    decreases s.len(),
{
    if s.len() > 0 && s[0] == '0' {
        strip_lead_zeros(s.subrange(1, s.len() as int))
    } else {
        s
    }
}

/// `s` without trailing `'0'` characters.
pub open spec fn strip_trail_zeros(s: Seq<char>) -> Seq<char>
    decreases s.len(),
{
    if s.len() > 0 && s.last() == '0' {
        strip_trail_zeros(s.drop_last())
    } else {
        s
    }
}

/// The normalized decimal numeral of `u / 100`, for a valid numeral `u`:
/// the digits move two places past the decimal point, leading zeros of the
/// whole part and trailing zeros of the fraction are dropped, and an empty
/// whole part reads `0` while an empty fraction drops the point.
pub open spec fn shift2(u: Seq<char>) -> Seq<char> {
    let i0 = int_digits(u);
    let ipad = if i0.len() >= 2 {
        i0
    } else {
        zeros((2 - i0.len()) as nat) + i0
    };
    let whole = strip_lead_zeros(ipad.subrange(0, ipad.len() - 2));
    let frac = strip_trail_zeros(
        ipad.subrange(ipad.len() - 2, ipad.len() as int) + frac_digits(u),
    );
    let whole1 = if whole.len() == 0 {
        seq!['0']
    } else {
        whole
    };
    if frac.len() == 0 {
        whole1
    } else {
        whole1 + seq!['.'] + frac
    }
}

proof fn lemma_first_dot_is(s: Seq<char>, p: int)
    requires
        0 <= p <= s.len(),
        forall|j: int| 0 <= j < p ==> s[j] != '.',
        p < s.len() ==> s[p] == '.',
    ensures
        first_dot(s) == p,
    decreases p,
{
    if p == 0 {
        if s.len() > 0 && s[0] != '.' && s.len() > 0 {
            assert(first_dot(s) == 0 || s[0] == '.');
        }
    } else {
        assert(s[0] != '.');
        let t = s.subrange(1, s.len() as int);
        assert(forall|j: int| 0 <= j < p - 1 ==> t[j] != '.');
        lemma_first_dot_is(t, p - 1);
    }
}

proof fn lemma_strip_lead_is(s: Seq<char>, q: int)
    requires
        0 <= q <= s.len(),
        forall|j: int| 0 <= j < q ==> s[j] == '0',
        q < s.len() ==> s[q] != '0',
    ensures
        strip_lead_zeros(s) == s.subrange(q, s.len() as int),
    decreases q,
{
    if q == 0 {
        assert(s.subrange(0, s.len() as int) =~= s);
    } else {
        assert(s[0] == '0');
        let t = s.subrange(1, s.len() as int);
        lemma_strip_lead_is(t, q - 1);
        assert(t.subrange(q - 1, t.len() as int) =~= s.subrange(q, s.len() as int));
    }
}

proof fn lemma_strip_trail_is(s: Seq<char>, e: int)
    requires
        0 <= e <= s.len(),
        forall|k: int| e <= k < s.len() ==> s[k] == '0',
        e > 0 ==> s[e - 1] != '0',
    ensures
        strip_trail_zeros(s) == s.subrange(0, e),
    decreases s.len() - e,
{
    if e == s.len() {
        assert(s.subrange(0, s.len() as int) =~= s);
    } else {
        assert(s.last() == '0');
        let t = s.drop_last();
        assert(t =~= s.subrange(0, s.len() - 1));
        lemma_strip_trail_is(t, e);
        assert(t.subrange(0, e) =~= s.subrange(0, e));
    }
}

/// Removes every `'%'` from `v`.
fn strip_percent_exec(v: &Vec<char>) -> (r: Vec<char>)
    ensures
        r@ == strip_percent(v@),
{
    let mut out: Vec<char> = Vec::new();
    let mut i: usize = 0;
    while i < v.len()
        invariant
            i <= v@.len(),
            out@ == strip_percent(v@.subrange(0, i as int)),
        decreases v@.len() - i,
    {
        let c = v[i];
        proof {
            assert(v@.subrange(0, i + 1 as int).drop_last() =~= v@.subrange(0, i as int));
            assert(v@.subrange(0, i + 1 as int).last() == v@[i as int]);
        }
        if c != '%' {
            out.push(c);
        }
        i = i + 1;
    }
    proof {
        assert(v@.subrange(0, v@.len() as int) =~= v@);
    }
    out
}

/// Parses a percentage text to the exact decimal numeral of its value
/// divided by one hundred. All `'%'` characters are dropped first; what
/// remains must be an unsigned decimal numeral, else the result is `None`.
#[verifier::rlimit(100)]
pub fn parse_win_rate(text: &str) -> (r: Option<String>)
    ensures
        match r {
            Some(j) => valid_decimal(strip_percent(text@)) && j@ == shift2(strip_percent(text@)),
            None => !valid_decimal(strip_percent(text@)),
        },
{
    let cs = crate::text::str_chars(text);
    let u = strip_percent_exec(&cs);
    let n: usize = u.len();
    // find the first dot
    let mut p: usize = 0;
    while p < n && u[p] != '.'
        invariant
            p <= n,
            n == u@.len(),
            forall|j: int| 0 <= j < p ==> u@[j] != '.',
        decreases n - p,
    {
        p = p + 1;
    }
    proof {
        lemma_first_dot_is(u@, p as int);
    }
    // check that everything else is a digit
    let mut ok: bool = n > p || p > 0;
    let mut i: usize = 0;
    while i < n
        invariant
            i <= n,
            n == u@.len(),
            u@ == strip_percent(text@),
            first_dot(u@) == p as int,
            p <= n,
            ok == (n > p || p > 0),
            forall|j: int| 0 <= j < i && j != p ==> is_digit(u@[j]),
        decreases n - i,
    {
        let c = u[i];
        if i != p && !('0' <= c && c <= '9') {
            proof {
                if (i as int) < p as int {
                    assert(int_digits(u@)[i as int] == u@[i as int]);
                    assert(!all_digits(int_digits(u@)));
                } else {
                    assert(frac_digits(u@)[i - p - 1] == u@[i as int]);
                    assert(!all_digits(frac_digits(u@)));
                }
            }
            return None;
        }
        i = i + 1;
    }
    proof {
        assert(forall|j: int|
            0 <= j < int_digits(u@).len() ==> is_digit(#[trigger] int_digits(u@)[j]));
        assert(forall|j: int|
            0 <= j < frac_digits(u@).len() ==> is_digit(#[trigger] frac_digits(u@)[j]));
    }
    if !ok {
        proof {
            assert(p == 0 && n <= p);
            assert(int_digits(u@).len() == 0 && frac_digits(u@).len() == 0);
        }
        return None;
    }
    proof {
        if p > 0 {
            assert(int_digits(u@).len() == p as int);
        } else {
            assert(n > 0 && p == 0 && u@[0] == '.');
            assert(frac_digits(u@).len() == n - 1);
            if n == 1 {
                assert(!valid_decimal(u@)) by {
                    assert(int_digits(u@).len() + frac_digits(u@).len() == 0);
                }
            }
        }
    }
    if p == 0 && n == 1 {
        return None;
    }
    proof {
        assert(valid_decimal(u@));
    }
    // the whole part of the shifted numeral: digits of the integer part but
    // its last two, leading zeros dropped
    let mut out: Vec<char> = Vec::new();
    let ghost i0 = int_digits(u@);
    let ghost ipad = if i0.len() >= 2 {
        i0
    } else {
        zeros((2 - i0.len()) as nat) + i0
    };
    let ghost whole_raw = ipad.subrange(0, ipad.len() - 2);
    proof {
        if p >= 2 {
            assert(whole_raw =~= u@.subrange(0, p - 2));
        } else {
            assert(whole_raw =~= Seq::<char>::empty());
        }
    }
    let wlen: usize = if p >= 2 {
        p - 2
    } else {
        0
    };
    let mut q: usize = 0;
    while q < wlen && u[q] == '0'
        invariant
            q <= wlen,
            wlen as int == whole_raw.len(),
            n == u@.len(),
            p <= n,
            wlen <= p,
            whole_raw =~= u@.subrange(0, wlen as int),
            forall|j: int| 0 <= j < q ==> u@[j] == '0',
        decreases wlen - q,
    {
        q = q + 1;
    }
    proof {
        lemma_strip_lead_is(whole_raw, q as int);
    }
    let ghost whole = strip_lead_zeros(whole_raw);
    if q == wlen {
        out.push('0');
        proof {
            assert(whole.len() == 0);
            assert(out@ =~= seq!['0']);
        }
    } else {
        let mut k: usize = q;
        while k < wlen
            invariant
                q <= k <= wlen,
                wlen <= p <= n,
                n == u@.len(),
                whole =~= u@.subrange(q as int, wlen as int),
                out@ == u@.subrange(q as int, k as int),
            decreases wlen - k,
        {
            out.push(u[k]);
            proof {
                assert(out@ =~= u@.subrange(q as int, k + 1 as int));
            }
            k = k + 1;
        }
        proof {
            assert(out@ =~= whole);
        }
    }
    let ghost whole1 = out@;
    // the fraction: the last two integer digits (zero-padded) then the
    // fractional digits, trailing zeros dropped
    let mut fr: Vec<char> = Vec::new();
    if p >= 2 {
        fr.push(u[p - 2]);
        fr.push(u[p - 1]);
        proof {
            assert(fr@ =~= ipad.subrange(ipad.len() - 2, ipad.len() as int));
        }
    } else if p == 1 {
        fr.push('0');
        fr.push(u[0]);
        proof {
            assert(fr@ =~= ipad.subrange(ipad.len() - 2, ipad.len() as int));
        }
    } else {
        fr.push('0');
        fr.push('0');
        proof {
            assert(fr@ =~= ipad.subrange(ipad.len() - 2, ipad.len() as int));
        }
    }
    let ghost two = fr@;
    let mut k: usize = if p < n {
        p + 1
    } else {
        n
    };
    let ghost fstart = k as int;
    proof {
        assert(fr@ =~= two + u@.subrange(fstart, fstart));
    }
    while k < n
        invariant
            0 <= fstart <= k <= n,
            n == u@.len(),
            two == ipad.subrange(ipad.len() - 2, ipad.len() as int),
            fr@ == two + u@.subrange(fstart, k as int),
        decreases n - k,
    {
        fr.push(u[k]);
        proof {
            assert(fr@ == (two + u@.subrange(fstart, k as int)).push(u@[k as int]));
            assert(u@.subrange(fstart, k + 1 as int) =~= u@.subrange(fstart, k as int).push(
                u@[k as int],
            ));
            assert((two + u@.subrange(fstart, k as int)).push(u@[k as int]) =~= two + (u@.subrange(
                fstart,
                k as int,
            ).push(u@[k as int])));
        }
        k = k + 1;
    }
    let ghost fr_raw = ipad.subrange(ipad.len() - 2, ipad.len() as int) + frac_digits(u@);
    proof {
        assert(fr@ =~= fr_raw);
    }
    // drop trailing zeros
    let mut e: usize = fr.len();
    while e > 0 && fr[e - 1] == '0'
        invariant
            e <= fr@.len(),
            forall|j: int| e <= j < fr@.len() ==> fr@[j] == '0',
        decreases e,
    {
        e = e - 1;
    }
    proof {
        lemma_strip_trail_is(fr@, e as int);
    }
    if e > 0 {
        out.push('.');
        let mut k2: usize = 0;
        while k2 < e
            invariant
                k2 <= e <= fr@.len(),
                out@ == whole1 + seq!['.'] + fr@.subrange(0, k2 as int),
            decreases e - k2,
        {
            out.push(fr[k2]);
            proof {
                assert(out@ =~= whole1 + seq!['.'] + fr@.subrange(0, k2 + 1 as int));
            }
            k2 = k2 + 1;
        }
        proof {
            assert(out@ =~= shift2(u@));
        }
    } else {
        proof {
            assert(strip_trail_zeros(fr_raw).len() == 0);
            assert(out@ =~= shift2(u@));
        }
    }
    Some(crate::text::chars_to_string(&out))
}


/// The numeric value of a digit character (zero for anything else).
pub open spec fn digit_val(c: char) -> int {
    if c == '1' {
        1
    } else if c == '2' {
        2
    } else if c == '3' {
        3
    } else if c == '4' {
        4
    } else if c == '5' {
        5
    } else if c == '6' {
        6
    } else if c == '7' {
        7
    } else if c == '8' {
        8
    } else if c == '9' {
        9
    } else {
        0
    }
}

/// The integer a digit string denotes (zero for the empty string).
pub open spec fn digits_val(s: Seq<char>) -> int
    decreases s.len(),
{
    if s.len() == 0 {
        0
    } else {
        digits_val(s.drop_last()) * 10 + digit_val(s.last())
    }
}

/// Ten to the `n`.
pub open spec fn pow10(n: nat) -> int
    decreases n,
{
    if n == 0 {
        1
    } else {
        10 * pow10((n - 1) as nat)
    }
}

/// The numerator of a decimal numeral: all its digits read as one integer.
pub open spec fn dec_num(s: Seq<char>) -> int {
    digits_val(int_digits(s) + frac_digits(s))
}

/// The scale of a decimal numeral: its value is `dec_num` over ten to this.
pub open spec fn dec_scale(s: Seq<char>) -> nat {
    frac_digits(s).len()
}

proof fn lemma_pow10_add(a: nat, b: nat)
    ensures
        pow10(a + b) == pow10(a) * pow10(b),
    decreases a,
{
    if a == 0 {
    } else {
        lemma_pow10_add((a - 1) as nat, b);
        assert((a + b - 1) as nat == (a - 1) as nat + b);
        assert(pow10(a + b) == 10 * pow10((a - 1) as nat + b));
        assert(10 * (pow10((a - 1) as nat) * pow10(b)) == (10 * pow10((a - 1) as nat)) * pow10(
            b,
        )) by (nonlinear_arith);
    }
}

proof fn lemma_digits_val_concat(a: Seq<char>, b: Seq<char>)
    ensures
        digits_val(a + b) == digits_val(a) * pow10(b.len()) + digits_val(b),
    decreases b.len(),
{
    if b.len() == 0 {
        assert(a + b =~= a);
    } else {
        let b0 = b.drop_last();
        lemma_digits_val_concat(a, b0);
        assert((a + b).drop_last() =~= a + b0);
        assert((a + b).last() == b.last());
        assert(digits_val(a + b) == digits_val(a + b0) * 10 + digit_val(b.last()));
        assert((digits_val(a) * pow10(b0.len()) + digits_val(b0)) * 10 == digits_val(a) * (pow10(
            b0.len(),
        ) * 10) + digits_val(b0) * 10) by (nonlinear_arith);
        assert(pow10(b.len()) == 10 * pow10(b0.len()));
    }
}

proof fn lemma_zeros_val(k: nat)
    ensures
        digits_val(zeros(k)) == 0,
        forall|j: int| 0 <= j < k ==> zeros(k)[j] == '0',
    decreases k,
{
    if k > 0 {
        lemma_zeros_val((k - 1) as nat);
        assert(zeros(k).drop_last() =~= zeros((k - 1) as nat));
        assert(zeros(k).last() == '0');
    }
}

proof fn lemma_strip_lead_val(s: Seq<char>)
    ensures
        strip_lead_zeros(s).len() <= s.len(),
        digits_val(strip_lead_zeros(s)) == digits_val(s),
        all_digits(s) ==> all_digits(strip_lead_zeros(s)),
    decreases s.len(),
{
    if s.len() > 0 && s[0] == '0' {
        let t = s.subrange(1, s.len() as int);
        lemma_strip_lead_val(t);
        assert(s =~= seq!['0'] + t);
        lemma_digits_val_concat(seq!['0'], t);
        assert(digits_val(seq!['0']) == 0) by {
            assert(seq!['0'].drop_last() =~= Seq::<char>::empty());
            assert(digits_val(Seq::<char>::empty()) == 0);
            assert(seq!['0'].last() == '0');
        }
    }
}

proof fn lemma_strip_trail_val(s: Seq<char>)
    ensures
        strip_trail_zeros(s).len() <= s.len(),
        digits_val(strip_trail_zeros(s)) * pow10((s.len() - strip_trail_zeros(s).len()) as nat)
            == digits_val(s),
        all_digits(s) ==> all_digits(strip_trail_zeros(s)),
    decreases s.len(),
{
    if s.len() > 0 && s.last() == '0' {
        let t = s.drop_last();
        lemma_strip_trail_val(t);
        let st = strip_trail_zeros(s);
        assert(st == strip_trail_zeros(t));
        let k = (t.len() - st.len()) as nat;
        assert(digits_val(s) == digits_val(t) * 10 + digit_val('0'));
        assert((s.len() - st.len()) as nat == k + 1);
        assert(pow10(k + 1) == 10 * pow10(k));
        assert(digits_val(st) * (10 * pow10(k)) == (digits_val(st) * pow10(k)) * 10) by (nonlinear_arith);
        assert(all_digits(s) ==> all_digits(t));
    }
}

/// The parsed win rate is exactly the percentage divided by one hundred:
/// as exact rationals, the value of `shift2(u)` equals the value of `u`
/// over one hundred, written cross-multiplied so that only integers appear.
pub proof fn lemma_shift2_value(u: Seq<char>)
    requires
        valid_decimal(u),
    ensures
        dec_num(shift2(u)) * pow10((dec_scale(u) + 2) as nat) == dec_num(u) * pow10(
            dec_scale(shift2(u)),
        ),
{
    let i0 = int_digits(u);
    let ff = frac_digits(u);
    let ipad = if i0.len() >= 2 {
        i0
    } else {
        zeros((2 - i0.len()) as nat) + i0
    };
    let m = ipad.len() as int;
    assert(m >= 2);
    let int2 = ipad.subrange(0, m - 2);
    let fr2 = ipad.subrange(m - 2, m);
    let fr_raw = fr2 + ff;
    let whole = strip_lead_zeros(int2);
    let frac3 = strip_trail_zeros(fr_raw);
    let whole1 = if whole.len() == 0 {
        seq!['0']
    } else {
        whole
    };
    let out = shift2(u);
    // every character in play is a digit
    assert(all_digits(ipad)) by {
        if i0.len() < 2 {
            lemma_zeros_val((2 - i0.len()) as nat);
            assert(forall|j: int| 0 <= j < ipad.len() ==> is_digit(#[trigger] ipad[j]));
        }
    }
    assert(all_digits(int2));
    assert(all_digits(fr_raw));
    lemma_strip_lead_val(int2);
    lemma_strip_trail_val(fr_raw);
    assert(all_digits(whole1)) by {
        assert(is_digit('0'));
    }
    assert(all_digits(frac3));
    // the value of the padded integer part
    assert(digits_val(ipad) == digits_val(i0)) by {
        if i0.len() < 2 {
            let k = (2 - i0.len()) as nat;
            lemma_zeros_val(k);
            lemma_digits_val_concat(zeros(k), i0);
        }
    }
    assert(pow10(2) == 100) by {
        assert(pow10(0) == 1);
        assert(pow10(1) == 10);
    }
    assert(ipad =~= int2 + fr2);
    lemma_digits_val_concat(int2, fr2);
    assert(fr2.len() == 2);
    assert(digits_val(ipad) == digits_val(int2) * 100 + digits_val(fr2));
    lemma_digits_val_concat(fr2, ff);
    assert(digits_val(fr_raw) == digits_val(fr2) * pow10(ff.len()) + digits_val(ff));
    lemma_digits_val_concat(i0, ff);
    assert(dec_num(u) == digits_val(i0) * pow10(ff.len()) + digits_val(ff));
    // the shape of the output numeral
    assert(whole1.len() > 0);
    assert(forall|j: int| 0 <= j < whole1.len() ==> whole1[j] != '.') by {
        assert(forall|j: int|
            0 <= j < whole1.len() ==> is_digit(#[trigger] whole1[j]) && whole1[j] != '.');
    }
    if frac3.len() == 0 {
        assert(out == whole1);
        lemma_first_dot_is(out, out.len() as int);
        assert(int_digits(out) =~= whole1);
        assert(frac_digits(out) =~= Seq::<char>::empty());
    } else {
        assert(out == whole1 + seq!['.'] + frac3);
        assert(forall|j: int| 0 <= j < whole1.len() ==> out[j] != '.');
        assert(out[whole1.len() as int] == '.');
        lemma_first_dot_is(out, whole1.len() as int);
        assert(int_digits(out) =~= whole1);
        assert(frac_digits(out) =~= frac3);
    }
    assert(dec_scale(out) == frac3.len());
    lemma_digits_val_concat(whole1, frac3);
    assert(dec_num(out) == digits_val(whole1) * pow10(frac3.len()) + digits_val(frac3)) by {
        assert(int_digits(out) + frac_digits(out) =~= whole1 + frac3);
    }
    // the whole part keeps its value through the stripping
    assert(digits_val(whole1) == digits_val(int2)) by {
        if whole.len() == 0 {
            assert(digits_val(seq!['0']) == 0) by {
                assert(seq!['0'].drop_last() =~= Seq::<char>::empty());
                assert(digits_val(Seq::<char>::empty()) == 0);
                assert(seq!['0'].last() == '0');
            }
        }
    }
    // name the quantities and finish by algebra
    let a = digits_val(int2);
    let b = digits_val(fr2);
    let c = digits_val(ff);
    let d = digits_val(frac3);
    let p = pow10(ff.len());
    let q = pow10(frac3.len());
    let w = pow10((ff.len() + 2) as nat);
    let t = (fr_raw.len() - frac3.len()) as nat;
    assert(w == 100 * p) by {
        lemma_pow10_add(2, ff.len());
    }
    assert(d * pow10(t) == b * p + c);
    assert(pow10(t) * q == w) by {
        lemma_pow10_add(t, frac3.len());
        assert(t + frac3.len() == ff.len() + 2);
    }
    assert(dec_num(out) == a * q + d);
    assert(dec_num(u) == (a * 100 + b) * p + c);
    assert(dec_scale(u) == ff.len());
    assert((a * q + d) * w == (((a * 100 + b) * p) + c) * q) by (nonlinear_arith)
        requires
            d * pow10(t) == b * p + c,
            pow10(t) * q == w,
            w == 100 * p,
    ;
    assert(pow10((dec_scale(u) + 2) as nat) == w);
}

} // verus!
