use vstd::prelude::*;

verus! {

// ------------------------------------------------------------------
// Decimal tokens for the unsigned integers the envelope carries
// ------------------------------------------------------------------

pub open spec fn spec_digit_char(d: int) -> char
    recommends
        0 <= d < 10,
{
    if d == 0 {
        '0'
    } else if d == 1 {
        '1'
    } else if d == 2 {
        '2'
    } else if d == 3 {
        '3'
    } else if d == 4 {
        '4'
    } else if d == 5 {
        '5'
    } else if d == 6 {
        '6'
    } else if d == 7 {
        '7'
    } else if d == 8 {
        '8'
    } else {
        '9'
    }
}

pub open spec fn spec_char_digit(c: char) -> int {
    c as int - '0' as int
}

pub open spec fn all_digits(s: Seq<char>) -> bool {
    forall|i: int| 0 <= i < s.len() ==> crate::json::is_digit_char(#[trigger] s[i])
}

/// The decimal digits of `n`, most significant first, without leading
/// zeros (except for `0` itself).
pub open spec fn spec_u64_string(n: u64) -> Seq<char>
    decreases n,
{
    if n < 10 {
        seq![spec_digit_char(n as int)]
    } else {
        spec_u64_string(n / 10) + seq![spec_digit_char(n as int % 10)]
    }
}

/// The value of a digit string, read left to right.
pub open spec fn spec_dec_value(s: Seq<char>) -> int
    decreases s.len(),
{
    if s.len() == 0 {
        0
    } else {
        spec_dec_value(s.drop_last()) * 10 + spec_char_digit(s.last())
    }
}

/// What reading a decimal token as a `u64` yields: a value exactly when
/// the token is all digits, nonempty, and small enough.
pub open spec fn spec_parse_u64(s: Seq<char>) -> Option<u64> {
    if s.len() > 0 && all_digits(s) && spec_dec_value(s) <= u64::MAX {
        Some(spec_dec_value(s) as u64)
    } else {
        None
    }
}

pub proof fn lemma_u64_string_wf(n: u64)
    ensures
        spec_u64_string(n).len() > 0,
        all_digits(spec_u64_string(n)),
        crate::json::wf_num_token(spec_u64_string(n)),
    decreases n,
{
    if n >= 10 {
        lemma_u64_string_wf(n / 10);
        let a = spec_u64_string(n / 10);
        let s = spec_u64_string(n);
        assert(forall|i: int| 0 <= i < a.len() ==> s[i] == a[i]);
        assert(s[s.len() - 1] == spec_digit_char(n as int % 10));
    }
}

/// Reading back the digits of `n` gives `n`.
pub proof fn lemma_u64_string_value(n: u64)
    ensures
        spec_dec_value(spec_u64_string(n)) == n,
    decreases n,
{
    if n < 10 {
        let s = spec_u64_string(n);
        assert(s.drop_last() =~= Seq::<char>::empty());
        assert(s.last() == spec_digit_char(n as int));
        assert(spec_char_digit(spec_digit_char(n as int)) == n as int);
        assert(spec_dec_value(s) == spec_dec_value(Seq::<char>::empty()) * 10 + n as int);
    } else {
        lemma_u64_string_value(n / 10);
        let a = spec_u64_string(n / 10);
        let s = spec_u64_string(n);
        assert(s.drop_last() =~= a);
        assert(s.last() == spec_digit_char(n as int % 10));
        assert(spec_char_digit(spec_digit_char(n as int % 10)) == n as int % 10);
        assert(spec_char_digit(spec_digit_char(n as int % 10)) == n as int % 10);
        assert(spec_dec_value(s) == spec_dec_value(a) * 10 + n as int % 10);
        assert((n as int / 10) * 10 + n as int % 10 == n as int) by (nonlinear_arith);
    }
}

/// The decimal round trip: the digits of `n` parse back to `n`.
pub proof fn lemma_u64_round_trip(n: u64)
    ensures
        spec_parse_u64(spec_u64_string(n)) == Some(n),
{
    lemma_u64_string_wf(n);
    lemma_u64_string_value(n);
}

/// A digit string's value never shrinks as the string grows.
proof fn lemma_dec_value_grows(s: Seq<char>, k: int)
    requires
        0 <= k <= s.len(),
        all_digits(s),
    ensures
        spec_dec_value(s.take(k)) <= spec_dec_value(s),
        spec_dec_value(s) >= 0,
    decreases s.len() - k,
{
    if k == s.len() {
        assert(s.take(k) =~= s);
        lemma_dec_value_nonneg(s);
    } else {
        lemma_dec_value_grows(s, k + 1);
        let a = s.take(k);
        let b = s.take(k + 1);
        assert(b.drop_last() =~= a);
        assert(b.last() == s[k]);
        lemma_dec_value_nonneg(a);
        assert(spec_char_digit(s[k]) >= 0);
        assert(spec_dec_value(a) * 10 >= spec_dec_value(a)) by (nonlinear_arith)
            requires
                spec_dec_value(a) >= 0,
        ;
    }
}

proof fn lemma_dec_value_nonneg(s: Seq<char>)
    requires
        all_digits(s),
    ensures
        spec_dec_value(s) >= 0,
    decreases s.len(),
{
    if s.len() > 0 {
        assert(all_digits(s.drop_last())) by {
            assert(forall|i: int|
                0 <= i < s.len() - 1 ==> #[trigger] s.drop_last()[i] == s[i]);
        }
        lemma_dec_value_nonneg(s.drop_last());
        assert(crate::json::is_digit_char(s.last()));
        assert(spec_dec_value(s.drop_last()) * 10 >= 0) by (nonlinear_arith)
            requires
                spec_dec_value(s.drop_last()) >= 0,
        ;
    }
}

/// The digits of `n`, appended to `out`.
fn write_u64(n: u64, out: &mut Vec<char>)
    ensures
        final(out)@ == old(out)@ + spec_u64_string(n),
    decreases n,
{
    let d = (n % 10) as u8;
    let c: char = if d == 0 {
        '0'
    } else if d == 1 {
        '1'
    } else if d == 2 {
        '2'
    } else if d == 3 {
        '3'
    } else if d == 4 {
        '4'
    } else if d == 5 {
        '5'
    } else if d == 6 {
        '6'
    } else if d == 7 {
        '7'
    } else if d == 8 {
        '8'
    } else {
        '9'
    };
    if n < 10 {
        out.push(c);
        assert(out@ =~= old(out)@ + spec_u64_string(n));
    } else {
        write_u64(n / 10, out);
        out.push(c);
        assert(out@ =~= old(out)@ + spec_u64_string(n));
    }
}

/// The decimal text of `n`.
pub fn u64_to_string(n: u64) -> (s: String)
    ensures
        s@ == spec_u64_string(n),
{
    let mut out: Vec<char> = Vec::new();
    write_u64(n, &mut out);
    assert(out@ =~= spec_u64_string(n));
    crate::text::chars_to_string(&out)
}

/// The `u64` a decimal token stands for, or nothing where the token is
/// empty, holds a non-digit, or overflows.
pub fn parse_u64(s: &String) -> (r: Option<u64>)
    ensures
        r == spec_parse_u64(s@),
{
    let cs = crate::text::string_to_chars(s.as_str());
    if cs.len() == 0 {
        return None;
    }
    let mut acc: u64 = 0;
    let mut k: usize = 0;
    while k < cs.len()
        invariant
            0 <= k <= cs.len(),
            cs@ == s@,
            all_digits(cs@.take(k as int)),
            acc == spec_dec_value(cs@.take(k as int)),
        decreases cs.len() - k,
    {
        let c = cs[k];
        if c < '0' || c > '9' {
            proof {
                assert(!crate::json::is_digit_char(cs@[k as int]));
            }
            return None;
        }
        let d = (c as u32 - 0x30) as u64;
        proof {
            assert(crate::json::is_digit_char(cs@[k as int]));
            assert(0x30 <= c as u32 <= 0x39);
            assert(c as int == c as u32 as int);
            assert(spec_char_digit(cs@[k as int]) == d);
        }
        if acc > (u64::MAX - d) / 10 {
            proof {
                let b = cs@.take(k + 1);
                assert(b.drop_last() =~= cs@.take(k as int));
                assert(b.last() == cs@[k as int]);
                assert(all_digits(b)) by {
                    assert(forall|i: int|
                        0 <= i < b.len() ==> #[trigger] b[i] == cs@.take(k + 1)[i]);
                }
                assert(spec_dec_value(b) == acc * 10 + d);
                assert(acc * 10 + d > u64::MAX) by (nonlinear_arith)
                    requires
                        acc > (u64::MAX - d) / 10,
                        0 <= d < 10,
                ;
                if all_digits(s@) {
                    lemma_dec_value_grows(s@, k + 1);
                    assert(cs@.take(k + 1) =~= s@.take(k + 1));
                }
            }
            return None;
        }
        proof {
            assert(acc * 10 + d <= u64::MAX) by (nonlinear_arith)
                requires
                    acc <= (u64::MAX - d) / 10,
                    0 <= d < 10,
            ;
        }
        acc = acc * 10 + d;
        k = k + 1;
        proof {
            let b = cs@.take(k as int);
            assert(b.drop_last() =~= cs@.take(k - 1));
            assert(b.last() == cs@[k - 1]);
            assert(all_digits(b)) by {
                assert(forall|i: int| 0 <= i < b.len() ==> #[trigger] b[i] == cs@[i]);
            }
        }
    }
    proof {
        assert(cs@.take(cs@.len() as int) =~= s@);
    }
    Some(acc)
}

} // verus!