//! Byte-string helpers: whitespace-delimited tokens, delimiter search,
//! and decimal integer parsing. All labels and message bodies are byte
//! strings, and whitespace means ASCII whitespace throughout.
use vstd::prelude::*;

verus! {

/// ASCII whitespace: space, tab, line feed, vertical tab, form feed,
/// carriage return.
pub open spec fn is_ws(b: u8) -> bool {
    b == 32 || b == 9 || b == 10 || b == 11 || b == 12 || b == 13
}

/// `s` without its leading whitespace.
pub open spec fn trim_start(s: Seq<u8>) -> Seq<u8>
    decreases s.len(),
{
    if s.len() == 0 {
        s
    } else if is_ws(s[0]) {
        trim_start(s.drop_first())
    } else {
        s
    }
}

/// The longest non-whitespace prefix of `s`.
pub open spec fn leading_token(s: Seq<u8>) -> Seq<u8>
    decreases s.len(),
{
    if s.len() == 0 || is_ws(s[0]) {
        Seq::empty()
    } else {
        seq![s[0]] + leading_token(s.drop_first())
    }
}

/// The first whitespace-delimited token of `s` (empty if `s` holds only
/// whitespace).
pub open spec fn first_token(s: Seq<u8>) -> Seq<u8> {
    leading_token(trim_start(s))
}

/// `s` holds at least one non-whitespace byte.
pub open spec fn has_token(s: Seq<u8>) -> bool {
    first_token(s).len() > 0
}

fn ws_byte(b: u8) -> (r: bool)
    ensures
        r == is_ws(b),
{
    b == 32 || b == 9 || b == 10 || b == 11 || b == 12 || b == 13
}

/// Extracts the first whitespace-delimited token of `s`, or `None` when
/// `s` is all whitespace.
pub fn take_first_token(s: &Vec<u8>) -> (r: Option<Vec<u8>>)
    ensures
        has_token(s@) ==> (r matches Some(t) && t@ == first_token(s@)),
        !has_token(s@) ==> r is None,
{
    let n = s.len();
    let mut i: usize = 0;
    proof {
        assert(s@.skip(0) =~= s@);
    }
    while i < n && ws_byte(s[i])
        invariant
            0 <= i <= n,
            n == s@.len(),
            trim_start(s@) == trim_start(s@.skip(i as int)),
        decreases n - i,
    {
        proof {
            assert(s@.skip(i as int).len() > 0);
            assert(s@.skip(i as int)[0] == s@[i as int]);
            assert(s@.skip(i as int).drop_first() =~= s@.skip(i as int + 1));
        }
        i = i + 1;
    }
    if i == n {
        proof {
            assert(s@.skip(n as int) =~= Seq::<u8>::empty());
            assert(first_token(s@).len() == 0);
        }
        return None;
    }
    proof {
        assert(s@.skip(i as int).len() > 0);
        assert(s@.skip(i as int)[0] == s@[i as int]);
        assert(trim_start(s@) == s@.skip(i as int));
    }
    let mut out: Vec<u8> = Vec::new();
    let mut j: usize = i;
    while j < n && !ws_byte(s[j])
        invariant
            0 <= i <= j <= n,
            n == s@.len(),
            trim_start(s@) == s@.skip(i as int),
            out@ == s@.subrange(i as int, j as int),
            leading_token(s@.skip(i as int)) == out@ + leading_token(s@.skip(j as int)),
        decreases n - j,
    {
        proof {
            assert(s@.skip(j as int).len() > 0);
            assert(s@.skip(j as int)[0] == s@[j as int]);
            assert(s@.skip(j as int).drop_first() =~= s@.skip(j as int + 1));
            assert(out@ + seq![s@[j as int]] =~= s@.subrange(i as int, j as int + 1));
            assert(out@ + (seq![s@[j as int]] + leading_token(s@.skip(j as int + 1))) =~= (
            out@ + seq![s@[j as int]]) + leading_token(s@.skip(j as int + 1)));
        }
        out.push(s[j]);
        j = j + 1;
    }
    proof {
        if j == n {
            assert(s@.skip(n as int) =~= Seq::<u8>::empty());
        }
        assert(leading_token(s@.skip(j as int)) =~= Seq::<u8>::empty());
        assert(out@ + Seq::<u8>::empty() =~= out@);
        assert(first_token(s@) == out@);
        assert(out@.len() > 0);
    }
    Some(out)
}

/// The least index `j >= i` with `s[j] == d`, or `s.len()` when there is
/// none.
pub open spec fn idx_of_from(s: Seq<u8>, d: u8, i: int) -> int
    decreases s.len() - i,
{
    if i < 0 || i >= s.len() {
        s.len() as int
    } else if s[i] == d {
        i
    } else {
        idx_of_from(s, d, i + 1)
    }
}

/// Finds the first occurrence of `d` in `s` at or after `from`.
pub fn find_byte(s: &Vec<u8>, d: u8, from: usize) -> (r: usize)
    requires
        from <= s@.len(),
    ensures
        r == idx_of_from(s@, d, from as int),
        from <= r <= s@.len(),
{
    let n = s.len();
    let mut j: usize = from;
    while j < n && s[j] != d
        invariant
            from <= j <= n,
            n == s@.len(),
            idx_of_from(s@, d, from as int) == idx_of_from(s@, d, j as int),
        decreases n - j,
    {
        j = j + 1;
    }
    j
}

/// Copies `s[i..j]` out as a fresh vector.
pub fn slice_range(s: &Vec<u8>, i: usize, j: usize) -> (r: Vec<u8>)
    requires
        i <= j <= s@.len(),
    ensures
        r@ == s@.subrange(i as int, j as int),
{
    let mut out: Vec<u8> = Vec::new();
    let mut k: usize = i;
    while k < j
        invariant
            i <= k <= j <= s@.len(),
            out@ == s@.subrange(i as int, k as int),
        decreases j - k,
    {
        proof {
            assert(out@ + seq![s@[k as int]] =~= s@.subrange(i as int, k as int + 1));
        }
        out.push(s[k]);
        k = k + 1;
    }
    out
}

/// `b` is an ASCII decimal digit.
pub open spec fn is_digit(b: u8) -> bool {
    48 <= b <= 57
}

/// Every byte of `s` is a decimal digit.
pub open spec fn all_digits(s: Seq<u8>) -> bool {
    forall|i: int| 0 <= i < s.len() ==> is_digit(s[i])
}

/// The value of a digit string read in base ten (0 for the empty string).
pub open spec fn dec_val(s: Seq<u8>) -> int
    decreases s.len(),
{
    if s.len() == 0 {
        0
    } else {
        dec_val(s.drop_last()) * 10 + (s.last() - 48)
    }
}

/// The integer a byte string denotes under the usual decimal syntax: an
/// optional sign followed by at least one digit; `None` otherwise.
pub open spec fn int_literal(s: Seq<u8>) -> Option<int> {
    if s.len() == 0 {
        Option::None
    } else if s[0] == 43 || s[0] == 45 {
        if s.len() > 1 && all_digits(s.skip(1)) {
            if s[0] == 45 {
                Option::Some(-dec_val(s.skip(1)))
            } else {
                Option::Some(dec_val(s.skip(1)))
            }
        } else {
            Option::None
        }
    } else if all_digits(s) {
        Option::Some(dec_val(s))
    } else {
        Option::None
    }
}

/// What `i32` decimal parsing yields on `s`: the denoted value when it
/// exists and fits, `None` otherwise.
pub open spec fn parse_i32_spec(s: Seq<u8>) -> Option<i32> {
    match int_literal(s) {
        Option::None => Option::None,
        Option::Some(v) => if i32::MIN <= v <= i32::MAX {
            Option::Some(v as i32)
        } else {
            Option::None
        },
    }
}

proof fn lemma_dec_val_nonneg(s: Seq<u8>)
    requires
        all_digits(s),
    ensures
        dec_val(s) >= 0,
    decreases s.len(),
{
    if s.len() > 0 {
        assert(all_digits(s.drop_last()));
        lemma_dec_val_nonneg(s.drop_last());
    }
}

proof fn lemma_dec_val_prefix_le(s: Seq<u8>, k: int)
    requires
        all_digits(s),
        0 <= k <= s.len(),
    ensures
        dec_val(s.subrange(0, k)) <= dec_val(s),
    decreases s.len() - k,
{
    if k == s.len() {
        assert(s.subrange(0, k) =~= s);
    } else {
        let p = s.subrange(0, k);
        let q = s.subrange(0, k + 1);
        assert(q.drop_last() =~= p);
        assert(q.last() == s[k]);
        assert(all_digits(p));
        lemma_dec_val_nonneg(p);
        assert(dec_val(q) == dec_val(p) * 10 + (s[k] - 48));
        assert(dec_val(p) * 10 >= dec_val(p)) by (nonlinear_arith)
            requires
                dec_val(p) >= 0,
        ;
        lemma_dec_val_prefix_le(s, k + 1);
    }
}

/// Parses `s` as a decimal `i32`, exactly as the usual string-to-integer
/// conversion does: optional sign, then digits, rejecting overflow.
pub fn parse_i32(s: &Vec<u8>) -> (r: Option<i32>)
    ensures
        r == parse_i32_spec(s@),
{
    let n = s.len();
    if n == 0 {
        return None;
    }
    let first = s[0];
    let neg = first == 45;
    let start: usize = if first == 43 || first == 45 {
        1
    } else {
        0
    };
    if start == n {
        // a bare sign has no digits
        return None;
    }
    let ghost dig = s@.skip(start as int);
    proof {
        if start == 0 {
            assert(s@.skip(0) =~= s@);
        }
    }
    let mut m: u64 = 0;
    let mut j: usize = start;
    while j < n
        invariant
            start <= j <= n,
            n == s@.len(),
            start == 0 || start == 1,
            n > start,
            neg == (s@[0] == 45),
            (start == 1) == (s@[0] == 43 || s@[0] == 45),
            dig == s@.skip(start as int),
            start == 0 ==> dig == s@,
            forall|k: int| 0 <= k < j - start ==> is_digit(dig[k]),
            m == dec_val(dig.subrange(0, j - start)),
            m <= 2147483648,
        decreases n - j,
    {
        let b = s[j];
        proof {
            assert(dig[j - start] == s@[j as int]);
        }
        if !(48 <= b && b <= 57) {
            proof {
                assert(!is_digit(dig[j - start]));
                assert(!all_digits(dig));
                assert(parse_i32_spec(s@) is None);
            }
            return None;
        }
        let d = (b - 48) as u64;
        let m2 = m * 10 + d;
        proof {
            let p = dig.subrange(0, j - start);
            let q = dig.subrange(0, j - start + 1);
            assert(q.drop_last() =~= p);
            assert(q.last() == dig[j - start]);
            assert(dec_val(q) == dec_val(p) * 10 + (dig[j - start] - 48));
        }
        if m2 > 2147483648 {
            // the magnitude already exceeds what any `i32` can hold, and
            // further digits only enlarge it
            proof {
                if all_digits(dig) {
                    lemma_dec_val_prefix_le(dig, j - start + 1);
                    assert(dec_val(dig) >= m2);
                    assert(dec_val(dig) > 2147483648);
                }
                assert(parse_i32_spec(s@) is None);
            }
            return None;
        }
        m = m2;
        j = j + 1;
    }
    proof {
        assert(dig.subrange(0, n - start) =~= dig);
        assert(all_digits(dig));
        assert(dec_val(dig) == m);
    }
    if neg {
        if m == 2147483648 {
            proof {
                assert(int_literal(s@) == Option::Some(-2147483648int));
                assert(parse_i32_spec(s@) == Option::Some(i32::MIN));
            }
            Some(i32::MIN)
        } else {
            proof {
                assert(int_literal(s@) == Option::Some(-(m as int)));
                assert(parse_i32_spec(s@) == Option::Some(-(m as int) as i32));
            }
            Some(-(m as i32))
        }
    } else {
        if m <= 2147483647 {
            proof {
                assert(int_literal(s@) == Option::Some(m as int));
            }
            Some(m as i32)
        } else {
            proof {
                assert(int_literal(s@) == Option::Some(m as int));
                assert(parse_i32_spec(s@) is None);
            }
            None
        }
    }
}

} // verus!
