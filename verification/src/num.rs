use vstd::prelude::*;

verus! {

/// One of the ten decimal digit characters.
pub open spec fn is_digit_char(c: char) -> bool {
    48 <= c as u32 <= 57
}

/// The character for a single digit value.
pub open spec fn digit_char(d: nat) -> char {
    if d == 0 {
        '0'
    } else if d == 1 {
        '1'
    } else if d == 2 {
        '2'
    } else if d == 3 {
        '3'
    } else if d == 4 {
        '4'
    } else if d == 5 {
        '5'
    } else if d == 6 {
        '6'
    } else if d == 7 {
        '7'
    } else if d == 8 {
        '8'
    } else {
        '9'
    }
}

/// The decimal rendering of a natural number, without leading zeros
/// (except for zero itself).
pub open spec fn dec_str(n: nat) -> Seq<char>
    decreases n,
{
    if n < 10 {
        seq![digit_char(n)]
    } else {
        dec_str(n / 10).push(digit_char(n % 10))
    }
}

pub proof fn lemma_dec_str_chars(n: nat)
    ensures
        dec_str(n).len() >= 1,
        forall|i: int| 0 <= i < dec_str(n).len() ==> is_digit_char(#[trigger] dec_str(n)[i]),
        n >= 10 ==> dec_str(n).len() >= 2,
    decreases n,
{
    if n >= 10 {
        lemma_dec_str_chars(n / 10);
    }
}

/// Two numbers with the same decimal rendering are the same number.
pub proof fn lemma_dec_str_injective(a: nat, b: nat)
    requires
        dec_str(a) == dec_str(b),
    ensures
        a == b,
    decreases a,
{
    lemma_dec_str_chars(a);
    lemma_dec_str_chars(b);
    if a < 10 && b < 10 {
        assert(dec_str(a) =~= seq![digit_char(a)]);
        assert(dec_str(b) =~= seq![digit_char(b)]);
        assert(seq![digit_char(a)][0] == digit_char(a));
        assert(seq![digit_char(b)][0] == digit_char(b));
        assert(digit_char(a) == digit_char(b));
        assert(a == b);
    } else if a < 10 {
        assert(dec_str(a).len() == 1);
    } else if b < 10 {
        assert(dec_str(b).len() == 1);
    } else {
        let sa = dec_str(a / 10);
        let sb = dec_str(b / 10);
        assert(dec_str(a) == sa.push(digit_char(a % 10)));
        assert(dec_str(b) == sb.push(digit_char(b % 10)));
        assert(sa.push(digit_char(a % 10)).len() == sa.len() + 1);
        assert(sa.len() == sb.len());
        assert(sa =~= sb) by {
            assert forall|i: int| 0 <= i < sa.len() implies sa[i] == sb[i] by {
                assert(sa.push(digit_char(a % 10))[i] == sa[i]);
                assert(sb.push(digit_char(b % 10))[i] == sb[i]);
            }
        }
        lemma_dec_str_injective(a / 10, b / 10);
        let la = sa.len() as int;
        assert(sa.push(digit_char(a % 10))[la] == digit_char(a % 10));
        assert(sb.push(digit_char(b % 10))[la] == digit_char(b % 10));
        assert(digit_char(a % 10) == digit_char(b % 10));
        assert(a % 10 == b % 10);
        assert(a == (a / 10) * 10 + a % 10);
        assert(b == (b / 10) * 10 + b % 10);
    }
}

/// The decimal rendering of a signed number: a minus sign for negatives.
pub open spec fn int_dec_str(v: int) -> Seq<char> {
    if v < 0 {
        seq!['-'] + dec_str((-v) as nat)
    } else {
        dec_str(v as nat)
    }
}

pub proof fn lemma_int_dec_str_injective(a: int, b: int)
    requires
        int_dec_str(a) == int_dec_str(b),
    ensures
        a == b,
{
    lemma_dec_str_chars(if a < 0 { (-a) as nat } else { a as nat });
    lemma_dec_str_chars(if b < 0 { (-b) as nat } else { b as nat });
    if a < 0 && b < 0 {
        assert((seq!['-'] + dec_str((-a) as nat)).skip(1) =~= dec_str((-a) as nat));
        assert((seq!['-'] + dec_str((-b) as nat)).skip(1) =~= dec_str((-b) as nat));
        lemma_dec_str_injective((-a) as nat, (-b) as nat);
    } else if a < 0 {
        assert(int_dec_str(a)[0] == '-');
        assert(is_digit_char(int_dec_str(b)[0]));
    } else if b < 0 {
        assert(int_dec_str(b)[0] == '-');
        assert(is_digit_char(int_dec_str(a)[0]));
    } else {
        lemma_dec_str_injective(a as nat, b as nat);
    }
}

/// The value of a digit string, most significant digit first.
pub open spec fn dec_val(s: Seq<char>) -> int
    decreases s.len(),
{
    if s.len() == 0 {
        0
    } else {
        dec_val(s.drop_last()) * 10 + (s.last() as u32 - 48)
    }
}

pub open spec fn all_digits(s: Seq<char>) -> bool {
    forall|i: int| 0 <= i < s.len() ==> is_digit_char(#[trigger] s[i])
}

pub proof fn lemma_dec_val_nonneg(s: Seq<char>)
    requires
        all_digits(s),
    ensures
        dec_val(s) >= 0,
    decreases s.len(),
{
    if s.len() > 0 {
        assert(all_digits(s.drop_last()));
        lemma_dec_val_nonneg(s.drop_last());
        assert(is_digit_char(s.last()));
    }
}

/// A longer digit string never has a smaller value.
pub proof fn lemma_dec_val_monotone(s: Seq<char>, k: int)
    requires
        all_digits(s),
        0 <= k <= s.len(),
    ensures
        dec_val(s) >= dec_val(s.take(k)),
    decreases s.len() - k,
{
    if k < s.len() {
        lemma_dec_val_monotone(s, k + 1);
        assert(s.take(k + 1).drop_last() =~= s.take(k));
        assert(s.take(k + 1).last() == s[k]);
        assert(is_digit_char(s[k]));
        assert(all_digits(s.take(k)));
        lemma_dec_val_nonneg(s.take(k));
        assert(dec_val(s.take(k + 1)) == dec_val(s.take(k)) * 10 + (s[k] as u32 - 48));
    } else {
        assert(s.take(k) =~= s);
    }
}

/// The syntax that a decimal integer field accepts: an optional sign, then
/// at least one digit.
pub open spec fn is_int_literal(s: Seq<char>) -> bool {
    if s.len() >= 1 && (s[0] == '+' || s[0] == '-') {
        s.len() >= 2 && all_digits(s.skip(1))
    } else {
        s.len() >= 1 && all_digits(s)
    }
}

/// The value of a decimal integer literal.
pub open spec fn int_literal_val(s: Seq<char>) -> int {
    if s.len() >= 1 && s[0] == '-' {
        -dec_val(s.skip(1))
    } else if s.len() >= 1 && s[0] == '+' {
        dec_val(s.skip(1))
    } else {
        dec_val(s)
    }
}

/// Whether a digit character stands at `i` of `s`.
fn digit_at(s: &str, i: usize) -> (r: Option<u8>)
    requires
        i < s@.len(),
    ensures
        r matches Some(d) ==> is_digit_char(s@[i as int]) && d < 10 && d == s@[i as int] as u32
            - 48,
        r is None ==> !is_digit_char(s@[i as int]),
{
    let c = s.get_char(i);
    let u = c as u32;
    if 48 <= u && u <= 57 {
        Some((u - 48) as u8)
    } else {
        None
    }
}

/// Reads a 32-bit signed integer from decimal text: an optional sign and
/// digits, as the `max_tokens` field requires. `None` when the text has any
/// other shape or the value does not fit.
#[verifier::loop_isolation(false)]
pub fn parse_i32(s: &str) -> (r: Option<i32>)
    ensures
        r is Some <==> is_int_literal(s@) && -2147483648 <= int_literal_val(s@) <= 2147483647,
        r matches Some(v) ==> v as int == int_literal_val(s@),
{
    let n = s.unicode_len();
    if n == 0 {
        return None;
    }
    let c0 = s.get_char(0);
    let neg = c0 == '-';
    let signed = c0 == '-' || c0 == '+';
    let start: usize = if signed {
        1
    } else {
        0
    };
    if n == start {
        return None;
    }
    let ghost digits = if signed {
        s@.skip(1)
    } else {
        s@
    };
    let mut i: usize = start;
    let mut acc: u64 = 0;
    while i < n
        invariant
            start <= i <= n,
            n == s@.len(),
            start == if signed { 1int } else { 0int },
            digits == (if signed {
                s@.skip(1)
            } else {
                s@
            }),
            digits.len() == n - start,
            forall|j: int| 0 <= j < i - start ==> is_digit_char(#[trigger] digits[j]),
            acc <= 2147483648,
            acc == dec_val(digits.take(i - start)),
        decreases n - i,
    {
        proof {
            assert(digits[i - start] == s@[i as int]);
        }
        let d = match digit_at(s, i) {
            Some(d) => d,
            None => {
                proof {
                    assert(!is_digit_char(digits[i - start]));
                }
                return None;
            },
        };
        acc = acc * 10 + (d as u64);
        proof {
            assert(digits.take(i - start + 1).drop_last() =~= digits.take(i - start));
            assert(digits.take(i - start + 1).last() == digits[i - start]);
        }
        i = i + 1;
        if acc > 2147483648 {
            proof {
                if is_int_literal(s@) {
                    assert(all_digits(digits));
                    lemma_dec_val_monotone(digits, i - start);
                    assert(digits.take(digits.len() as int) =~= digits);
                    assert(dec_val(digits) >= acc > 2147483648);
                }
            }
            return None;
        }
    }
    proof {
        assert(digits.take(n - start) =~= digits);
        assert(all_digits(digits));
        assert(is_int_literal(s@));
    }
    if neg {
        if acc == 2147483648 {
            Some(i32::MIN)
        } else {
            Some(-(acc as i32))
        }
    } else {
        if acc <= 2147483647 {
            Some(acc as i32)
        } else {
            None
        }
    }
}

/// The first position in `s` holding `c1` or `c2`, or -1.
pub open spec fn find2(s: Seq<char>, c1: char, c2: char) -> int
    decreases s.len(),
{
    if s.len() == 0 {
        -1
    } else if s[0] == c1 || s[0] == c2 {
        0
    } else {
        let r = find2(s.skip(1), c1, c2);
        if r == -1 {
            -1
        } else {
            r + 1
        }
    }
}

pub proof fn lemma_find2(s: Seq<char>, c1: char, c2: char)
    ensures
        find2(s, c1, c2) == -1 ==> forall|i: int|
            0 <= i < s.len() ==> !(#[trigger] s[i] == c1 || s[i] == c2),
        find2(s, c1, c2) != -1 ==> {
            let k = find2(s, c1, c2);
            &&& 0 <= k < s.len()
            &&& (s[k] == c1 || s[k] == c2)
            &&& forall|j: int| 0 <= j < k ==> !(#[trigger] s[j] == c1 || s[j] == c2)
        },
    decreases s.len(),
{
    if s.len() > 0 && !(s[0] == c1 || s[0] == c2) {
        let t = s.skip(1);
        lemma_find2(t, c1, c2);
        if find2(t, c1, c2) == -1 {
            assert forall|i: int| 0 <= i < s.len() implies !(#[trigger] s[i] == c1 || s[i] == c2) by {
                if i >= 1 {
                    assert(t[i - 1] == s[i]);
                    assert(!(t[i - 1] == c1 || t[i - 1] == c2));
                }
            }
        } else {
            let k = find2(t, c1, c2);
            assert(t[k] == s[k + 1]);
            assert forall|j: int| 0 <= j < k + 1 implies !(#[trigger] s[j] == c1 || s[j] == c2) by {
                if j >= 1 {
                    assert(t[j - 1] == s[j]);
                    assert(!(t[j - 1] == c1 || t[j - 1] == c2));
                }
            }
        }
    }
}

/// The position that `find2` names, computed by a forward scan over
/// `s[from..to]`.
#[verifier::loop_isolation(false)]
pub fn find2_in(s: &str, from: usize, to: usize, c1: char, c2: char) -> (r: Option<usize>)
    requires
        from <= to <= s@.len(),
    ensures
        r is None ==> find2(s@.subrange(from as int, to as int), c1, c2) == -1,
        r matches Some(k) ==> from <= k < to && find2(s@.subrange(from as int, to as int), c1, c2)
            == k - from,
{
    let ghost t = s@.subrange(from as int, to as int);
    proof {
        lemma_find2(t, c1, c2);
    }
    let mut i: usize = from;
    while i < to
        invariant
            from <= i <= to <= s@.len(),
            t == s@.subrange(from as int, to as int),
            forall|j: int| 0 <= j < i - from ==> !(#[trigger] t[j] == c1 || t[j] == c2),
        decreases to - i,
    {
        let c = s.get_char(i);
        proof {
            assert(t[i - from] == s@[i as int]);
        }
        if c == c1 || c == c2 {
            proof {
                let k = find2(t, c1, c2);
                assert(k != -1);
                assert(k == i - from) by {
                    if k < i - from {
                        assert(!(t[k] == c1 || t[k] == c2));
                    }
                }
            }
            return Some(i);
        }
        i = i + 1;
    }
    proof {
        let k = find2(t, c1, c2);
        if k != -1 {
            assert(!(t[k] == c1 || t[k] == c2));
        }
    }
    None
}

/// Whether every character of `s[from..to]` is a decimal digit.
#[verifier::loop_isolation(false)]
pub fn all_digits_in(s: &str, from: usize, to: usize) -> (r: bool)
    requires
        from <= to <= s@.len(),
    ensures
        r == all_digits(s@.subrange(from as int, to as int)),
{
    let ghost t = s@.subrange(from as int, to as int);
    let mut i: usize = from;
    while i < to
        invariant
            from <= i <= to <= s@.len(),
            t == s@.subrange(from as int, to as int),
            forall|j: int| 0 <= j < i - from ==> is_digit_char(#[trigger] t[j]),
        decreases to - i,
    {
        proof {
            assert(t[i - from] == s@[i as int]);
        }
        if digit_at(s, i).is_none() {
            return false;
        }
        i = i + 1;
    }
    true
}

/// Case-insensitive match of one character.
pub open spec fn ci_eq(c: char, lower: char, upper: char) -> bool {
    c == lower || c == upper
}

/// The special float spellings `inf`, `infinity` and `nan`, in any case.
pub open spec fn is_inf_nan(t: Seq<char>) -> bool {
    ||| (t.len() == 3 && ci_eq(t[0], 'i', 'I') && ci_eq(t[1], 'n', 'N') && ci_eq(t[2], 'f', 'F'))
    ||| (t.len() == 8 && ci_eq(t[0], 'i', 'I') && ci_eq(t[1], 'n', 'N') && ci_eq(t[2], 'f', 'F')
        && ci_eq(t[3], 'i', 'I') && ci_eq(t[4], 'n', 'N') && ci_eq(t[5], 'i', 'I')
        && ci_eq(t[6], 't', 'T') && ci_eq(t[7], 'y', 'Y'))
    ||| (t.len() == 3 && ci_eq(t[0], 'n', 'N') && ci_eq(t[1], 'a', 'A') && ci_eq(t[2], 'n', 'N'))
}

/// The mantissa of a decimal float: digits with at most one point and at
/// least one digit.
pub open spec fn is_mantissa(m: Seq<char>) -> bool {
    let d = find2(m, '.', '.');
    if d == -1 {
        m.len() >= 1 && all_digits(m)
    } else {
        &&& (d >= 1 || m.len() - d - 1 >= 1)
        &&& all_digits(m.take(d))
        &&& all_digits(m.skip(d + 1))
    }
}

/// The syntax that a float field accepts: what `str::parse` of a binary
/// float takes, which never fails for range reasons. An optional sign, then
/// `inf`, `infinity` or `nan` in any case, or a mantissa with an optional
/// exponent.
pub open spec fn is_float_literal(s: Seq<char>) -> bool {
    let t = if s.len() >= 1 && (s[0] == '+' || s[0] == '-') {
        s.skip(1)
    } else {
        s
    };
    is_inf_nan(t) || {
        let e = find2(t, 'e', 'E');
        if e == -1 {
            is_mantissa(t)
        } else {
            is_mantissa(t.take(e)) && is_int_literal(t.skip(e + 1))
        }
    }
}

/// Whether `s[from..to]` spells `inf`, `infinity` or `nan`, in any case.
fn inf_nan_in(s: &str, from: usize, to: usize) -> (r: bool)
    requires
        from <= to <= s@.len(),
    ensures
        r == is_inf_nan(s@.subrange(from as int, to as int)),
{
    let ghost t = s@.subrange(from as int, to as int);
    let len = to - from;
    if len == 3 {
        let c0 = s.get_char(from);
        let c1 = s.get_char(from + 1);
        let c2 = s.get_char(from + 2);
        proof {
            assert(t[0] == s@[from as int]);
            assert(t[1] == s@[from as int + 1]);
            assert(t[2] == s@[from as int + 2]);
        }
        ((c0 == 'i' || c0 == 'I') && (c1 == 'n' || c1 == 'N') && (c2 == 'f' || c2 == 'F')) || ((c0
            == 'n' || c0 == 'N') && (c1 == 'a' || c1 == 'A') && (c2 == 'n' || c2 == 'N'))
    } else if len == 8 {
        let c0 = s.get_char(from);
        let c1 = s.get_char(from + 1);
        let c2 = s.get_char(from + 2);
        let c3 = s.get_char(from + 3);
        let c4 = s.get_char(from + 4);
        let c5 = s.get_char(from + 5);
        let c6 = s.get_char(from + 6);
        let c7 = s.get_char(from + 7);
        proof {
            assert forall|j: int| 0 <= j < 8 implies t[j] == s@[from + j] by {}
        }
        (c0 == 'i' || c0 == 'I') && (c1 == 'n' || c1 == 'N') && (c2 == 'f' || c2 == 'F') && (c3
            == 'i' || c3 == 'I') && (c4 == 'n' || c4 == 'N') && (c5 == 'i' || c5 == 'I') && (c6
            == 't' || c6 == 'T') && (c7 == 'y' || c7 == 'Y')
    } else {
        false
    }
}

/// Whether `s[from..to]` is a mantissa.
fn mantissa_in(s: &str, from: usize, to: usize) -> (r: bool)
    requires
        from <= to <= s@.len(),
    ensures
        r == is_mantissa(s@.subrange(from as int, to as int)),
{
    let ghost m = s@.subrange(from as int, to as int);
    match find2_in(s, from, to, '.', '.') {
        None => to - from >= 1 && all_digits_in(s, from, to),
        Some(k) => {
            proof {
                assert(m.take(k - from) =~= s@.subrange(from as int, k as int));
                assert(m.skip(k - from + 1) =~= s@.subrange(k as int + 1, to as int));
            }
            (k > from || to - k - 1 >= 1) && all_digits_in(s, from, k) && all_digits_in(
                s,
                k + 1,
                to,
            )
        },
    }
}

/// Whether `s[from..to]` is a signed digit run.
fn int_text_in(s: &str, from: usize, to: usize) -> (r: bool)
    requires
        from <= to <= s@.len(),
    ensures
        r == is_int_literal(s@.subrange(from as int, to as int)),
{
    let ghost e = s@.subrange(from as int, to as int);
    if to == from {
        return false;
    }
    let c0 = s.get_char(from);
    proof {
        assert(e[0] == s@[from as int]);
    }
    if c0 == '+' || c0 == '-' {
        proof {
            assert(e.skip(1) =~= s@.subrange(from as int + 1, to as int));
        }
        to - from >= 2 && all_digits_in(s, from + 1, to)
    } else {
        all_digits_in(s, from, to)
    }
}

/// Whether the whole of `s` spells a float, as the numeric fields of a
/// block definition require.
pub fn is_float_text(s: &str) -> (b: bool)
    ensures
        b == is_float_literal(s@),
{
    let n = s.unicode_len();
    let start: usize = if n >= 1 {
        let c0 = s.get_char(0);
        if c0 == '+' || c0 == '-' {
            1
        } else {
            0
        }
    } else {
        0
    };
    let ghost t = if start == 1 {
        s@.skip(1)
    } else {
        s@
    };
    proof {
        assert(t =~= s@.subrange(start as int, n as int));
    }
    if inf_nan_in(s, start, n) {
        return true;
    }
    match find2_in(s, start, n, 'e', 'E') {
        None => mantissa_in(s, start, n),
        Some(k) => {
            proof {
                assert(t.take(k - start) =~= s@.subrange(start as int, k as int));
                assert(t.skip(k - start + 1) =~= s@.subrange(k as int + 1, n as int));
            }
            mantissa_in(s, start, k) && int_text_in(s, k + 1, n)
        },
    }
}

} // verus!
