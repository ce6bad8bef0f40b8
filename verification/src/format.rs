//! Building text: decimal numbers, zero padding and string assembly.
use vstd::prelude::*;
use vstd::string::StringExecFns;

verus! {

/// Calls `String::push`, which appends one character.
#[verifier::external_body]
pub fn push_char(s: &mut String, c: char)
    ensures
        final(s)@ == old(s)@.push(c),
{
    s.push(c);
}

/// Appends a string slice.
pub fn push_str(s: &mut String, t: &str)
    ensures
        final(s)@ == old(s)@ + t@,
{
    s.append(t);
}

/// A string holding the given characters.
pub fn string_from_chars(cs: &[char]) -> (s: String)
    ensures
        s@ == cs@,
{
    let mut s = String::new();
    let mut i: usize = 0;
    while i < cs.len()
        invariant
            i <= cs@.len(),
            s@ == cs@.subrange(0, i as int),
        decreases cs@.len() - i,
    {
        push_char(&mut s, cs[i]);
        proof {
            assert(s@ =~= cs@.subrange(0, i + 1));
        }
        i = i + 1;
    }
    proof {
        assert(cs@.subrange(0, cs@.len() as int) =~= cs@);
    }
    s
}

/// The decimal digit character for `d < 10`.
pub open spec fn digit_char(d: nat) -> char {
    (48 + d) as char
}

/// The decimal representation of `n`, without leading zeros.
pub open spec fn decimal(n: nat) -> Seq<char>
    decreases n,
{
    if n < 10 {
        seq![digit_char(n)]
    } else {
        decimal(n / 10).push(digit_char(n % 10))
    }
}

/// `s` padded on the left with `'0'` up to `width` characters.
pub open spec fn zero_pad(s: Seq<char>, width: nat) -> Seq<char> {
    if s.len() >= width {
        s
    } else {
        Seq::new((width - s.len()) as nat, |i: int| '0') + s
    }
}

fn digit(d: u64) -> (c: char)
    requires
        d < 10,
    ensures
        c == digit_char(d as nat),
{
    let b: u8 = 48u8 + (d as u8);
    b as char
}

/// Decimal digits of `n`, most significant first.
pub fn u64_digits(n: u64) -> (v: Vec<char>)
    ensures
        v@ == decimal(n as nat),
{
    if n == 0 {
        let mut v: Vec<char> = Vec::new();
        v.push('0');
        proof {
            assert(v@ =~= decimal(0));
        }
        return v;
    }
    let mut acc: Vec<char> = Vec::new();
    let mut m: u64 = n;
    while m > 0
        invariant
            n > 0,
            decimal(n as nat) == (if m == 0 {
                Seq::<char>::empty()
            } else {
                decimal(m as nat)
            }) + acc@,
        decreases m,
    {
        let c = digit(m % 10);
        let ghost old_acc = acc@;
        acc.insert(0, c);
        proof {
            assert(acc@ =~= seq![c] + old_acc);
            let q = (m / 10) as nat;
            if m < 10 {
                assert(decimal(m as nat) =~= seq![c]);
                assert(Seq::<char>::empty() + acc@ =~= decimal(m as nat) + old_acc);
            } else {
                assert(decimal(m as nat) == decimal(q).push(c));
                assert(decimal(q) + acc@ =~= decimal(m as nat) + old_acc);
            }
        }
        m = m / 10;
    }
    proof {
        assert(Seq::<char>::empty() + acc@ =~= acc@);
    }
    acc
}

/// The decimal representation of `n`.
pub fn u64_to_decimal(n: u64) -> (s: String)
    ensures
        s@ == decimal(n as nat),
{
    let v = u64_digits(n);
    string_from_chars(v.as_slice())
}

/// Appends `n` in decimal, padded with zeros to `width` characters.
pub fn push_padded(s: &mut String, n: u64, width: usize)
    ensures
        final(s)@ == old(s)@ + zero_pad(decimal(n as nat), width as nat),
{
    let v = u64_digits(n);
    let ghost before = s@;
    let mut k: usize = v.len();
    while k < width
        invariant
            v.len() <= k <= width || (k == v.len() && v.len() >= width),
            s@ == before + Seq::new((k - v@.len()) as nat, |i: int| '0'),
        decreases width - k,
    {
        push_char(s, '0');
        proof {
            assert(s@ =~= before + Seq::new((k + 1 - v@.len()) as nat, |i: int| '0'));
        }
        k = k + 1;
    }
    let mut i: usize = 0;
    let ghost mid = s@;
    while i < v.len()
        invariant
            i <= v@.len(),
            s@ == mid + v@.subrange(0, i as int),
        decreases v@.len() - i,
    {
        push_char(s, v[i]);
        proof {
            assert(s@ =~= mid + v@.subrange(0, i + 1));
        }
        i = i + 1;
    }
    proof {
        assert(v@.subrange(0, v@.len() as int) =~= v@);
        if v@.len() >= width {
            assert(mid =~= before);
        }
        assert(s@ =~= before + zero_pad(decimal(n as nat), width as nat));
    }
}

/// Decimal representations are made of digits only, and are never empty.
pub proof fn lemma_decimal_digits(n: nat)
    ensures
        decimal(n).len() > 0,
        forall|k: int| 0 <= k < decimal(n).len() ==> 48 <= (#[trigger] decimal(n)[k]) as u32 <= 57,
    decreases n,
{
    if n >= 10 {
        lemma_decimal_digits(n / 10);
        let d = decimal(n / 10);
        assert forall|k: int| 0 <= k < decimal(n).len() implies 48 <= (#[trigger] decimal(n)[k]) as u32 <= 57 by {
            if k < d.len() {
                assert(decimal(n)[k] == d[k]);
            }
        }
    }
}


/// Rust's `/` on integers: the quotient rounded toward zero (`b > 0`).
pub open spec fn tdiv(a: int, b: int) -> int {
    if a >= 0 {
        a / b
    } else {
        -((-a) / b)
    }
}

/// Rust's `%` on integers: the remainder with the sign of `a` (`b > 0`).
pub open spec fn trem(a: int, b: int) -> int {
    a - b * tdiv(a, b)
}

/// `n` in decimal, with a minus sign when negative (Rust's `{}`).
pub open spec fn int_decimal(n: int) -> Seq<char> {
    if n < 0 {
        seq!['-'] + decimal((-n) as nat)
    } else {
        decimal(n as nat)
    }
}

/// `n` zero-padded to `width` characters, the sign counted in the width
/// and written before the zeros (Rust's `{:0w}`).
pub open spec fn signed_zero_pad(n: int, width: nat) -> Seq<char> {
    if n < 0 {
        seq!['-'] + zero_pad(decimal((-n) as nat), if width >= 1 { (width - 1) as nat } else { 0 })
    } else {
        zero_pad(decimal(n as nat), width)
    }
}

/// Magnitude of a signed integer.
pub fn magnitude(n: i64) -> (m: u64)
    ensures
        m as int == if n < 0 { -n } else { n as int },
{
    if n >= 0 {
        n as u64
    } else if n == i64::MIN {
        0x8000_0000_0000_0000u64
    } else {
        (-n) as u64
    }
}

/// Appends `n` as Rust's `{:0width}` writes it.
pub fn push_signed_padded(s: &mut String, n: i64, width: usize)
    ensures
        final(s)@ == old(s)@ + signed_zero_pad(n as int, width as nat),
{
    if n < 0 {
        push_char(s, '-');
        let w = if width >= 1 { width - 1 } else { 0 };
        push_padded(s, magnitude(n), w);
        proof {
            assert(final(s)@ =~= old(s)@ + signed_zero_pad(n as int, width as nat));
        }
    } else {
        push_padded(s, n as u64, width);
    }
}

/// Appends `n` as Rust's `{}` writes it.
pub fn push_i64(s: &mut String, n: i64)
    ensures
        final(s)@ == old(s)@ + int_decimal(n as int),
{
    push_signed_padded(s, n, 0);
    proof {
        let d = decimal(if n < 0 { (-n) as nat } else { n as nat });
        lemma_decimal_digits(if n < 0 { (-n) as nat } else { n as nat });
        assert(zero_pad(d, 0) == d);
    }
}

/// Appends `n` in decimal.
pub fn push_u64(s: &mut String, n: u64)
    ensures
        final(s)@ == old(s)@ + decimal(n as nat),
{
    push_padded(s, n, 0);
    proof {
        lemma_decimal_digits(n as nat);
    }
}

/// Quotient and remainder of Rust's signed division by a positive divisor.
pub fn div_rem_i64(a: i64, b: i64) -> (r: (i64, i64))
    requires
        b > 0,
    ensures
        r.0 == tdiv(a as int, b as int),
        r.1 == trem(a as int, b as int),
{
    let q = a / b;
    proof {
        let na: int = if a >= 0 { a as int } else { -(a as int) };
        let k: int = na / (b as int);
        assert(0 <= b * k <= na) by (nonlinear_arith)
            requires
                b > 0,
                na >= 0,
                k == na / (b as int),
        ;
        if a >= 0 {
            assert(q == k);
            assert(q * b == b * k) by (nonlinear_arith)
                requires
                    q == k,
            ;
        } else {
            assert(q == -k);
            assert(q * b == -(b * k)) by (nonlinear_arith)
                requires
                    q == -k,
            ;
        }
    }
    let m = a - q * b;
    (q, m)
}


pub open spec fn is_digit_char(c: char) -> bool {
    '0' <= c && c <= '9'
}

pub open spec fn all_digits(s: Seq<char>) -> bool {
    forall|i: int| 0 <= i < s.len() ==> is_digit_char(#[trigger] s[i])
}

/// The number a run of decimal digits stands for.
pub open spec fn digits_value(s: Seq<char>) -> nat
    decreases s.len(),
{
    if s.len() == 0 {
        0
    } else {
        digits_value(s.drop_last()) * 10 + ((s.last() as u32) - 48) as nat
    }
}

/// The integer `s` writes as Rust's integer parsing reads it: an optional
/// `+` or `-`, then one or more ASCII digits.
pub open spec fn parsed_int(s: Seq<char>) -> Option<int> {
    if s.len() > 0 && (s[0] == '+' || s[0] == '-') {
        let d = s.drop_first();
        if d.len() > 0 && all_digits(d) {
            Some(if s[0] == '-' { -(digits_value(d) as int) } else { digits_value(d) as int })
        } else {
            None
        }
    } else if s.len() > 0 && all_digits(s) {
        Some(digits_value(s) as int)
    } else {
        None
    }
}

/// What `str::parse::<i64>` gives: the parsed integer when it fits.
pub open spec fn i64_of(s: Seq<char>) -> Option<i64> {
    match parsed_int(s) {
        Some(v) => if i64::MIN <= v <= i64::MAX {
            Some(v as i64)
        } else {
            None
        },
        None => None,
    }
}

proof fn lemma_digits_value_grows(s: Seq<char>, k: int)
    requires
        0 <= k <= s.len(),
        all_digits(s),
    ensures
        digits_value(s.take(k)) <= digits_value(s),
    decreases s.len() - k,
{
    if k < s.len() {
        lemma_digits_value_grows(s, k + 1);
        let t = s.take(k + 1);
        assert(t.drop_last() =~= s.take(k));
        assert(is_digit_char(s[k]));
    } else {
        assert(s.take(k) =~= s);
    }
}

fn digits_to_i128(d: &[char]) -> (r: Option<i128>)
    ensures
        match r {
            Some(v) => all_digits(d@) && v == digits_value(d@) && v <= 0x8000_0000_0000_0000,
            None => !all_digits(d@) || digits_value(d@) > 0x8000_0000_0000_0000,
        },
{
    let mut acc: i128 = 0;
    let mut i: usize = 0;
    while i < d.len()
        invariant
            i <= d@.len(),
            all_digits(d@.take(i as int)),
            acc == digits_value(d@.take(i as int)),
            acc <= 0x8000_0000_0000_0000,
        decreases d@.len() - i,
    {
        let c = d[i];
        proof {
            assert(d@.take(i + 1).drop_last() =~= d@.take(i as int));
            assert(d@.take(i + 1).last() == c);
        }
        if !('0' <= c && c <= '9') {
            proof {
                assert(!is_digit_char(d@[i as int]));
            }
            return None;
        }
        acc = acc * 10 + ((c as u32) - 48) as i128;
        if acc > 0x8000_0000_0000_0000 {
            proof {
                assert(all_digits(d@.take(i + 1)));
                if all_digits(d@) {
                    lemma_digits_value_grows(d@, i + 1);
                }
            }
            return None;
        }
        i = i + 1;
    }
    proof {
        assert(d@.take(d@.len() as int) =~= d@);
    }
    Some(acc)
}

/// Parses a decimal `i64` as `str::parse::<i64>` does.
pub fn parse_i64(s: &[char]) -> (r: Option<i64>)
    ensures
        r == i64_of(s@),
{
    if s.len() == 0 {
        return None;
    }
    let neg = s[0] == '-';
    let signed = s[0] == '+' || neg;
    let n = s.len();
    let d = if signed {
        &s[1..n]
    } else {
        &s[0..n]
    };
    proof {
        if signed {
            assert(d@ =~= s@.drop_first());
        } else {
            assert(d@ =~= s@);
        }
    }
    if d.len() == 0 {
        return None;
    }
    match digits_to_i128(d) {
        None => None,
        Some(v) => {
            if neg {
                Some((-v) as i64)
            } else if v <= 0x7FFF_FFFF_FFFF_FFFF {
                Some(v as i64)
            } else {
                None
            }
        },
    }
}

/// The decimal text of a number reads back as that number.
pub proof fn lemma_decimal_value(n: nat)
    ensures
        all_digits(decimal(n)),
        digits_value(decimal(n)) == n,
    decreases n,
{
    lemma_decimal_digits(n);
    let c = digit_char(n % 10);
    assert((c as u32) == 48 + n % 10);
    if n >= 10 {
        lemma_decimal_value(n / 10);
        let d = decimal(n / 10);
        assert(decimal(n).drop_last() =~= d);
        assert(decimal(n).last() == c);
        assert((n / 10) * 10 + n % 10 == n) by (nonlinear_arith);
        assert(digits_value(decimal(n)) == digits_value(d) * 10 + n % 10);
    } else {
        assert(decimal(n).drop_last() =~= Seq::<char>::empty());
        assert(decimal(n).last() == c);
        assert(n % 10 == n);
        assert(digits_value(decimal(n)) == digits_value(Seq::<char>::empty()) * 10 + n % 10);
    }
}

/// What Rust's `{}` writes for an integer reads back as that integer.
pub proof fn lemma_int_decimal_parses_back(n: i64)
    ensures
        i64_of(int_decimal(n as int)) == Some(n),
{
    if n < 0 {
        let m = (-(n as int)) as nat;
        lemma_decimal_value(m);
        lemma_decimal_digits(m);
        let s = int_decimal(n as int);
        assert(s.drop_first() =~= decimal(m));
        assert(s[0] == '-');
    } else {
        lemma_decimal_value(n as nat);
        lemma_decimal_digits(n as nat);
        let s = decimal(n as nat);
        assert(is_digit_char(s[0]));
    }
}

} // verus!
