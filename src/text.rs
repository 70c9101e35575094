use vstd::prelude::*;

verus! {

/// The decimal digit for a value below ten.
pub open spec fn digit_char(d: nat) -> char {
    (('0' as u8) + d) as char
}

/// The decimal text of a natural number, without sign or leading zeros.
pub open spec fn dec(n: nat) -> Seq<char>
    decreases n,
{
    if n < 10 {
        seq![digit_char(n)]
    } else {
        dec(n / 10).push(digit_char(n % 10))
    }
}

pub open spec fn is_digit(c: char) -> bool {
    '0' <= c && c <= '9'
}

pub open spec fn all_digits(s: Seq<char>) -> bool {
    forall|i: int| 0 <= i < s.len() ==> is_digit(#[trigger] s[i])
}

/// The value of a text made of decimal digits.
pub open spec fn digits_value(s: Seq<char>) -> nat
    decreases s.len(),
{
    if s.len() == 0 {
        0
    } else {
        digits_value(s.drop_last()) * 10 + ((s.last() as u8 - '0' as u8) as nat)
    }
}

/// What a size field reads as: a non-empty run of digits whose value fits in 64 bits.
pub open spec fn parse_dec(s: Seq<char>) -> Option<u64> {
    if s.len() > 0 && all_digits(s) && digits_value(s) <= u64::MAX {
        Some(digits_value(s) as u64)
    } else {
        None
    }
}

/// Relies on String::push: the character is appended at the end.
#[verifier::external_body]
pub(crate) fn push_char(s: &mut String, c: char)
    ensures
        final(s)@ == old(s)@.push(c),
{
    s.push(c)
}

/// Appends the characters of `src` in `[lo, hi)` to `out`.
pub(crate) fn append_range(out: &mut String, src: &Vec<char>, lo: usize, hi: usize)
    requires
        lo <= hi <= src@.len(),
    ensures
        final(out)@ == old(out)@ + src@.subrange(lo as int, hi as int),
{
    let mut i = lo;
    while i < hi
        invariant
            lo <= i <= hi <= src@.len(),
            out@ == old(out)@ + src@.subrange(lo as int, i as int),
        decreases hi - i,
    {
        push_char(out, src[i]);
        assert(src@.subrange(lo as int, i + 1) == src@.subrange(lo as int, i as int).push(src@[i as int]));
        i = i + 1;
    }
}

/// The characters of a string, one per element.
pub(crate) fn chars_of(s: &str) -> (r: Vec<char>)
    ensures
        r@ == s@,
{
    let n = s.unicode_len();
    let mut r: Vec<char> = Vec::new();
    let mut i: usize = 0;
    while i < n
        invariant
            n == s@.len(),
            i <= n,
            r@ == s@.subrange(0, i as int),
        decreases n - i,
    {
        r.push(s.get_char(i));
        assert(s@.subrange(0, i + 1) == s@.subrange(0, i as int).push(s@[i as int]));
        i = i + 1;
    }
    assert(s@.subrange(0, n as int) == s@);
    r
}

proof fn lemma_digit_value(d: nat)
    requires
        d < 10,
    ensures
        is_digit(digit_char(d)),
        (digit_char(d) as u8 - '0' as u8) as nat == d,
{
}

pub(crate) proof fn lemma_dec_digits(n: nat)
    ensures
        dec(n).len() > 0,
        all_digits(dec(n)),
        digits_value(dec(n)) == n,
    decreases n,
{
    lemma_digit_value(n % 10);
    if n >= 10 {
        lemma_dec_digits(n / 10);
        let s = dec(n);
        assert(s.drop_last() == dec(n / 10));
        assert(s.last() == digit_char(n % 10));
        assert(digits_value(s) == (n / 10) * 10 + n % 10);
    } else {
        let s = seq![digit_char(n)];
        assert(s.drop_last() == Seq::<char>::empty());
        assert(s.last() == digit_char(n));
        assert(digits_value(Seq::<char>::empty()) == 0);
        assert(digits_value(s) == n);
    }
}

/// Reading back the decimal text of a 64-bit value yields the value.
pub proof fn lemma_parse_dec(n: u64)
    ensures
        parse_dec(dec(n as nat)) == Some(n),
{
    lemma_dec_digits(n as nat);
}

/// The decimal text of `n`.
pub fn decimal_text(n: u64) -> (r: String)
    ensures
        r@ == dec(n as nat),
{
    let mut digits: Vec<char> = Vec::new();
    let mut m: u64 = n;
    // digits of n, least significant first
    while m >= 10
        invariant
            dec(n as nat) == dec(m as nat) + digits@.reverse(),
        decreases m,
    {
        let d = (m % 10) as u8;
        let c = (('0' as u8) + d) as char;
        assert(c == digit_char((m % 10) as nat));
        assert(dec(m as nat) == dec((m / 10) as nat).push(c));
        assert(digits@.push(c).reverse() == seq![c] + digits@.reverse());
        digits.push(c);
        m = m / 10;
    }
    let c0 = (('0' as u8) + (m as u8)) as char;
    assert(dec(m as nat) == seq![c0]);
    let mut r = String::new();
    push_char(&mut r, c0);
    let mut k = digits.len();
    while k > 0
        invariant
            k <= digits@.len(),
            dec(n as nat) == seq![c0] + digits@.reverse(),
            r@ == seq![c0] + digits@.subrange(k as int, digits@.len() as int).reverse(),
        decreases k,
    {
        k = k - 1;
        let c = digits[k];
        assert(digits@.subrange(k as int, digits@.len() as int) == seq![c] + digits@.subrange(k + 1, digits@.len() as int));
        assert((seq![c] + digits@.subrange(k + 1, digits@.len() as int)).reverse()
            == digits@.subrange(k + 1, digits@.len() as int).reverse().push(c));
        push_char(&mut r, c);
    }
    assert(digits@.subrange(0, digits@.len() as int) == digits@);
    r
}

/// Parses the characters of `s` in `[lo, hi)` as a decimal size field.
pub(crate) fn parse_range(s: &Vec<char>, lo: usize, hi: usize) -> (r: Option<u64>)
    requires
        lo <= hi <= s@.len(),
    ensures
        r == parse_dec(s@.subrange(lo as int, hi as int)),
{
    if lo == hi {
        return None;
    }
    let mut v: u64 = 0;
    let mut i = lo;
    while i < hi
        invariant
            lo <= i <= hi <= s@.len(),
            all_digits(s@.subrange(lo as int, i as int)),
            v as nat == digits_value(s@.subrange(lo as int, i as int)),
        decreases hi - i,
    {
        let c = s[i];
        assert(s@.subrange(lo as int, i + 1).drop_last() == s@.subrange(lo as int, i as int));
        if !('0' <= c && c <= '9') {
            assert(!all_digits(s@.subrange(lo as int, hi as int))) by {
                assert(s@.subrange(lo as int, hi as int)[i - lo] == c);
            }
            return None;
        }
        let d = (c as u8 - '0' as u8) as u64;
        if v > (u64::MAX - d) / 10 {
            proof {
                let whole = s@.subrange(lo as int, hi as int);
                lemma_prefix_value_grows(whole, (i + 1 - lo) as nat);
                assert(whole.subrange(0, i + 1 - lo) == s@.subrange(lo as int, i + 1));
                assert(s@.subrange(lo as int, i + 1).last() == c);
                assert(v * 10 + d > u64::MAX) by (nonlinear_arith)
                    requires v > (u64::MAX - d) / 10, d <= 9;
            }
            return None;
        }
        v = v * 10 + d;
        i = i + 1;
    }
    Some(v)
}

/// A digit prefix's value bounds the value of the whole digit text.
proof fn lemma_prefix_value_grows(s: Seq<char>, k: nat)
    requires
        k <= s.len(),
    ensures
        all_digits(s) ==> digits_value(s.subrange(0, k as int)) <= digits_value(s),
    decreases s.len() - k,
{
    if k < s.len() && all_digits(s) {
        lemma_prefix_value_grows(s, k + 1);
        let p = s.subrange(0, k as int + 1);
        assert(p.drop_last() == s.subrange(0, k as int));
        assert(is_digit(s[k as int]));
    } else if k == s.len() {
        assert(s.subrange(0, k as int) == s);
    }
}

/// Parses a decimal size field.
pub fn parse_decimal(s: &str) -> (r: Option<u64>)
    ensures
        r == parse_dec(s@),
{
    let v = chars_of(s);
    assert(v@.subrange(0, v@.len() as int) == v@);
    parse_range(&v, 0, v.len())
}

/// Appends the characters of `src` to `out`.
pub(crate) fn append_str(out: &mut String, src: &str)
    ensures
        final(out)@ == old(out)@ + src@,
{
    let v = chars_of(src);
    append_range(out, &v, 0, v.len());
    assert(v@.subrange(0, v@.len() as int) == v@);
}

/// A string holding the characters of `src` in `[lo, hi)`.
pub(crate) fn string_of_range(src: &Vec<char>, lo: usize, hi: usize) -> (r: String)
    requires
        lo <= hi <= src@.len(),
    ensures
        r@ == src@.subrange(lo as int, hi as int),
{
    let mut r = String::new();
    append_range(&mut r, src, lo, hi);
    assert(Seq::<char>::empty() + src@.subrange(lo as int, hi as int) == src@.subrange(lo as int, hi as int));
    r
}

} // verus!
