//! Decimal and binary numerals, and the small text builders the decoder uses.
use vstd::prelude::*;
use vstd::string::*;

verus! {

/// The text of one decimal digit.
pub open spec fn digit_text(d: int) -> Seq<char> {
    if d == 0 {
        "0"@
    } else if d == 1 {
        "1"@
    } else if d == 2 {
        "2"@
    } else if d == 3 {
        "3"@
    } else if d == 4 {
        "4"@
    } else if d == 5 {
        "5"@
    } else if d == 6 {
        "6"@
    } else if d == 7 {
        "7"@
    } else if d == 8 {
        "8"@
    } else {
        "9"@
    }
}

/// Decimal digits of a natural number, most significant first, without leading zeros.
pub open spec fn dec_text(n: nat) -> Seq<char>
    decreases n,
{
    if n < 10 {
        digit_text(n as int)
    } else {
        dec_text(n / 10) + digit_text((n % 10) as int)
    }
}

/// A signed integer in decimal, with a leading `-` when negative.
pub open spec fn int_text(v: int) -> Seq<char> {
    if v < 0 {
        "-"@ + dec_text((-v) as nat)
    } else {
        dec_text(v as nat)
    }
}

/// Binary digits of a natural number, most significant first, without leading zeros.
pub open spec fn bin_digits(n: nat) -> Seq<char>
    decreases n,
{
    if n < 2 {
        digit_text(n as int)
    } else {
        bin_digits(n / 2) + digit_text((n % 2) as int)
    }
}

/// `k` spaces (none when `k` is not positive).
pub open spec fn spaces(k: int) -> Seq<char>
    decreases k,
{
    if k <= 0 {
        Seq::empty()
    } else {
        spaces(k - 1) + " "@
    }
}

/// The bit pattern of a byte, right-aligned in a field of eight characters.
pub open spec fn bit_pattern(x: u8) -> Seq<char> {
    spaces(8 - bin_digits(x as nat).len()) + bin_digits(x as nat)
}

/// The text of one decimal digit.
fn digit_str(d: u8) -> (r: &'static str)
    requires
        d < 10,
    ensures
        r@ == digit_text(d as int),
{
    if d == 0 {
        "0"
    } else if d == 1 {
        "1"
    } else if d == 2 {
        "2"
    } else if d == 3 {
        "3"
    } else if d == 4 {
        "4"
    } else if d == 5 {
        "5"
    } else if d == 6 {
        "6"
    } else if d == 7 {
        "7"
    } else if d == 8 {
        "8"
    } else {
        "9"
    }
}

/// Appends the decimal digits of `n`.
pub fn push_dec(s: &mut String, n: u128)
    ensures
        final(s)@ == old(s)@ + dec_text(n as nat),
    decreases n,
{
    if n >= 10 {
        push_dec(s, n / 10);
    }
    s.append(digit_str((n % 10) as u8));
    assert(final(s)@ =~= old(s)@ + dec_text(n as nat));
}

/// Appends a signed integer in decimal.
pub fn push_int(s: &mut String, v: i128)
    ensures
        final(s)@ == old(s)@ + int_text(v as int),
{
    if v < 0 {
        s.append("-");
        let m: u128 = (-(v + 1)) as u128 + 1;
        push_dec(s, m);
        assert(final(s)@ =~= old(s)@ + int_text(v as int));
    } else {
        push_dec(s, v as u128);
    }
}

/// Appends the binary digits of `n`.
fn push_bin(s: &mut String, n: u8)
    ensures
        final(s)@ == old(s)@ + bin_digits(n as nat),
    decreases n,
{
    if n >= 2 {
        push_bin(s, n / 2);
    }
    s.append(digit_str(n % 2));
    assert(final(s)@ =~= old(s)@ + bin_digits(n as nat));
}

/// Appends the bit pattern of a byte, padded on the left with spaces to eight characters.
pub fn push_bit_pattern(s: &mut String, x: u8)
    ensures
        final(s)@ == old(s)@ + bit_pattern(x),
{
    let mut digits = String::new();
    push_bin(&mut digits, x);
    let n = digits.as_str().unicode_len();
    let mut i: usize = n;
    let ghost s0 = s@;
    while i < 8
        invariant
            n <= i,
            i <= 8 || i == n,
            n == bin_digits(x as nat).len(),
            s@ == s0 + spaces(i - n),
            digits@ == Seq::<char>::empty() + bin_digits(x as nat),
        decreases 8 - i,
    {
        s.append(" ");
        i = i + 1;
    }
    assert(spaces(i - n) == spaces(8 - n)) by {
        if n > 8 {
            assert(spaces(i - n) == spaces(0));
        }
    }
    s.append(digits.as_str());
    assert(digits@ =~= bin_digits(x as nat));
    assert(s@ =~= s0 + bit_pattern(x));
}

/// `a b` followed by a line break.
pub open spec fn line1(a: Seq<char>, b: Seq<char>) -> Seq<char> {
    a + " "@ + b + "\n"@
}

/// `a b, c` followed by a line break.
pub open spec fn line2(a: Seq<char>, b: Seq<char>, c: Seq<char>) -> Seq<char> {
    a + " "@ + b + ", "@ + c + "\n"@
}

/// Joins two strings.
pub fn concat2(a: &str, b: &str) -> (r: String)
    ensures
        r@ == a@ + b@,
{
    let mut s = String::from_str(a);
    s.append(b);
    s
}

/// Joins three strings.
pub fn concat3(a: &str, b: &str, c: &str) -> (r: String)
    ensures
        r@ == a@ + b@ + c@,
{
    let mut s = String::from_str(a);
    s.append(b);
    s.append(c);
    s
}

/// Builds `a b` and a line break.
pub fn make_line1(a: &str, b: &str) -> (r: String)
    ensures
        r@ == line1(a@, b@),
{
    let mut s = String::from_str(a);
    s.append(" ");
    s.append(b);
    s.append("\n");
    s
}

/// Builds `a b, c` and a line break.
pub fn make_line2(a: &str, b: &str, c: &str) -> (r: String)
    ensures
        r@ == line2(a@, b@, c@),
{
    let mut s = String::from_str(a);
    s.append(" ");
    s.append(b);
    s.append(", ");
    s.append(c);
    s.append("\n");
    s
}

/// The decimal text of `v` as a fresh string.
pub fn int_string(v: i128) -> (r: String)
    ensures
        r@ == int_text(v as int),
{
    let mut s = String::new();
    push_int(&mut s, v);
    assert(s@ =~= int_text(v as int));
    s
}

/// Whether `c` is a decimal digit character.
pub open spec fn is_digit_char(c: char) -> bool {
    '0' <= c && c <= '9'
}

/// A digit's text is one digit character, and different digits have different characters.
pub proof fn lemma_digit_text(d: int, e: int)
    requires
        0 <= d < 10,
        0 <= e < 10,
    ensures
        digit_text(d).len() == 1,
        is_digit_char(digit_text(d)[0]),
        d != e ==> digit_text(d)[0] != digit_text(e)[0],
{
    reveal_strlit("0");
    reveal_strlit("1");
    reveal_strlit("2");
    reveal_strlit("3");
    reveal_strlit("4");
    reveal_strlit("5");
    reveal_strlit("6");
    reveal_strlit("7");
    reveal_strlit("8");
    reveal_strlit("9");
}

/// Decimal text is never empty, starts with a digit, and is one character exactly for the
/// numbers below ten.
pub proof fn lemma_dec_text_shape(n: nat)
    ensures
        dec_text(n).len() >= 1,
        is_digit_char(dec_text(n)[0]),
        (n < 10) == (dec_text(n).len() == 1),
    decreases n,
{
    lemma_digit_text(0, 0);
    if n < 10 {
        lemma_digit_text(n as int, 0);
    } else {
        lemma_dec_text_shape(n / 10);
        lemma_digit_text((n % 10) as int, 0);
    }
}

/// Different numbers have different decimal texts.
pub proof fn lemma_dec_text_injective(a: nat, b: nat)
    requires
        dec_text(a) == dec_text(b),
    ensures
        a == b,
    decreases a,
{
    lemma_dec_text_shape(a);
    lemma_dec_text_shape(b);
    if a < 10 && b < 10 {
        lemma_digit_text(a as int, b as int);
        lemma_digit_text(b as int, a as int);
    } else if a >= 10 && b >= 10 {
        let da = dec_text(a);
        lemma_digit_text((a % 10) as int, (b % 10) as int);
        lemma_dec_text_shape(a / 10);
        lemma_dec_text_shape(b / 10);
        assert(da[da.len() - 1] == digit_text((a % 10) as int)[0]);
        lemma_digit_text((b % 10) as int, 0);
        let db = dec_text(b);
        assert(db[db.len() - 1] == digit_text((b % 10) as int)[0]);
        assert(da.drop_last() =~= dec_text(a / 10));
        assert(dec_text(b).drop_last() =~= dec_text(b / 10));
        lemma_dec_text_injective(a / 10, b / 10);
    }
}

/// A signed decimal text starts with a minus sign or a digit.
pub proof fn lemma_int_text_start(v: int)
    ensures
        int_text(v).len() >= 1,
        int_text(v)[0] == '-' || is_digit_char(int_text(v)[0]),
{
    reveal_strlit("-");
    if v < 0 {
        lemma_dec_text_shape((-v) as nat);
    } else {
        lemma_dec_text_shape(v as nat);
    }
}

} // verus!
