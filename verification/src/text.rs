//! Text building blocks: decimal and hexadecimal spelling, comparison and
//! concatenation of strings.

use vstd::prelude::*;

verus! {

/// `String::push` appends one character.
pub assume_specification[ String::push ](s: &mut String, c: char)
    ensures
        final(s)@ == old(s)@.push(c),
;

/// Whether two texts hold the same characters.
pub(crate) fn same_text(a: &str, b: &str) -> (same: bool)
    ensures
        same == (a@ == b@),
{
    let left = chars_of(a);
    let right = chars_of(b);
    if left.len() != right.len() {
        return false;
    }
    let mut i: usize = 0;
    while i < left.len()
        invariant
            i <= left.len(),
            left@ == a@,
            right@ == b@,
            left@.len() == right@.len(),
            forall|j: int| 0 <= j < i ==> left@[j] == right@[j],
        decreases left.len() - i,
    {
        if left[i] != right[i] {
            return false;
        }
        i = i + 1;
    }
    assert(left@ =~= right@);
    true
}

/// The character of a decimal or hexadecimal digit, letters in lower case.
pub open spec fn digit_char(d: nat) -> char {
    if d < 10 {
        ('0' as u32 + d) as char
    } else {
        ('a' as u32 + (d - 10)) as char
    }
}

/// The decimal spelling of a natural number, without leading zeros.
pub open spec fn decimal(n: nat) -> Seq<char>
    decreases n,
{
    if n < 10 {
        seq![digit_char(n)]
    } else {
        decimal(n / 10).push(digit_char(n % 10))
    }
}

/// The decimal spelling of an integer, with a minus sign before a negative one.
pub open spec fn int_text(i: int) -> Seq<char> {
    if i < 0 {
        seq!['-'] + decimal((-i) as nat)
    } else {
        decimal(i as nat)
    }
}

/// The spelling of one digit below sixteen.
pub(crate) fn digit(d: u8) -> (c: char)
    requires
        d < 16,
    ensures
        c == digit_char(d as nat),
{
    if d < 10 {
        (48 + d) as char
    } else {
        (97 + (d - 10)) as char
    }
}

/// Appends the decimal spelling of `n`.
pub(crate) fn push_decimal(out: &mut String, n: u64)
    ensures
        final(out)@ == old(out)@ + decimal(n as nat),
    decreases n,
{
    if n >= 10 {
        push_decimal(out, n / 10);
    }
    out.push(digit((n % 10) as u8));
    proof {
        if n >= 10 {
            assert(old(out)@ + decimal(n as nat) =~= (old(out)@ + decimal((n / 10) as nat)).push(
                digit_char((n % 10) as nat),
            ));
        } else {
            assert(old(out)@ + decimal(n as nat) =~= old(out)@.push(digit_char(n as nat)));
        }
    }
}

/// Appends the decimal spelling of `i`.
pub(crate) fn push_int(out: &mut String, i: i64)
    ensures
        final(out)@ == old(out)@ + int_text(i as int),
{
    if i < 0 {
        out.push('-');
        let rest: i64 = -(i + 1);
        let magnitude: u64 = rest as u64 + 1;
        push_decimal(out, magnitude);
        proof {
            assert(magnitude == -i);
            assert(old(out)@ + int_text(i as int) =~= old(out)@.push('-') + decimal((-i) as nat));
        }
    } else {
        push_decimal(out, i as u64);
    }
}

/// The characters of a string slice, as a vector.
pub(crate) fn chars_of(s: &str) -> (v: Vec<char>)
    ensures
        v@ == s@,
{
    let mut v: Vec<char> = Vec::new();
    for c in it: s.chars()
        invariant
            v@ == it.seq().take(it.index() as int),
            it.seq() == s@,
    {
        v.push(c);
    }
    v
}

/// `n` zeros.
pub open spec fn zeros(n: nat) -> Seq<char> {
    Seq::new(n, |i: int| '0')
}

/// The decimal spelling of `n`, with zeros before it up to `width` characters.
pub open spec fn padded_decimal(n: nat, width: nat) -> Seq<char> {
    let digits = decimal(n);
    if digits.len() < width {
        zeros((width - digits.len()) as nat) + digits
    } else {
        digits
    }
}

/// The number that a row of decimal digits spells.
pub open spec fn digits_value(s: Seq<char>) -> nat
    decreases s.len(),
{
    if s.len() == 0 {
        0
    } else {
        digits_value(s.drop_last()) * 10 + (s.last() as nat - '0' as nat) as nat
    }
}

/// A decimal spelling spells its number.
pub proof fn law_decimal_spells_its_number(n: nat)
    ensures
        digits_value(decimal(n)) == n,
        decimal(n).len() > 0,
    decreases n,
{
    if n < 10 {
        assert(decimal(n).drop_last() =~= Seq::<char>::empty());
        assert(digits_value(Seq::<char>::empty()) == 0);
    } else {
        law_decimal_spells_its_number(n / 10);
        assert(decimal(n).drop_last() =~= decimal(n / 10));
    }
}

proof fn lemma_zeros_add_nothing(n: nat, s: Seq<char>)
    ensures
        digits_value(zeros(n) + s) == digits_value(s),
    decreases n + s.len(),
{
    let all = zeros(n) + s;
    if s.len() > 0 {
        assert(all.drop_last() =~= zeros(n) + s.drop_last());
        lemma_zeros_add_nothing(n, s.drop_last());
    } else if n > 0 {
        assert(all.drop_last() =~= zeros((n - 1) as nat) + s);
        lemma_zeros_add_nothing((n - 1) as nat, s);
    } else {
        assert(all =~= s);
    }
}

/// A padded decimal spelling spells its number.
pub proof fn lemma_padded_value(n: nat, width: nat)
    ensures
        digits_value(padded_decimal(n, width)) == n,
{
    law_decimal_spells_its_number(n);
    let digits = decimal(n);
    if digits.len() < width {
        lemma_zeros_add_nothing((width - digits.len()) as nat, digits);
    }
}

/// A padded spelling is made of decimal digits, and as wide as asked for where the number is
/// not wider by itself.
pub proof fn law_padded_spelling_is_as_wide_as_asked(n: nat, width: nat)
    ensures
        padded_decimal(n, width).len() >= width,
        decimal(n).len() <= width ==> padded_decimal(n, width).len() == width,
        decimal(n).len() >= width ==> padded_decimal(n, width) == decimal(n),
        digits_value(padded_decimal(n, width)) == n,
        forall|i: int|
            0 <= i < padded_decimal(n, width).len() ==> '0' <= #[trigger] padded_decimal(
                n,
                width,
            )[i] <= '9',
{
    lemma_padded_value(n, width);
    lemma_decimal_is_of_digits(n);
    let digits = decimal(n);
    if digits.len() < width {
        let missing = (width - digits.len()) as nat;
        assert forall|i: int| 0 <= i < padded_decimal(n, width).len() implies '0'
            <= #[trigger] padded_decimal(n, width)[i] <= '9' by {
            if i < missing {
                assert(padded_decimal(n, width)[i] == zeros(missing)[i]);
            } else {
                assert(padded_decimal(n, width)[i] == digits[i - missing]);
            }
        }
    }
}

proof fn lemma_decimal_is_of_digits(n: nat)
    ensures
        forall|i: int| 0 <= i < decimal(n).len() ==> '0' <= #[trigger] decimal(n)[i] <= '9',
    decreases n,
{
    if n >= 10 {
        lemma_decimal_is_of_digits(n / 10);
        let less = decimal(n / 10);
        assert forall|i: int| 0 <= i < decimal(n).len() implies '0' <= #[trigger] decimal(n)[i]
            <= '9' by {
            if i < less.len() {
                assert(decimal(n)[i] == less[i]);
            }
        }
    }
}

/// Appends the decimal spelling of `n`, with zeros before it up to eight
/// characters.
pub(crate) fn push_padded(out: &mut String, n: u64)
    ensures
        final(out)@ == old(out)@ + padded_decimal(n as nat, 8),
{
    let mut digits = String::new();
    push_decimal(&mut digits, n);
    assert(digits@ =~= decimal(n as nat));
    let mut count: usize = digits.as_str().unicode_len();
    let ghost missing: int = if count < 8 {
        8 - count
    } else {
        0
    };
    let ghost start = count;
    while count < 8
        invariant
            start <= count,
            start < 8 ==> count <= 8 && missing == 8 - start,
            start >= 8 ==> count == start,
            out@ == old(out)@ + zeros((count - start) as nat),
        decreases 8 - count,
    {
        out.push('0');
        assert(out@ =~= old(out)@ + zeros((count + 1 - start) as nat));
        count = count + 1;
    }
    out.append(digits.as_str());
    assert(out@ =~= old(out)@ + padded_decimal(n as nat, 8));
}

} // verus!
