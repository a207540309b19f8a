use vstd::prelude::*;

verus! {

/// The character that writes the decimal digit `d % 10`.
pub open spec fn digit_char(d: nat) -> char {
    ((d % 10) + 48) as char
}

/// The decimal numeral of `n`, without leading zeros.
pub open spec fn decimal_text(n: nat) -> Seq<char>
    decreases n,
{
    if n < 10 {
        seq![digit_char(n)]
    } else {
        decimal_text(n / 10).push(digit_char(n % 10))
    }
}

/// The lowest `width` binary digits of `v`, most significant first.
pub open spec fn binary_text(v: nat, width: nat) -> Seq<char>
    decreases width,
{
    if width == 0 {
        Seq::empty()
    } else {
        binary_text(v / 2, (width - 1) as nat).push(if v % 2 == 1 { '1' } else { '0' })
    }
}

/// The character of the lowercase hexadecimal digit `d % 16`.
pub open spec fn hex_digit_char(d: nat) -> char {
    if d % 16 < 10 {
        ((d % 16) + 48) as char
    } else {
        ((d % 16) + 87) as char
    }
}

/// The lowest `width` hexadecimal digits of `v`, most significant first.
pub open spec fn hex_text(v: nat, width: nat) -> Seq<char>
    decreases width,
{
    if width == 0 {
        Seq::empty()
    } else {
        hex_text(v / 16, (width - 1) as nat).push(hex_digit_char(v))
    }
}

/// `2` to the power `n`.
pub open spec fn two_to(n: nat) -> nat
    decreases n,
{
    if n == 0 {
        1
    } else {
        2 * two_to((n - 1) as nat)
    }
}

/// `16` to the power `n`.
pub open spec fn sixteen_to(n: nat) -> nat
    decreases n,
{
    if n == 0 {
        1
    } else {
        16 * sixteen_to((n - 1) as nat)
    }
}

/// The value of a lowercase hexadecimal digit `0`..`9`, `a`..`f`.
pub open spec fn hex_digit_value(c: char) -> Option<nat> {
    if '0' <= c && c <= '9' {
        Some((c as nat - 48) as nat)
    } else if 'a' <= c && c <= 'f' {
        Some((c as nat - 87) as nat)
    } else {
        None
    }
}

/// The number that the lowercase hexadecimal digits `s` write, if they are all such digits.
pub open spec fn hex_value(s: Seq<char>) -> Option<nat>
    decreases s.len(),
{
    if s.len() == 0 {
        Some(0)
    } else {
        match (hex_value(s.drop_last()), hex_digit_value(s.last())) {
            (Some(h), Some(l)) => Some(16 * h + l),
            _ => None,
        }
    }
}

/// The lowest `n` hexadecimal digits of a number below `16^n` are `n` lowercase
/// hexadecimal digits that write it.
pub proof fn lemma_hex_text(v: nat, n: nat)
    requires
        v < sixteen_to(n),
    ensures
        hex_text(v, n).len() == n,
        hex_value(hex_text(v, n)) == Some(v),
    decreases n,
{
    if n > 0 {
        lemma_hex_text(v / 16, (n - 1) as nat);
        assert(hex_text(v, n).drop_last() =~= hex_text(v / 16, (n - 1) as nat));
        assert(hex_digit_value(hex_digit_char(v)) == Some(v % 16));
    }
}

/// Whether `c` is a decimal digit.
pub open spec fn is_decimal_digit(c: char) -> bool {
    '0' <= c && c <= '9'
}

/// The number that the decimal digits `s` write, most significant first.
pub open spec fn decimal_value(s: Seq<char>) -> nat
    decreases s.len(),
{
    if s.len() == 0 {
        0
    } else {
        10 * decimal_value(s.drop_last()) + (s.last() as nat - 48) as nat
    }
}

/// The decimal numeral of `n` is a nonempty string of decimal digits, without a leading
/// zero (unless it is `0`), that writes `n`.
pub proof fn lemma_decimal_text(n: nat)
    ensures
        decimal_text(n).len() > 0,
        forall|i: int| 0 <= i < decimal_text(n).len() ==> is_decimal_digit(#[trigger] decimal_text(n)[i]),
        decimal_value(decimal_text(n)) == n,
        decimal_text(n)[0] == '0' ==> n == 0,
    decreases n,
{
    assert(digit_char(n) as nat == n % 10 + 48);
    if n < 10 {
        assert(seq![digit_char(n)].drop_last() =~= Seq::<char>::empty());
        assert(decimal_value(decimal_text(n)) == 10 * decimal_value(Seq::<char>::empty()) + (n % 10));
    } else {
        lemma_decimal_text(n / 10);
        assert(decimal_text(n).drop_last() =~= decimal_text(n / 10));
        assert(decimal_text(n)[0] == decimal_text(n / 10)[0]);
        assert(decimal_value(decimal_text(n)) == 10 * (n / 10) + n % 10);
    }
}

/// Appends one character to a string: a wrapper of `String::push`, which the
/// standard library documents as appending the given `char` to the end of the string.
#[verifier::external_body]
pub(crate) fn push_char(s: &mut String, c: char)
    ensures
        final(s)@ == old(s)@.push(c),
{
    s.push(c);
}

/// The character of the decimal digit `d`.
fn digit(d: u64) -> (c: char)
    requires
        d < 10,
    ensures
        c == digit_char(d as nat),
{
    let b: u8 = d as u8 + 48;
    b as char
}

/// Appends the decimal numeral of `n` to `s`.
pub fn push_decimal(s: &mut String, n: u64)
    ensures
        final(s)@ == old(s)@ + decimal_text(n as nat),
    decreases n,
{
    if n >= 10 {
        push_decimal(s, n / 10);
    }
    push_char(s, digit(n % 10));
    assert(s@ =~= old(s)@ + decimal_text(n as nat));
}

/// Appends the lowest `width` binary digits of `v` to `s`, most significant first.
pub fn push_binary(s: &mut String, v: u64, width: u64)
    ensures
        final(s)@ == old(s)@ + binary_text(v as nat, width as nat),
    decreases width,
{
    if width > 0 {
        push_binary(s, v / 2, width - 1);
        push_char(s, if v % 2 == 1 { '1' } else { '0' });
        assert(s@ =~= old(s)@ + binary_text(v as nat, width as nat));
    }
}

/// The character of the hexadecimal digit `d`.
fn hex_digit(d: u64) -> (c: char)
    requires
        d < 16,
    ensures
        c == hex_digit_char(d as nat),
{
    if d < 10 {
        let b: u8 = d as u8 + 48;
        b as char
    } else {
        let b: u8 = d as u8 + 87;
        b as char
    }
}

/// Appends the lowest `width` hexadecimal digits of `v` to `s`, most significant first.
pub fn push_hex(s: &mut String, v: u64, width: u64)
    ensures
        final(s)@ == old(s)@ + hex_text(v as nat, width as nat),
    decreases width,
{
    if width > 0 {
        push_hex(s, v / 16, width - 1);
        push_char(s, hex_digit(v % 16));
        assert(s@ =~= old(s)@ + hex_text(v as nat, width as nat));
    }
}

/// The string of the characters `v`.
pub fn string_of(v: &Vec<char>) -> (res: String)
    ensures
        res@ == v@,
{
    let mut s = String::new();
    let mut i: usize = 0;
    while i < v.len()
        invariant
            i <= v@.len(),
            s@ == v@.take(i as int),
        decreases v@.len() - i,
    {
        push_char(&mut s, v[i]);
        assert(s@ =~= v@.take(i + 1));
        i = i + 1;
    }
    assert(v@.take(i as int) =~= v@);
    s
}

} // verus!
