//! Small text helpers: appending characters and decimal or hexadecimal numbers
//! to a `String`.

use vstd::prelude::*;

verus! {

/// `std`'s `String::push`: appends one character.
///
/// Trusted: the contract states that the string afterwards is the old one
/// followed by `c`, as the standard library documents.
#[verifier::external_body]
pub(crate) fn push_char(s: &mut String, c: char)
    ensures
        final(s)@ == old(s)@.push(c),
{
    s.push(c);
}

/// The ASCII digit character for a digit value `d` below 16: `0`-`9`, then
/// lower-case `a`-`f`.
pub open spec fn digit_char(d: int) -> char {
    if d < 10 {
        (48 + d) as char
    } else {
        (87 + d) as char
    }
}

/// The decimal representation of `n`, without leading zeros.
pub open spec fn decimal(n: nat) -> Seq<char>
    decreases n,
{
    if n < 10 {
        seq![digit_char(n as int)]
    } else {
        decimal(n / 10).push(digit_char((n % 10) as int))
    }
}

/// The four lower-case hexadecimal digits of `n`, most significant first.
pub open spec fn hex4(n: u16) -> Seq<char> {
    seq![
        digit_char((n / 4096) as int),
        digit_char(((n / 256) % 16) as int),
        digit_char(((n / 16) % 16) as int),
        digit_char((n % 16) as int),
    ]
}

fn digit(d: u8) -> (c: char)
    requires
        d < 16,
    ensures
        c == digit_char(d as int),
{
    if d < 10 {
        (48u8 + d) as char
    } else {
        (87u8 + d) as char
    }
}

/// Appends the decimal representation of `n`.
pub fn push_decimal_u8(s: &mut String, n: u8)
    ensures
        final(s)@ == old(s)@ + decimal(n as nat),
{
    proof {
        reveal_with_fuel(decimal, 3);
    }
    if n >= 100 {
        push_char(s, digit(n / 100));
    }
    if n >= 10 {
        push_char(s, digit((n / 10) % 10));
    }
    push_char(s, digit(n % 10));
    proof {
        let n_: nat = n as nat;
        if n_ >= 100 {
            assert(decimal(n_ / 10) == decimal(n_ / 100).push(digit_char(((n_ / 10) % 10) as int)));
            assert(decimal(n_ / 100) == seq![digit_char((n_ / 100) as int)]);
        }
        assert(s@ =~= old(s)@ + decimal(n as nat));
    }
}

/// Appends `0x` and the four lower-case hexadecimal digits of `n`.
pub fn push_hex4(s: &mut String, n: u16)
    ensures
        final(s)@ == old(s)@ + seq!['0', 'x'] + hex4(n),
{
    push_char(s, '0');
    push_char(s, 'x');
    push_char(s, digit((n / 4096) as u8));
    push_char(s, digit(((n / 256) % 16) as u8));
    push_char(s, digit(((n / 16) % 16) as u8));
    push_char(s, digit((n % 16) as u8));
    assert(s@ =~= old(s)@ + seq!['0', 'x'] + hex4(n));
}

/// Whether two strings hold the same characters.
pub fn str_eq(a: &str, b: &str) -> (same: bool)
    ensures
        same == (a@ == b@),
{
    let n = a.unicode_len();
    if n != b.unicode_len() {
        return false;
    }
    let mut i: usize = 0;
    while i < n
        invariant
            n == a@.len(),
            n == b@.len(),
            i <= n,
            forall|j: int| 0 <= j < i ==> #[trigger] a@[j] == b@[j],
        decreases n - i,
    {
        if a.get_char(i) != b.get_char(i) {
            return false;
        }
        i = i + 1;
    }
    assert(a@ =~= b@);
    true
}

} // verus!
