//! Text rendering of numbers and literals, used by the display methods.
use vstd::prelude::*;
use vstd::string::StringExecFns;
use vstd::string::StrSliceExecFns;

use crate::Polarity;

verus! {

/// The character of a decimal digit.
pub open spec fn digit_char(d: nat) -> char {
    (48 + d) as char
}

/// The decimal notation of `n`, without leading zeros.
pub open spec fn decimal(n: nat) -> Seq<char>
    decreases n,
{
    if n < 10 {
        seq![digit_char(n)]
    } else {
        decimal(n / 10).push(digit_char(n % 10))
    }
}

/// The binary notation of `n`, without leading zeros.
pub open spec fn binary(n: nat) -> Seq<char>
    decreases n,
{
    if n < 2 {
        seq![digit_char(n)]
    } else {
        binary(n / 2).push(digit_char(n % 2))
    }
}

/// The `width` lowest binary digits of `n`, most significant first.
pub open spec fn binary_padded(n: nat, width: nat) -> Seq<char>
    decreases width,
{
    if width == 0 {
        seq![]
    } else {
        binary_padded(n / 2, (width - 1) as nat).push(digit_char(n % 2))
    }
}

/// `+` or `-`.
pub open spec fn polarity_text(p: Polarity) -> Seq<char> {
    match p {
        Polarity::Pos => seq!['+'],
        Polarity::Neg => seq!['-'],
    }
}

/// A fresh string with the characters of `s`.
pub fn lit(s: &str) -> (r: String)
    ensures
        r@ == s@,
{
    String::from_str(s)
}

/// The one-character string of a decimal digit.
pub fn digit_str(d: u64) -> (r: &'static str)
    requires
        d < 10,
    ensures
        r@ == seq![digit_char(d as nat)],
{
    proof {
        reveal_strlit("0");
        reveal_strlit("1");
        reveal_strlit("2");
        reveal_strlit("3");
        reveal_strlit("4");
        reveal_strlit("5");
        reveal_strlit("6");
        reveal_strlit("7");
        reveal_strlit("8");
        reveal_strlit("9");
    }
    if d == 0 {
        "0"
    } else if d == 1 {
        "1"
    } else if d == 2 {
        "2"
    } else if d == 3 {
        "3"
    } else if d == 4 {
        "4"
    } else if d == 5 {
        "5"
    } else if d == 6 {
        "6"
    } else if d == 7 {
        "7"
    } else if d == 8 {
        "8"
    } else {
        "9"
    }
}

/// Appends the decimal notation of `n` to `out`.
pub fn push_decimal(out: &mut String, n: u64)
    ensures
        final(out)@ == old(out)@ + decimal(n as nat),
    decreases n,
{
    if n < 10 {
        out.append(digit_str(n));
    } else {
        push_decimal(out, n / 10);
        out.append(digit_str(n % 10));
        assert(old(out)@ + decimal(n as nat) =~= old(out)@ + decimal((n / 10) as nat) + seq![
            digit_char((n % 10) as nat),
        ]);
    }
}

/// Appends the binary notation of `n` to `out`.
pub fn push_binary(out: &mut String, n: u64)
    ensures
        final(out)@ == old(out)@ + binary(n as nat),
    decreases n,
{
    if n < 2 {
        out.append(digit_str(n));
    } else {
        push_binary(out, n / 2);
        out.append(digit_str(n % 2));
        assert(old(out)@ + binary(n as nat) =~= old(out)@ + binary((n / 2) as nat) + seq![
            digit_char((n % 2) as nat),
        ]);
    }
}

/// Appends the `width` lowest binary digits of `n` to `out`.
pub fn push_binary_padded(out: &mut String, n: u64, width: u64)
    ensures
        final(out)@ == old(out)@ + binary_padded(n as nat, width as nat),
    decreases width,
{
    if width > 0 {
        push_binary_padded(out, n / 2, width - 1);
        out.append(digit_str(n % 2));
        assert(old(out)@ + binary_padded(n as nat, width as nat) =~= old(out)@ + binary_padded(
            (n / 2) as nat,
            (width - 1) as nat,
        ) + seq![digit_char((n % 2) as nat)]);
    } else {
        assert(old(out)@ + binary_padded(n as nat, 0) =~= old(out)@);
    }
}

/// Whether two strings hold the same characters.
pub fn str_eq(a: &str, b: &str) -> (r: bool)
    ensures
        r == (a@ == b@),
{
    let n = a.unicode_len();
    let m = b.unicode_len();
    if n != m {
        return false;
    }
    let mut i: usize = 0;
    while i < n
        invariant
            n == a@.len(),
            m == b@.len(),
            n == m,
            i <= n,
            forall|j: int| 0 <= j < i ==> a@[j] == b@[j],
        decreases n - i,
    {
        if a.get_char(i) != b.get_char(i) {
            return false;
        }
        i = i + 1;
    }
    assert(a@ =~= b@);
    true
}

/// The decimal notation of `n`.
pub fn decimal_string(n: u64) -> (r: String)
    ensures
        r@ == decimal(n as nat),
{
    let mut s = String::new();
    push_decimal(&mut s, n);
    assert(s@ =~= decimal(n as nat));
    s
}


/// The name of a polarity: `Pos` or `Neg`.
pub open spec fn polarity_name(p: Polarity) -> Seq<char> {
    match p {
        Polarity::Pos => seq!['P', 'o', 's'],
        Polarity::Neg => seq!['N', 'e', 'g'],
    }
}

/// The name of a polarity.
pub fn polarity_name_str(p: Polarity) -> (r: &'static str)
    ensures
        r@ == polarity_name(p),
{
    proof {
        reveal_strlit("Pos");
        reveal_strlit("Neg");
    }
    match p {
        Polarity::Pos => "Pos",
        Polarity::Neg => "Neg",
    }
}

} // verus!
