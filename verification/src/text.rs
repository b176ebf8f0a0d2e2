//! Numbers in texts.
use vstd::prelude::*;

verus! {

/// The character of a decimal digit.
pub open spec fn digit(n: nat) -> char {
    (0x30 + n) as char
}

/// A number as decimal digits, without zeros in front.
pub open spec fn digits(n: nat) -> Seq<char>
    decreases n,
{
    if n < 10 {
        seq![digit(n)]
    } else {
        digits(n / 10).push(digit(n % 10))
    }
}

/// A number as decimal digits, with a sign in front where it is negative.
pub open spec fn signed_digits(n: int) -> Seq<char> {
    if n < 0 {
        seq!['-'] + digits((-n) as nat)
    } else {
        digits(n as nat)
    }
}

/// Appends a decimal digit.
fn push_digit(text: &mut String, n: u32)
    requires
        n < 10,
    ensures
        final(text)@ == old(text)@.push(digit(n as nat)),
{
    proof {
        reveal_strlit("0");
        reveal_strlit("1");
        reveal_strlit("2");
        reveal_strlit("3");
        reveal_strlit("4");
        reveal_strlit("5");
        reveal_strlit("6");
        reveal_strlit("7");
        reveal_strlit("8");
        reveal_strlit("9");
    }
    let shown: &str = match n {
        0 => "0",
        1 => "1",
        2 => "2",
        3 => "3",
        4 => "4",
        5 => "5",
        6 => "6",
        7 => "7",
        8 => "8",
        _ => "9",
    };
    assert(shown@ =~= seq![digit(n as nat)]);
    text.append(shown);
}

/// Appends the digits of a number.
pub fn push_digits(text: &mut String, n: u64)
    ensures
        final(text)@ == old(text)@ + digits(n as nat),
    decreases n,
{
    if n >= 10 {
        push_digits(text, n / 10);
    }
    push_digit(text, (n % 10) as u32);
    assert(text@ =~= old(text)@ + digits(n as nat));
}

/// The character of a hexadecimal digit.
pub open spec fn hex_digit(n: nat) -> char {
    if n < 10 {
        digit(n)
    } else {
        (0x57 + n) as char
    }
}

/// A number as hexadecimal digits, without zeros in front.
pub open spec fn hex_digits(n: nat) -> Seq<char>
    decreases n,
{
    if n < 16 {
        seq![hex_digit(n)]
    } else {
        hex_digits(n / 16).push(hex_digit(n % 16))
    }
}

/// A number as hexadecimal digits, marked as such.
pub open spec fn hex(n: u64) -> Seq<char> {
    seq!['0', 'x'] + hex_digits(n as nat)
}

/// Appends a hexadecimal digit.
fn push_hex_digit(text: &mut String, n: u32)
    requires
        n < 16,
    ensures
        final(text)@ == old(text)@.push(hex_digit(n as nat)),
{
    if n < 10 {
        push_digit(text, n);
    } else {
        proof {
            reveal_strlit("a");
            reveal_strlit("b");
            reveal_strlit("c");
            reveal_strlit("d");
            reveal_strlit("e");
            reveal_strlit("f");
        }
        let shown: &str = match n {
            10 => "a",
            11 => "b",
            12 => "c",
            13 => "d",
            14 => "e",
            _ => "f",
        };
        assert(shown@ =~= seq![hex_digit(n as nat)]);
        text.append(shown);
    }
}

fn push_hex_digits(text: &mut String, n: u64)
    ensures
        final(text)@ == old(text)@ + hex_digits(n as nat),
    decreases n,
{
    if n >= 16 {
        push_hex_digits(text, n / 16);
    }
    push_hex_digit(text, (n % 16) as u32);
    assert(text@ =~= old(text)@ + hex_digits(n as nat));
}

/// Appends a number as hexadecimal digits, marked as such.
pub fn push_hex(text: &mut String, n: u64)
    ensures
        final(text)@ == old(text)@ + hex(n),
{
    proof {
        reveal_strlit("0x");
    }
    assert("0x"@ =~= seq!['0', 'x']);
    text.append("0x");
    push_hex_digits(text, n);
    assert(text@ =~= old(text)@ + hex(n));
}

/// Appends the digits of a number, with a sign in front where it is negative.
pub fn push_signed(text: &mut String, n: i32)
    ensures
        final(text)@ == old(text)@ + signed_digits(n as int),
{
    if n < 0 {
        proof {
            reveal_strlit("-");
        }
        assert("-"@ =~= seq!['-']);
        text.append("-");
        push_digits(text, (-(n as i64)) as u64);
    } else {
        push_digits(text, n as u64);
    }
    assert(text@ =~= old(text)@ + signed_digits(n as int));
}

} // verus!
