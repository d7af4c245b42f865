//! Verified decimal and hexadecimal formatting.
//!
//! Every argument string, URL, playlist name and path that the library builds
//! embeds numbers through these functions, so their contracts pin the exact
//! character sequences produced.

use vstd::prelude::*;
use vstd::string::StringExecFns;

verus! {

/// The character for one decimal digit.
pub open spec fn digit_char(d: int) -> char {
    if d == 0 {
        '0'
    } else if d == 1 {
        '1'
    } else if d == 2 {
        '2'
    } else if d == 3 {
        '3'
    } else if d == 4 {
        '4'
    } else if d == 5 {
        '5'
    } else if d == 6 {
        '6'
    } else if d == 7 {
        '7'
    } else if d == 8 {
        '8'
    } else {
        '9'
    }
}

/// The decimal notation of `n`, most significant digit first, no leading
/// zeros (a single `'0'` for zero).
pub open spec fn dec_spec(n: nat) -> Seq<char>
    decreases n,
{
    if n < 10 {
        seq![digit_char(n as int)]
    } else {
        dec_spec(n / 10) + seq![digit_char((n % 10) as int)]
    }
}

/// The character for one hexadecimal digit, lower case.
pub open spec fn hex_digit_char(d: int) -> char {
    if d < 10 {
        digit_char(d)
    } else if d == 10 {
        'a'
    } else if d == 11 {
        'b'
    } else if d == 12 {
        'c'
    } else if d == 13 {
        'd'
    } else if d == 14 {
        'e'
    } else {
        'f'
    }
}

/// `v` in hexadecimal, zero-padded on the left to exactly `digits` digits;
/// digits beyond the given width are dropped.
pub open spec fn hex_pad_spec(v: nat, digits: nat) -> Seq<char>
    decreases digits,
{
    if digits == 0 {
        Seq::<char>::empty()
    } else {
        hex_pad_spec(v / 16, (digits - 1) as nat) + seq![hex_digit_char((v % 16) as int)]
    }
}

/// `n` in decimal, zero-padded on the left to two digits.
pub open spec fn pad2_spec(n: nat) -> Seq<char> {
    if n < 10 {
        seq!['0', digit_char(n as int)]
    } else {
        dec_spec(n)
    }
}

fn digit_str(d: u8) -> (s: &'static str)
    requires
        d < 10,
    ensures
        s@ == seq![digit_char(d as int)],
{
    proof {
        reveal_strlit("0");
        reveal_strlit("1");
        reveal_strlit("2");
        reveal_strlit("3");
        reveal_strlit("4");
        reveal_strlit("5");
        reveal_strlit("6");
        reveal_strlit("7");
        reveal_strlit("8");
        reveal_strlit("9");
    }
    let s: &'static str = if d == 0 {
        "0"
    } else if d == 1 {
        "1"
    } else if d == 2 {
        "2"
    } else if d == 3 {
        "3"
    } else if d == 4 {
        "4"
    } else if d == 5 {
        "5"
    } else if d == 6 {
        "6"
    } else if d == 7 {
        "7"
    } else if d == 8 {
        "8"
    } else {
        "9"
    };
    proof {
        assert(s@ =~= seq![digit_char(d as int)]);
    }
    s
}

fn hex_digit_str(d: u8) -> (s: &'static str)
    requires
        d < 16,
    ensures
        s@ == seq![hex_digit_char(d as int)],
{
    if d < 10 {
        digit_str(d)
    } else {
        proof {
            reveal_strlit("a");
            reveal_strlit("b");
            reveal_strlit("c");
            reveal_strlit("d");
            reveal_strlit("e");
            reveal_strlit("f");
        }
        let s: &'static str = if d == 10 {
            "a"
        } else if d == 11 {
            "b"
        } else if d == 12 {
            "c"
        } else if d == 13 {
            "d"
        } else if d == 14 {
            "e"
        } else {
            "f"
        };
        proof {
            assert(s@ =~= seq![hex_digit_char(d as int)]);
        }
        s
    }
}

/// Append the decimal notation of `n` to `out`.
pub fn push_u64(out: &mut String, n: u64)
    ensures
        final(out)@ == old(out)@ + dec_spec(n as nat),
    decreases n,
{
    if n < 10 {
        out.append(digit_str(n as u8));
    } else {
        push_u64(out, n / 10);
        out.append(digit_str((n % 10) as u8));
        proof {
            assert(out@ =~= old(out)@ + dec_spec(n as nat));
        }
    }
}

/// The decimal notation of `n` as a fresh string.
pub fn u64_to_string(n: u64) -> (s: String)
    ensures
        s@ == dec_spec(n as nat),
{
    let mut s = String::new();
    push_u64(&mut s, n);
    proof {
        assert(s@ =~= dec_spec(n as nat));
    }
    s
}

/// Append `n` zero-padded to two decimal digits.
pub fn push_pad2(out: &mut String, n: u64)
    requires
        n < 100,
    ensures
        final(out)@ == old(out)@ + pad2_spec(n as nat),
{
    if n < 10 {
        out.append(digit_str(0));
        out.append(digit_str(n as u8));
        proof {
            assert(out@ =~= old(out)@ + pad2_spec(n as nat));
        }
    } else {
        push_u64(out, n);
    }
}

/// Append `v` in hexadecimal, zero-padded to `digits` digits.
pub fn push_hex_pad(out: &mut String, v: u128, digits: u32)
    ensures
        final(out)@ == old(out)@ + hex_pad_spec(v as nat, digits as nat),
    decreases digits,
{
    if digits == 0 {
        proof {
            assert(out@ =~= old(out)@ + hex_pad_spec(v as nat, 0));
        }
    } else {
        push_hex_pad(out, v / 16, digits - 1);
        out.append(hex_digit_str((v % 16) as u8));
        proof {
            assert(out@ =~= old(out)@ + hex_pad_spec(v as nat, digits as nat));
        }
    }
}

} // verus!
