//! Executable bit-string machinery: rendering a machine value as a binary
//! string of a given width, and rendering a 16-bit binary string as four
//! lowercase hexadecimal digits.

use vstd::prelude::*;

use crate::model::{bit_val, bits_value, hex4, hex_char_of, is_bin};
use vstd::arithmetic::div_mod::{lemma_basic_div, lemma_div_denominator};
use vstd::string::{StrSliceExecFns, StringExecFns};

verus! {

/// 2 to the power `k`.
pub open spec fn p2(k: nat) -> int
    decreases k,
{
    if k == 0 {
        1
    } else {
        2 * p2((k - 1) as nat)
    }
}

pub proof fn lemma_p2_pos(k: nat)
    ensures
        p2(k) >= 1,
    decreases k,
{
    if k > 0 {
        lemma_p2_pos((k - 1) as nat);
    }
}

pub proof fn lemma_p2_mono(a: nat, b: nat)
    requires
        a <= b,
    ensures
        p2(a) <= p2(b),
    decreases b,
{
    if a < b {
        lemma_p2_mono(a, (b - 1) as nat);
        lemma_p2_pos((b - 1) as nat);
    }
}

/// Appending a bit multiplies the value by two and adds the bit.
pub proof fn lemma_bits_value_push(s: Seq<char>, c: char)
    ensures
        bits_value(s.push(c)) == 2 * bits_value(s) + bit_val(c),
{
    assert(s.push(c).drop_last() =~= s);
    assert(s.push(c).last() == c);
}

fn push_bit(s: &mut String, one: bool)
    ensures
        final(s)@ == old(s)@.push(if one { '1' } else { '0' }),
{
    if one {
        s.append("1");
        proof {
            reveal_strlit("1");
            assert(s@ =~= old(s)@.push('1'));
        }
    } else {
        s.append("0");
        proof {
            reveal_strlit("0");
            assert(s@ =~= old(s)@.push('0'));
        }
    }
}

/// The `k`-bit binary string of `v`, most-significant bit first.
pub(crate) fn to_bin_string(v: u16, k: usize) -> (r: String)
    requires
        k <= 16,
        (v as int) < p2(k as nat),
    ensures
        r@.len() == k as int,
        is_bin(r@),
        bits_value(r@) == v as int,
{
    let mut d: u32 = 1;
    let mut i: usize = 0;
    while i < k
        invariant
            i <= k <= 16,
            d as int == p2(i as nat),
        decreases k - i,
    {
        proof {
            lemma_p2_mono(i as nat, 15);
            assert(p2(15) == 32768) by {
                reveal_with_fuel(p2, 16);
            }
        }
        d = d * 2;
        i = i + 1;
    }
    let mut s = String::new();
    let mut j: usize = k;
    proof {
        lemma_p2_pos(k as nat);
        lemma_basic_div(v as int, p2(k as nat));
    }
    while j > 0
        invariant
            j <= k <= 16,
            (v as int) < p2(k as nat),
            d as int == p2(j as nat),
            s@.len() == k - j,
            is_bin(s@),
            bits_value(s@) == (v as int) / p2(j as nat),
        decreases j,
    {
        proof {
            lemma_p2_pos((j - 1) as nat);
        }
    let dh: u32 = d / 2;
        let b: u32 = ((v as u32) / dh) % 2;
        proof {
            assert(dh as int == p2((j - 1) as nat));
            lemma_div_denominator(v as int, p2((j - 1) as nat), 2);
            lemma_bits_value_push(s@, if b == 1 {
                '1'
            } else {
                '0'
            });
        }
        push_bit(&mut s, b == 1);
        d = dh;
        j = j - 1;
    }
    s
}

/// The 16-bit binary string of one machine word.
pub(crate) fn word_bits(w: u16) -> (r: String)
    ensures
        r@.len() == 16,
        is_bin(r@),
        bits_value(r@) == w as int,
{
    proof {
        assert(p2(16) == 65536) by {
            reveal_with_fuel(p2, 17);
        }
    }
    to_bin_string(w, 16)
}

fn hex_digit_str(d: u8) -> (r: &'static str)
    requires
        d < 16,
    ensures
        r@ == seq![hex_char_of(d as int)],
{
    if d == 0 {
        proof {
            reveal_strlit("0");
            assert("0"@ =~= seq![hex_char_of(0)]);
        }
        "0"
    } else if d == 1 {
        proof {
            reveal_strlit("1");
            assert("1"@ =~= seq![hex_char_of(1)]);
        }
        "1"
    } else if d == 2 {
        proof {
            reveal_strlit("2");
            assert("2"@ =~= seq![hex_char_of(2)]);
        }
        "2"
    } else if d == 3 {
        proof {
            reveal_strlit("3");
            assert("3"@ =~= seq![hex_char_of(3)]);
        }
        "3"
    } else if d == 4 {
        proof {
            reveal_strlit("4");
            assert("4"@ =~= seq![hex_char_of(4)]);
        }
        "4"
    } else if d == 5 {
        proof {
            reveal_strlit("5");
            assert("5"@ =~= seq![hex_char_of(5)]);
        }
        "5"
    } else if d == 6 {
        proof {
            reveal_strlit("6");
            assert("6"@ =~= seq![hex_char_of(6)]);
        }
        "6"
    } else if d == 7 {
        proof {
            reveal_strlit("7");
            assert("7"@ =~= seq![hex_char_of(7)]);
        }
        "7"
    } else if d == 8 {
        proof {
            reveal_strlit("8");
            assert("8"@ =~= seq![hex_char_of(8)]);
        }
        "8"
    } else if d == 9 {
        proof {
            reveal_strlit("9");
            assert("9"@ =~= seq![hex_char_of(9)]);
        }
        "9"
    } else if d == 10 {
        proof {
            reveal_strlit("a");
            assert("a"@ =~= seq![hex_char_of(10)]);
        }
        "a"
    } else if d == 11 {
        proof {
            reveal_strlit("b");
            assert("b"@ =~= seq![hex_char_of(11)]);
        }
        "b"
    } else if d == 12 {
        proof {
            reveal_strlit("c");
            assert("c"@ =~= seq![hex_char_of(12)]);
        }
        "c"
    } else if d == 13 {
        proof {
            reveal_strlit("d");
            assert("d"@ =~= seq![hex_char_of(13)]);
        }
        "d"
    } else if d == 14 {
        proof {
            reveal_strlit("e");
            assert("e"@ =~= seq![hex_char_of(14)]);
        }
        "e"
    } else {
        proof {
            reveal_strlit("f");
            assert("f"@ =~= seq![hex_char_of(15)]);
        }
        "f"
    }
}

/// The four lowercase hexadecimal digits of a 16-bit binary string.
pub fn bin_to_hex(bin: &str) -> (r: String)
    requires
        bin@.len() == 16,
        is_bin(bin@),
    ensures
        r@ == hex4(bits_value(bin@)),
{
    let n = bin.unicode_len();
    let mut v: u32 = 0;
    let mut i: usize = 0;
    while i < n
        invariant
            bin@.len() == 16,
            is_bin(bin@),
            n == 16,
            i <= 16,
            v as int == bits_value(bin@.take(i as int)),
            (v as int) < p2(i as nat),
        decreases n - i,
    {
        let c = bin.get_char(i);
        let b: u32 = if c == '1' {
            1
        } else {
            0
        };
        proof {
            lemma_p2_mono(i as nat, 15);
            assert(p2(15) == 32768) by {
                reveal_with_fuel(p2, 16);
            }
            assert(bin@.take(i as int + 1).drop_last() =~= bin@.take(i as int));
            assert(bin@.take(i as int + 1).last() == bin@[i as int]);
            assert(bit_val(bin@[i as int]) == b as int);
        }
        v = v * 2 + b;
        i = i + 1;
    }
    proof {
        assert(bin@.take(16) =~= bin@);
        assert(p2(16) == 65536) by {
            reveal_with_fuel(p2, 17);
        }
    }
    let mut r = String::new();
    r.append(hex_digit_str(((v / 4096) % 16) as u8));
    r.append(hex_digit_str(((v / 256) % 16) as u8));
    r.append(hex_digit_str(((v / 16) % 16) as u8));
    r.append(hex_digit_str((v % 16) as u8));
    proof {
        assert(r@ =~= hex4(bits_value(bin@)));
    }
    r
}

} // verus!
