//! Laws of the encoding table, stated over the model and proved once for
//! all inputs: every accepted line's word fits in 16 bits and renders as
//! four lowercase hexadecimal digits; the top nibble of every word is its
//! family prefix; and the low byte of an `MVI` word is its immediate.

use vstd::prelude::*;

use crate::model::{
    all_digits, bits_value, dec_value, hex4, imm_digits, imm_spec, is_arilog, is_bin, is_cmp,
    is_hex_lower, is_jmp, lemma_dec_value_nonneg, line_spec, mvi_spec, split_tokens,
    token_or_empty,
};
use vstd::arithmetic::div_mod::{lemma_mod_multiples_vanish, lemma_small_mod};

verus! {

/// Two binary strings of one length and one value are the same string: a
/// width and a value pin the emitted bits completely, so an operand
/// contract that gives a field's width and its value names one encoding,
/// the big-endian one.
pub proof fn lemma_bits_value_injective(a: Seq<char>, b: Seq<char>)
    requires
        is_bin(a),
        is_bin(b),
        a.len() == b.len(),
        bits_value(a) == bits_value(b),
    ensures
        a == b,
    decreases a.len(),
{
    if a.len() > 0 {
        assert(a.last() == '0' || a.last() == '1');
        assert(b.last() == '0' || b.last() == '1');
        assert(is_bin(a.drop_last()));
        assert(is_bin(b.drop_last()));
        lemma_bits_value_injective(a.drop_last(), b.drop_last());
        assert(a =~= a.drop_last().push(a.last()));
        assert(b =~= b.drop_last().push(b.last()));
    }
}

/// Every accepted line encodes to a value that fits in 16 bits.
pub proof fn lemma_word_is_16_bits(l: Seq<char>)
    ensures
        line_spec(l) matches Ok(w) ==> 0 <= w < 0x10000,
{
    let ts = split_tokens(l);
    let a = token_or_empty(ts, 1);
    let b = token_or_empty(ts, 2);
    if all_digits(imm_digits(a)) {
        lemma_dec_value_nonneg(imm_digits(a));
    }
    if all_digits(imm_digits(b)) {
        lemma_dec_value_nonneg(imm_digits(b));
    }
}

/// The four rendered digits of a 16-bit value are always exactly four
/// lowercase hexadecimal characters.
pub proof fn lemma_hex4_shape(w: int)
    ensures
        hex4(w).len() == 4,
        forall|i: int| 0 <= i < 4 ==> is_hex_lower(#[trigger] hex4(w)[i]),
{
}

/// The family prefix of a mnemonic: the top 4 bits of every word the
/// mnemonic's family encodes.
pub open spec fn family_prefix(m: Seq<char>) -> int {
    if m == "NOP"@ {
        0x0
    } else if m == "HLT"@ {
        0xf
    } else if m == "MOV"@ || m == "MVI"@ {
        0x1
    } else if is_arilog(m) {
        0x2
    } else if m == "MVA"@ || m == "MVB"@ {
        0x3
    } else if is_cmp(m) {
        0x4
    } else if is_jmp(m) {
        0x5
    } else if m == "INT"@ {
        0x0
    } else if m == "GET"@ || m == "PUT"@ {
        0x6
    } else if m == "MVG"@ {
        0x7
    } else if m == "PSH"@ || m == "POP"@ {
        0x8
    } else if m == "PNG"@ {
        0x9
    } else {
        0x0
    }
}

/// The top nibble of every accepted line's word is the family prefix of
/// the line's mnemonic.
pub proof fn lemma_family_prefix(l: Seq<char>)
    ensures
        line_spec(l) matches Ok(w) ==> w / 0x1000 == family_prefix(split_tokens(l)[0]),
{
    let ts = split_tokens(l);
    let m = ts[0];
    let a = token_or_empty(ts, 1);
    let b = token_or_empty(ts, 2);
    if all_digits(imm_digits(a)) {
        lemma_dec_value_nonneg(imm_digits(a));
    }
    if all_digits(imm_digits(b)) {
        lemma_dec_value_nonneg(imm_digits(b));
    }
    match line_spec(l) {
        Err(_) => {},
        Ok(w) => if m == "NOP"@ {
            assert(w / 0x1000 == 0x0);
        } else if m == "HLT"@ {
            assert(w / 0x1000 == 0xf);
        } else if m == "MOV"@ || m == "MVI"@ {
            assert(0x1000 <= w < 0x2000);
        } else if is_arilog(m) {
            assert(0x2000 <= w < 0x3000);
        } else if m == "MVA"@ || m == "MVB"@ {
            assert(0x3000 <= w < 0x4000);
        } else if is_cmp(m) {
            assert(0x4000 <= w < 0x5000);
        } else if is_jmp(m) {
            assert(0x5000 <= w < 0x6000);
        } else if m == "INT"@ {
            assert(w / 0x1000 == 0x0);
        } else if m == "GET"@ || m == "PUT"@ {
            assert(0x6000 <= w < 0x7000);
        } else if m == "MVG"@ {
            assert(0x7000 <= w < 0x8000);
        } else if m == "PSH"@ || m == "POP"@ {
            assert(0x8000 <= w < 0x9000);
        } else {
            assert(0x9000 <= w < 0xa000);
        },
    }
}

/// `MVI z v` keeps its immediate: the low 8 bits of the encoded word are
/// exactly the value of `v`, for every register token and every immediate
/// in [0, 255].
pub proof fn lemma_mvi_low_byte(z: Seq<char>, v: Seq<char>)
    ensures
        mvi_spec(z, v) matches Ok(w) ==> (imm_spec(v) matches Ok(i) && w % 256 == i),
{
    if mvi_spec(z, v) is Ok {
        lemma_dec_value_nonneg(imm_digits(v));
        let i = dec_value(imm_digits(v));
        let w = mvi_spec(z, v)->Ok_0;
        assert(256 * ((w - i) / 256) + i == w);
        lemma_mod_multiples_vanish((w - i) / 256, i, 256);
        lemma_small_mod(i as nat, 256);
    }
}

} // verus!
