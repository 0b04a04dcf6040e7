//! Operand encoders: register and output-port indices, memory-address
//! literals, hexadecimal digits, and decimal immediates.

use vstd::prelude::*;

use crate::bits::{p2, to_bin_string};
use crate::error::AsmError;
use crate::model::{
    all_digits, bits_value, dec_value, digit_val, hex_val, imm_digits, imm_spec, is_ascii_ws,
    is_bin, is_digit, is_hex, is_hex_lower, lemma_dec_value_take_le, lemma_ws_prefix_char,
    lemma_ws_suffix_char, mem_spec, reg_spec, trim_spec,
};
use vstd::string::StrSliceExecFns;

verus! {

/// The 3-bit index named by a register or output-port token.
pub(crate) fn reg_index(t: &str) -> (r: Result<u8, AsmError>)
    ensures
        reg_spec(t@) matches Ok(n) ==> r matches Ok(u) && u as int == n,
        reg_spec(t@) matches Err(e) ==> r == Err::<u8, AsmError>(e),
{
    let n = t.unicode_len();
    if n == 0 {
        return Ok(0);
    }
    let c = t.get_char(n - 1);
    proof {
        assert(t@.last() == t@[n as int - 1]);
    }
    let cv = c as u32;
    if cv < 48 || cv > 57 {
        return Err(AsmError::MalformedOperand);
    }
    let d = (cv - 48) as u8;
    if d > 7 {
        return Err(AsmError::OperandOutOfRange);
    }
    Ok(d)
}

/// Encodes a register operand `DTA0`..`DTA7` as its three bits, most
/// significant first.  An empty operand encodes as index 0; only the last
/// character of the token is read.
pub fn parse_dta_adr(dta_adr: &str) -> (r: Result<String, AsmError>)
    ensures
        reg_spec(dta_adr@) matches Ok(n) ==> r matches Ok(s) && s@.len() == 3 && is_bin(s@)
            && bits_value(s@) == n,
        reg_spec(dta_adr@) matches Err(e) ==> r == Err::<String, AsmError>(e),
{
    match reg_index(dta_adr) {
        Ok(n) => {
            proof {
                assert(p2(3) == 8) by {
                    reveal_with_fuel(p2, 4);
                }
            }
            Ok(to_bin_string(n as u16, 3))
        },
        Err(e) => Err(e),
    }
}

/// Encodes an output-port operand `OUT0`..`OUT7`; the rules are those of
/// register operands.
pub fn parse_out_adr(out_adr: &str) -> (r: Result<String, AsmError>)
    ensures
        reg_spec(out_adr@) matches Ok(n) ==> r matches Ok(s) && s@.len() == 3 && is_bin(s@)
            && bits_value(s@) == n,
        reg_spec(out_adr@) matches Err(e) ==> r == Err::<String, AsmError>(e),
{
    match reg_index(out_adr) {
        Ok(n) => {
            proof {
                assert(p2(3) == 8) by {
                    reveal_with_fuel(p2, 4);
                }
            }
            Ok(to_bin_string(n as u16, 3))
        },
        Err(e) => Err(e),
    }
}

/// The value of one lowercase hexadecimal digit.
pub fn hex_to_decimal(hex: &char) -> (r: Result<i8, AsmError>)
    ensures
        is_hex_lower(*hex) ==> (r matches Ok(v) && v as int == hex_val(*hex)),
        !is_hex_lower(*hex) ==> r == Err::<i8, AsmError>(AsmError::OperandOutOfRange),
{
    let cv = (*hex) as u32;
    if cv >= 48 && cv <= 57 {
        Ok((cv - 48) as i8)
    } else if cv >= 97 && cv <= 102 {
        Ok((cv - 87) as i8)
    } else {
        Err(AsmError::OperandOutOfRange)
    }
}

/// ASCII uppercase letters fold to lowercase; other characters pass through.
fn lower_ascii(c: char) -> (r: char)
    ensures
        is_hex_lower(r) <==> is_hex(c),
        is_hex(c) ==> hex_val(r) == hex_val(c),
{
    let cv = c as u32;
    if cv >= 65 && cv <= 90 {
        ((cv + 32) as u8) as char
    } else {
        c
    }
}

/// The byte named by a memory-address operand.
pub(crate) fn mem_value(mem_adr: &str) -> (r: Result<u8, AsmError>)
    ensures
        mem_spec(mem_adr@) matches Ok(v) ==> r matches Ok(b) && b as int == v,
        mem_spec(mem_adr@) matches Err(e) ==> r == Err::<u8, AsmError>(e),
{
    let n = mem_adr.unicode_len();
    if n < 2 {
        return Err(AsmError::MalformedOperand);
    }
    let lo = lower_ascii(mem_adr.get_char(n - 1));
    let up = lower_ascii(mem_adr.get_char(n - 2));
    let u = match hex_to_decimal(&up) {
        Ok(v) => v,
        Err(e) => {
            return Err(e);
        },
    };
    let l = match hex_to_decimal(&lo) {
        Ok(v) => v,
        Err(e) => {
            return Err(e);
        },
    };
    Ok((u as u8) * 16 + (l as u8))
}

/// Encodes a memory-address operand as eight bits: the last two characters
/// of the token are folded to lowercase and read as hexadecimal digits,
/// upper nibble first.
pub fn parse_mem_adr(mem_adr: &str) -> (r: Result<String, AsmError>)
    ensures
        mem_spec(mem_adr@) matches Ok(v) ==> r matches Ok(s) && s@.len() == 8 && is_bin(s@)
            && bits_value(s@) == v,
        mem_spec(mem_adr@) matches Err(e) ==> r == Err::<String, AsmError>(e),
{
    match mem_value(mem_adr) {
        Ok(b) => {
            proof {
                assert(p2(8) == 256) by {
                    reveal_with_fuel(p2, 9);
                }
            }
            Ok(to_bin_string(b as u16, 8))
        },
        Err(e) => Err(e),
    }
}

/// Whether a character counts as ASCII whitespace for immediate trimming.
fn is_ws_char(c: char) -> (r: bool)
    ensures
        r == is_ascii_ws(c),
{
    c == ' ' || c == '\t' || c == '\n' || c == '\u{c}' || c == '\r'
}

/// Reads an immediate operand: the token is trimmed of ASCII whitespace
/// and must then be an optionally plus-signed decimal literal in [0, 255].
pub(crate) fn imm_byte(t: &str) -> (r: Result<u8, AsmError>)
    ensures
        imm_spec(t@) matches Ok(i) ==> r matches Ok(v) && v as int == i,
        imm_spec(t@) matches Err(e) ==> r == Err::<u8, AsmError>(e),
{
    let n = t.unicode_len();
    let mut lo: usize = 0;
    while lo < n && is_ws_char(t.get_char(lo))
        invariant
            lo <= n,
            n == t@.len(),
            forall|k: int| 0 <= k < lo ==> is_ascii_ws(t@[k]),
        decreases n - lo,
    {
        lo = lo + 1;
    }
    let mut hi: usize = n;
    while hi > 0 && is_ws_char(t.get_char(hi - 1))
        invariant
            hi <= n,
            n == t@.len(),
            forall|k: int| hi <= k < n ==> is_ascii_ws(t@[k]),
        decreases hi,
    {
        hi = hi - 1;
    }
    proof {
        lemma_ws_prefix_char(t@, lo as int);
        lemma_ws_suffix_char(t@, hi as int);
    }
    if lo >= hi {
        proof {
            assert(trim_spec(t@).len() == 0);
            assert(imm_digits(t@).len() == 0);
        }
        return Err(AsmError::MalformedOperand);
    }
    proof {
        assert(trim_spec(t@) =~= t@.subrange(lo as int, hi as int));
    }
    let start: usize = if t.get_char(lo) == '+' {
        lo + 1
    } else {
        lo
    };
    proof {
        assert(imm_digits(t@) =~= t@.subrange(start as int, hi as int));
    }
    if start == hi {
        return Err(AsmError::MalformedOperand);
    }
    let mut i: usize = start;
    while i < hi
        invariant
            start <= i <= hi <= n,
            n == t@.len(),
            imm_digits(t@) =~= t@.subrange(start as int, hi as int),
            forall|k: int| start <= k < i ==> is_digit(t@[k]),
        decreases hi - i,
    {
        let cv = t.get_char(i) as u32;
        if cv < 48 || cv > 57 {
            proof {
                assert(!is_digit(imm_digits(t@)[i - start]));
            }
            return Err(AsmError::MalformedOperand);
        }
        i = i + 1;
    }
    proof {
        assert(all_digits(imm_digits(t@)));
    }
    let mut acc: u16 = 0;
    let mut j: usize = start;
    while j < hi
        invariant
            start <= j <= hi <= n,
            n == t@.len(),
            imm_digits(t@) =~= t@.subrange(start as int, hi as int),
            all_digits(imm_digits(t@)),
            start < hi,
            acc as int == dec_value(t@.subrange(start as int, j as int)),
            acc <= 255,
        decreases hi - j,
    {
        let cv = t.get_char(j) as u32;
        proof {
            assert(is_digit(imm_digits(t@)[j - start]));
            assert(imm_digits(t@)[j - start] == t@[j as int]);
        }
        let dv: u16 = (cv - 48) as u16;
        let next: u16 = acc * 10 + dv;
        proof {
            assert(t@.subrange(start as int, j as int + 1).drop_last() =~= t@.subrange(
                start as int,
                j as int,
            ));
            assert(t@.subrange(start as int, j as int + 1).last() == t@[j as int]);
            assert(next as int == dec_value(t@.subrange(start as int, j as int + 1)));
        }
        if next > 255 {
            proof {
                let d = imm_digits(t@);
                assert(t@.subrange(start as int, j as int + 1) =~= d.take(j as int + 1 - start));
                lemma_dec_value_take_le(d, j as int + 1 - start);
            }
            return Err(AsmError::OperandOutOfRange);
        }
        acc = next;
        j = j + 1;
    }
    proof {
        assert(t@.subrange(start as int, hi as int) =~= imm_digits(t@));
    }
    Ok(acc as u8)
}

} // verus!
