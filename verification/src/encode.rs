//! Instruction encoders, one per opcode family.  Each returns the 16-bit
//! binary string of the encoded word; families with operands return the
//! operand's error where the operand is rejected.

use vstd::prelude::*;

use crate::bits::word_bits;
use crate::error::AsmError;
use crate::model::{
    arilog_spec, bits_value, cmp_spec, is_bin, jmp_spec, mov_spec, mvab_spec, mvg_spec, mvi_spec,
    pop_spec, psh_spec, put_spec, png_spec,
};
use crate::operand::{imm_byte, mem_value, reg_index};
use vstd::string::StrSliceExecFns;

verus! {

/// Character-for-character string equality.
pub(crate) fn str_eq(a: &str, b: &str) -> (r: bool)
    ensures
        r == (a@ == b@),
{
    let la = a.unicode_len();
    let lb = b.unicode_len();
    if la != lb {
        return false;
    }
    let mut i: usize = 0;
    while i < la
        invariant
            i <= la,
            la == a@.len(),
            la == b@.len(),
            forall|k: int| 0 <= k < i ==> a@[k] == b@[k],
        decreases la - i,
    {
        if a.get_char(i) != b.get_char(i) {
            return false;
        }
        i = i + 1;
    }
    proof {
        assert(a@ =~= b@);
    }
    true
}

/// `NOP`: the all-zero word.
pub fn parse_nop() -> (r: String)
    ensures
        r@.len() == 16,
        is_bin(r@),
        bits_value(r@) == 0x0000,
{
    word_bits(0x0000)
}

/// `HLT`: the all-one word.
pub fn parse_hlt() -> (r: String)
    ensures
        r@.len() == 16,
        is_bin(r@),
        bits_value(r@) == 0xffff,
{
    word_bits(0xffff)
}

/// `INT`: `0000 1111 0000 1111`.
pub fn parse_int() -> (r: String)
    ensures
        r@.len() == 16,
        is_bin(r@),
        bits_value(r@) == 0x0f0f,
{
    word_bits(0x0f0f)
}

/// `GET`: `0110` followed by zeros.
pub fn parse_get() -> (r: String)
    ensures
        r@.len() == 16,
        is_bin(r@),
        bits_value(r@) == 0x6000,
{
    word_bits(0x6000)
}

/// `MOV z x`: register to register.
pub fn parse_mov(z: &str, x: &str) -> (r: Result<String, AsmError>)
    ensures
        mov_spec(z@, x@) matches Ok(w) ==> r matches Ok(s) && s@.len() == 16 && is_bin(s@)
            && bits_value(s@) == w,
        mov_spec(z@, x@) matches Err(e) ==> r == Err::<String, AsmError>(e),
{
    let zi = match reg_index(z) {
        Ok(v) => v,
        Err(e) => {
            return Err(e);
        },
    };
    let xi = match reg_index(x) {
        Ok(v) => v,
        Err(e) => {
            return Err(e);
        },
    };
    Ok(word_bits(0x1000 + (zi as u16) * 0x100 + (xi as u16) * 0x10))
}

/// `MVI z v`: immediate byte into a register.  The immediate is read
/// before the register, so its error takes precedence.
pub fn parse_mvi(z: &str, val: &str) -> (r: Result<String, AsmError>)
    ensures
        mvi_spec(z@, val@) matches Ok(w) ==> r matches Ok(s) && s@.len() == 16 && is_bin(s@)
            && bits_value(s@) == w,
        mvi_spec(z@, val@) matches Err(e) ==> r == Err::<String, AsmError>(e),
{
    let v = match imm_byte(val) {
        Ok(v) => v,
        Err(e) => {
            return Err(e);
        },
    };
    let zi = match reg_index(z) {
        Ok(v) => v,
        Err(e) => {
            return Err(e);
        },
    };
    Ok(word_bits(0x1800 + (zi as u16) * 0x100 + (v as u16)))
}

/// Arithmetic/logic: the mnemonic picks the three selector bits, and the
/// three registers fill the remaining fields.
pub fn parse_arilog(opcode: &str, z: &str, x: &str, y: &str) -> (r: Result<String, AsmError>)
    ensures
        arilog_spec(opcode@, z@, x@, y@) matches Ok(w) ==> r matches Ok(s) && s@.len() == 16
            && is_bin(s@) && bits_value(s@) == w,
        arilog_spec(opcode@, z@, x@, y@) matches Err(e) ==> r == Err::<String, AsmError>(e),
{
    let sel: (u16, u16, u16) = if str_eq(opcode, "ADD") {
        (0, 0, 0)
    } else if str_eq(opcode, "SUB") {
        (0, 0, 1)
    } else if str_eq(opcode, "MUL") {
        (0, 1, 0)
    } else if str_eq(opcode, "DIV") {
        (0, 1, 1)
    } else if str_eq(opcode, "NOT") {
        (1, 0, 0)
    } else if str_eq(opcode, "AND") {
        (1, 0, 1)
    } else if str_eq(opcode, "LOR") {
        (1, 1, 0)
    } else if str_eq(opcode, "XOR") {
        (1, 1, 1)
    } else {
        return Err(AsmError::UnknownMnemonic);
    };
    let zi = match reg_index(z) {
        Ok(v) => v,
        Err(e) => {
            return Err(e);
        },
    };
    let xi = match reg_index(x) {
        Ok(v) => v,
        Err(e) => {
            return Err(e);
        },
    };
    let yi = match reg_index(y) {
        Ok(v) => v,
        Err(e) => {
            return Err(e);
        },
    };
    Ok(
        word_bits(
            0x2000 + sel.0 * 0x800 + (zi as u16) * 0x100 + sel.1 * 0x80 + (xi as u16) * 0x10
                + sel.2 * 8 + (yi as u16),
        ),
    )
}

/// `MVA x` / `MVB x`: register into accumulator A or B.
pub fn parse_mvab(opcode: &str, x: &str) -> (r: Result<String, AsmError>)
    ensures
        mvab_spec(opcode@, x@) matches Ok(w) ==> r matches Ok(s) && s@.len() == 16 && is_bin(s@)
            && bits_value(s@) == w,
        mvab_spec(opcode@, x@) matches Err(e) ==> r == Err::<String, AsmError>(e),
{
    let o: u16 = if str_eq(opcode, "MVA") {
        0
    } else if str_eq(opcode, "MVB") {
        1
    } else {
        return Err(AsmError::UnknownMnemonic);
    };
    let xi = match reg_index(x) {
        Ok(v) => v,
        Err(e) => {
            return Err(e);
        },
    };
    Ok(word_bits(0x3000 + o * 0x100 + (xi as u16) * 0x10))
}

/// Comparators `CME`/`CMN`/`CML`/`CMG`/`CMF`/`CMT`: a 4-bit code and zeros.
pub fn parse_cmp(opcode: &str) -> (r: Result<String, AsmError>)
    ensures
        cmp_spec(opcode@) matches Ok(w) ==> r matches Ok(s) && s@.len() == 16 && is_bin(s@)
            && bits_value(s@) == w,
        cmp_spec(opcode@) matches Err(e) ==> r == Err::<String, AsmError>(e),
{
    let code: u16 = if str_eq(opcode, "CME") {
        0
    } else if str_eq(opcode, "CMN") {
        1
    } else if str_eq(opcode, "CML") {
        2
    } else if str_eq(opcode, "CMG") {
        3
    } else if str_eq(opcode, "CMF") {
        4
    } else if str_eq(opcode, "CMT") {
        5
    } else {
        return Err(AsmError::UnknownMnemonic);
    };
    Ok(word_bits(0x4000 + code * 0x100))
}

/// Jumps `JMP`/`JMF`/`JMT`: a 4-bit code and the 8-bit target address.
pub fn parse_jmp(opcode: &str, mem: &str) -> (r: Result<String, AsmError>)
    ensures
        jmp_spec(opcode@, mem@) matches Ok(w) ==> r matches Ok(s) && s@.len() == 16 && is_bin(s@)
            && bits_value(s@) == w,
        jmp_spec(opcode@, mem@) matches Err(e) ==> r == Err::<String, AsmError>(e),
{
    let code: u16 = if str_eq(opcode, "JMP") {
        0
    } else if str_eq(opcode, "JMF") {
        1
    } else if str_eq(opcode, "JMT") {
        2
    } else {
        return Err(AsmError::UnknownMnemonic);
    };
    let mv = match mem_value(mem) {
        Ok(v) => v,
        Err(e) => {
            return Err(e);
        },
    };
    Ok(word_bits(0x5000 + code * 0x100 + (mv as u16)))
}

/// `PUT out x`: register to output port.
pub fn parse_put(out_adr: &str, x_adr: &str) -> (r: Result<String, AsmError>)
    ensures
        put_spec(out_adr@, x_adr@) matches Ok(w) ==> r matches Ok(s) && s@.len() == 16 && is_bin(
            s@,
        ) && bits_value(s@) == w,
        put_spec(out_adr@, x_adr@) matches Err(e) ==> r == Err::<String, AsmError>(e),
{
    let oi = match reg_index(out_adr) {
        Ok(v) => v,
        Err(e) => {
            return Err(e);
        },
    };
    let xi = match reg_index(x_adr) {
        Ok(v) => v,
        Err(e) => {
            return Err(e);
        },
    };
    Ok(word_bits(0x6800 + (oi as u16) * 0x100 + (xi as u16) * 0x10))
}

/// `MVG z`: the G register into a register.
pub fn parse_mvg(z_adr: &str) -> (r: Result<String, AsmError>)
    ensures
        mvg_spec(z_adr@) matches Ok(w) ==> r matches Ok(s) && s@.len() == 16 && is_bin(s@)
            && bits_value(s@) == w,
        mvg_spec(z_adr@) matches Err(e) ==> r == Err::<String, AsmError>(e),
{
    let zi = match reg_index(z_adr) {
        Ok(v) => v,
        Err(e) => {
            return Err(e);
        },
    };
    Ok(word_bits(0x7000 + (zi as u16) * 0x100))
}

/// `PSH x`: push a register.
pub fn parse_psh(x_adr: &str) -> (r: Result<String, AsmError>)
    ensures
        psh_spec(x_adr@) matches Ok(w) ==> r matches Ok(s) && s@.len() == 16 && is_bin(s@)
            && bits_value(s@) == w,
        psh_spec(x_adr@) matches Err(e) ==> r == Err::<String, AsmError>(e),
{
    let xi = match reg_index(x_adr) {
        Ok(v) => v,
        Err(e) => {
            return Err(e);
        },
    };
    Ok(word_bits(0x8f00 + (xi as u16) * 0x10))
}

/// `POP z`: pop into a register.
pub fn parse_pop(z_adr: &str) -> (r: Result<String, AsmError>)
    ensures
        pop_spec(z_adr@) matches Ok(w) ==> r matches Ok(s) && s@.len() == 16 && is_bin(s@)
            && bits_value(s@) == w,
        pop_spec(z_adr@) matches Err(e) ==> r == Err::<String, AsmError>(e),
{
    let zi = match reg_index(z_adr) {
        Ok(v) => v,
        Err(e) => {
            return Err(e);
        },
    };
    Ok(word_bits(0x8000 + (zi as u16) * 0x100))
}

/// `PNG v`: an immediate byte with the fixed prefix `1001 0000`.
pub fn parse_png(val: &str) -> (r: Result<String, AsmError>)
    ensures
        png_spec(val@) matches Ok(w) ==> r matches Ok(s) && s@.len() == 16 && is_bin(s@)
            && bits_value(s@) == w,
        png_spec(val@) matches Err(e) ==> r == Err::<String, AsmError>(e),
{
    let v = match imm_byte(val) {
        Ok(v) => v,
        Err(e) => {
            return Err(e);
        },
    };
    Ok(word_bits(0x9000 + (v as u16)))
}

} // verus!
