//! The mathematical model of the assembler: character classes, bit-string
//! values, line tokenization, operand grammars, and the instruction
//! encoding table.  Every executable function of the crate is specified
//! against the functions in this module.

use vstd::prelude::*;

use crate::error::AsmError;

verus! {

// ---------------------------------------------------------------------------
// Characters
// ---------------------------------------------------------------------------

/// ASCII decimal digit.
pub open spec fn is_digit(c: char) -> bool {
    48 <= c as int <= 57
}

/// Numeric value of an ASCII decimal digit.
pub open spec fn digit_val(c: char) -> int {
    c as int - 48
}

/// Lowercase hexadecimal digit: `0`..`9` or `a`..`f`.
pub open spec fn is_hex_lower(c: char) -> bool {
    is_digit(c) || (97 <= c as int <= 102)
}

/// Hexadecimal digit of either case.
pub open spec fn is_hex(c: char) -> bool {
    is_hex_lower(c) || (65 <= c as int <= 70)
}

/// Value of a hexadecimal digit of either case.
pub open spec fn hex_val(c: char) -> int {
    if is_digit(c) {
        digit_val(c)
    } else if 97 <= c as int {
        c as int - 87
    } else {
        c as int - 55
    }
}

/// ASCII whitespace, the set trimmed from an immediate operand.
pub open spec fn is_ascii_ws(c: char) -> bool {
    c == ' ' || c == '\t' || c == '\n' || c == '\u{c}' || c == '\r'
}

// ---------------------------------------------------------------------------
// Bit strings
// ---------------------------------------------------------------------------

/// Every character is `0` or `1`.
pub open spec fn is_bin(s: Seq<char>) -> bool {
    forall|i: int| 0 <= i < s.len() ==> s[i] == '0' || s[i] == '1'
}

/// The bit a binary character stands for.
pub open spec fn bit_val(c: char) -> int {
    if c == '1' {
        1
    } else {
        0
    }
}

/// The value of a bit string read most-significant bit first.
pub open spec fn bits_value(s: Seq<char>) -> int
    decreases s.len(),
{
    if s.len() == 0 {
        0
    } else {
        2 * bits_value(s.drop_last()) + bit_val(s.last())
    }
}

/// The lowercase hexadecimal digit of a value in [0, 16).
pub open spec fn hex_char_of(d: int) -> char {
    if d == 0 {
        '0'
    } else if d == 1 {
        '1'
    } else if d == 2 {
        '2'
    } else if d == 3 {
        '3'
    } else if d == 4 {
        '4'
    } else if d == 5 {
        '5'
    } else if d == 6 {
        '6'
    } else if d == 7 {
        '7'
    } else if d == 8 {
        '8'
    } else if d == 9 {
        '9'
    } else if d == 10 {
        'a'
    } else if d == 11 {
        'b'
    } else if d == 12 {
        'c'
    } else if d == 13 {
        'd'
    } else if d == 14 {
        'e'
    } else {
        'f'
    }
}

/// The four lowercase hexadecimal digits of a 16-bit value, most
/// significant digit first.
pub open spec fn hex4(w: int) -> Seq<char> {
    seq![
        hex_char_of(w / 4096 % 16),
        hex_char_of(w / 256 % 16),
        hex_char_of(w / 16 % 16),
        hex_char_of(w % 16),
    ]
}

// ---------------------------------------------------------------------------
// Tokenization
// ---------------------------------------------------------------------------

/// A line split on single ASCII spaces.  Splitting the empty line gives one
/// empty token; every space separates two tokens, so doubled spaces give
/// empty tokens in between.
pub open spec fn split_tokens(s: Seq<char>) -> Seq<Seq<char>>
    decreases s.len(),
{
    if s.len() == 0 {
        seq![Seq::<char>::empty()]
    } else if s[0] == ' ' {
        seq![Seq::<char>::empty()] + split_tokens(s.drop_first())
    } else {
        let rest = split_tokens(s.drop_first());
        seq![seq![s[0]] + rest[0]] + rest.drop_first()
    }
}

/// Token `k` of a split line, or the empty token where the line has fewer:
/// a missing operand reads as the empty string.
pub open spec fn token_or_empty(ts: Seq<Seq<char>>, k: int) -> Seq<char> {
    if 0 <= k < ts.len() {
        ts[k]
    } else {
        Seq::empty()
    }
}

// ---------------------------------------------------------------------------
// Operand grammars
// ---------------------------------------------------------------------------

/// Register (`DTA0`..`DTA7`) or output-port (`OUT0`..`OUT7`) operand.  An
/// empty operand means index 0; otherwise only the last character is read,
/// and it must be a decimal digit no greater than 7.
pub open spec fn reg_spec(t: Seq<char>) -> Result<int, AsmError> {
    if t.len() == 0 {
        Ok(0)
    } else if !is_digit(t.last()) {
        Err(AsmError::MalformedOperand)
    } else if digit_val(t.last()) > 7 {
        Err(AsmError::OperandOutOfRange)
    } else {
        Ok(digit_val(t.last()))
    }
}

/// Memory-address operand: the last two characters read case-insensitively
/// as hexadecimal digits, upper nibble first.  Characters before the last
/// two are ignored.
pub open spec fn mem_spec(t: Seq<char>) -> Result<int, AsmError> {
    if t.len() < 2 {
        Err(AsmError::MalformedOperand)
    } else if !is_hex(t[t.len() - 2]) {
        Err(AsmError::OperandOutOfRange)
    } else if !is_hex(t[t.len() - 1]) {
        Err(AsmError::OperandOutOfRange)
    } else {
        Ok(16 * hex_val(t[t.len() - 2]) + hex_val(t[t.len() - 1]))
    }
}

/// Length of the leading ASCII-whitespace run.
pub open spec fn ws_prefix_len(s: Seq<char>) -> int
    decreases s.len(),
{
    if s.len() == 0 {
        0
    } else if !is_ascii_ws(s[0]) {
        0
    } else {
        1 + ws_prefix_len(s.drop_first())
    }
}

/// Index just past the last character that is not ASCII whitespace, or 0
/// where there is none.
pub open spec fn ws_suffix_start(s: Seq<char>) -> int
    decreases s.len(),
{
    if s.len() == 0 {
        0
    } else if !is_ascii_ws(s.last()) {
        s.len() as int
    } else {
        ws_suffix_start(s.drop_last())
    }
}

/// The string with leading and trailing ASCII whitespace removed.
pub open spec fn trim_spec(s: Seq<char>) -> Seq<char> {
    if ws_prefix_len(s) <= ws_suffix_start(s) {
        s.subrange(ws_prefix_len(s), ws_suffix_start(s))
    } else {
        Seq::empty()
    }
}

/// Every character is an ASCII decimal digit.
pub open spec fn all_digits(s: Seq<char>) -> bool {
    forall|i: int| 0 <= i < s.len() ==> is_digit(s[i])
}

/// The value of a decimal digit string, most significant digit first.
pub open spec fn dec_value(s: Seq<char>) -> int
    decreases s.len(),
{
    if s.len() == 0 {
        0
    } else {
        10 * dec_value(s.drop_last()) + digit_val(s.last())
    }
}

/// The digit part of an immediate operand: the token trimmed of ASCII
/// whitespace, with one optional leading plus sign removed.
pub open spec fn imm_digits(t: Seq<char>) -> Seq<char> {
    let s = trim_spec(t);
    if s.len() > 0 && s[0] == '+' {
        s.drop_first()
    } else {
        s
    }
}

/// Immediate operand: a decimal literal whose value fits in a byte.
pub open spec fn imm_spec(t: Seq<char>) -> Result<int, AsmError> {
    let d = imm_digits(t);
    if d.len() == 0 || !all_digits(d) {
        Err(AsmError::MalformedOperand)
    } else if dec_value(d) > 255 {
        Err(AsmError::OperandOutOfRange)
    } else {
        Ok(dec_value(d))
    }
}

// ---------------------------------------------------------------------------
// Instruction families
// ---------------------------------------------------------------------------

/// `MOV z x`: `0001 0 z 0 x 0000`.
pub open spec fn mov_spec(z: Seq<char>, x: Seq<char>) -> Result<int, AsmError> {
    match reg_spec(z) {
        Err(e) => Err(e),
        Ok(zi) => match reg_spec(x) {
            Err(e) => Err(e),
            Ok(xi) => Ok(0x1000 + zi * 0x100 + xi * 0x10),
        },
    }
}

/// `MVI z v`: `0001 1 z vvvvvvvv`.  The immediate is read before the
/// register, so its error takes precedence.
pub open spec fn mvi_spec(z: Seq<char>, v: Seq<char>) -> Result<int, AsmError> {
    match imm_spec(v) {
        Err(e) => Err(e),
        Ok(i) => match reg_spec(z) {
            Err(e) => Err(e),
            Ok(zi) => Ok(0x1800 + zi * 0x100 + i),
        },
    }
}

/// The eight arithmetic/logic mnemonics.
pub open spec fn is_arilog(m: Seq<char>) -> bool {
    m == "ADD"@ || m == "SUB"@ || m == "MUL"@ || m == "DIV"@ || m == "NOT"@ || m == "AND"@
        || m == "LOR"@ || m == "XOR"@
}

/// The three selector bits `(A, B, C)` of an arithmetic/logic mnemonic.
pub open spec fn arilog_sel(m: Seq<char>) -> (int, int, int) {
    if m == "ADD"@ {
        (0, 0, 0)
    } else if m == "SUB"@ {
        (0, 0, 1)
    } else if m == "MUL"@ {
        (0, 1, 0)
    } else if m == "DIV"@ {
        (0, 1, 1)
    } else if m == "NOT"@ {
        (1, 0, 0)
    } else if m == "AND"@ {
        (1, 0, 1)
    } else if m == "LOR"@ {
        (1, 1, 0)
    } else {
        (1, 1, 1)
    }
}

/// Arithmetic/logic: `0010 A z B x C y`.
pub open spec fn arilog_spec(m: Seq<char>, z: Seq<char>, x: Seq<char>, y: Seq<char>) -> Result<
    int,
    AsmError,
> {
    if !is_arilog(m) {
        Err(AsmError::UnknownMnemonic)
    } else {
        let sel = arilog_sel(m);
        match reg_spec(z) {
            Err(e) => Err(e),
            Ok(zi) => match reg_spec(x) {
                Err(e) => Err(e),
                Ok(xi) => match reg_spec(y) {
                    Err(e) => Err(e),
                    Ok(yi) => Ok(
                        0x2000 + sel.0 * 0x800 + zi * 0x100 + sel.1 * 0x80 + xi * 0x10 + sel.2 * 8
                            + yi,
                    ),
                },
            },
        }
    }
}

/// `MVA x` / `MVB x`: `0011 000o 0 x 0000` with `o` selecting B.
pub open spec fn mvab_spec(m: Seq<char>, x: Seq<char>) -> Result<int, AsmError> {
    if m != "MVA"@ && m != "MVB"@ {
        Err(AsmError::UnknownMnemonic)
    } else {
        let o: int = if m == "MVA"@ {
            0
        } else {
            1
        };
        match reg_spec(x) {
            Err(e) => Err(e),
            Ok(xi) => Ok(0x3000 + o * 0x100 + xi * 0x10),
        }
    }
}

/// The six comparator mnemonics.
pub open spec fn is_cmp(m: Seq<char>) -> bool {
    m == "CME"@ || m == "CMN"@ || m == "CML"@ || m == "CMG"@ || m == "CMF"@ || m == "CMT"@
}

/// The 4-bit comparator code.
pub open spec fn cmp_code(m: Seq<char>) -> int {
    if m == "CME"@ {
        0
    } else if m == "CMN"@ {
        1
    } else if m == "CML"@ {
        2
    } else if m == "CMG"@ {
        3
    } else if m == "CMF"@ {
        4
    } else {
        5
    }
}

/// Comparators: `0100 CCCC 00000000`.
pub open spec fn cmp_spec(m: Seq<char>) -> Result<int, AsmError> {
    if !is_cmp(m) {
        Err(AsmError::UnknownMnemonic)
    } else {
        Ok(0x4000 + cmp_code(m) * 0x100)
    }
}

/// The three jump mnemonics.
pub open spec fn is_jmp(m: Seq<char>) -> bool {
    m == "JMP"@ || m == "JMF"@ || m == "JMT"@
}

/// The 4-bit jump code.
pub open spec fn jmp_code(m: Seq<char>) -> int {
    if m == "JMP"@ {
        0
    } else if m == "JMF"@ {
        1
    } else {
        2
    }
}

/// Jumps: `0101 JJJJ` followed by the 8-bit memory address.
pub open spec fn jmp_spec(m: Seq<char>, t: Seq<char>) -> Result<int, AsmError> {
    if !is_jmp(m) {
        Err(AsmError::UnknownMnemonic)
    } else {
        match mem_spec(t) {
            Err(e) => Err(e),
            Ok(v) => Ok(0x5000 + jmp_code(m) * 0x100 + v),
        }
    }
}

/// `PUT out x`: `0110 1 out 0 x 0000`.
pub open spec fn put_spec(o: Seq<char>, x: Seq<char>) -> Result<int, AsmError> {
    match reg_spec(o) {
        Err(e) => Err(e),
        Ok(oi) => match reg_spec(x) {
            Err(e) => Err(e),
            Ok(xi) => Ok(0x6800 + oi * 0x100 + xi * 0x10),
        },
    }
}

/// `MVG z`: `0111 0 z 00000000`.
pub open spec fn mvg_spec(z: Seq<char>) -> Result<int, AsmError> {
    match reg_spec(z) {
        Err(e) => Err(e),
        Ok(zi) => Ok(0x7000 + zi * 0x100),
    }
}

/// `PSH x`: `1000 1111 0 x 0000`.
pub open spec fn psh_spec(x: Seq<char>) -> Result<int, AsmError> {
    match reg_spec(x) {
        Err(e) => Err(e),
        Ok(xi) => Ok(0x8f00 + xi * 0x10),
    }
}

/// `POP z`: `1000 0 z 00000000`.
pub open spec fn pop_spec(z: Seq<char>) -> Result<int, AsmError> {
    match reg_spec(z) {
        Err(e) => Err(e),
        Ok(zi) => Ok(0x8000 + zi * 0x100),
    }
}

/// `PNG v`: `1001 0000 vvvvvvvv`.
pub open spec fn png_spec(v: Seq<char>) -> Result<int, AsmError> {
    match imm_spec(v) {
        Err(e) => Err(e),
        Ok(i) => Ok(0x9000 + i),
    }
}

// ---------------------------------------------------------------------------
// The line and the program
// ---------------------------------------------------------------------------

/// The 16-bit word picked by a mnemonic and three operand tokens, or the
/// error that rejects them.
pub open spec fn dispatch_spec(m: Seq<char>, a: Seq<char>, b: Seq<char>, c: Seq<char>) -> Result<
    int,
    AsmError,
> {
    if m == "NOP"@ {
        Ok(0x0000)
    } else if m == "HLT"@ {
        Ok(0xffff)
    } else if m == "MOV"@ {
        mov_spec(a, b)
    } else if m == "MVI"@ {
        mvi_spec(a, b)
    } else if is_arilog(m) {
        arilog_spec(m, a, b, c)
    } else if m == "MVA"@ || m == "MVB"@ {
        mvab_spec(m, a)
    } else if is_cmp(m) {
        cmp_spec(m)
    } else if is_jmp(m) {
        jmp_spec(m, a)
    } else if m == "INT"@ {
        Ok(0x0f0f)
    } else if m == "GET"@ {
        Ok(0x6000)
    } else if m == "PUT"@ {
        put_spec(a, b)
    } else if m == "MVG"@ {
        mvg_spec(a)
    } else if m == "PSH"@ {
        psh_spec(a)
    } else if m == "POP"@ {
        pop_spec(a)
    } else if m == "PNG"@ {
        png_spec(a)
    } else {
        Err(AsmError::UnknownMnemonic)
    }
}

/// The 16-bit word of one source line, or the error that rejects the line.
/// The first token picks the instruction family; missing operands read as
/// empty tokens.
pub open spec fn line_spec(l: Seq<char>) -> Result<int, AsmError> {
    let ts = split_tokens(l);
    dispatch_spec(ts[0], token_or_empty(ts, 1), token_or_empty(ts, 2), token_or_empty(ts, 3))
}

/// The words of a whole program, one per line and in line order, or the
/// error of the first line that is rejected.
pub open spec fn program_spec(ls: Seq<Seq<char>>) -> Result<Seq<int>, AsmError>
    decreases ls.len(),
{
    if ls.len() == 0 {
        Ok(Seq::empty())
    } else {
        match program_spec(ls.drop_last()) {
            Err(e) => Err(e),
            Ok(ws) => match line_spec(ls.last()) {
                Err(e) => Err(e),
                Ok(w) => Ok(ws.push(w)),
            },
        }
    }
}

/// The rendered output: each word's four hexadecimal digits followed by a
/// newline, in program order.
pub open spec fn joined_output(ws: Seq<Seq<char>>) -> Seq<char>
    decreases ws.len(),
{
    if ws.len() == 0 {
        Seq::empty()
    } else {
        joined_output(ws.drop_last()) + ws.last() + seq!['\n']
    }
}

/// The character sequences of a sequence of owned lines.
pub open spec fn line_views(ss: Seq<String>) -> Seq<Seq<char>> {
    ss.map_values(|s: String| s@)
}

// ---------------------------------------------------------------------------
// Facts about the model
// ---------------------------------------------------------------------------

/// Once a prefix of the program is rejected, the whole program is rejected
/// with that same first error.
pub proof fn lemma_program_err_persists(ls: Seq<Seq<char>>, i: int)
    requires
        0 <= i <= ls.len(),
        program_spec(ls.take(i)) is Err,
    ensures
        program_spec(ls) == program_spec(ls.take(i)),
    decreases ls.len() - i,
{
    if i == ls.len() {
        assert(ls.take(i) =~= ls);
    } else {
        assert(ls.take(i + 1).drop_last() =~= ls.take(i));
        lemma_program_err_persists(ls, i + 1);
    }
}

/// Splitting always yields at least one token.
pub proof fn lemma_split_tokens_nonempty(s: Seq<char>)
    ensures
        split_tokens(s).len() >= 1,
    decreases s.len(),
{
    if s.len() > 0 {
        lemma_split_tokens_nonempty(s.drop_first());
    }
}

/// A digit string's value is never negative.
pub proof fn lemma_dec_value_nonneg(s: Seq<char>)
    requires
        all_digits(s),
    ensures
        dec_value(s) >= 0,
    decreases s.len(),
{
    if s.len() > 0 {
        assert(all_digits(s.drop_last()));
        lemma_dec_value_nonneg(s.drop_last());
    }
}

/// A digit string's value is at least the value of any of its prefixes.
pub proof fn lemma_dec_value_take_le(s: Seq<char>, i: int)
    requires
        all_digits(s),
        0 <= i <= s.len(),
    ensures
        dec_value(s.take(i)) <= dec_value(s),
    decreases s.len(),
{
    if i == s.len() {
        assert(s.take(i) =~= s);
    } else {
        assert(all_digits(s.drop_last()));
        assert(s.take(i) =~= s.drop_last().take(i));
        lemma_dec_value_take_le(s.drop_last(), i);
        lemma_dec_value_nonneg(s.drop_last());
    }
}

/// `ws_prefix_len` is the unique boundary of the leading whitespace run.
pub proof fn lemma_ws_prefix_char(s: Seq<char>, i: int)
    requires
        0 <= i <= s.len(),
        forall|k: int| 0 <= k < i ==> is_ascii_ws(s[k]),
        i == s.len() || !is_ascii_ws(s[i]),
    ensures
        ws_prefix_len(s) == i,
    decreases s.len(),
{
    if i == 0 {
    } else {
        assert(is_ascii_ws(s[0]));
        lemma_ws_prefix_char(s.drop_first(), i - 1);
    }
}

/// `ws_suffix_start` is the unique boundary of the trailing whitespace run.
pub proof fn lemma_ws_suffix_char(s: Seq<char>, j: int)
    requires
        0 <= j <= s.len(),
        forall|k: int| j <= k < s.len() ==> is_ascii_ws(s[k]),
        j == 0 || !is_ascii_ws(s[j - 1]),
    ensures
        ws_suffix_start(s) == j,
    decreases s.len(),
{
    if j == s.len() {
    } else {
        assert(is_ascii_ws(s.last()));
        lemma_ws_suffix_char(s.drop_last(), j);
    }
}

} // verus!
