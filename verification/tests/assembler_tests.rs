use assembler::bits::bin_to_hex;
use assembler::dispatch::{assemble_line, assemble_program, parse_instruction, render_output};
use assembler::encode::{parse_hlt, parse_int, parse_mov, parse_mvi, parse_nop, parse_pop,
    parse_psh};
use assembler::error::AsmError;
use assembler::operand::{hex_to_decimal, parse_dta_adr, parse_mem_adr, parse_out_adr};

// ---- concrete scenarios, one line each ----

#[test]
fn scenario_nop() {
    assert_eq!(assemble_line("NOP").unwrap(), "0000");
}

#[test]
fn scenario_hlt() {
    assert_eq!(assemble_line("HLT").unwrap(), "ffff");
}

#[test]
fn scenario_int() {
    assert_eq!(assemble_line("INT").unwrap(), "0f0f");
}

#[test]
fn scenario_mvi() {
    assert_eq!(assemble_line("MVI DTA2 5").unwrap(), "1a05");
}

#[test]
fn scenario_mov() {
    // 0001 0 011 0 001 0000, per the instruction table
    assert_eq!(assemble_line("MOV DTA3 DTA1").unwrap(), "1310");
}

#[test]
fn scenario_add() {
    // 0010 0 001 0 010 0 011, per the instruction table
    assert_eq!(assemble_line("ADD DTA1 DTA2 DTA3").unwrap(), "2123");
}

#[test]
fn scenario_jmp() {
    assert_eq!(assemble_line("JMP 2a").unwrap(), "502a");
}

#[test]
fn scenario_put() {
    assert_eq!(assemble_line("PUT OUT1 DTA2").unwrap(), "6920");
}

#[test]
fn scenario_png() {
    assert_eq!(assemble_line("PNG 1").unwrap(), "9001");
}

#[test]
fn scenario_psh() {
    assert_eq!(assemble_line("PSH DTA4").unwrap(), "8f40");
}

#[test]
fn scenario_pop() {
    assert_eq!(assemble_line("POP DTA4").unwrap(), "8400");
}

// ---- register and port boundaries ----

#[test]
fn register_bounds() {
    assert_eq!(parse_dta_adr("DTA0").unwrap(), "000");
    assert_eq!(parse_dta_adr("DTA7").unwrap(), "111");
    assert_eq!(parse_dta_adr("DTA8"), Err(AsmError::OperandOutOfRange));
}

#[test]
fn port_bounds() {
    assert_eq!(parse_out_adr("OUT0").unwrap(), "000");
    assert_eq!(parse_out_adr("OUT7").unwrap(), "111");
    assert_eq!(parse_out_adr("OUT8"), Err(AsmError::OperandOutOfRange));
}

#[test]
fn register_empty_defaults_to_zero() {
    assert_eq!(parse_dta_adr("").unwrap(), "000");
    assert_eq!(assemble_line("MOV").unwrap(), "1000");
    assert_eq!(assemble_line("PSH").unwrap(), "8f00");
}

#[test]
fn register_malformed() {
    assert_eq!(parse_dta_adr("DTA"), Err(AsmError::MalformedOperand));
    assert_eq!(
        assemble_line("MOV DTAx DTA0"),
        Err(AsmError::MalformedOperand)
    );
    assert_eq!(
        assemble_line("MOV DTA9 DTA0"),
        Err(AsmError::OperandOutOfRange)
    );
}

#[test]
fn register_only_last_character_counts() {
    assert_eq!(parse_dta_adr("5").unwrap(), "101");
    assert_eq!(parse_dta_adr("XYZ3").unwrap(), "011");
}

// ---- memory operands ----

#[test]
fn memory_all_ones_and_zeros() {
    assert_eq!(parse_mem_adr("ff").unwrap(), "11111111");
    assert_eq!(parse_mem_adr("00").unwrap(), "00000000");
}

#[test]
fn memory_case_insensitive() {
    assert_eq!(parse_mem_adr("Ab").unwrap(), parse_mem_adr("aB").unwrap());
    assert_eq!(parse_mem_adr("AB").unwrap(), parse_mem_adr("ab").unwrap());
}

#[test]
fn memory_reads_last_two_characters() {
    assert_eq!(assemble_line("JMP 0x2a").unwrap(), "502a");
    assert_eq!(assemble_line("JMP ff2a").unwrap(), "502a");
}

#[test]
fn memory_errors() {
    assert_eq!(parse_mem_adr("a"), Err(AsmError::MalformedOperand));
    assert_eq!(parse_mem_adr(""), Err(AsmError::MalformedOperand));
    assert_eq!(parse_mem_adr("zz"), Err(AsmError::OperandOutOfRange));
    assert_eq!(assemble_line("JMP a"), Err(AsmError::MalformedOperand));
    assert_eq!(assemble_line("JMP zz"), Err(AsmError::OperandOutOfRange));
}

// ---- hexadecimal digits ----

#[test]
fn hex_digit_values() {
    assert_eq!(hex_to_decimal(&'0').unwrap(), 0);
    assert_eq!(hex_to_decimal(&'9').unwrap(), 9);
    assert_eq!(hex_to_decimal(&'a').unwrap(), 10);
    assert_eq!(hex_to_decimal(&'f').unwrap(), 15);
}

#[test]
fn hex_digit_rejects_other_characters() {
    assert_eq!(hex_to_decimal(&'A'), Err(AsmError::OperandOutOfRange));
    assert_eq!(hex_to_decimal(&'g'), Err(AsmError::OperandOutOfRange));
    assert_eq!(hex_to_decimal(&' '), Err(AsmError::OperandOutOfRange));
}

// ---- immediates ----

#[test]
fn png_immediate_bounds() {
    assert_eq!(assemble_line("PNG 0").unwrap(), "9000");
    assert_eq!(assemble_line("PNG 255").unwrap(), "90ff");
    assert_eq!(assemble_line("PNG 256"), Err(AsmError::OperandOutOfRange));
}

#[test]
fn mvi_low_byte_round_trip() {
    assert_eq!(assemble_line("MVI DTA0 0").unwrap(), "1800");
    assert_eq!(assemble_line("MVI DTA7 255").unwrap(), "1fff");
    assert_eq!(assemble_line("MVI DTA1 16").unwrap(), "1910");
    for v in [0u32, 1, 9, 10, 100, 128, 200, 255] {
        let line = format!("MVI DTA3 {}", v);
        let word = assemble_line(&line).unwrap();
        let low = u32::from_str_radix(&word[2..], 16).unwrap();
        assert_eq!(low, v);
    }
}

#[test]
fn immediate_trim_and_sign() {
    assert_eq!(assemble_line("MVI DTA1 +9").unwrap(), "1909");
    assert_eq!(parse_mvi("DTA1", " 9\t").unwrap(), parse_mvi("DTA1", "9").unwrap());
}

#[test]
fn immediate_errors() {
    assert_eq!(assemble_line("MVI DTA2 x"), Err(AsmError::MalformedOperand));
    assert_eq!(assemble_line("MVI DTA2 300"), Err(AsmError::OperandOutOfRange));
    assert_eq!(assemble_line("MVI DTA2 -1"), Err(AsmError::MalformedOperand));
    assert_eq!(assemble_line("MVI DTA2"), Err(AsmError::MalformedOperand));
    assert_eq!(assemble_line("PNG +"), Err(AsmError::MalformedOperand));
    // the immediate is read before the register, so its error wins
    assert_eq!(assemble_line("MVI DTA9 300"), Err(AsmError::OperandOutOfRange));
}

// ---- remaining families ----

#[test]
fn comparator_codes() {
    assert_eq!(assemble_line("CME").unwrap(), "4000");
    assert_eq!(assemble_line("CMN").unwrap(), "4100");
    assert_eq!(assemble_line("CML").unwrap(), "4200");
    assert_eq!(assemble_line("CMG").unwrap(), "4300");
    assert_eq!(assemble_line("CMF").unwrap(), "4400");
    assert_eq!(assemble_line("CMT").unwrap(), "4500");
}

#[test]
fn jump_codes() {
    assert_eq!(assemble_line("JMP 00").unwrap(), "5000");
    assert_eq!(assemble_line("JMF 00").unwrap(), "5100");
    assert_eq!(assemble_line("JMT 00").unwrap(), "5200");
}

#[test]
fn arithmetic_selectors() {
    assert_eq!(assemble_line("ADD DTA0 DTA0 DTA0").unwrap(), "2000");
    assert_eq!(assemble_line("SUB DTA0 DTA0 DTA0").unwrap(), "2008");
    assert_eq!(assemble_line("MUL DTA0 DTA0 DTA0").unwrap(), "2080");
    assert_eq!(assemble_line("DIV DTA0 DTA0 DTA0").unwrap(), "2088");
    assert_eq!(assemble_line("NOT DTA0 DTA0 DTA0").unwrap(), "2800");
    assert_eq!(assemble_line("AND DTA0 DTA0 DTA0").unwrap(), "2808");
    assert_eq!(assemble_line("LOR DTA0 DTA0 DTA0").unwrap(), "2880");
    assert_eq!(assemble_line("XOR DTA0 DTA0 DTA0").unwrap(), "2888");
}

#[test]
fn accumulator_and_stack_families() {
    assert_eq!(assemble_line("MVA DTA1").unwrap(), "3010");
    assert_eq!(assemble_line("MVB DTA1").unwrap(), "3110");
    assert_eq!(assemble_line("GET").unwrap(), "6000");
    assert_eq!(assemble_line("MVG DTA2").unwrap(), "7200");
}

#[test]
fn unknown_mnemonics() {
    assert_eq!(assemble_line("FOO"), Err(AsmError::UnknownMnemonic));
    assert_eq!(assemble_line(""), Err(AsmError::UnknownMnemonic));
    assert_eq!(assemble_line("nop"), Err(AsmError::UnknownMnemonic));
    assert_eq!(assemble_line(" NOP"), Err(AsmError::UnknownMnemonic));
}

// ---- encoders produce 16-bit binary words ----

#[test]
fn encoders_emit_sixteen_bits() {
    assert_eq!(parse_nop(), "0000000000000000");
    assert_eq!(parse_hlt(), "1111111111111111");
    assert_eq!(parse_int(), "0000111100001111");
    assert_eq!(parse_mov("DTA3", "DTA1").unwrap(), "0001001100010000");
    assert_eq!(parse_mvi("DTA2", "5").unwrap(), "0001101000000101");
    assert_eq!(parse_psh("DTA4").unwrap(), "1000111101000000");
    assert_eq!(parse_pop("DTA4").unwrap(), "1000010000000000");
}

#[test]
fn bin_to_hex_formats_four_digits() {
    assert_eq!(bin_to_hex("0000000000000000"), "0000");
    assert_eq!(bin_to_hex("1111111111111111"), "ffff");
    assert_eq!(bin_to_hex("0000111100001111"), "0f0f");
    assert_eq!(bin_to_hex("0001101000000101"), "1a05");
}

#[test]
fn output_is_four_lowercase_hex_chars() {
    for line in ["NOP", "HLT", "MVI DTA2 5", "PUT OUT1 DTA2", "PNG 255"] {
        let word = assemble_line(line).unwrap();
        assert_eq!(word.len(), 4);
        assert!(word.chars().all(|c| c.is_ascii_hexdigit() && !c.is_ascii_uppercase()));
    }
}

// ---- tokenization ----

#[test]
fn tokenizer_splits_on_single_spaces() {
    assert_eq!(parse_instruction("MOV DTA1 DTA2"), vec!["MOV", "DTA1", "DTA2"]);
    assert_eq!(parse_instruction(""), vec![""]);
    assert_eq!(parse_instruction("A  B"), vec!["A", "", "B"]);
    assert_eq!(parse_instruction("NOP "), vec!["NOP", ""]);
}

#[test]
fn doubled_space_shifts_operands() {
    // "PNG  7" reads the empty token as its immediate, which is rejected
    assert_eq!(assemble_line("PNG  7"), Err(AsmError::MalformedOperand));
}

// ---- whole programs ----

#[test]
fn program_line_count_preserved() {
    let lines: Vec<String> = ["NOP", "HLT", "PNG 1", "MOV DTA3 DTA1"]
        .iter()
        .map(|s| s.to_string())
        .collect();
    let words = assemble_program(&lines).unwrap();
    assert_eq!(words.len(), lines.len());
    assert_eq!(words, vec!["0000", "ffff", "9001", "1310"]);
}

#[test]
fn program_first_error_wins() {
    let lines: Vec<String> = ["NOP", "MVI DTA2 300", "FOO"].iter().map(|s| s.to_string()).collect();
    assert_eq!(assemble_program(&lines), Err(AsmError::OperandOutOfRange));
}

#[test]
fn program_rejects_trailing_empty_line() {
    let lines: Vec<String> = ["NOP", ""].iter().map(|s| s.to_string()).collect();
    assert_eq!(assemble_program(&lines), Err(AsmError::UnknownMnemonic));
}

#[test]
fn rendered_output_one_word_per_line() {
    let words: Vec<String> = ["0000", "ffff"].iter().map(|s| s.to_string()).collect();
    assert_eq!(render_output(&words), "0000\nffff\n");
    assert_eq!(render_output(&Vec::new()), "");
}
