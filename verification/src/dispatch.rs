//! The line dispatcher: tokenizing a line on single spaces, selecting the
//! instruction encoder by mnemonic, and assembling whole programs.

use vstd::prelude::*;

use crate::bits::bin_to_hex;
use crate::encode::{
    parse_arilog, parse_cmp, parse_get, parse_hlt, parse_int, parse_jmp, parse_mov, parse_mvab,
    parse_mvg, parse_mvi, parse_nop, parse_png, parse_pop, parse_psh, parse_put, str_eq,
};
use crate::error::AsmError;
use crate::model::{
    bits_value, dispatch_spec, hex4, is_bin, joined_output, lemma_program_err_persists,
    lemma_split_tokens_nonempty, line_spec, line_views, program_spec, split_tokens,
    token_or_empty,
};
use vstd::string::{StrSliceExecFns, StringExecFns};

verus! {

/// The character sequences of a sequence of borrowed tokens.
pub open spec fn tok_views<'a>(rs: Seq<&'a str>) -> Seq<Seq<char>> {
    rs.map_values(|t: &'a str| t@)
}

/// The token list with `c` grafted onto the front of the first token:
/// what splitting yields once the characters of `c` are known to precede
/// the rest of the line without an intervening space.
pub open spec fn graft_first(c: Seq<char>, ts: Seq<Seq<char>>) -> Seq<Seq<char>> {
    seq![c + ts[0]] + ts.drop_first()
}

/// Splits an instruction line into its tokens on single ASCII spaces.
pub fn parse_instruction<'a>(instruction: &'a str) -> (r: Vec<&'a str>)
    ensures
        tok_views(r@) == split_tokens(instruction@),
{
    let n = instruction.unicode_len();
    let mut parts: Vec<&'a str> = Vec::new();
    let mut start: usize = 0;
    let mut i: usize = 0;
    proof {
        let s = instruction@;
        lemma_split_tokens_nonempty(s);
        assert(s.skip(0) =~= s);
        assert(s.subrange(0, 0) =~= Seq::<char>::empty());
        assert(Seq::<char>::empty() + split_tokens(s)[0] =~= split_tokens(s)[0]);
        assert(graft_first(Seq::<char>::empty(), split_tokens(s)) =~~= split_tokens(s));
        assert(tok_views(parts@) =~~= Seq::<Seq<char>>::empty());
        assert(tok_views(parts@) + graft_first(s.subrange(0, 0), split_tokens(s.skip(0)))
            =~~= split_tokens(s));
    }
    while i < n
        invariant
            start <= i <= n,
            n == instruction@.len(),
            split_tokens(instruction@) == tok_views(parts@) + graft_first(
                instruction@.subrange(start as int, i as int),
                split_tokens(instruction@.skip(i as int)),
            ),
        decreases n - i,
    {
        let ghost s = instruction@;
        let ghost cur = s.subrange(start as int, i as int);
        let ghost ti = split_tokens(s.skip(i as int));
        let ghost tn = split_tokens(s.skip(i as int + 1));
        proof {
            lemma_split_tokens_nonempty(s.skip(i as int + 1));
            assert(s.skip(i as int).len() > 0);
            assert(s.skip(i as int)[0] == s[i as int]);
            assert(s.skip(i as int).drop_first() =~= s.skip(i as int + 1));
        }
        let c = instruction.get_char(i);
        if c == ' ' {
            let tokn = instruction.substring_char(start, i);
            proof {
                assert(ti == seq![Seq::<char>::empty()] + tn);
                assert(cur + (seq![Seq::<char>::empty()] + tn)[0] =~= cur);
                assert((seq![Seq::<char>::empty()] + tn).drop_first() =~= tn);
                assert(graft_first(cur, ti) =~~= seq![cur] + tn);
                assert(s.subrange(i as int + 1, i as int + 1) =~= Seq::<char>::empty());
                assert(Seq::<char>::empty() + tn[0] =~= tn[0]);
                assert(seq![tn[0]] + tn.drop_first() =~~= tn);
                assert(graft_first(Seq::<char>::empty(), tn) =~~= tn);
            }
            let ghost prev = parts@;
            parts.push(tokn);
            proof {
                assert(tok_views(parts@) =~~= tok_views(prev).push(cur));
                assert(tok_views(prev).push(cur) =~~= tok_views(prev) + seq![cur]);
                assert((tok_views(prev) + seq![cur]) + tn =~~= tok_views(prev) + (seq![cur] + tn));
                assert(split_tokens(s) == tok_views(parts@) + graft_first(
                    s.subrange(i as int + 1, i as int + 1),
                    tn,
                ));
            }
            start = i + 1;
        } else {
            proof {
                assert(ti == seq![seq![s[i as int]] + tn[0]] + tn.drop_first());
                let cur2 = s.subrange(start as int, i as int + 1);
                assert(cur + (seq![seq![s[i as int]] + tn[0]] + tn.drop_first())[0] =~= cur2
                    + tn[0]);
                assert((seq![seq![s[i as int]] + tn[0]] + tn.drop_first()).drop_first()
                    =~= tn.drop_first());
                assert(graft_first(cur, ti) =~~= graft_first(cur2, tn));
            }
        }
        i = i + 1;
    }
    let last = instruction.substring_char(start, n);
    proof {
        let s = instruction@;
        let cur = s.subrange(start as int, n as int);
        assert(s.skip(n as int) =~= Seq::<char>::empty());
        assert(split_tokens(Seq::<char>::empty()) == seq![Seq::<char>::empty()]);
        assert(cur + seq![Seq::<char>::empty()][0] =~= cur);
        assert(seq![Seq::<char>::empty()].drop_first() =~= Seq::<Seq<char>>::empty());
        assert(graft_first(cur, split_tokens(Seq::<char>::empty())) =~~= seq![cur]);
    }
    let ghost prev = parts@;
    parts.push(last);
    proof {
        let s = instruction@;
        let cur = s.subrange(start as int, n as int);
        assert(tok_views(parts@) =~~= tok_views(prev).push(cur));
        assert(tok_views(prev).push(cur) =~~= tok_views(prev) + seq![cur]);
        assert(tok_views(parts@) =~~= split_tokens(s));
    }
    parts
}

/// Selects the instruction encoder by mnemonic and encodes the word from
/// the three operand tokens.
#[verifier::rlimit(100)]
fn encode_instruction(opcode: &str, op1: &str, op2: &str, op3: &str) -> (r: Result<
    String,
    AsmError,
>)
    ensures
        dispatch_spec(opcode@, op1@, op2@, op3@) matches Ok(w) ==> r matches Ok(s) && s@.len()
            == 16 && is_bin(s@) && bits_value(s@) == w,
        dispatch_spec(opcode@, op1@, op2@, op3@) matches Err(e) ==> r == Err::<String, AsmError>(
            e,
        ),
{
    let bin: String = if str_eq(opcode, "NOP") {
        parse_nop()
    } else if str_eq(opcode, "HLT") {
        parse_hlt()
    } else if str_eq(opcode, "MOV") {
        match parse_mov(op1, op2) {
            Ok(s) => s,
            Err(e) => {
                return Err(e);
            },
        }
    } else if str_eq(opcode, "MVI") {
        match parse_mvi(op1, op2) {
            Ok(s) => s,
            Err(e) => {
                return Err(e);
            },
        }
    } else if str_eq(opcode, "ADD") || str_eq(opcode, "SUB") || str_eq(opcode, "MUL") || str_eq(
        opcode,
        "DIV",
    ) || str_eq(opcode, "NOT") || str_eq(opcode, "AND") || str_eq(opcode, "LOR") || str_eq(
        opcode,
        "XOR",
    ) {
        match parse_arilog(opcode, op1, op2, op3) {
            Ok(s) => s,
            Err(e) => {
                return Err(e);
            },
        }
    } else if str_eq(opcode, "MVA") || str_eq(opcode, "MVB") {
        match parse_mvab(opcode, op1) {
            Ok(s) => s,
            Err(e) => {
                return Err(e);
            },
        }
    } else if str_eq(opcode, "CME") || str_eq(opcode, "CMN") || str_eq(opcode, "CML") || str_eq(
        opcode,
        "CMG",
    ) || str_eq(opcode, "CMF") || str_eq(opcode, "CMT") {
        match parse_cmp(opcode) {
            Ok(s) => s,
            Err(e) => {
                return Err(e);
            },
        }
    } else if str_eq(opcode, "JMP") || str_eq(opcode, "JMF") || str_eq(opcode, "JMT") {
        match parse_jmp(opcode, op1) {
            Ok(s) => s,
            Err(e) => {
                return Err(e);
            },
        }
    } else if str_eq(opcode, "INT") {
        parse_int()
    } else if str_eq(opcode, "GET") {
        parse_get()
    } else if str_eq(opcode, "PUT") {
        match parse_put(op1, op2) {
            Ok(s) => s,
            Err(e) => {
                return Err(e);
            },
        }
    } else if str_eq(opcode, "MVG") {
        match parse_mvg(op1) {
            Ok(s) => s,
            Err(e) => {
                return Err(e);
            },
        }
    } else if str_eq(opcode, "PSH") {
        match parse_psh(op1) {
            Ok(s) => s,
            Err(e) => {
                return Err(e);
            },
        }
    } else if str_eq(opcode, "POP") {
        match parse_pop(op1) {
            Ok(s) => s,
            Err(e) => {
                return Err(e);
            },
        }
    } else if str_eq(opcode, "PNG") {
        match parse_png(op1) {
            Ok(s) => s,
            Err(e) => {
                return Err(e);
            },
        }
    } else {
        return Err(AsmError::UnknownMnemonic);
    };
    Ok(bin)
}

/// Assembles one source line into its four lowercase hexadecimal digits,
/// or rejects it with the error the encoding table gives.
pub fn assemble_line(line: &str) -> (r: Result<String, AsmError>)
    ensures
        line_spec(line@) matches Ok(w) ==> r matches Ok(s) && s@ == hex4(w),
        line_spec(line@) matches Err(e) ==> r == Err::<String, AsmError>(e),
{
    let parts = parse_instruction(line);
    proof {
        lemma_split_tokens_nonempty(line@);
        assert(parts@.len() == split_tokens(line@).len());
    }
    let opcode: &str = parts[0];
    let op1: &str = if parts.len() > 1 {
        parts[1]
    } else {
        ""
    };
    let op2: &str = if parts.len() > 2 {
        parts[2]
    } else {
        ""
    };
    let op3: &str = if parts.len() > 3 {
        parts[3]
    } else {
        ""
    };
    proof {
        reveal_strlit("");
        let ts = split_tokens(line@);
        assert(""@ =~= Seq::<char>::empty());
        assert(opcode@ == ts[0]);
        assert(op1@ == token_or_empty(ts, 1));
        assert(op2@ == token_or_empty(ts, 2));
        assert(op3@ == token_or_empty(ts, 3));
    }
    let bin = match encode_instruction(opcode, op1, op2, op3) {
        Ok(s) => s,
        Err(e) => {
            return Err(e);
        },
    };
    Ok(bin_to_hex(bin.as_str()))
}

/// Assembles a whole program, one word per line and in line order; the
/// first rejected line's error rejects the program.
pub fn assemble_program(lines: &Vec<String>) -> (r: Result<Vec<String>, AsmError>)
    ensures
        program_spec(line_views(lines@)) matches Ok(ws) ==> r matches Ok(out) && out@.len()
            == lines@.len() && (forall|k: int| 0 <= k < out@.len() ==> out@[k]@ == hex4(ws[k])),
        program_spec(line_views(lines@)) matches Err(e) ==> r == Err::<Vec<String>, AsmError>(e),
{
    let mut out: Vec<String> = Vec::new();
    let mut i: usize = 0;
    proof {
        assert(line_views(lines@).take(0) =~= Seq::<Seq<char>>::empty());
    }
    while i < lines.len()
        invariant
            i <= lines@.len(),
            out@.len() == i,
            program_spec(line_views(lines@).take(i as int)) matches Ok(ws) && ws.len() == i && (
            forall|k: int| 0 <= k < i ==> out@[k]@ == hex4(ws[k])),
        decreases lines@.len() - i,
    {
        proof {
            assert(line_views(lines@).take(i as int + 1).drop_last() =~= line_views(
                lines@,
            ).take(i as int));
            assert(line_views(lines@).take(i as int + 1).last() == lines@[i as int]@);
        }
        let w = match assemble_line(lines[i].as_str()) {
            Ok(s) => s,
            Err(e) => {
                proof {
                    lemma_program_err_persists(line_views(lines@), i as int + 1);
                }
                return Err(e);
            },
        };
        out.push(w);
        i = i + 1;
    }
    proof {
        assert(line_views(lines@).take(lines@.len() as int) =~= line_views(lines@));
    }
    Ok(out)
}

/// Renders assembled words as the output text: each word's four digits
/// followed by one newline, in program order.
pub fn render_output(words: &Vec<String>) -> (r: String)
    ensures
        r@ == joined_output(line_views(words@)),
{
    let mut out = String::new();
    let mut i: usize = 0;
    proof {
        assert(line_views(words@).take(0) =~= Seq::<Seq<char>>::empty());
        assert(out@ =~= joined_output(line_views(words@).take(0)));
    }
    while i < words.len()
        invariant
            i <= words@.len(),
            out@ == joined_output(line_views(words@).take(i as int)),
        decreases words@.len() - i,
    {
        out.append(words[i].as_str());
        out.append("\n");
        proof {
            reveal_strlit("\n");
            assert(line_views(words@).take(i as int + 1).drop_last() =~= line_views(words@).take(
                i as int,
            ));
            assert(line_views(words@).take(i as int + 1).last() == words@[i as int]@);
            assert(out@ =~= joined_output(line_views(words@).take(i as int + 1)));
        }
        i = i + 1;
    }
    proof {
        assert(line_views(words@).take(words@.len() as int) =~= line_views(words@));
    }
    out
}

} // verus!
