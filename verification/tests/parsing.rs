use simulator::parser::directives::{ascii_lit, asciiz_lit, byte_lit, half_lit, space, unescape, word_lit};
use simulator::parser::instruction::{
    branch_type, expand_branch, expand_load, i_type, immediate, j_type, jr_type, li_ins,
    load_type, lui, move_ins, multi_branch, r_type, separator, shift_type, symbol,
};
use simulator::parser::label::{identifier, label};
use simulator::parser::model::{Imm, Instruction, Line, Opcode, Segment, Symbol};
use simulator::parser::numbers::{bin, dec, hex, integer, num_str, oct, NumberKind};
use simulator::parser::opcode::{instruction, lookup, opcode, Form, InstructionParser};
use simulator::parser::register::{register, register_name};
use simulator::parser::scan::{Expected, ParseError};
use simulator::parser::{blank, comment, parse_line, parse_string};
use simulator::register::{Register, AT, SP, T0, T1, T2, ZERO};

fn chars(text: &str) -> Vec<char> {
    text.chars().collect()
}

fn literal(bytes: &[u8]) -> Instruction {
    Instruction::Literal { data: bytes.to_vec() }
}

fn shadow() -> Instruction {
    literal(&[0, 0, 0, 0])
}

fn fail(at: usize, expected: Expected) -> ParseError {
    ParseError { at, expected }
}

#[test]
fn decimal_numbers() {
    assert_eq!(integer(&chars("16"), 0, NumberKind::I64), Some((16, 2)));
    assert_eq!(integer(&chars("-7,"), 0, NumberKind::I64), Some((-7, 2)));
    assert_eq!(integer(&chars("+42 "), 0, NumberKind::I64), Some((42, 3)));
    assert_eq!(integer(&chars("x 12"), 2, NumberKind::I64), Some((12, 4)));
    assert_eq!(dec(&chars("007"), 0, NumberKind::I64), Some((7, 3)));
}

#[test]
fn prefixed_numbers() {
    assert_eq!(integer(&chars("0x1F"), 0, NumberKind::I64), Some((31, 4)));
    assert_eq!(integer(&chars("0o17"), 0, NumberKind::I64), Some((15, 4)));
    assert_eq!(integer(&chars("0b101"), 0, NumberKind::I64), Some((5, 5)));
    assert_eq!(hex(&chars("0xFF"), 0, NumberKind::I64), Some((255, 4)));
    assert_eq!(oct(&chars("0o10"), 0, NumberKind::I64), Some((8, 4)));
    assert_eq!(bin(&chars("0b11"), 0, NumberKind::I64), Some((3, 4)));
    assert_eq!(hex(&chars("12"), 0, NumberKind::I64), None);
    assert_eq!(integer(&chars("0x-5"), 0, NumberKind::I64), Some((-5, 4)));
}

#[test]
fn underscores_separate_digits() {
    assert_eq!(integer(&chars("1_000"), 0, NumberKind::I64), Some((1000, 5)));
    assert_eq!(integer(&chars("0xFF_FF"), 0, NumberKind::I64), Some((0xffff, 7)));
    assert_eq!(integer(&chars("0b1010_1010"), 0, NumberKind::I64), Some((0xaa, 11)));
    assert_eq!(integer(&chars("_1"), 0, NumberKind::I64), None);
    assert_eq!(num_str(&chars("1__2_ x"), 0), Some(5));
}

#[test]
fn a_prefix_without_digits_leaves_a_decimal_zero() {
    assert_eq!(integer(&chars("0xg"), 0, NumberKind::I64), Some((0, 1)));
    assert_eq!(integer(&chars("0b2"), 0, NumberKind::I64), Some((0, 1)));
    assert_eq!(integer(&chars("0o8"), 0, NumberKind::I64), Some((0, 1)));
    assert_eq!(bin(&chars("0b2"), 0, NumberKind::I64), None);
}

#[test]
fn numbers_that_are_none() {
    assert_eq!(integer(&chars(""), 0, NumberKind::I64), None);
    assert_eq!(integer(&chars("abc"), 0, NumberKind::I64), None);
    assert_eq!(integer(&chars("-"), 0, NumberKind::I64), None);
    assert_eq!(integer(&chars("1F"), 0, NumberKind::I64), None);
    assert_eq!(integer(&chars("1-2"), 0, NumberKind::I64), None);
    assert_eq!(integer(&chars("99999999999999999999"), 0, NumberKind::I64), None);
    assert_eq!(num_str(&chars("x1"), 0), None);
}

#[test]
fn number_kinds_have_their_ranges() {
    assert_eq!(
        integer(&chars("9223372036854775807"), 0, NumberKind::I64),
        Some((i64::MAX as i128, 19))
    );
    assert_eq!(
        integer(&chars("-9223372036854775808"), 0, NumberKind::I64),
        Some((i64::MIN as i128, 20))
    );
    assert_eq!(integer(&chars("9223372036854775808"), 0, NumberKind::I64), None);
    assert_eq!(integer(&chars("4294967295"), 0, NumberKind::U32), Some((4294967295, 10)));
    assert_eq!(integer(&chars("4294967296"), 0, NumberKind::U32), None);
    assert_eq!(integer(&chars("-1"), 0, NumberKind::U32), None);
    assert_eq!(integer(&chars("+1"), 0, NumberKind::U32), Some((1, 2)));
    assert_eq!(integer(&chars("0x10"), 0, NumberKind::Usize), Some((16, 4)));
    assert_eq!(integer(&chars("-0"), 0, NumberKind::Usize), None);
    assert_eq!(integer(&chars("-0"), 0, NumberKind::I64), Some((0, 2)));
}

#[test]
fn identifiers() {
    assert_eq!(identifier(&chars("main:"), 0), Some(4));
    assert_eq!(identifier(&chars("_a1_b "), 0), Some(5));
    assert_eq!(identifier(&chars("L"), 0), Some(1));
    assert_eq!(identifier(&chars("1abc"), 0), None);
    assert_eq!(identifier(&chars(""), 0), None);
    assert_eq!(identifier(&chars("a-b"), 0), Some(1));
}

#[test]
fn labels() {
    assert_eq!(label(&chars("main:"), 0), Ok((Line::Label("main".to_string()), 5)));
    assert_eq!(label(&chars("  \n loop_1: x"), 0), Ok((Line::Label("loop_1".to_string()), 11)));
    assert_eq!(label(&chars("main"), 0), Err(fail(4, Expected::Colon)));
    assert_eq!(label(&chars(" 9:"), 0), Err(fail(1, Expected::Identifier)));
}

#[test]
fn register_operands() {
    assert_eq!(register(&chars("$t0,"), 0), Ok((Register(T0), 3)));
    assert_eq!(register(&chars("$sp)"), 0), Ok((Register(SP), 3)));
    assert_eq!(register(&chars("$zero"), 0), Ok((Register(ZERO), 5)));
    assert_eq!(register(&chars("$31 "), 0), Ok((Register(31), 3)));
    assert_eq!(register(&chars("$T1#c"), 0), Ok((Register(T1), 3)));
    assert_eq!(register_name(&chars("t2\u{a0}x"), 0), Ok((Register(T2), 2)));
    assert_eq!(register(&chars("t0"), 0), Err(fail(0, Expected::Dollar)));
    assert_eq!(register(&chars("$t10"), 0), Err(fail(1, Expected::Register)));
    assert_eq!(register(&chars("$"), 0), Err(fail(1, Expected::Register)));
    assert_eq!(register(&chars(""), 0), Err(fail(0, Expected::Dollar)));
}

#[test]
fn separators() {
    assert_eq!(separator(&chars(" , x"), 0), 3);
    assert_eq!(separator(&chars(",x"), 0), 1);
    assert_eq!(separator(&chars("  x"), 0), 2);
    assert_eq!(separator(&chars("x"), 0), 0);
    assert_eq!(separator(&chars(",,"), 0), 1);
}

#[test]
fn immediates_and_symbols() {
    assert_eq!(immediate(&chars(" 16"), 0), Ok((Imm::Value(16), 3)));
    assert_eq!(immediate(&chars("-1"), 0), Ok((Imm::Value(-1), 2)));
    assert_eq!(immediate(&chars("loop"), 0), Ok((Imm::Label("loop".to_string()), 4)));
    assert_eq!(immediate(&chars(" ?"), 0), Err(fail(1, Expected::Immediate)));
    assert_eq!(symbol(&chars(" 0x400000"), 0), Ok((Symbol::Address(0x40_0000), 9)));
    assert_eq!(symbol(&chars("main"), 0), Ok((Symbol::Label("main".to_string()), 4)));
    assert_eq!(symbol(&chars("-4"), 0), Err(fail(0, Expected::Immediate)));
}

#[test]
fn three_register_form() {
    let op = Opcode::Funct(0x20);
    let expected = Line::Instruction(vec![Instruction::R {
        op,
        rd: Register(T2),
        rs: Register(T0),
        rt: Register(T1),
        shamt: 0,
    }]);
    assert_eq!(r_type(&chars("$t2, $t0, $t1"), 0, op), Ok((expected.clone(), 13)));
    assert_eq!(r_type(&chars("$t2 $t0 $t1"), 0, op), Ok((expected.clone(), 11)));
    assert_eq!(r_type(&chars("$t2,$t0,$t1"), 0, op), Ok((expected, 11)));
    assert_eq!(r_type(&chars("$t2, $t0"), 0, op), Err(fail(8, Expected::Dollar)));
    assert_eq!(r_type(&chars("$t2, $q0, $t1"), 0, op), Err(fail(6, Expected::Register)));
}

#[test]
fn shift_form() {
    let op = Opcode::Funct(0);
    let expected = Line::Instruction(vec![Instruction::R {
        op,
        rd: Register(T0),
        rs: Register(ZERO),
        rt: Register(T1),
        shamt: 2,
    }]);
    assert_eq!(shift_type(&chars("$t0, $t1, 2"), 0, op), Ok((expected, 11)));
    assert_eq!(shift_type(&chars("$t0, $t1, x"), 0, op), Err(fail(10, Expected::Number)));
}

#[test]
fn immediate_forms() {
    let op = Opcode::Op(0x08);
    let expected = Line::Instruction(vec![Instruction::I {
        op,
        rt: Register(T0),
        rs: Register(ZERO),
        imm: Imm::Value(16),
    }]);
    assert_eq!(i_type(&chars("$t0, $zero, 16"), 0, op), Ok((expected, 14)));
    let op = Opcode::Op(0x0f);
    let expected = Line::Instruction(vec![Instruction::I {
        op,
        rt: Register(T0),
        rs: Register(ZERO),
        imm: Imm::Value(0x1234),
    }]);
    assert_eq!(lui(&chars("$t0, 0x1234"), 0, op), Ok((expected, 11)));
}

#[test]
fn load_and_store_form() {
    let op = Opcode::Op(0x23);
    let expected = Line::Instruction(vec![Instruction::I {
        op,
        rt: Register(T0),
        rs: Register(SP),
        imm: Imm::Value(4),
    }]);
    assert_eq!(load_type(&chars("$t0, 4($sp)"), 0, op), Ok((expected, 11)));
    assert_eq!(load_type(&chars("$t0, 4 ($sp)"), 0, op), Err(fail(6, Expected::OpenParenthesis)));
    assert_eq!(load_type(&chars("$t0, 4($sp"), 0, op), Err(fail(10, Expected::CloseParenthesis)));
}

#[test]
fn branches_and_jumps_reserve_two_words() {
    let op = Opcode::Op(0x04);
    let expected = Line::Instruction(vec![
        Instruction::I {
            op,
            rt: Register(T0),
            rs: Register(T1),
            imm: Imm::PcRelative("done".to_string()),
        },
        shadow(),
        shadow(),
    ]);
    assert_eq!(branch_type(&chars("$t0, $t1, done"), 0, op), Ok((expected, 14)));
    let numeric = Line::Instruction(vec![
        Instruction::I { op, rt: Register(T0), rs: Register(T1), imm: Imm::Value(3) },
        shadow(),
        shadow(),
    ]);
    assert_eq!(branch_type(&chars("$t0, $t1, 3"), 0, op), Ok((numeric, 11)));
    let op = Opcode::Op(0x02);
    let expected = Line::Instruction(vec![
        Instruction::J { op, addr: Symbol::Label("main".to_string()) },
        shadow(),
        shadow(),
    ]);
    assert_eq!(j_type(&chars("main"), 0, op), Ok((expected, 4)));
    let op = Opcode::Funct(0x08);
    let expected = Line::Instruction(vec![
        Instruction::R { op, rd: Register(ZERO), rs: Register(31), rt: Register(ZERO), shamt: 0 },
        shadow(),
        shadow(),
    ]);
    assert_eq!(jr_type(&chars("$ra"), 0, op), Ok((expected, 3)));
}

#[test]
fn move_is_an_addition_of_zero() {
    let expected = Line::Instruction(vec![Instruction::R {
        op: Opcode::Funct(0x20),
        rd: Register(T0),
        rs: Register(T1),
        rt: Register(ZERO),
        shamt: 0,
    }]);
    assert_eq!(move_ins(&chars("$t0, $t1"), 0), Ok((expected, 8)));
}

#[test]
fn load_immediate_of_a_small_constant_is_one_addi() {
    let expected = Line::Instruction(vec![Instruction::I {
        op: Opcode::Op(0x08),
        rt: Register(T0),
        rs: Register(ZERO),
        imm: Imm::Value(100),
    }]);
    assert_eq!(li_ins(&chars("$t0, 100"), 0), Ok((expected, 8)));
    assert_eq!(
        expand_load(Register(T0), Imm::Value(0xffff)),
        Line::Instruction(vec![Instruction::I {
            op: Opcode::Op(0x08),
            rt: Register(T0),
            rs: Register(ZERO),
            imm: Imm::Value(0xffff),
        }])
    );
    assert_eq!(
        expand_load(Register(T0), Imm::Value(-5)),
        Line::Instruction(vec![Instruction::I {
            op: Opcode::Op(0x08),
            rt: Register(T0),
            rs: Register(ZERO),
            imm: Imm::Value(-5),
        }])
    );
}

#[test]
fn load_immediate_of_a_large_constant_is_a_pair() {
    let expected = Line::Instruction(vec![
        Instruction::I {
            op: Opcode::Op(0x0f),
            rt: Register(AT),
            rs: Register(ZERO),
            imm: Imm::Value(0x1234),
        },
        Instruction::I {
            op: Opcode::Op(0x0d),
            rt: Register(T0),
            rs: Register(AT),
            imm: Imm::Value(0x5678),
        },
    ]);
    assert_eq!(li_ins(&chars("$t0, 0x12345678"), 0), Ok((expected, 15)));
    assert_eq!(
        expand_load(Register(T0), Imm::Value(0x10000)),
        Line::Instruction(vec![
            Instruction::I {
                op: Opcode::Op(0x0f),
                rt: Register(AT),
                rs: Register(ZERO),
                imm: Imm::Value(1),
            },
            Instruction::I {
                op: Opcode::Op(0x0d),
                rt: Register(T0),
                rs: Register(AT),
                imm: Imm::Value(0),
            },
        ])
    );
}

#[test]
fn load_address_defers_the_halves_of_a_label() {
    let expected = Line::Instruction(vec![
        Instruction::I {
            op: Opcode::Op(0x0f),
            rt: Register(AT),
            rs: Register(ZERO),
            imm: Imm::HighHWord("msg".to_string()),
        },
        Instruction::I {
            op: Opcode::Op(0x0d),
            rt: Register(4),
            rs: Register(AT),
            imm: Imm::LowHWord("msg".to_string()),
        },
    ]);
    assert_eq!(li_ins(&chars("$a0, msg"), 0), Ok((expected, 8)));
}

#[test]
fn comparing_branches_expand_to_slt_and_a_branch() {
    let target = || Imm::Label("L".to_string());
    let slt = |rs: u32, rt: u32| Instruction::R {
        op: Opcode::Funct(0x2a),
        rd: Register(AT),
        rs: Register(rs),
        rt: Register(rt),
        shamt: 0,
    };
    let branch = |op: u8| Instruction::I {
        op: Opcode::Op(op),
        rt: Register(AT),
        rs: Register(ZERO),
        imm: Imm::PcRelative("L".to_string()),
    };
    // blt: rs < rt, taken when $at is not zero.
    assert_eq!(
        expand_branch(true, false, Register(T0), Register(T1), target()),
        Line::Instruction(vec![slt(T0, T1), branch(0x05), shadow(), shadow()])
    );
    // bgt: rt < rs, taken when $at is not zero.
    assert_eq!(
        expand_branch(false, false, Register(T0), Register(T1), target()),
        Line::Instruction(vec![slt(T1, T0), branch(0x05), shadow(), shadow()])
    );
    // ble: not rt < rs, taken when $at is zero.
    assert_eq!(
        expand_branch(true, true, Register(T0), Register(T1), target()),
        Line::Instruction(vec![slt(T1, T0), branch(0x04), shadow(), shadow()])
    );
    // bge: not rs < rt, taken when $at is zero.
    assert_eq!(
        expand_branch(false, true, Register(T0), Register(T1), target()),
        Line::Instruction(vec![slt(T0, T1), branch(0x04), shadow(), shadow()])
    );
    assert_eq!(
        multi_branch(&chars("$t0, $t1, L"), 0, true, false),
        Ok((Line::Instruction(vec![slt(T0, T1), branch(0x05), shadow(), shadow()]), 11))
    );
}

#[test]
fn word_half_and_byte_directives() {
    assert_eq!(
        word_lit(&chars("1, 0x01020304,-1"), 0),
        Ok((
            Line::Instruction(vec![
                literal(&[1, 0, 0, 0]),
                literal(&[4, 3, 2, 1]),
                literal(&[0xff, 0xff, 0xff, 0xff]),
            ]),
            16
        ))
    );
    assert_eq!(
        half_lit(&chars("0x0102 -2"), 0),
        Ok((Line::Instruction(vec![literal(&[2, 1]), literal(&[0xfe, 0xff])]), 9))
    );
    assert_eq!(
        byte_lit(&chars("1,2,0x1FF"), 0),
        Ok((Line::Instruction(vec![literal(&[1]), literal(&[2]), literal(&[0xff])]), 9))
    );
    assert_eq!(word_lit(&chars("  x"), 0), Err(fail(2, Expected::Number)));
    assert_eq!(word_lit(&chars("5\nadd"), 0).map(|found| found.1), Ok(1));
}

#[test]
fn a_word_directive_takes_numbers_from_following_lines() {
    assert_eq!(
        word_lit(&chars("1\n 2\n"), 0),
        Ok((Line::Instruction(vec![literal(&[1, 0, 0, 0]), literal(&[2, 0, 0, 0])]), 4))
    );
}

#[test]
fn string_directives() {
    assert_eq!(
        ascii_lit(&chars("\"abcd\""), 0),
        Ok((Line::Instruction(vec![literal(b"abcd")]), 6))
    );
    assert_eq!(
        ascii_lit(&chars(" \"hello\","), 0),
        Ok((Line::Instruction(vec![literal(b"hell"), literal(&[b'o', 0, 0, 0])]), 9))
    );
    assert_eq!(
        asciiz_lit(&chars("\"abcd\""), 0),
        Ok((Line::Instruction(vec![literal(b"abcd"), literal(&[0, 0, 0, 0])]), 6))
    );
    assert_eq!(
        asciiz_lit(&chars("\"hi\""), 0),
        Ok((Line::Instruction(vec![literal(&[b'h', b'i', 0, 0])]), 4))
    );
    assert_eq!(ascii_lit(&chars("\"\""), 0), Ok((Line::Instruction(vec![]), 2)));
    assert_eq!(ascii_lit(&chars("abc"), 0), Err(fail(0, Expected::Quote)));
    assert_eq!(ascii_lit(&chars("\"abc"), 0), Err(fail(4, Expected::Quote)));
}

#[test]
fn string_escapes() {
    assert_eq!(unescape(&chars("a\\nb")), chars("a\nb"));
    assert_eq!(unescape(&chars("\\0")), chars("\0"));
    assert_eq!(unescape(&chars("\\\\n")), chars("\\\n"));
    assert_eq!(unescape(&chars("\\t\\")), chars("\\t\\"));
    assert_eq!(
        ascii_lit(&chars("\"a\\n\\0b\""), 0),
        Ok((Line::Instruction(vec![literal(&[b'a', b'\n', 0, b'b'])]), 8))
    );
}

#[test]
fn strings_are_laid_down_in_utf8() {
    assert_eq!(
        ascii_lit(&chars("\"é€\""), 0),
        Ok((
            Line::Instruction(vec![literal(&[0xc3, 0xa9, 0xe2, 0x82]), literal(&[0xac, 0, 0, 0])]),
            4
        ))
    );
}

#[test]
fn space_directive() {
    assert_eq!(space(&chars("3"), 0), Ok((Line::Instruction(vec![literal(&[0, 0, 0])]), 1)));
    assert_eq!(space(&chars("0"), 0), Ok((Line::Instruction(vec![literal(&[])]), 1)));
    assert_eq!(space(&chars("0x10"), 0).map(|found| found.1), Ok(4));
    assert_eq!(space(&chars("-1"), 0), Err(fail(0, Expected::Number)));
    assert_eq!(space(&chars(" 3"), 0), Err(fail(0, Expected::Number)));
}

#[test]
fn mnemonic_table() {
    assert_eq!(lookup("add"), Some(InstructionParser::new(Opcode::Funct(0x20), Form::RType)));
    assert_eq!(lookup("slt"), Some(InstructionParser::new(Opcode::Funct(0x2a), Form::RType)));
    assert_eq!(lookup("sw"), Some(InstructionParser::new(Opcode::Op(0x2b), Form::Load)));
    assert_eq!(lookup("jal"), Some(InstructionParser::new(Opcode::Op(0x03), Form::Jump)));
    assert_eq!(lookup("div"), Some(InstructionParser::new(Opcode::Funct(0x1a), Form::NoParser)));
    assert_eq!(lookup("la"), Some(InstructionParser::pseudo(Form::LoadImmediate)));
    assert_eq!(
        lookup("bge"),
        Some(InstructionParser::pseudo(Form::MultiBranch { less: false, inclusive: true }))
    );
    assert_eq!(lookup(".data"), Some(InstructionParser::pseudo(Form::Segment(Segment::Data))));
    assert_eq!(lookup(".half"), Some(InstructionParser::pseudo(Form::Half)));
    assert_eq!(lookup("ADD"), None);
    assert_eq!(lookup("mul"), None);
    assert_eq!(lookup(""), None);
}

#[test]
fn mnemonics_are_matched_in_any_case() {
    let found = opcode(&chars("ADDI $t0"), 0);
    assert_eq!(found, Ok((InstructionParser::new(Opcode::Op(0x08), Form::IType), 4)));
    let found = opcode(&chars("SysCall\n"), 0);
    assert_eq!(found, Ok((InstructionParser::pseudo(Form::Syscall), 7)));
    assert_eq!(opcode(&chars("foo $t0"), 0), Err(fail(0, Expected::Opcode)));
    assert_eq!(opcode(&chars(""), 0), Err(fail(0, Expected::Opcode)));
}

#[test]
fn instructions_need_whitespace_behind_the_mnemonic() {
    let syscall = Line::Instruction(vec![Instruction::R {
        op: Opcode::Funct(0x0c),
        rd: Register(ZERO),
        rs: Register(ZERO),
        rt: Register(ZERO),
        shamt: 0,
    }]);
    assert_eq!(instruction(&chars("syscall\n"), 0), Ok((syscall.clone(), 7)));
    assert_eq!(instruction(&chars("  syscall  \n"), 0), Ok((syscall, 11)));
    assert_eq!(instruction(&chars("syscall"), 0), Err(fail(7, Expected::Operands)));
    assert_eq!(instruction(&chars("nop \n"), 0), Ok((Line::Instruction(vec![shadow()]), 4)));
    assert_eq!(instruction(&chars("div $t0, $t1\n"), 0), Err(fail(4, Expected::NoParser)));
    assert_eq!(instruction(&chars(".text\n"), 0), Ok((Line::Segment(Segment::Text), 5)));
}

#[test]
fn comments_and_blank_lines() {
    assert_eq!(comment(&chars("# hi\nx"), 0), Ok((Line::Comment(" hi".to_string()), 5)));
    assert_eq!(comment(&chars("  #\n"), 0), Ok((Line::Comment(String::new()), 4)));
    assert_eq!(comment(&chars("# no end"), 0), Err(fail(8, Expected::EndOfComment)));
    assert_eq!(comment(&chars("x"), 0), Err(fail(0, Expected::Comment)));
    assert_eq!(blank(&chars("  \nx"), 0), Ok((Line::Blank, 3)));
    assert_eq!(blank(&chars("   "), 0), Ok((Line::Blank, 3)));
    assert_eq!(blank(&chars(" # c\n"), 0), Ok((Line::Blank, 5)));
    assert_eq!(blank(&chars(" x"), 0), Err(fail(1, Expected::EndOfLine)));
}

#[test]
fn instruction_lines_may_end_in_a_comment() {
    let line = Line::Instruction(vec![shadow()]);
    assert_eq!(parse_line(&chars("nop # rest\nx"), 0), Ok((line.clone(), 11)));
    assert_eq!(parse_line(&chars("  nop \n"), 0), Ok((line.clone(), 7)));
    assert_eq!(parse_line(&chars("nop "), 0), Ok((line, 4)));
    assert_eq!(parse_line(&chars("nop nop\n"), 0), Err(fail(4, Expected::EndOfLine)));
}

#[test]
fn a_program_is_parsed_line_by_line() {
    let source = "# start\n.text\nmain:\n  addi $t0, $zero, 1 # one\n\n.data\nvalue: .word 7\n";
    let lines = parse_string(source).unwrap();
    assert_eq!(
        lines,
        vec![
            Line::Comment(" start".to_string()),
            Line::Segment(Segment::Text),
            Line::Label("main".to_string()),
            Line::Instruction(vec![Instruction::I {
                op: Opcode::Op(0x08),
                rt: Register(T0),
                rs: Register(ZERO),
                imm: Imm::Value(1),
            }]),
            Line::Blank,
            Line::Segment(Segment::Data),
            Line::Label("value".to_string()),
            Line::Instruction(vec![literal(&[7, 0, 0, 0])]),
        ]
    );
}

#[test]
fn the_empty_program_has_no_lines() {
    assert_eq!(parse_string(""), Ok(vec![]));
    assert_eq!(parse_string("\n\n"), Ok(vec![Line::Blank, Line::Blank]));
}

#[test]
fn parse_errors_name_the_place() {
    assert_eq!(parse_string("nop\nfoo $t0\n"), Err(fail(4, Expected::Opcode)));
    assert_eq!(parse_string("add $t0, $t1\n"), Err(fail(12, Expected::Dollar)));
    assert_eq!(parse_string("addi $t0, $zero, \n"), Err(fail(17, Expected::Immediate)));
    assert_eq!(parse_string("lw $t0, 0[$sp]\n"), Err(fail(9, Expected::OpenParenthesis)));
    assert_eq!(parse_string("add $t0, $t1, $t2 $t3\n"), Err(fail(18, Expected::EndOfLine)));
    assert_eq!(parse_string("# last line"), Err(fail(0, Expected::Opcode)));
    assert_eq!(parse_string(".ascii hello\n"), Err(fail(7, Expected::Quote)));
    assert_eq!(parse_string("añadir $t0\n"), Err(fail(0, Expected::Opcode)));
}

#[test]
fn error_positions_count_characters() {
    assert_eq!(parse_string("# é\nfoo\n"), Err(fail(4, Expected::Opcode)));
}

#[test]
fn error_messages_show_the_line() {
    let source = "nop\nfoo $t0\n";
    let error = parse_string(source).unwrap_err();
    assert_eq!(error.message(source), "0: at line 2, in Unknown Opcode:\nfoo $t0\n^\n\n");
    let source = "# é\n  add $t0, $t1\n";
    let error = parse_string(source).unwrap_err();
    assert_eq!(error, fail(18, Expected::Dollar));
    assert_eq!(
        error.message(source),
        "0: at line 2, in Expected '$' to prepend register:\n  add $t0, $t1\n              ^\n\n"
    );
    assert_eq!(Expected::NoParser.text(), "No parser for instruction");
    assert_eq!(Expected::EndOfLine.text(), "Instructions must be on their own lines");
}
