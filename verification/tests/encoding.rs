use simulator::machine::assembler;
use simulator::parser::model::instruction::{field, word_bytes};
use simulator::parser::model::{
    Imm, Instruction, LabelTable, Line, Opcode, Segment, Segments, Symbol, DATA_BASE, STACK_BASE,
    TEXT_BASE,
};
use simulator::parser::opcode::{lookup, opcode_name, Form};
use simulator::parser::{compute_labels, parse_string};
use simulator::register::Register;

fn word_of(instruction: &Instruction, labels: &LabelTable, pc: u32) -> u32 {
    let bytes = instruction.assemble(labels, pc);
    assert_eq!(bytes.len(), 4);
    u32::from_le_bytes([bytes[0], bytes[1], bytes[2], bytes[3]])
}

#[test]
fn segment_bases() {
    assert_eq!(TEXT_BASE, 0x0040_0000);
    assert_eq!(DATA_BASE, 0x1001_0000);
    assert_eq!(STACK_BASE, 0x7fff_effc);
}

#[test]
fn fields_are_masked_and_shifted() {
    assert_eq!(field(0xffff_ffff, 0, 6), 0x3f);
    assert_eq!(field(0x2b, 26, 6), 0xac00_0000);
    assert_eq!(field(33, 16, 5), 0x0001_0000);
    assert_eq!(field(0x1_2345, 0, 16), 0x2345);
    assert_eq!(field(9, 21, 5), 0x0120_0000);
    assert_eq!(field(7, 31, 1), 0x8000_0000);
    assert_eq!(field(7, 3, 0), 0);
}

#[test]
fn words_are_laid_down_little_endian() {
    assert_eq!(word_bytes(0x0102_0304), vec![4, 3, 2, 1]);
    assert_eq!(word_bytes(0xbaad_f00d), vec![0x0d, 0xf0, 0xad, 0xba]);
}

#[test]
fn r_format_encoding() {
    let labels = LabelTable::default();
    let add = Instruction::R {
        op: Opcode::Funct(0x20),
        rd: Register(10),
        rs: Register(8),
        rt: Register(9),
        shamt: 0,
    };
    assert_eq!(word_of(&add, &labels, 0), 0x0109_5020);
    let sll = Instruction::R {
        op: Opcode::Funct(0),
        rd: Register(8),
        rs: Register(0),
        rt: Register(9),
        shamt: 2,
    };
    assert_eq!(word_of(&sll, &labels, 0), 0x0009_4080);
    let syscall = Instruction::R {
        op: Opcode::Funct(0x0c),
        rd: Register(0),
        rs: Register(0),
        rt: Register(0),
        shamt: 0,
    };
    assert_eq!(word_of(&syscall, &labels, 0), 0x0000_000c);
}

#[test]
fn i_format_encoding() {
    let labels = LabelTable::default();
    let addi = Instruction::I {
        op: Opcode::Op(0x08),
        rt: Register(8),
        rs: Register(0),
        imm: Imm::Value(16),
    };
    assert_eq!(word_of(&addi, &labels, 0), 0x2008_0010);
    let negative = Instruction::I {
        op: Opcode::Op(0x08),
        rt: Register(8),
        rs: Register(0),
        imm: Imm::Value(-1),
    };
    assert_eq!(word_of(&negative, &labels, 0), 0x2008_ffff);
    let sw = Instruction::I {
        op: Opcode::Op(0x2b),
        rt: Register(10),
        rs: Register(8),
        imm: Imm::Value(0),
    };
    assert_eq!(word_of(&sw, &labels, 0), 0xad0a_0000);
    let lw = Instruction::I {
        op: Opcode::Op(0x23),
        rt: Register(8),
        rs: Register(29),
        imm: Imm::Value(0),
    };
    assert_eq!(word_of(&lw, &labels, 0), 0x8fa8_0000);
    let lui = Instruction::I {
        op: Opcode::Op(0x0f),
        rt: Register(8),
        rs: Register(0),
        imm: Imm::Value(0x1234),
    };
    assert_eq!(word_of(&lui, &labels, 0), 0x3c08_1234);
}

#[test]
fn j_format_encoding() {
    let mut labels = LabelTable::default();
    labels.insert_label("main".to_string(), 0x0040_0000);
    let j = Instruction::J { op: Opcode::Op(0x02), addr: Symbol::Label("main".to_string()) };
    assert_eq!(word_of(&j, &labels, 0), 0x0810_0000);
    let jal = Instruction::J { op: Opcode::Op(0x03), addr: Symbol::Address(0xf040_0014) };
    assert_eq!(word_of(&jal, &labels, 0), 0x0c10_0005);
    assert_eq!(Symbol::Address(0x0040_0008).assemble(&labels), 0x0010_0002);
    assert_eq!(Symbol::Label("nowhere".to_string()).assemble(&labels), 0);
}

#[test]
fn immediates_resolve_labels() {
    let mut labels = LabelTable::default();
    labels.insert_label("msg".to_string(), 0x1001_8004);
    labels.insert_label("next".to_string(), 0x0040_0014);
    labels.insert_label("back".to_string(), 0x0040_0000);
    assert_eq!(Imm::Label("msg".to_string()).assemble(&labels, 0), 0x1001_8004);
    assert_eq!(Imm::HighHWord("msg".to_string()).assemble(&labels, 0), 0x1001);
    assert_eq!(Imm::LowHWord("msg".to_string()).assemble(&labels, 0), 0x8004);
    assert_eq!(Imm::Value(-2).assemble(&labels, 0), 0xffff_fffe);
    assert_eq!(Imm::Value(0x1_0000_0005).assemble(&labels, 0), 5);
    assert_eq!(Imm::PcRelative("next".to_string()).assemble(&labels, 0x0040_0004), 3);
    assert_eq!(Imm::PcRelative("back".to_string()).assemble(&labels, 0x0040_0008), 0xfffd);
    assert_eq!(Imm::Label("nowhere".to_string()).assemble(&labels, 0), 0);
    assert_eq!(Imm::PcRelative("nowhere".to_string()).assemble(&labels, 0), 0xffff);
}

#[test]
fn branches_encode_the_distance_to_the_label() {
    let mut labels = LabelTable::default();
    labels.insert_label("L".to_string(), 0x0040_0014);
    let beq = Instruction::I {
        op: Opcode::Op(0x04),
        rt: Register(0),
        rs: Register(0),
        imm: Imm::PcRelative("L".to_string()),
    };
    assert_eq!(word_of(&beq, &labels, 0x0040_0004), 0x1000_0003);
}

#[test]
fn literals_are_their_bytes() {
    let labels = LabelTable::default();
    let literal = Instruction::Literal { data: vec![1, 2, 3] };
    assert_eq!(literal.assemble(&labels, 0x40), vec![1, 2, 3]);
    assert_eq!(literal.len(), 3);
    assert_eq!(Instruction::Literal { data: vec![] }.len(), 0);
    let j = Instruction::J { op: Opcode::Op(2), addr: Symbol::Address(0) };
    assert_eq!(j.len(), 4);
}

#[test]
fn opcode_values() {
    assert_eq!(Opcode::Op(0x23).value(), 0x23);
    assert_eq!(Opcode::Funct(0x2a).value(), 0x2a);
}

#[test]
fn operation_names() {
    assert_eq!(opcode_name(0), Some("nop"));
    assert_eq!(opcode_name(0x0109_5020), Some("add"));
    assert_eq!(opcode_name(0x0009_4080), Some("sll"));
    assert_eq!(opcode_name(0x0000_000c), Some("syscall"));
    assert_eq!(opcode_name(0x0000_0008), Some("jr"));
    assert_eq!(opcode_name(0x2008_0010), Some("addi"));
    assert_eq!(opcode_name(0x8fa8_0000), Some("lw"));
    assert_eq!(opcode_name(0xad0a_0000), Some("sw"));
    assert_eq!(opcode_name(0x0810_0000), Some("j"));
    assert_eq!(opcode_name(0x1000_0003), Some("beq"));
    assert_eq!(opcode_name(0xbaad_f00d), None);
    assert_eq!(opcode_name(0x0000_003f), None);
}

#[test]
fn every_machine_mnemonic_is_recovered_from_its_encoding() {
    let labels = LabelTable::default();
    let names = [
        "add", "addu", "sub", "and", "or", "xor", "nor", "slt", "sll", "srl", "sra", "srlv", "jr",
        "addi", "addiu", "andi", "ori", "lui", "lw", "sw", "beq", "bne", "j", "jal",
    ];
    for name in names {
        let parser = lookup(name).unwrap();
        let unit = match parser.form {
            Form::RType | Form::Shift | Form::JumpRegister => Instruction::R {
                op: parser.op,
                rd: Register(3),
                rs: Register(4),
                rt: Register(5),
                shamt: 6,
            },
            Form::Jump => Instruction::J { op: parser.op, addr: Symbol::Address(0x0040_0000) },
            _ => Instruction::I {
                op: parser.op,
                rt: Register(3),
                rs: Register(4),
                imm: Imm::Value(-9),
            },
        };
        assert_eq!(opcode_name(word_of(&unit, &labels, 0)), Some(name));
    }
}

#[test]
fn a_shift_of_nothing_is_shown_as_nop() {
    let labels = LabelTable::default();
    let sll = Instruction::R {
        op: Opcode::Funct(0),
        rd: Register(0),
        rs: Register(0),
        rt: Register(0),
        shamt: 0,
    };
    assert_eq!(opcode_name(word_of(&sll, &labels, 0)), Some("nop"));
}

#[test]
fn segments_keep_their_cursors() {
    let mut segments = Segments::default();
    assert_eq!(segments.position(Segment::Text), 0x0040_0000);
    assert_eq!(segments.position(Segment::Data), 0x1001_0000);
    *segments.switch(Segment::Text) += 8;
    *segments.switch(Segment::Data) += 4;
    assert_eq!(*segments.switch(Segment::Text), 0x0040_0008);
    assert_eq!(segments.position(Segment::Data), 0x1001_0004);
}

#[test]
fn label_table_lookups() {
    let mut labels = LabelTable::default();
    assert_eq!(labels.get_label("a"), None);
    labels.insert_label("a".to_string(), 4);
    labels.insert_label("b".to_string(), 8);
    labels.insert_label("a".to_string(), 12);
    assert_eq!(labels.get_label("a"), Some(12));
    assert_eq!(labels.get_label("b"), Some(8));
    assert_eq!(labels.get_label("A"), None);
}

#[test]
fn lines_are_found_by_address() {
    let mut labels = LabelTable::default();
    assert_eq!(labels.get_line(0x0040_0000), None);
    labels.insert_line(3, 0x0040_0008);
    labels.insert_line(1, 0x0040_0000);
    labels.insert_line(9, 0x1001_0000);
    labels.insert_line(2, 0x0040_0004);
    assert_eq!(labels.get_line(0x0040_0000), Some(1));
    assert_eq!(labels.get_line(0x0040_0003), Some(1));
    assert_eq!(labels.get_line(0x0040_0004), Some(2));
    assert_eq!(labels.get_line(0x0040_0008), Some(3));
    assert_eq!(labels.get_line(0x0040_00ff), Some(3));
    assert_eq!(labels.get_line(0x1001_0002), Some(9));
    assert_eq!(labels.get_line(0x003f_fffc), None);
    assert_eq!(labels.get_line(0), None);
}

#[test]
fn of_lines_at_one_address_the_last_is_found() {
    let mut labels = LabelTable::default();
    labels.insert_line(1, 0x0040_0000);
    labels.insert_line(2, 0x0040_0000);
    labels.insert_line(3, 0x0040_0004);
    assert_eq!(labels.get_line(0x0040_0000), Some(2));
    assert_eq!(labels.get_line(0x0040_0002), Some(2));
}

#[test]
fn labels_and_lines_of_a_program() {
    let source = "main:\naddi $t0, $zero, 1\nbeq $t0, $zero, main\nend: nop\n.data\nvalue: .word 1, 2\ntext: .asciiz \"hey\"\n.text\nlast: nop\n";
    let lines = parse_string(source).unwrap();
    let labels = compute_labels(&lines);
    assert_eq!(labels.get_label("main"), Some(0x0040_0000));
    assert_eq!(labels.get_label("end"), Some(0x0040_0010));
    assert_eq!(labels.get_label("value"), Some(0x1001_0000));
    assert_eq!(labels.get_label("text"), Some(0x1001_0008));
    assert_eq!(labels.get_label("last"), Some(0x0040_0014));
    // A label is a line of its own, also where an instruction follows it in
    // the source line.
    assert!(matches!(lines[1], Line::Instruction(_)));
    assert_eq!(labels.get_line(0x0040_0000), Some(1));
    assert_eq!(labels.get_line(0x0040_0004), Some(2));
    assert_eq!(labels.get_line(0x0040_0008), Some(2));
    assert_eq!(labels.get_line(0x0040_000f), Some(2));
    assert_eq!(labels.get_line(0x0040_0010), Some(4));
    assert_eq!(labels.get_line(0x0040_0014), Some(12));
    assert_eq!(labels.get_line(0x1001_0004), Some(7));
    assert_eq!(labels.get_line(0x1001_0008), Some(9));
}

#[test]
fn words_assemble_to_their_little_endian_bytes() {
    let (memory, _) = assembler(".word 1\n.word 0x01020304, -2\n.word 0xFFFFFFFF\n").unwrap();
    let expected: [u8; 16] = [1, 0, 0, 0, 4, 3, 2, 1, 0xfe, 0xff, 0xff, 0xff, 0xff, 0xff, 0xff, 0xff];
    for (k, byte) in expected.iter().enumerate() {
        assert_eq!(memory.get_byte(0x0040_0000 + k as u32), *byte);
    }
    assert_eq!(memory.get(0x0040_0004), Ok(0x0102_0304));
    assert_eq!(memory.get(0x0040_0010), Ok(0xbaad_f00d));
}

#[test]
fn the_guard_word_follows_the_text() {
    let (memory, _) = assembler("").unwrap();
    assert_eq!(memory.get(0x0040_0000), Ok(0xbaad_f00d));
    let (memory, _) = assembler("nop\n.data\n.word 5\n").unwrap();
    assert_eq!(memory.get(0x0040_0000), Ok(0));
    assert_eq!(memory.get(0x0040_0004), Ok(0xbaad_f00d));
    assert_eq!(memory.get(0x1001_0000), Ok(5));
    assert_eq!(memory.get(0x1001_0004), Ok(0));
    let (memory, _) = assembler(".byte 1\n").unwrap();
    assert_eq!(memory.get(0x0040_0000), Ok(0xadf0_0d01));
    assert_eq!(memory.get(0x0040_0004), Ok(0x0000_00ba));
}

#[test]
fn a_program_assembles_to_its_words() {
    let source = "addi $t0, $zero, 16\naddi $t1, $zero, 4\nadd $t2, $t0, $t1\nsw $t2, 0($t0)\n";
    let (memory, _) = assembler(source).unwrap();
    assert_eq!(memory.get(0x0040_0000), Ok(0x2008_0010));
    assert_eq!(memory.get(0x0040_0004), Ok(0x2009_0004));
    assert_eq!(memory.get(0x0040_0008), Ok(0x0109_5020));
    assert_eq!(memory.get(0x0040_000c), Ok(0xad0a_0000));
    assert_eq!(memory.get(0x0040_0010), Ok(0xbaad_f00d));
}

#[test]
fn branches_and_data_references_are_resolved() {
    let source = ".data\nmsg: .asciiz \"hi\"\n.text\nla $a0, msg\nloop: bne $a0, $zero, loop\nj loop\n";
    let (memory, labels) = assembler(source).unwrap();
    assert_eq!(labels.get_label("msg"), Some(0x1001_0000));
    assert_eq!(labels.get_label("loop"), Some(0x0040_0008));
    assert_eq!(memory.get(0x1001_0000), Ok(0x0000_6968));
    assert_eq!(memory.get(0x0040_0000), Ok(0x3c01_1001));
    assert_eq!(memory.get(0x0040_0004), Ok(0x3424_0000));
    assert_eq!(memory.get(0x0040_0008), Ok(0x1404_ffff));
    assert_eq!(memory.get(0x0040_000c), Ok(0));
    assert_eq!(memory.get(0x0040_0010), Ok(0));
    assert_eq!(memory.get(0x0040_0014), Ok(0x0810_0002));
    assert_eq!(memory.get(0x0040_0020), Ok(0xbaad_f00d));
}

#[test]
fn assembling_twice_gives_the_same_image() {
    let source = "main: li $t0, 0x12345678\n.data\nv: .word 1, 2, 3\n.text\nj main\n";
    let (first, first_labels) = assembler(source).unwrap();
    let (second, second_labels) = assembler(&source.to_string()).unwrap();
    for address in (0x0040_0000u32..0x0040_0040).chain(0x1001_0000..0x1001_0020) {
        assert_eq!(first.get_byte(address), second.get_byte(address));
    }
    for name in ["main", "v", "none"] {
        assert_eq!(first_labels.get_label(name), second_labels.get_label(name));
    }
    for pc in (0x0040_0000u32..0x0040_0040).step_by(4) {
        assert_eq!(first_labels.get_line(pc), second_labels.get_line(pc));
    }
}

#[test]
fn a_program_that_does_not_parse_is_not_assembled() {
    let error = assembler("addi $t0, $zero\n").err().unwrap();
    assert_eq!(error.at, 15);
    assert_eq!(error.message("addi $t0, $zero\n"), "0: at line 1, in Expected immediate value:\naddi $t0, $zero\n               ^\n\n");
}
