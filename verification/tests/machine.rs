use simulator::console::{feed_input, run_cycle, Console};
use simulator::machine::{assembler, Machine};
use simulator::memory::{Memory, MemoryError};
use simulator::parser::model::LabelTable;
use simulator::pipeline::{CycleError, PipelineState};
use simulator::register::{Register, A0, SP, T0, V0};
use simulator::stages::execute::ExecuteError;
use simulator::syscall::{Syscall, SyscallError};
use simulator::watches::{Watch, WatchType};
use std::ops::ControlFlow;

fn flashed(source: &str) -> Machine {
    let (memory, labels) = assembler(source).unwrap();
    let mut machine = Machine::default();
    machine.flash(memory, labels);
    machine.reset();
    machine
}

#[test]
fn a_new_machine_is_blank() {
    let machine = Machine::default();
    assert_eq!(machine.register(Register(SP)), 0x7fff_effc);
    assert_eq!(machine.register(Register(T0)), 0);
    assert_eq!(machine.read_word(0x0040_0000), Ok(0));
    assert_eq!(*machine.pipeline(), PipelineState::default());
    assert!(!machine.pending_syscall());
}

#[test]
fn reset_restores_counter_latches_and_registers() {
    let mut machine = flashed("addi $t0, $zero, 5\naddi $sp, $sp, -4\nnop\nnop\nnop\nnop\n");
    for _ in 0..8 {
        machine.cycle().unwrap();
    }
    assert_eq!(machine.register(Register(T0)), 5);
    assert_eq!(machine.register(Register(SP)), 0x7fff_eff8);
    assert_ne!(*machine.pipeline(), PipelineState::default());
    machine.reset();
    assert_eq!(*machine.pipeline(), PipelineState::default());
    assert_eq!(machine.register(Register(SP)), 0x7fff_effc);
    assert_eq!(machine.register(Register(T0)), 0);
    // The program is still there, and runs again from the start.
    assert_eq!(machine.read_word(0x0040_0000), Ok(0x2008_0005));
    machine.cycle().unwrap();
    assert_eq!(machine.pipeline().if_id.pc, 0x0040_0000);
    assert_eq!(machine.current_line()[0], Some(0));
}

#[test]
fn hard_reset_clears_memory_and_labels() {
    let mut machine = flashed("main: addi $t0, $zero, 5\n");
    machine.write_word(0x1001_0000, 9);
    machine.hard_reset();
    assert_eq!(machine.read_word(0x0040_0000), Ok(0));
    assert_eq!(machine.read_word(0x1001_0000), Ok(0));
    assert_eq!(machine.register(Register(SP)), 0x7fff_effc);
    machine.cycle().unwrap();
    assert_eq!(machine.pipeline().if_id.pc, 0x0040_0000);
    assert_eq!(machine.current_line(), [None; 5]);
}

#[test]
fn flash_replaces_memory_and_labels_only() {
    let mut machine = Machine::default();
    *machine.register_mut(Register(T0)) = 3;
    let mut memory = Memory::new();
    memory.set_word(0x100, 77);
    let mut labels = LabelTable::default();
    labels.insert_line(4, 0x0040_0000);
    machine.flash(memory, labels);
    assert_eq!(machine.read_word(0x100), Ok(77));
    assert_eq!(machine.register(Register(T0)), 3);
    machine.flash(Memory::new(), LabelTable::default());
    assert_eq!(machine.read_word(0x100), Ok(0));
}

#[test]
fn words_are_written_and_read() {
    let mut machine = Machine::default();
    machine.write_word(0x1001_0000, 0x0102_0304);
    assert_eq!(machine.read_word(0x1001_0000), Ok(0x0102_0304));
    machine.write_word(0x1001_0002, 0xffff_ffff);
    assert_eq!(machine.read_word(0x1001_0000), Ok(0xffff_0304));
    assert_eq!(machine.read_word(0x1001_0004), Ok(0x0000_ffff));
    assert_eq!(machine.read_word(0x1001_0002), Err(MemoryError::Unaligned { address: 0x1001_0002 }));
}

#[test]
fn registers_are_read_and_written() {
    let mut machine = Machine::default();
    *machine.register_mut(Register(A0)) = 12;
    assert_eq!(machine.register(Register(A0)), 12);
    assert_eq!(*machine.register_mut(Register(A0)), 12);
    assert_eq!(machine.register(Register(V0)), 0);
}

#[test]
fn the_stack_is_listed_from_the_top_down() {
    let mut machine = Machine::default();
    assert_eq!(machine.stack(), vec![]);
    *machine.register_mut(Register(SP)) = 0x7fff_eff0;
    machine.write_word(0x7fff_eff8, 1);
    machine.write_word(0x7fff_eff4, 2);
    machine.write_word(0x7fff_eff0, 3);
    machine.write_word(0x7fff_effc, 4);
    assert_eq!(
        machine.stack(),
        vec![(0x7fff_eff8, 1), (0x7fff_eff4, 2), (0x7fff_eff0, 3)]
    );
    *machine.register_mut(Register(SP)) = 0x7fff_eff6;
    assert_eq!(machine.stack(), vec![(0x7fff_eff8, 1), (0x7fff_eff4, 2)]);
    *machine.register_mut(Register(SP)) = 0x7fff_f000;
    assert_eq!(machine.stack(), vec![]);
}

#[test]
fn each_stage_shows_its_source_line() {
    let mut machine = flashed("# five lines\nmain:\naddi $t0, $zero, 1\n\naddi $t1, $zero, 2\nnop\nnop\nnop\nnop\n");
    assert_eq!(machine.current_line(), [None; 5]);
    machine.cycle().unwrap();
    assert_eq!(machine.current_line(), [Some(2), None, None, None, None]);
    machine.cycle().unwrap();
    assert_eq!(machine.current_line(), [Some(4), Some(2), None, None, None]);
    machine.cycle().unwrap();
    machine.cycle().unwrap();
    machine.cycle().unwrap();
    assert_eq!(machine.current_line(), [Some(7), Some(6), Some(5), Some(4), Some(2)]);
}

#[test]
fn a_failing_cycle_keeps_the_latches() {
    let mut machine = flashed("");
    machine.cycle().unwrap();
    machine.cycle().unwrap();
    let before = *machine.pipeline();
    assert_eq!(machine.cycle(), Err(CycleError::Execute(ExecuteError::UnknownInstruction)));
    assert_eq!(*machine.pipeline(), before);
    assert_eq!(machine.cycle(), Err(CycleError::Execute(ExecuteError::UnknownInstruction)));
}

#[test]
fn a_pending_call_holds_the_machine() {
    let mut machine = flashed("addi $v0, $zero, 5\nsyscall\nadd $a0, $v0, $zero\nnop\nnop\nnop\nnop\n");
    let mut cycles = 0;
    while !machine.pending_syscall() {
        machine.cycle().unwrap();
        cycles += 1;
        assert!(cycles < 20);
    }
    let parked = *machine.pipeline();
    machine.cycle().unwrap();
    assert_eq!(*machine.pipeline(), parked);
    // Showing the call without dealing with it leaves it pending.
    let mut seen = None;
    machine.handle_syscall(|syscall| {
        seen = Some(syscall.clone());
        ControlFlow::Continue(())
    });
    assert_eq!(seen, Some(Syscall::ReadInt));
    assert!(machine.pending_syscall());
    // Input that is no number is refused, and the call waits on.
    assert_eq!(
        machine.resolve_input("x\n"),
        Err(SyscallError::InvalidInput { text: "x".to_string() })
    );
    assert!(machine.pending_syscall());
    assert_eq!(machine.resolve_input(" 31 \n"), Ok(()));
    assert!(!machine.pending_syscall());
    assert_eq!(machine.register(Register(V0)), 31);
    for _ in 0..6 {
        machine.cycle().unwrap();
    }
    assert_eq!(machine.register(Register(A0)), 31);
}

#[test]
fn a_call_is_settled_by_break_only() {
    let mut machine = flashed("addi $v0, $zero, 10\nsyscall\n");
    while !machine.pending_syscall() {
        machine.cycle().unwrap();
    }
    machine.settle_syscall(ControlFlow::Continue(()));
    assert!(machine.pending_syscall());
    assert_eq!(machine.waiting_syscall(), Some(&Syscall::Quit));
    machine.settle_syscall(ControlFlow::Break(()));
    assert!(!machine.pending_syscall());
    assert_eq!(machine.waiting_syscall(), None);
    // Without a pending call the visitor is not called.
    machine.handle_syscall(|_| panic!("no call is pending"));
    // Input without a pending call changes nothing.
    assert_eq!(machine.resolve_input("5"), Ok(()));
    assert_eq!(machine.register(Register(V0)), 10);
}

#[test]
fn input_settles_a_call_that_takes_none() {
    let mut machine = flashed("addi $v0, $zero, 10\nsyscall\n");
    while !machine.pending_syscall() {
        machine.cycle().unwrap();
    }
    assert_eq!(machine.resolve_input("junk"), Ok(()));
    assert!(!machine.pending_syscall());
    assert_eq!(machine.register(Register(V0)), 10);
}

#[test]
fn console_text_and_framing() {
    let mut console = Console::new();
    console.print("out");
    console.error("bad");
    console.print("!");
    let (text, cursor) = console.view();
    assert_eq!(text.as_str(), "out\x07bad\x1b!");
    assert_eq!(cursor, 9);
    console.clear();
    let (text, cursor) = console.view();
    assert_eq!((text.as_str(), cursor), ("", 0));
    console.error("é");
    assert_eq!(console.view(), (&mut "\x07é\x1b".to_string(), 5));
}

#[test]
fn console_input_is_read_up_to_the_line_feed() {
    let mut console = Console::default();
    console.print("> ");
    assert_eq!(console.input(), None);
    console.view().0.push_str("12");
    assert_eq!(console.input(), None);
    console.view().0.push_str("3\nrest");
    assert_eq!(console.input(), Some("123".to_string()));
    assert_eq!(console.view().1, 5);
    // The read position stays at the line feed.
    assert_eq!(console.input(), Some(String::new()));
    console.print("\n");
    assert_eq!(console.input(), None);
}

#[test]
fn running_prints_and_stops_on_quit() {
    let source = "addi $a0, $zero, 42\naddi $v0, $zero, 1\nsyscall\naddi $v0, $zero, 10\nsyscall\nnop\n";
    let mut machine = flashed(source);
    let mut console = Console::new();
    let mut running = true;
    let mut cycles = 0;
    while running {
        running = run_cycle(&mut machine, &mut console, running);
        cycles += 1;
        assert!(cycles < 40);
    }
    assert_eq!(console.view().0.as_str(), "42");
    assert!(!machine.pending_syscall());
}

#[test]
fn running_reports_failures_as_errors() {
    let mut machine = flashed("");
    let mut console = Console::new();
    assert!(run_cycle(&mut machine, &mut console, true));
    assert!(run_cycle(&mut machine, &mut console, true));
    assert!(!run_cycle(&mut machine, &mut console, true));
    assert_eq!(console.view().0.as_str(), "\x07Unknown Instruction\n\x1b");
}

#[test]
fn running_reports_unknown_services() {
    let mut machine = flashed("addi $v0, $zero, 77\nsyscall\nnop\n");
    let mut console = Console::new();
    for _ in 0..7 {
        assert!(run_cycle(&mut machine, &mut console, true));
    }
    assert_eq!(console.view().0.as_str(), "\n\x07ERROR: Unrecognized syscall: 77\x1b\n");
    assert!(!machine.pending_syscall());
}

#[test]
fn running_waits_for_input() {
    let source = "addi $v0, $zero, 5\nsyscall\nadd $a0, $v0, $zero\naddi $v0, $zero, 1\nsyscall\n";
    let mut machine = flashed(source);
    let mut console = Console::new();
    for _ in 0..7 {
        assert!(run_cycle(&mut machine, &mut console, true));
    }
    assert!(machine.pending_syscall());
    let parked = *machine.pipeline();
    assert!(run_cycle(&mut machine, &mut console, true));
    assert_eq!(*machine.pipeline(), parked);
    // Nothing is typed yet.
    assert!(feed_input(&mut machine, &mut console, true));
    assert!(machine.pending_syscall());
    console.view().0.push_str("-7\n");
    assert!(feed_input(&mut machine, &mut console, true));
    assert!(!machine.pending_syscall());
    for _ in 0..6 {
        assert!(run_cycle(&mut machine, &mut console, true));
    }
    assert_eq!(console.view().0.as_str(), "-7\n-7");
}

#[test]
fn input_that_is_refused_stops_the_machine() {
    let mut machine = flashed("addi $v0, $zero, 5\nsyscall\n");
    let mut console = Console::new();
    for _ in 0..7 {
        run_cycle(&mut machine, &mut console, true);
    }
    console.view().0.push_str("seven\n");
    assert!(!feed_input(&mut machine, &mut console, true));
    assert!(machine.pending_syscall());
    assert_eq!(console.view().0.as_str(), "seven\n\x07Attempting to parse 'seven'\x1b");
}

#[test]
fn watches_read_and_write() {
    let mut machine = Machine::default();
    let register = Watch { ty: WatchType::Register, val: 8 };
    let word = Watch { ty: WatchType::Memory, val: 0x1001_0000 };
    assert_eq!(Watch::default(), Watch { ty: WatchType::Register, val: 0 });
    assert_eq!(WatchType::default(), WatchType::Register);
    register.write(&mut machine, 5);
    word.write(&mut machine, 6);
    assert_eq!(machine.register(Register(T0)), 5);
    assert_eq!(machine.read_word(0x1001_0000), Ok(6));
    assert_eq!(register.read(&machine), 5);
    assert_eq!(word.read(&machine), 6);
    assert_eq!(Watch { ty: WatchType::Memory, val: 0x1001_0001 }.read(&machine), 0);
    assert_eq!(Watch { ty: WatchType::Register, val: 0 }.read(&machine), 0);
    assert_eq!(WatchType::Register.label(), "Register");
    assert_eq!(WatchType::Memory.label(), "Memory");
}
