use simulator::machine::{assembler, Machine};
use simulator::register::{Register, A0, SP, T0, T1, T2, V0};
use simulator::syscall::Syscall;
use std::ops::ControlFlow;

/// Assembles `source`, runs it for at most `cycles` cycles or until it quits
/// or fails, and hands `inputs` to the program as it asks for them. Returns
/// the machine and what the program printed.
fn run(source: &str, inputs: &[&str], cycles: usize) -> (Machine, String) {
    let (memory, labels) = assembler(source).expect("the program assembles");
    let mut machine = Machine::default();
    machine.flash(memory, labels);
    machine.reset();
    let mut console = String::new();
    let mut next_input = 0;
    let mut quit = false;
    for _ in 0..cycles {
        if machine.cycle().is_err() || quit {
            break;
        }
        let mut wants_input = false;
        machine.handle_syscall(|syscall| match syscall {
            Syscall::Print(text) => {
                console.push_str(text);
                ControlFlow::Break(())
            }
            Syscall::Error(text) => {
                console.push('\x07');
                console.push_str(text);
                console.push('\x1b');
                quit = true;
                ControlFlow::Break(())
            }
            Syscall::Quit => {
                quit = true;
                ControlFlow::Break(())
            }
            Syscall::ReadInt => {
                wants_input = true;
                ControlFlow::Continue(())
            }
        });
        if wants_input && next_input < inputs.len() {
            machine.resolve_input(inputs[next_input]).expect("the input is a number");
            next_input += 1;
        }
    }
    (machine, console)
}

#[test]
fn add_and_store() {
    let source = "addi $t0, $zero, 16\naddi $t1, $zero, 4\nadd $t2, $t0, $t1\nsw $t2, 0($t0)\nnop\nnop\nnop\n";
    let (machine, _) = run(source, &[], 40);
    assert_eq!(machine.register(Register(T0)), 16);
    assert_eq!(machine.register(Register(T1)), 4);
    assert_eq!(machine.register(Register(T2)), 20);
    assert_eq!(machine.read_word(16), Ok(20));
}

#[test]
fn taken_branch_ends_at_label() {
    let source = "addi $t0,$zero,5\nbeq $zero,$zero,L\naddi $t0,$zero,2\nL: addi $t0,$zero,3\nnop\nnop\nnop\n";
    let (machine, _) = run(source, &[], 40);
    assert_eq!(machine.register(Register(T0)), 3);
}

#[test]
fn set_on_less_than() {
    let source = "addi $t0,$zero,3\naddi $t1,$zero,2\nslt $t2,$t1,$t0\nnop\nnop\nnop\n";
    let (machine, _) = run(source, &[], 40);
    assert_eq!(machine.register(Register(T2)), 1);
    let swapped = "addi $t0,$zero,3\naddi $t1,$zero,2\nslt $t2,$t0,$t1\nnop\nnop\nnop\n";
    let (machine, _) = run(swapped, &[], 40);
    assert_eq!(machine.register(Register(T2)), 0);
}

#[test]
fn set_on_less_than_is_signed() {
    let source = "addi $t0,$zero,-1\naddi $t1,$zero,2\nslt $t2,$t0,$t1\nnop\nnop\nnop\n";
    let (machine, _) = run(source, &[], 40);
    assert_eq!(machine.register(Register(T0)), 0xffff_ffff);
    assert_eq!(machine.register(Register(T2)), 1);
}

#[test]
fn print_int_prints_the_number() {
    let source = "addi $a0,$zero,42\naddi $v0,$zero,1\nsyscall\n";
    let (_, console) = run(source, &[], 40);
    assert_eq!(console, "42");
}

#[test]
fn read_int_then_print_int() {
    let source = "addi $v0,$zero,5\nsyscall\nadd $a0,$v0,$zero\naddi $v0,$zero,1\nsyscall\n";
    let (machine, console) = run(source, &["-7\n"], 60);
    assert_eq!(console, "-7");
    assert_eq!(machine.register(Register(A0)), (-7i32) as u32);
}

#[test]
fn load_use_hazard_is_stalled_and_forwarded() {
    let source = "lw $t0,0($sp)\nadd $t1,$t0,$t0\nnop\nnop\nnop\n";
    let (memory, labels) = assembler(source).expect("the program assembles");
    let mut machine = Machine::default();
    machine.flash(memory, labels);
    machine.reset();
    let sp = machine.register(Register(SP));
    assert_eq!(sp, 0x7fff_effc);
    machine.write_word(sp, 21);
    for _ in 0..12 {
        if machine.cycle().is_err() {
            break;
        }
    }
    assert_eq!(machine.register(Register(T0)), 21);
    assert_eq!(machine.register(Register(T1)), 42);
}

#[test]
fn exit_quits() {
    let source = "addi $v0,$zero,10\nsyscall\naddi $t0,$zero,1\n";
    let (machine, console) = run(source, &[], 40);
    assert_eq!(console, "");
    assert_eq!(machine.register(Register(T0)), 0);
    assert_eq!(machine.register(Register(V0)), 10);
}

#[test]
fn zero_register_reads_zero_after_writes() {
    let source = "addi $zero,$zero,5\nadd $t0,$zero,$zero\nnop\nnop\nnop\nnop\n";
    let (mut machine, _) = run(source, &[], 40);
    assert_eq!(machine.register(Register(0)), 0);
    *machine.register_mut(Register(0)) = 9;
    assert_eq!(machine.register(Register(0)), 0);
}
