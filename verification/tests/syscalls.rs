use simulator::memory::Memory;
use simulator::register::{Register, RegisterFile, A0, T0, V0};
use simulator::syscall::{handle_syscall, resolve_syscall, trap, Syscall, SyscallError};

fn request(service: u32, argument: u32, memory: &mut Memory) -> Result<Syscall, SyscallError> {
    let mut registers = RegisterFile::default();
    registers.write_register(Register(V0), service);
    registers.write_register(Register(A0), argument);
    handle_syscall(&mut registers, memory)
}

fn printed(text: &str) -> Result<Syscall, SyscallError> {
    Ok(Syscall::Print(text.to_string()))
}

#[test]
fn print_int_is_signed() {
    let mut memory = Memory::new();
    assert_eq!(request(1, 42, &mut memory), printed("42"));
    assert_eq!(request(1, 0, &mut memory), printed("0"));
    assert_eq!(request(1, 0xffff_fff9, &mut memory), printed("-7"));
    assert_eq!(request(1, 0x7fff_ffff, &mut memory), printed("2147483647"));
    assert_eq!(request(1, 0x8000_0000, &mut memory), printed("-2147483648"));
}

#[test]
fn print_uint_hex_and_bin() {
    let mut memory = Memory::new();
    assert_eq!(request(36, 0xffff_fff9, &mut memory), printed("4294967289"));
    assert_eq!(request(36, 10, &mut memory), printed("10"));
    assert_eq!(request(34, 0xdead_beef, &mut memory), printed("deadbeef"));
    assert_eq!(request(34, 0, &mut memory), printed("0"));
    assert_eq!(request(34, 0x1f, &mut memory), printed("1f"));
    assert_eq!(request(35, 5, &mut memory), printed("101"));
    assert_eq!(request(35, 0, &mut memory), printed("0"));
    assert_eq!(request(35, 0x8000_0001, &mut memory), printed("10000000000000000000000000000001"));
}

#[test]
fn print_char_replaces_what_is_no_character() {
    let mut memory = Memory::new();
    assert_eq!(request(11, 'A' as u32, &mut memory), printed("A"));
    assert_eq!(request(11, 0x20ac, &mut memory), printed("€"));
    assert_eq!(request(11, 0xd800, &mut memory), printed("\u{fffd}"));
    assert_eq!(request(11, 0x11_0000, &mut memory), printed("\u{fffd}"));
    assert_eq!(request(11, 0, &mut memory), printed("\0"));
}

#[test]
fn print_string_reads_up_to_the_zero_byte() {
    let mut memory = Memory::new();
    for (i, byte) in "hi €!".bytes().enumerate() {
        memory.set_byte(0x1001_0002 + i as u32, byte).unwrap();
    }
    assert_eq!(request(4, 0x1001_0002, &mut memory), printed("hi €!"));
    assert_eq!(request(4, 0x1001_0003, &mut memory), printed("i €!"));
    assert_eq!(request(4, 0x2000_0000, &mut memory), printed(""));
}

#[test]
fn print_string_refuses_bytes_that_are_no_text() {
    let mut memory = Memory::new();
    memory.set_byte(0x1001_0000, 0xff).unwrap();
    memory.set_byte(0x1001_0001, b'a').unwrap();
    assert_eq!(request(4, 0x1001_0000, &mut memory), Err(SyscallError::InvalidString));
    assert_eq!(request(4, 0x1001_0001, &mut memory), printed("a"));
    assert_eq!(SyscallError::InvalidString.message(), "The string to print is not valid UTF-8");
}

#[test]
fn read_int_and_exit() {
    let mut memory = Memory::new();
    assert_eq!(request(5, 0, &mut memory), Ok(Syscall::ReadInt));
    assert_eq!(request(10, 0, &mut memory), Ok(Syscall::Quit));
}

#[test]
fn other_services_are_not_recognised() {
    let mut memory = Memory::new();
    for service in [0u32, 2, 3, 12, 33, 37, 1000] {
        assert_eq!(
            request(service, 0, &mut memory),
            Err(SyscallError::Unrecognized { number: service })
        );
    }
    assert_eq!(SyscallError::Unrecognized { number: 12 }.message(), "Unrecognized syscall: 12");
}

#[test]
fn the_trap_turns_failures_into_error_messages() {
    let mut memory = Memory::new();
    let mut registers = RegisterFile::default();
    registers.write_register(Register(V0), 99);
    assert_eq!(
        trap(&mut registers, &mut memory),
        Syscall::Error("Unrecognized syscall: 99".to_string())
    );
    registers.write_register(Register(V0), 1);
    registers.write_register(Register(A0), 3);
    assert_eq!(trap(&mut registers, &mut memory), Syscall::Print("3".to_string()));
    assert_eq!(registers.read_register(Register(V0)), 1);
}

#[test]
fn resolving_read_int_writes_the_number() {
    let mut registers = RegisterFile::default();
    assert_eq!(resolve_syscall(&mut registers, &Syscall::ReadInt, "42"), Ok(()));
    assert_eq!(registers.read_register(Register(V0)), 42);
    assert_eq!(resolve_syscall(&mut registers, &Syscall::ReadInt, "  -7\n"), Ok(()));
    assert_eq!(registers.read_register(Register(V0)), 0xffff_fff9);
    assert_eq!(resolve_syscall(&mut registers, &Syscall::ReadInt, "+2147483647"), Ok(()));
    assert_eq!(registers.read_register(Register(V0)), 0x7fff_ffff);
    assert_eq!(resolve_syscall(&mut registers, &Syscall::ReadInt, "-2147483648"), Ok(()));
    assert_eq!(registers.read_register(Register(V0)), 0x8000_0000);
}

#[test]
fn resolving_read_int_refuses_what_is_no_number() {
    let mut registers = RegisterFile::default();
    registers.write_register(Register(V0), 5);
    for text in ["", "abc", "12x", "2147483648", "1 2", "0x10", "--1"] {
        assert_eq!(
            resolve_syscall(&mut registers, &Syscall::ReadInt, text),
            Err(SyscallError::InvalidInput { text: text.to_string() })
        );
    }
    assert_eq!(
        resolve_syscall(&mut registers, &Syscall::ReadInt, " seven \n"),
        Err(SyscallError::InvalidInput { text: "seven".to_string() })
    );
    assert_eq!(registers.read_register(Register(V0)), 5);
    assert_eq!(
        SyscallError::InvalidInput { text: "seven".to_string() }.message(),
        "Attempting to parse 'seven'"
    );
}

#[test]
fn other_calls_take_no_input() {
    let mut registers = RegisterFile::default();
    registers.write_register(Register(V0), 5);
    registers.write_register(Register(T0), 6);
    assert_eq!(resolve_syscall(&mut registers, &Syscall::Quit, "42"), Ok(()));
    assert_eq!(resolve_syscall(&mut registers, &Syscall::Print("x".to_string()), "junk"), Ok(()));
    assert_eq!(registers.read_register(Register(V0)), 5);
    assert_eq!(registers.read_register(Register(T0)), 6);
}
