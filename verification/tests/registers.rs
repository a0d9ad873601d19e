use simulator::register::{Register, RegisterFile, UnknownRegister, A0, AT, RA, SP, T0, V0, ZERO};

#[test]
fn names_follow_the_convention() {
    assert_eq!(Register(0).name(), "zero");
    assert_eq!(Register(1).name(), "at");
    assert_eq!(Register(2).name(), "v0");
    assert_eq!(Register(4).name(), "a0");
    assert_eq!(Register(8).name(), "t0");
    assert_eq!(Register(15).name(), "t7");
    assert_eq!(Register(16).name(), "s0");
    assert_eq!(Register(24).name(), "t8");
    assert_eq!(Register(26).name(), "k0");
    assert_eq!(Register(28).name(), "gp");
    assert_eq!(Register(29).name(), "sp");
    assert_eq!(Register(30).name(), "fp");
    assert_eq!(Register(31).name(), "ra");
    assert_eq!(Register(32).name(), "err");
}

#[test]
fn every_name_is_found_again() {
    for index in 0..32 {
        let register = Register(index);
        assert_eq!(Register::from_name(register.name()), Ok(register));
        assert_eq!(Register::lookup(register.name()), Some(register));
    }
}

#[test]
fn numbers_name_registers() {
    assert_eq!(Register::from_name("0"), Ok(Register(ZERO)));
    assert_eq!(Register::from_name("9"), Ok(Register(9)));
    assert_eq!(Register::from_name("10"), Ok(Register(10)));
    assert_eq!(Register::from_name("29"), Ok(Register(SP)));
    assert_eq!(Register::from_name("31"), Ok(Register(RA)));
    assert_eq!(Register::from_name("32"), Err(UnknownRegister));
    assert_eq!(Register::from_name("07"), Err(UnknownRegister));
    assert_eq!(Register::from_name("+7"), Err(UnknownRegister));
    assert_eq!(Register::from_name("100"), Err(UnknownRegister));
}

#[test]
fn names_are_matched_in_any_case() {
    assert_eq!(Register::from_name("T0"), Ok(Register(T0)));
    assert_eq!(Register::from_name("Zero"), Ok(Register(ZERO)));
    assert_eq!(Register::from_name("SP"), Ok(Register(SP)));
    assert_eq!(Register::lookup("T0"), None);
}

#[test]
fn whitespace_around_a_name_is_dropped() {
    assert_eq!(Register::from_name("  a0 "), Ok(Register(A0)));
    assert_eq!(Register::from_name("\tv0\n"), Ok(Register(V0)));
    assert_eq!(Register::lookup(" a0"), None);
}

#[test]
fn unknown_names_are_refused() {
    assert_eq!(Register::from_name(""), Err(UnknownRegister));
    assert_eq!(Register::from_name("t10"), Err(UnknownRegister));
    assert_eq!(Register::from_name("err"), Err(UnknownRegister));
    assert_eq!(Register::try_from("x1"), Err(UnknownRegister));
    assert_eq!(Register::try_from("at"), Ok(Register(AT)));
}

#[test]
fn conversion_keeps_the_index() {
    assert_eq!(Register::from(5u32), Register(5));
    assert_eq!(Register::from(5u32).value(), 5);
    assert_eq!(Register::default(), Register(ZERO));
}

#[test]
fn register_file_starts_with_the_stack_pointer_set() {
    let file = RegisterFile::default();
    for index in 0..32 {
        let expected = if index == 29 { 0x7fff_effc } else { 0 };
        assert_eq!(file.read_register(Register(index)), expected);
    }
}

#[test]
fn written_registers_are_read_back() {
    let mut file = RegisterFile::default();
    file.write_register(Register(T0), 0x1234_5678);
    assert_eq!(file.read_register(Register(T0)), 0x1234_5678);
    assert_eq!(file.read_register(Register(9)), 0);
    *file.get_mut(Register(A0)) = 77;
    assert_eq!(file.read_register(Register(A0)), 77);
}

#[test]
fn register_zero_drops_writes() {
    let mut file = RegisterFile::default();
    file.write_register(Register(ZERO), 5);
    assert_eq!(file.read_register(Register(ZERO)), 0);
    *file.get_mut(Register(ZERO)) = 6;
    assert_eq!(file.read_register(Register(ZERO)), 0);
    assert_eq!(*file.get_mut(Register(ZERO)), 0);
}

#[test]
fn the_register_file_reads_five_bits_of_an_index() {
    let mut file = RegisterFile::default();
    file.write_register(Register(40), 3);
    assert_eq!(file.read_register(Register(8)), 3);
    assert_eq!(file.read_register(Register(32)), 0);
}
