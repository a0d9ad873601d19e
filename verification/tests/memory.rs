use simulator::memory::{Memory, MemoryError};

#[test]
fn fresh_memory_reads_zero() {
    let memory = Memory::new();
    assert_eq!(memory.get(0), Ok(0));
    assert_eq!(memory.get(0x1001_0000), Ok(0));
    assert_eq!(memory.get(0xffff_fffc), Ok(0));
    assert_eq!(memory.get_byte(0x7fff_effc), 0);
}

#[test]
fn unaligned_word_read_is_refused() {
    let memory = Memory::new();
    assert_eq!(memory.get(1), Err(MemoryError::Unaligned { address: 1 }));
    assert_eq!(memory.get(0x0040_0002), Err(MemoryError::Unaligned { address: 0x0040_0002 }));
    assert_eq!(memory.get(7), Err(MemoryError::Unaligned { address: 7 }));
}

#[test]
fn bytes_combine_little_endian() {
    let mut memory = Memory::new();
    assert_eq!(memory.set_byte(0x100, 0x11), Ok(()));
    assert_eq!(memory.set_byte(0x101, 0x22), Ok(()));
    assert_eq!(memory.set_byte(0x102, 0x33), Ok(()));
    assert_eq!(memory.set_byte(0x103, 0x44), Ok(()));
    assert_eq!(memory.get(0x100), Ok(0x4433_2211));
    assert_eq!(memory.get_byte(0x102), 0x33);
}

#[test]
fn byte_write_changes_one_byte_only() {
    let mut memory = Memory::new();
    memory.set_word(0x2000, 0xdead_beef);
    memory.set_byte(0x2001, 0x00).unwrap();
    assert_eq!(memory.get(0x2000), Ok(0xdead_00ef));
    assert_eq!(memory.get(0x2004), Ok(0));
    assert_eq!(memory.get(0x1ffc), Ok(0));
}

#[test]
fn last_write_wins() {
    let mut memory = Memory::new();
    memory.set_word(0x40, 1);
    memory.set_word(0x44, 2);
    memory.set_word(0x40, 3);
    memory.set_byte(0x47, 0x80).unwrap();
    assert_eq!(memory.get(0x40), Ok(3));
    assert_eq!(memory.get(0x44), Ok(0x8000_0002));
}

#[test]
fn unaligned_word_write_spans_two_words() {
    let mut memory = Memory::new();
    memory.set_word(0x102, 0xaabb_ccdd);
    assert_eq!(memory.get(0x100), Ok(0xccdd_0000));
    assert_eq!(memory.get(0x104), Ok(0x0000_aabb));
}

#[test]
fn word_write_wraps_at_the_top_of_the_address_space() {
    let mut memory = Memory::new();
    memory.set_word(0xffff_fffe, 0x0403_0201);
    assert_eq!(memory.get_byte(0xffff_fffe), 0x01);
    assert_eq!(memory.get_byte(0xffff_ffff), 0x02);
    assert_eq!(memory.get_byte(0), 0x03);
    assert_eq!(memory.get_byte(1), 0x04);
}

#[test]
fn get_mut_hands_out_the_word() {
    let mut memory = Memory::new();
    memory.set_word(0x3000, 7);
    {
        let slot = memory.get_mut(0x3000).unwrap();
        assert_eq!(*slot, 7);
        *slot = 0x0102_0304;
    }
    assert_eq!(memory.get(0x3000), Ok(0x0102_0304));
    assert_eq!(memory.get_byte(0x3000), 0x04);
    assert_eq!(memory.get_byte(0x3003), 0x01);
    *memory.get_mut(0x5000_0000).unwrap() = 9;
    assert_eq!(memory.get(0x5000_0000), Ok(9));
}

#[test]
fn get_mut_refuses_unaligned_addresses() {
    let mut memory = Memory::new();
    assert_eq!(memory.get_mut(0x3001).err(), Some(MemoryError::Unaligned { address: 0x3001 }));
    assert_eq!(memory.get(0x3000), Ok(0));
}

#[test]
fn pages_are_independent() {
    let mut memory = Memory::new();
    memory.set_word(0x0000_0ffc, 1);
    memory.set_word(0x0000_1000, 2);
    memory.set_word(0x0040_0000, 3);
    assert_eq!(memory.get(0x0000_0ffc), Ok(1));
    assert_eq!(memory.get(0x0000_1000), Ok(2));
    assert_eq!(memory.get(0x0040_0000), Ok(3));
    assert_eq!(memory.get(0x0040_1000), Ok(0));
}

#[test]
fn unaligned_message_names_the_address() {
    let message = MemoryError::Unaligned { address: 0x40_0002 }.message();
    assert_eq!(message, "Unaligned memory access: 00400002 expected to be aligned to 4 bytes");
    let message = MemoryError::Unaligned { address: 0xdead_beef }.message();
    assert_eq!(message, "Unaligned memory access: DEADBEEF expected to be aligned to 4 bytes");
}
