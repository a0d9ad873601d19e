//! Sparse byte-addressable memory over the whole 32-bit address space.
//!
//! Storage is allocated lazily, one page of 1024 words at a time; a byte
//! that was never written reads as zero.

use crate::text::{hex_word, render_hex_word};
use std::collections::HashMap;
use vstd::prelude::*;
use vstd::string::StringExecFns;

verus! {

broadcast use vstd::std_specs::hash::group_hash_axioms;

/// Words in one page.
pub const PAGE_WORDS: u32 = 1024;

/// The address `distance` bytes above `address`, wrapping at the top of the
/// address space.
pub open spec fn address_after(address: u32, distance: int) -> u32 {
    ((address + distance) % 0x1_0000_0000) as u32
}

/// Byte `index` (0 the least significant) of a word.
pub open spec fn byte_of_word(word: u32, index: u32) -> u8 {
    ((word >> (8 * index)) & 0xff) as u8
}

/// The word whose bytes, least significant first, are `b0` to `b3`.
pub open spec fn word_of_bytes(b0: u8, b1: u8, b2: u8, b3: u8) -> u32 {
    (b0 as u32) | ((b1 as u32) << 8) | ((b2 as u32) << 16) | ((b3 as u32) << 24)
}

/// The little-endian word that starts at `address` in the byte map `bytes`.
pub open spec fn load_word(bytes: Map<u32, u8>, address: u32) -> u32 {
    word_of_bytes(
        bytes[address],
        bytes[address_after(address, 1)],
        bytes[address_after(address, 2)],
        bytes[address_after(address, 3)],
    )
}

/// The byte map after `value` is stored little-endian at `address`.
pub open spec fn store_word(bytes: Map<u32, u8>, address: u32, value: u32) -> Map<u32, u8> {
    bytes.insert(address, byte_of_word(value, 0)).insert(
        address_after(address, 1),
        byte_of_word(value, 1),
    ).insert(address_after(address, 2), byte_of_word(value, 2)).insert(
        address_after(address, 3),
        byte_of_word(value, 3),
    )
}

/// A memory in which nothing was written: every byte is zero.
pub open spec fn blank_memory() -> Map<u32, u8> {
    Map::total(|address: u32| 0u8)
}

/// Why a memory access was refused.
#[derive(Debug, PartialEq, Eq, Clone, Copy, Structural)]
pub enum MemoryError {
    /// A word access at an address that is no multiple of four.
    Unaligned { address: u32 },
}

impl MemoryError {
    /// The message that goes to the console.
    pub open spec fn words(self) -> Seq<char> {
        match self {
            MemoryError::Unaligned { address } => "Unaligned memory access: "@ + hex_word(address)
                + " expected to be aligned to 4 bytes"@,
        }
    }

    /// The message that goes to the console.
    pub fn message(&self) -> (text: String)
        ensures
            text@ == self.words(),
    {
        match self {
            MemoryError::Unaligned { address } => {
                let mut text = String::from_str("Unaligned memory access: ");
                text.append(render_hex_word(*address).as_str());
                text.append(" expected to be aligned to 4 bytes");
                text
            },
        }
    }
}

/// The simulated memory. Its view maps every address to the byte there.
pub struct Memory {
    data: HashMap<u32, [u32; 1024]>,
}

impl View for Memory {
    type V = Map<u32, u8>;

    closed spec fn view(&self) -> Map<u32, u8> {
        Map::total(|address: u32| byte_of_word(self.word_slot(address), address % 4))
    }
}

/// A word is made of its four bytes.
pub proof fn lemma_word_bytes(word: u32)
    ensures
        word_of_bytes(
            byte_of_word(word, 0),
            byte_of_word(word, 1),
            byte_of_word(word, 2),
            byte_of_word(word, 3),
        ) == word,
{
    assert(((((word >> 0u32) & 0xff) as u8) as u32) | (((((word >> 8u32) & 0xff) as u8) as u32)
        << 8) | (((((word >> 16u32) & 0xff) as u8) as u32) << 16) | (((((word >> 24u32) & 0xff) as u8) as u32)
        << 24) == word) by (bit_vector);
}

/// The bytes of a word made of four bytes are those four.
pub proof fn lemma_bytes_word(b0: u8, b1: u8, b2: u8, b3: u8)
    ensures
        byte_of_word(word_of_bytes(b0, b1, b2, b3), 0) == b0,
        byte_of_word(word_of_bytes(b0, b1, b2, b3), 1) == b1,
        byte_of_word(word_of_bytes(b0, b1, b2, b3), 2) == b2,
        byte_of_word(word_of_bytes(b0, b1, b2, b3), 3) == b3,
{
    let w = word_of_bytes(b0, b1, b2, b3);
    assert(w == (b0 as u32) | ((b1 as u32) << 8) | ((b2 as u32) << 16) | ((b3 as u32) << 24));
    assert((((w >> 0u32) & 0xff) as u8) == b0 && (((w >> 8u32) & 0xff) as u8) == b1 && (((w
        >> 16u32) & 0xff) as u8) == b2 && (((w >> 24u32) & 0xff) as u8) == b3) by (bit_vector)
        requires
            w == (b0 as u32) | ((b1 as u32) << 8) | ((b2 as u32) << 16) | ((b3 as u32) << 24),
    ;
}

/// Replacing byte `index` of `word` by `value` changes that byte and no other.
proof fn lemma_replace_byte(word: u32, index: u32, value: u8, other: u32)
    requires
        index < 4,
        other < 4,
    ensures
        byte_of_word((word & !(0xffu32 << (index * 8))) | ((value as u32) << (index * 8)), other)
            == (if other == index {
            value
        } else {
            byte_of_word(word, other)
        }),
{
    let shift = (index * 8) as u32;
    let at = (8 * other) as u32;
    assert((((((word & !(0xffu32 << shift)) | ((value as u32) << shift)) >> at) & 0xff) as u8)
        == (if at == shift {
        value
    } else {
        ((word >> at) & 0xff) as u8
    })) by (bit_vector)
        requires
            shift == 0 || shift == 8 || shift == 16 || shift == 24,
            at == 0 || at == 8 || at == 16 || at == 24,
    ;
}

/// `after` is `before` with `value` in the slot of `address`.
spec fn slot_written(before: Memory, after: Memory, address: u32, value: u32) -> bool {
    let number = (address / 4) / PAGE_WORDS;
    &&& forall|p: u32| #[trigger]
        after.data@.contains_key(p) <==> p == number || before.data@.contains_key(p)
    &&& forall|p: u32| p != number ==> #[trigger] after.data@[p] == before.data@[p]
    &&& after.data@[number]@ == before.page(number).update(
        ((address / 4) % PAGE_WORDS) as int,
        value,
    )
}

/// Overwriting the slot of an aligned address stores the new word there.
proof fn lemma_slot_written(before: Memory, after: Memory, address: u32, value: u32)
    requires
        address % 4 == 0,
        slot_written(before, after, address, value),
    ensures
        after@ == store_word(before@, address, value),
{
    assert(after.word_slot(address) == value);
    assert forall|a: u32| #[trigger] after@[a] == store_word(before@, address, value)[a] by {
        if a / 4 == address / 4 {
            assert(after.word_slot(a) == value);
        } else {
            assert(after.word_slot(a) == before.word_slot(a));
        }
    }
    assert(after@ =~= store_word(before@, address, value));
}

impl Memory {
    /// The stored word that holds the byte at `address`; zero where no page
    /// was allocated.
    closed spec fn word_slot(&self, address: u32) -> u32 {
        let page = (address / 4) / PAGE_WORDS;
        if self.data@.contains_key(page) {
            self.data@[page]@[((address / 4) % PAGE_WORDS) as int]
        } else {
            0
        }
    }

    /// The page numbered `number`, all zero where none was allocated.
    closed spec fn page(&self, number: u32) -> Seq<u32> {
        if self.data@.contains_key(number) {
            self.data@[number]@
        } else {
            Seq::new(1024, |i: int| 0u32)
        }
    }

    /// Every address has a byte.
    pub proof fn lemma_total(&self)
        ensures
            forall|address: u32| self@.contains_key(address),
    {
    }

    /// An empty memory.
    pub fn new() -> (m: Self)
        ensures
            m@ == blank_memory(),
    {
        let m = Memory { data: HashMap::new() };
        assert(m@ =~= blank_memory()) by {
            assert(byte_of_word(0, 0) == 0 && byte_of_word(0, 1) == 0 && byte_of_word(0, 2) == 0
                && byte_of_word(0, 3) == 0) by {
                assert(((0u32 >> 0u32) & 0xff) as u8 == 0 && ((0u32 >> 8u32) & 0xff) as u8 == 0
                    && ((0u32 >> 16u32) & 0xff) as u8 == 0 && ((0u32 >> 24u32) & 0xff) as u8
                    == 0) by (bit_vector);
            }
        }
        m
    }

    /// Stores one byte. Byte stores are accepted at every address.
    pub fn set_byte(&mut self, address: u32, val: u8) -> (r: Result<(), MemoryError>)
        ensures
            r is Ok,
            final(self)@ == old(self)@.insert(address, val),
    {
        let aligned_address = address / 4;
        let align_offset = address % 4;
        let page_num = aligned_address / PAGE_WORDS;
        let page_offset = aligned_address % PAGE_WORDS;
        let ghost before = *self;
        let page = self.data.entry(page_num).or_insert([0u32; 1024]);
        let content = page[page_offset as usize];
        let word_offset = align_offset * 8;
        let mask = !(0xffu32 << word_offset);
        let shifted = (val as u32) << word_offset;
        let updated = (content & mask) | shifted;
        page[page_offset as usize] = updated;
        proof {
            assert(content == before.word_slot(address));
            assert forall|a: u32| #[trigger] self@[a] == before@.insert(address, val)[a] by {
                if a / 4 == address / 4 {
                    assert(self.word_slot(a) == updated);
                    lemma_replace_byte(content, align_offset, val, a % 4);
                } else {
                    assert(self.word_slot(a) == before.word_slot(a));
                }
            }
            assert(self@ =~= before@.insert(address, val));
        }
        Ok(())
    }

    /// The byte at `address`.
    pub fn get_byte(&self, address: u32) -> (b: u8)
        ensures
            b == self@[address],
    {
        let aligned_address = address / 4;
        let page_num = aligned_address / PAGE_WORDS;
        let page_offset = aligned_address % PAGE_WORDS;
        let word = match self.data.get(&page_num) {
            Some(page) => page[page_offset as usize],
            None => 0,
        };
        ((word >> (8 * (address % 4))) & 0xff) as u8
    }

    /// The word at `address`, which must be a multiple of four. A word that
    /// was never written reads as zero.
    pub fn get(&self, address: u32) -> (r: Result<u32, MemoryError>)
        ensures
            r == (if address % 4 == 0 {
                Ok(load_word(self@, address))
            } else {
                Err(MemoryError::Unaligned { address })
            }),
    {
        let aligned_address = address / 4;
        let align_offset = address % 4;
        let page_num = aligned_address / PAGE_WORDS;
        let page_offset = aligned_address % PAGE_WORDS;
        if align_offset != 0 {
            return Err(MemoryError::Unaligned { address });
        }
        let word = match self.data.get(&page_num) {
            Some(page) => page[page_offset as usize],
            None => 0,
        };
        proof {
            assert(word == self.word_slot(address));
            self.lemma_aligned_word(address);
        }
        Ok(word)
    }

    /// At a multiple of four, the four bytes of a word are those of one slot.
    proof fn lemma_aligned_word(&self, address: u32)
        requires
            address % 4 == 0,
        ensures
            load_word(self@, address) == self.word_slot(address),
    {
        let w = self.word_slot(address);
        assert(self.word_slot(address_after(address, 1)) == w);
        assert(self.word_slot(address_after(address, 2)) == w);
        assert(self.word_slot(address_after(address, 3)) == w);
        lemma_word_bytes(w);
    }

    /// A mutable handle on the word at `address`, which must be a multiple
    /// of four. What is written through the handle is stored little-endian
    /// at `address`.
    pub fn get_mut(&mut self, address: u32) -> (r: Result<&mut u32, MemoryError>)
        ensures
            address % 4 != 0 ==> r == Err::<&mut u32, MemoryError>(
                MemoryError::Unaligned { address },
            ) && final(self)@ == old(self)@,
            address % 4 == 0 ==> r is Ok,
            r matches Ok(slot) ==> *slot == load_word(old(self)@, address) && final(self)@
                == store_word(old(self)@, address, *final(slot)),
    {
        let aligned_address = address / 4;
        let page_num = aligned_address / PAGE_WORDS;
        let page_offset = aligned_address % PAGE_WORDS;
        if address % 4 != 0 {
            return Err(MemoryError::Unaligned { address });
        }
        proof {
            self.lemma_aligned_word(address);
        }
        let ghost before = *self;
        proof {
            assert forall|after: Memory, value: u32|
                slot_written(before, after, address, value) implies #[trigger] after@
                    == #[trigger] store_word(before@, address, value) by {
                lemma_slot_written(before, after, address, value);
            }
        }
        let page = self.data.entry(page_num).or_insert([0u32; 1024]);
        let slot = &mut page[page_offset as usize];
        Ok(slot)
    }

    /// Stores a word little-endian at `address`, byte by byte; the address
    /// need not be aligned, and wraps at the top of the address space.
    pub fn set_word(&mut self, address: u32, val: u32)
        ensures
            final(self)@ == store_word(old(self)@, address, val),
    {
        let _ = self.set_byte(address, (val & 0xff) as u8);
        let _ = self.set_byte(address.wrapping_add(1), ((val >> 8) & 0xff) as u8);
        let _ = self.set_byte(address.wrapping_add(2), ((val >> 16) & 0xff) as u8);
        let _ = self.set_byte(address.wrapping_add(3), ((val >> 24) & 0xff) as u8);
        proof {
            assert((val & 0xff) as u8 == ((val >> 0u32) & 0xff) as u8) by (bit_vector);
        }
    }
}

/// One store into memory: a single byte, or a word laid out little-endian
/// from its address.
#[allow(inconsistent_fields)]
pub enum Store {
    Byte { address: u32, value: u8 },
    Word { address: u32, value: u32 },
}

impl Store {
    /// The byte map after this store.
    pub open spec fn apply(self, bytes: Map<u32, u8>) -> Map<u32, u8> {
        match self {
            Store::Byte { address, value } => bytes.insert(address, value),
            Store::Word { address, value } => store_word(bytes, address, value),
        }
    }

    /// The byte that this store leaves at `at`, if it reaches that address.
    pub open spec fn byte_written(self, at: u32) -> Option<u8> {
        match self {
            Store::Byte { address, value } => if at == address {
                Some(value)
            } else {
                None
            },
            Store::Word { address, value } => if at == address_after(address, 3) {
                Some(byte_of_word(value, 3))
            } else if at == address_after(address, 2) {
                Some(byte_of_word(value, 2))
            } else if at == address_after(address, 1) {
                Some(byte_of_word(value, 1))
            } else if at == address {
                Some(byte_of_word(value, 0))
            } else {
                None
            },
        }
    }
}

/// The byte map after a sequence of stores, first to last.
pub open spec fn after_stores(bytes: Map<u32, u8>, stores: Seq<Store>) -> Map<u32, u8>
    decreases stores.len(),
{
    if stores.len() == 0 {
        bytes
    } else {
        stores.last().apply(after_stores(bytes, stores.drop_last()))
    }
}

/// The byte that the last store reaching `at` left there, if any did.
pub open spec fn last_written(stores: Seq<Store>, at: u32) -> Option<u8>
    decreases stores.len(),
{
    if stores.len() == 0 {
        None
    } else {
        match stores.last().byte_written(at) {
            Some(b) => Some(b),
            None => last_written(stores.drop_last(), at),
        }
    }
}

/// What a byte read finds after a sequence of stores.
pub open spec fn byte_after_stores(bytes: Map<u32, u8>, stores: Seq<Store>, at: u32) -> u8 {
    match last_written(stores, at) {
        Some(b) => b,
        None => bytes[at],
    }
}

/// A word that was just stored is read back unchanged.
pub proof fn lemma_load_after_store(bytes: Map<u32, u8>, address: u32, value: u32)
    ensures
        load_word(store_word(bytes, address, value), address) == value,
{
    lemma_word_bytes(value);
}

/// A word store leaves the words at other aligned addresses as they were.
pub proof fn lemma_load_after_store_elsewhere(
    bytes: Map<u32, u8>,
    address: u32,
    value: u32,
    other: u32,
)
    requires
        address % 4 == 0,
        other % 4 == 0,
        other != address,
    ensures
        load_word(store_word(bytes, address, value), other) == load_word(bytes, other),
{
}

/// After any sequence of stores, each byte is the one that the last store
/// reaching it left there, or the byte from before where none did; a word read
/// at `address` combines the four bytes from `address` on, least significant
/// first.
pub proof fn lemma_reads_see_last_stores(bytes: Map<u32, u8>, stores: Seq<Store>, address: u32)
    requires
        forall|a: u32| bytes.contains_key(a),
    ensures
        forall|a: u32| #[trigger] after_stores(bytes, stores).contains_key(a),
        forall|a: u32| #[trigger]
            after_stores(bytes, stores)[a] == byte_after_stores(bytes, stores, a),
        load_word(after_stores(bytes, stores), address) == word_of_bytes(
            byte_after_stores(bytes, stores, address),
            byte_after_stores(bytes, stores, address_after(address, 1)),
            byte_after_stores(bytes, stores, address_after(address, 2)),
            byte_after_stores(bytes, stores, address_after(address, 3)),
        ),
    decreases stores.len(),
{
    if stores.len() > 0 {
        lemma_reads_see_last_stores(bytes, stores.drop_last(), address);
        let earlier = after_stores(bytes, stores.drop_last());
        assert forall|a: u32| #[trigger]
            after_stores(bytes, stores)[a] == byte_after_stores(bytes, stores, a) by {
            assert(earlier[a] == byte_after_stores(bytes, stores.drop_last(), a));
        }
    }
}

impl Default for Memory {
    fn default() -> (m: Self)
        ensures
            m@ == blank_memory(),
    {
        Memory::new()
    }
}

} // verus!
