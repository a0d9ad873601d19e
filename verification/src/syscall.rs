//! The system-call trap: what a `syscall` instruction asks of the
//! surrounding program, read from `$v0` and `$a0`.

use crate::memory::{address_after, Memory};
use crate::register::{Register, RegisterFile, A0, V0};
use crate::text::{
    char_from_u32, numeral, parse_i32, render, render_signed, signed_decimal, signed_numeral,
    string_from_utf8, string_of, trim, trimmed, within,
};
use vstd::prelude::*;
use vstd::string::StringExecFns;
use vstd::utf8::{decode_utf8, is_scalar, valid_utf8};

verus! {

/// What a system call asks for.
#[derive(Debug, Clone, PartialEq, Eq)]
pub enum Syscall {
    /// Text for the console.
    Print(String),
    /// An error message for the console.
    Error(String),
    /// The program is over.
    Quit,
    /// An integer is to be read; the machine waits for it.
    ReadInt,
}

/// What a system call asks for, with texts as sequences of characters.
pub enum SyscallView {
    Print(Seq<char>),
    Error(Seq<char>),
    Quit,
    ReadInt,
}

impl View for Syscall {
    type V = SyscallView;

    open spec fn view(&self) -> SyscallView {
        match self {
            Syscall::Print(text) => SyscallView::Print(text@),
            Syscall::Error(text) => SyscallView::Error(text@),
            Syscall::Quit => SyscallView::Quit,
            Syscall::ReadInt => SyscallView::ReadInt,
        }
    }
}

/// The view of a pending system call, if there is one.
pub open spec fn pending_view(pending: Option<Syscall>) -> Option<SyscallView> {
    match pending {
        Some(syscall) => Some(syscall@),
        None => None,
    }
}

/// Why a system call failed.
#[derive(Debug, Clone, PartialEq, Eq)]
pub enum SyscallError {
    /// `$v0` holds the number of no known service.
    Unrecognized { number: u32 },
    /// The bytes to print are not well-formed UTF-8.
    InvalidString,
    /// The text supplied for an integer is none that fits in 32 bits.
    InvalidInput { text: String },
}

/// Why a system call failed, with texts as sequences of characters.
pub enum SyscallErrorView {
    Unrecognized { number: u32 },
    InvalidString,
    InvalidInput { text: Seq<char> },
}

impl View for SyscallError {
    type V = SyscallErrorView;

    open spec fn view(&self) -> SyscallErrorView {
        match self {
            SyscallError::Unrecognized { number } => SyscallErrorView::Unrecognized {
                number: *number,
            },
            SyscallError::InvalidString => SyscallErrorView::InvalidString,
            SyscallError::InvalidInput { text } => SyscallErrorView::InvalidInput { text: text@ },
        }
    }
}

impl SyscallErrorView {
    /// The message that goes to the console.
    pub open spec fn message(self) -> Seq<char> {
        match self {
            SyscallErrorView::Unrecognized { number } => "Unrecognized syscall: "@ + numeral(
                number as nat,
                10,
            ),
            SyscallErrorView::InvalidString => "The string to print is not valid UTF-8"@,
            SyscallErrorView::InvalidInput { text } => "Attempting to parse '"@ + text + "'"@,
        }
    }
}

impl SyscallError {
    /// The message that goes to the console.
    pub fn message(&self) -> (text: String)
        ensures
            text@ == self@.message(),
    {
        match self {
            SyscallError::Unrecognized { number } => {
                let mut text = String::from_str("Unrecognized syscall: ");
                text.append(render(*number, 10).as_str());
                text
            },
            SyscallError::InvalidString => String::from_str(
                "The string to print is not valid UTF-8",
            ),
            SyscallError::InvalidInput { text: input } => {
                let mut text = String::from_str("Attempting to parse '");
                text.append(input.as_str());
                text.append("'");
                text
            },
        }
    }
}

/// The bytes from `at` up to the first zero byte, looking at no more than
/// `limit` addresses.
pub open spec fn bytes_until_zero(bytes: Map<u32, u8>, at: u32, limit: nat) -> Seq<u8>
    decreases limit,
{
    if limit == 0 || bytes[at] == 0 {
        Seq::empty()
    } else {
        seq![bytes[at]] + bytes_until_zero(bytes, address_after(at, 1), (limit - 1) as nat)
    }
}

/// The zero-terminated byte string at `at`. Addresses wrap at the top of the
/// address space; a memory without any zero byte holds a string of all its
/// bytes.
pub open spec fn string_at(bytes: Map<u32, u8>, at: u32) -> Seq<u8> {
    bytes_until_zero(bytes, at, 0x1_0000_0000)
}

// The service numbers that `$v0` selects.
pub const SERVICE_PRINT_INT: u32 = 1;

pub const SERVICE_PRINT_STRING: u32 = 4;

pub const SERVICE_READ_INT: u32 = 5;

pub const SERVICE_EXIT: u32 = 10;

pub const SERVICE_PRINT_CHAR: u32 = 11;

pub const SERVICE_PRINT_HEX: u32 = 34;

pub const SERVICE_PRINT_BIN: u32 = 35;

pub const SERVICE_PRINT_UINT: u32 = 36;

/// What the system call with service number `service` and argument `arg`
/// asks for, given the memory.
pub open spec fn service_request(service: u32, arg: u32, bytes: Map<u32, u8>) -> Result<
    SyscallView,
    SyscallErrorView,
> {
    if service == SERVICE_PRINT_INT {
        Ok(SyscallView::Print(signed_decimal(arg)))
    } else if service == SERVICE_PRINT_STRING {
        if valid_utf8(string_at(bytes, arg)) {
            Ok(SyscallView::Print(decode_utf8(string_at(bytes, arg))))
        } else {
            Err(SyscallErrorView::InvalidString)
        }
    } else if service == SERVICE_READ_INT {
        Ok(SyscallView::ReadInt)
    } else if service == SERVICE_EXIT {
        Ok(SyscallView::Quit)
    } else if service == SERVICE_PRINT_CHAR {
        Ok(
            SyscallView::Print(
                seq![if is_scalar(arg) {
                    arg as char
                } else {
                    '\u{fffd}'
                }],
            ),
        )
    } else if service == SERVICE_PRINT_HEX {
        Ok(SyscallView::Print(numeral(arg as nat, 16)))
    } else if service == SERVICE_PRINT_BIN {
        Ok(SyscallView::Print(numeral(arg as nat, 2)))
    } else if service == SERVICE_PRINT_UINT {
        Ok(SyscallView::Print(numeral(arg as nat, 10)))
    } else {
        Err(SyscallErrorView::Unrecognized { number: service })
    }
}

/// What the pending `syscall` instruction asks for: the service is picked by
/// `$v0`, its argument is `$a0`.
pub open spec fn requested(regs: Seq<u32>, bytes: Map<u32, u8>) -> Result<
    SyscallView,
    SyscallErrorView,
> {
    service_request(regs[V0 as int], regs[A0 as int], bytes)
}

/// What the trap hands to the surrounding program: the request, or the
/// failure as an error message.
pub open spec fn trapped(regs: Seq<u32>, bytes: Map<u32, u8>) -> SyscallView {
    match requested(regs, bytes) {
        Ok(syscall) => syscall,
        Err(e) => SyscallView::Error(e.message()),
    }
}

/// A request is the same as its view where both are matched by views.
pub open spec fn same_request(
    r: Result<Syscall, SyscallError>,
    expected: Result<SyscallView, SyscallErrorView>,
) -> bool {
    match (r, expected) {
        (Ok(syscall), Ok(view)) => syscall@ == view,
        (Err(e), Err(view)) => e@ == view,
        _ => false,
    }
}

/// Reads the zero-terminated byte string at `at`.
fn read_string(mem: &Memory, at: u32) -> (buffer: Vec<u8>)
    ensures
        buffer@ == string_at(mem@, at),
{
    let mut buffer: Vec<u8> = Vec::new();
    let mut ptr = at;
    let mut seen: u64 = 0;
    while seen < 0x1_0000_0000
        invariant
            seen <= 0x1_0000_0000,
            string_at(mem@, at) == buffer@ + bytes_until_zero(
                mem@,
                ptr,
                (0x1_0000_0000 - seen) as nat,
            ),
        decreases 0x1_0000_0000 - seen,
    {
        let b = mem.get_byte(ptr);
        if b == 0 {
            assert(buffer@ + Seq::<u8>::empty() =~= buffer@);
            return buffer;
        }
        proof {
            let rest = bytes_until_zero(
                mem@,
                address_after(ptr, 1),
                (0x1_0000_0000 - seen - 1) as nat,
            );
            assert(buffer@.push(b) + rest =~= buffer@ + (seq![b] + rest));
        }
        buffer.push(b);
        ptr = ptr.wrapping_add(1);
        seen += 1;
    }
    assert(buffer@ + Seq::<u8>::empty() =~= buffer@);
    buffer
}

/// Works out what the `syscall` instruction that reached writeback asks for.
/// Registers and memory are only read.
pub fn handle_syscall(reg_file: &mut RegisterFile, mem: &mut Memory) -> (r: Result<
    Syscall,
    SyscallError,
>)
    ensures
        same_request(r, requested(old(reg_file)@, old(mem)@)),
        *final(reg_file) == *old(reg_file),
        *final(mem) == *old(mem),
{
    proof {
        reg_file.lemma_shape();
    }
    let v0 = reg_file.read_register(Register(V0));
    let arg = reg_file.read_register(Register(A0));
    if v0 == SERVICE_PRINT_INT {
        Ok(Syscall::Print(render_signed(arg)))
    } else if v0 == SERVICE_PRINT_STRING {
        let buffer = read_string(mem, arg);
        match string_from_utf8(buffer) {
            Some(text) => Ok(Syscall::Print(text)),
            None => Err(SyscallError::InvalidString),
        }
    } else if v0 == SERVICE_READ_INT {
        Ok(Syscall::ReadInt)
    } else if v0 == SERVICE_EXIT {
        Ok(Syscall::Quit)
    } else if v0 == SERVICE_PRINT_CHAR {
        let c = match char_from_u32(arg) {
            Some(c) => c,
            None => '\u{fffd}',
        };
        let mut one: Vec<char> = Vec::new();
        one.push(c);
        let text = string_of(one.as_slice());
        assert(text@ =~= seq![c]);
        Ok(Syscall::Print(text))
    } else if v0 == SERVICE_PRINT_HEX {
        Ok(Syscall::Print(render(arg, 16)))
    } else if v0 == SERVICE_PRINT_BIN {
        Ok(Syscall::Print(render(arg, 2)))
    } else if v0 == SERVICE_PRINT_UINT {
        Ok(Syscall::Print(render(arg, 10)))
    } else {
        Err(SyscallError::Unrecognized { number: v0 })
    }
}

/// The trap: what [`handle_syscall`] works out, with a failure turned into
/// an error message for the console.
pub fn trap(reg_file: &mut RegisterFile, mem: &mut Memory) -> (syscall: Syscall)
    ensures
        syscall@ == trapped(old(reg_file)@, old(mem)@),
        *final(reg_file) == *old(reg_file),
        *final(mem) == *old(mem),
{
    match handle_syscall(reg_file, mem) {
        Ok(syscall) => syscall,
        Err(e) => Syscall::Error(e.message()),
    }
}

/// The word that holds the number `v` in two's complement.
pub open spec fn word_of_number(v: int) -> u32 {
    (v % 0x1_0000_0000) as u32
}

/// The number that the text supplied for `read_int` denotes: a decimal
/// numeral that fits in 32 bits with its sign, surrounded by any
/// whitespace.
pub open spec fn input_number(value: Seq<char>) -> Option<int> {
    within(signed_numeral(trimmed(value), 10), i32::MIN as int, i32::MAX as int)
}

/// Completes a system call that waited for input. For `ReadInt` the number
/// in `value` goes to `$v0`; text that is no such number is refused and
/// leaves the registers as they were. Other calls take no input.
pub fn resolve_syscall(reg_file: &mut RegisterFile, syscall: &Syscall, value: &str) -> (r: Result<
    (),
    SyscallError,
>)
    ensures
        !(syscall@ is ReadInt) ==> r is Ok && final(reg_file)@ == old(reg_file)@,
        syscall@ is ReadInt ==> match input_number(value@) {
            Some(v) => r is Ok && final(reg_file)@ == old(reg_file)@.update(
                V0 as int,
                word_of_number(v),
            ),
            None => r matches Err(e) && e@ == (SyscallErrorView::InvalidInput {
                text: trimmed(value@),
            }) && final(reg_file)@ == old(reg_file)@,
        },
{
    match syscall {
        Syscall::ReadInt => {
            let buffer = trim(value);
            match parse_i32(buffer) {
                Some(v) => {
                    let word: u32 = if v >= 0 {
                        v as u32
                    } else {
                        (v as i64 + 0x1_0000_0000) as u32
                    };
                    reg_file.write_register(Register(V0), word);
                    Ok(())
                },
                None => Err(SyscallError::InvalidInput { text: buffer.to_owned() }),
            }
        },
        _ => Ok(()),
    }
}

} // verus!
