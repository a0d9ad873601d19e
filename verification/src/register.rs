//! Architectural registers and the register file.

use crate::parser::model::STACK_BASE;
use crate::text::{lowercased, same_text, to_lowercase, trim, trimmed};
use vstd::prelude::*;
use vstd::std_specs::convert::{FromSpecImpl, TryFromSpecImpl};
use vstd::string::StrSliceExecFns;

verus! {

/// One of the 32 architectural registers, named by its index.
///
/// Any `u32` can be wrapped; only indices below 32 name a register
/// (see [`Register::valid`]).
#[derive(Debug, PartialEq, Eq, Clone, Copy, Structural)]
pub struct Register(pub u32);

// Indices of the registers under their conventional names: `Register(SP)`
// is the stack pointer.

pub const ZERO: u32 = 0;
pub const AT: u32 = 1;
pub const V0: u32 = 2;
pub const V1: u32 = 3;
pub const A0: u32 = 4;
pub const A1: u32 = 5;
pub const A2: u32 = 6;
pub const A3: u32 = 7;
pub const T0: u32 = 8;
pub const T1: u32 = 9;
pub const T2: u32 = 10;
pub const T3: u32 = 11;
pub const T4: u32 = 12;
pub const T5: u32 = 13;
pub const T6: u32 = 14;
pub const T7: u32 = 15;
pub const S0: u32 = 16;
pub const S1: u32 = 17;
pub const S2: u32 = 18;
pub const S3: u32 = 19;
pub const S4: u32 = 20;
pub const S5: u32 = 21;
pub const S6: u32 = 22;
pub const S7: u32 = 23;
pub const T8: u32 = 24;
pub const T9: u32 = 25;
pub const K0: u32 = 26;
pub const K1: u32 = 27;
pub const GP: u32 = 28;
pub const SP: u32 = 29;
pub const FP: u32 = 30;
pub const RA: u32 = 31;

/// The conventional name of the register with index `index`, without the
/// `$`; `"err"` where no register has that index.
pub open spec fn conventional_name(index: u32) -> Seq<char> {
    if index == 0 {
        "zero"@
    } else if index == 1 {
        "at"@
    } else if index == 2 {
        "v0"@
    } else if index == 3 {
        "v1"@
    } else if index == 4 {
        "a0"@
    } else if index == 5 {
        "a1"@
    } else if index == 6 {
        "a2"@
    } else if index == 7 {
        "a3"@
    } else if index == 8 {
        "t0"@
    } else if index == 9 {
        "t1"@
    } else if index == 10 {
        "t2"@
    } else if index == 11 {
        "t3"@
    } else if index == 12 {
        "t4"@
    } else if index == 13 {
        "t5"@
    } else if index == 14 {
        "t6"@
    } else if index == 15 {
        "t7"@
    } else if index == 16 {
        "s0"@
    } else if index == 17 {
        "s1"@
    } else if index == 18 {
        "s2"@
    } else if index == 19 {
        "s3"@
    } else if index == 20 {
        "s4"@
    } else if index == 21 {
        "s5"@
    } else if index == 22 {
        "s6"@
    } else if index == 23 {
        "s7"@
    } else if index == 24 {
        "t8"@
    } else if index == 25 {
        "t9"@
    } else if index == 26 {
        "k0"@
    } else if index == 27 {
        "k1"@
    } else if index == 28 {
        "gp"@
    } else if index == 29 {
        "sp"@
    } else if index == 30 {
        "fp"@
    } else if index == 31 {
        "ra"@
    } else {
        "err"@
    }
}

/// The index that a decimal numeral between 0 and 31, written without sign
/// or leading zero, denotes.
pub open spec fn numbered_register(name: Seq<char>) -> Option<u32> {
    if name.len() == 1 && '0' <= name[0] <= '9' {
        Some((name[0] as u32 - '0' as u32) as u32)
    } else if name.len() == 2 && '1' <= name[0] <= '3' && '0' <= name[1] <= '9' && 10 * (
    name[0] as u32 - '0' as u32) + (name[1] as u32 - '0' as u32) < 32 {
        Some((10 * (name[0] as u32 - '0' as u32) + (name[1] as u32 - '0' as u32)) as u32)
    } else {
        None
    }
}

/// The index of the register that `name` denotes: a conventional name in
/// lower case, or a numeral from 0 to 31.
pub open spec fn named_register(name: Seq<char>) -> Option<u32> {
    if exists|i: u32| i < 32 && #[trigger] conventional_name(i) == name {
        Some(choose|i: u32| i < 32 && #[trigger] conventional_name(i) == name)
    } else {
        numbered_register(name)
    }
}

/// The error of a register lookup: the text names no register.
#[derive(Debug, PartialEq, Eq, Clone, Copy, Structural)]
pub struct UnknownRegister;

impl Register {
    /// Whether this value names one of the 32 registers.
    pub open spec fn valid(self) -> bool {
        self.0 < 32
    }

    /// The slot of the register file that this value selects: its index,
    /// of which the file reads the low five bits.
    pub open spec fn slot(self) -> int {
        (self.0 % 32) as int
    }

    /// The conventional name, without the `$`.
    pub fn name(&self) -> (n: &'static str)
        ensures
            n@ == conventional_name(self.0),
    {
        match self.0 {
            0 => "zero",
            1 => "at",
            2 => "v0",
            3 => "v1",
            4 => "a0",
            5 => "a1",
            6 => "a2",
            7 => "a3",
            8 => "t0",
            9 => "t1",
            10 => "t2",
            11 => "t3",
            12 => "t4",
            13 => "t5",
            14 => "t6",
            15 => "t7",
            16 => "s0",
            17 => "s1",
            18 => "s2",
            19 => "s3",
            20 => "s4",
            21 => "s5",
            22 => "s6",
            23 => "s7",
            24 => "t8",
            25 => "t9",
            26 => "k0",
            27 => "k1",
            28 => "gp",
            29 => "sp",
            30 => "fp",
            31 => "ra",
            _ => "err",
        }
    }

    /// Looks a register up by its name, which is matched as it stands.
    pub fn lookup(name: &str) -> (r: Option<Register>)
        ensures
            r == match named_register(name@) {
                Some(i) => Some(Register(i)),
                None => None,
            },
            r matches Some(reg) ==> reg.valid(),
    {
        let mut i: u32 = 0;
        while i < 32
            invariant
                i <= 32,
                forall|j: u32| j < i ==> #[trigger] conventional_name(j) != name@,
            decreases 32 - i,
        {
            if same_text(Register(i).name(), name) {
                proof {
                    lemma_names_differ();
                }
                return Some(Register(i));
            }
            i += 1;
        }
        let n = name.unicode_len();
        if n == 1 {
            let c = name.get_char(0);
            if '0' <= c && c <= '9' {
                return Some(Register(c as u32 - '0' as u32));
            }
        } else if n == 2 {
            let c = name.get_char(0);
            let d = name.get_char(1);
            if '1' <= c && c <= '3' && '0' <= d && d <= '9' {
                let index: u32 = 10 * (c as u32 - '0' as u32) + (d as u32 - '0' as u32);
                if index < 32 {
                    return Some(Register(index));
                }
            }
        }
        None
    }

    /// The register's index.
    pub fn value(&self) -> (v: u32)
        ensures
            v == self.0,
    {
        self.0
    }
}

/// No two registers share a conventional name.
pub proof fn lemma_names_differ()
    ensures
        forall|i: u32, j: u32|
            i < 32 && j < 32 && #[trigger] conventional_name(i) == #[trigger] conventional_name(j)
                ==> i == j,
{
    reveal_strlit("zero");
    reveal_strlit("at");
    reveal_strlit("v0");
    reveal_strlit("v1");
    reveal_strlit("a0");
    reveal_strlit("a1");
    reveal_strlit("a2");
    reveal_strlit("a3");
    reveal_strlit("t0");
    reveal_strlit("t1");
    reveal_strlit("t2");
    reveal_strlit("t3");
    reveal_strlit("t4");
    reveal_strlit("t5");
    reveal_strlit("t6");
    reveal_strlit("t7");
    reveal_strlit("s0");
    reveal_strlit("s1");
    reveal_strlit("s2");
    reveal_strlit("s3");
    reveal_strlit("s4");
    reveal_strlit("s5");
    reveal_strlit("s6");
    reveal_strlit("s7");
    reveal_strlit("t8");
    reveal_strlit("t9");
    reveal_strlit("k0");
    reveal_strlit("k1");
    reveal_strlit("gp");
    reveal_strlit("sp");
    reveal_strlit("fp");
    reveal_strlit("ra");
    assert forall|i: u32, j: u32|
        i < 32 && j < 32 && #[trigger] conventional_name(i) == #[trigger] conventional_name(j)
            implies i == j by {
        let a = conventional_name(i);
        let b = conventional_name(j);
        assert(a.len() == b.len());
        assert(a[0] == b[0]);
        assert(a[1] == b[1]);
    }
}

impl From<u32> for Register {
    fn from(r: u32) -> (reg: Self) {
        Register(r)
    }
}

impl FromSpecImpl<u32> for Register {
    open spec fn obeys_from_spec() -> bool {
        true
    }

    open spec fn from_spec(r: u32) -> Self {
        Register(r)
    }
}

/// The register that a name denotes once it is put in lower case and its
/// surrounding whitespace is dropped.
pub open spec fn register_from_text(text: Seq<char>) -> Result<Register, UnknownRegister> {
    match named_register(trimmed(lowercased(text))) {
        Some(i) => Ok(Register(i)),
        None => Err(UnknownRegister),
    }
}

impl Register {
    /// The register that `text` names, whatever its case and the whitespace
    /// around it.
    pub fn from_name(text: &str) -> (res: Result<Register, UnknownRegister>)
        ensures
            res == register_from_text(text@),
            res matches Ok(reg) ==> reg.valid(),
    {
        let lowered = to_lowercase(text);
        match Register::lookup(trim(lowered.as_str())) {
            Some(reg) => Ok(reg),
            None => Err(UnknownRegister),
        }
    }
}

impl<'a> TryFrom<&'a str> for Register {
    type Error = UnknownRegister;

    fn try_from(r: &'a str) -> (res: Result<Self, UnknownRegister>) {
        Register::from_name(r)
    }
}

impl<'a> TryFromSpecImpl<&'a str> for Register {
    open spec fn obeys_try_from_spec() -> bool {
        true
    }

    open spec fn try_from_spec(r: &'a str) -> Result<Self, UnknownRegister> {
        register_from_text(r@)
    }
}

impl Default for Register {
    fn default() -> (r: Self)
        ensures
            r == Register(ZERO),
    {
        Register(0)
    }
}

/// The 32 word-wide registers.
///
/// Register 0 always reads as zero, whatever is stored into it.
pub struct RegisterFile {
    registers: [u32; 32],
}

/// The register contents right after construction: all zero but for the
/// stack pointer, which holds the top of the stack.
pub open spec fn initial_registers() -> Seq<u32> {
    Seq::new(32, |i: int| if i == 29 { STACK_BASE } else { 0u32 })
}

impl View for RegisterFile {
    type V = Seq<u32>;

    /// The values that reads observe, by register index.
    closed spec fn view(&self) -> Seq<u32> {
        Seq::new(32, |i: int| if i == 0 { 0u32 } else { self.registers[i] })
    }
}

impl Default for RegisterFile {
    fn default() -> (r: Self)
        ensures
            r@ == initial_registers(),
    {
        let mut registers = [0u32; 32];
        registers[29] = STACK_BASE;
        let r = RegisterFile { registers };
        assert(r@ =~= initial_registers());
        r
    }
}

impl RegisterFile {
    /// The view always has 32 entries, and entry 0 is zero.
    pub proof fn lemma_shape(&self)
        ensures
            self@.len() == 32,
            self@[0] == 0,
    {
    }

    /// Stores `data` into `reg`; a store into register 0 is dropped.
    pub fn write_register(&mut self, reg: Register, data: u32)
        ensures
            final(self)@ == (if reg.slot() == 0 {
                old(self)@
            } else {
                old(self)@.update(reg.slot(), data)
            }),
    {
        let slot = (reg.0 % 32) as usize;
        if slot != 0 {
            self.registers[slot] = data;
        }
        assert(self@ =~= (if reg.slot() == 0 {
            old(self)@
        } else {
            old(self)@.update(reg.slot(), data)
        }));
    }

    /// The value of `reg`; register 0 reads as zero.
    pub fn read_register(&self, reg: Register) -> (v: u32)
        ensures
            v == self@[reg.slot()],
    {
        let slot = (reg.0 % 32) as usize;
        if slot == 0 {
            0
        } else {
            self.registers[slot]
        }
    }

    /// A mutable handle on the slot of `reg`. What is written through a
    /// handle on register 0 is never read back.
    pub fn get_mut(&mut self, reg: Register) -> (slot: &mut u32)
        ensures
            *slot == old(self)@[reg.slot()],
            final(self)@ == (if reg.slot() == 0 {
                old(self)@
            } else {
                old(self)@.update(reg.slot(), *final(slot))
            }),
    {
        self.registers[0] = 0;
        &mut self.registers[(reg.0 % 32) as usize]
    }
}

} // verus!
