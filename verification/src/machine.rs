//! The machine: program counter, registers, memory, labels, latches and the
//! pending system call, and the assembler that fills the memory.

use crate::memory::{address_after, blank_memory, load_word, store_word, Memory, MemoryError};
use crate::parser::model::{
    line_of, Instruction, InstructionView, LabelTable, LabelTableView, Line, LineView, Segment,
    Segments, DATA_BASE, STACK_BASE, TEXT_BASE,
};
use crate::parser::scan::ParseError;
use crate::parser::{
    advanced, compute_labels, labels_of, parse_string, program, views_of, views_of_units,
};
use crate::pipeline::{cycled, pipe_cycle, CycleError, Cycled, PipelineState};
use crate::register::{initial_registers, Register, RegisterFile, SP, V0};
use crate::syscall::{
    input_number, pending_view, resolve_syscall, word_of_number, Syscall, SyscallError,
    SyscallErrorView, SyscallView,
};
use crate::text::trimmed;
use std::ops::ControlFlow;
use vstd::prelude::*;

verus! {

/// The word behind the last instruction of a program. It names no
/// operation, so that a program that runs into it stops with an error.
pub const GUARD_WORD: u32 = 0xbaadf00d;

/// A simulated computer.
pub struct Machine {
    pc: u32,
    regs: RegisterFile,
    state: PipelineState,
    mem: Memory,
    syms: LabelTable,
    pending_syscall: Option<Syscall>,
}

/// The memory after `bytes` are written from `at` on, one address after the
/// other.
pub open spec fn written(mem: Map<u32, u8>, at: u32, bytes: Seq<u8>) -> Map<u32, u8>
    decreases bytes.len(),
{
    if bytes.len() == 0 {
        mem
    } else {
        written(mem, at, bytes.drop_last()).insert(
            address_after(at, bytes.len() - 1),
            bytes.last(),
        )
    }
}

/// What the second pass over a program has emitted after some of its lines.
pub struct Emission {
    pub mem: Map<u32, u8>,
    /// The write position in the text segment.
    pub text: u32,
    /// The write position in the data segment.
    pub data: u32,
    /// The segment that lines go into.
    pub current: Segment,
}

impl Emission {
    /// The write position in the current segment.
    pub open spec fn cursor(self) -> u32 {
        match self.current {
            Segment::Text => self.text,
            Segment::Data => self.data,
        }
    }

    /// Nothing emitted: both segments at their base, the text segment
    /// current.
    pub open spec fn start() -> Emission {
        Emission { mem: blank_memory(), text: TEXT_BASE, data: DATA_BASE, current: Segment::Text }
    }

    /// The emission after `bytes` went to the write position.
    pub open spec fn with_bytes(self, bytes: Seq<u8>) -> Emission {
        let to = advanced(self.cursor(), bytes.len());
        match self.current {
            Segment::Text => Emission {
                mem: written(self.mem, self.cursor(), bytes),
                text: to,
                ..self
            },
            Segment::Data => Emission {
                mem: written(self.mem, self.cursor(), bytes),
                data: to,
                ..self
            },
        }
    }

    /// The emission after the units `units`, each encoded at the write
    /// position that it finds.
    pub open spec fn with_units(
        self,
        units: Seq<InstructionView>,
        labels: Map<Seq<char>, u32>,
    ) -> Emission
        decreases units.len(),
    {
        if units.len() == 0 {
            self
        } else {
            let before = self.with_units(units.drop_last(), labels);
            before.with_bytes(units.last().encoding(labels, before.cursor()))
        }
    }

    /// The emission after the line `line`.
    pub open spec fn after(self, line: LineView, labels: Map<Seq<char>, u32>) -> Emission {
        match line {
            LineView::Instruction(units) => self.with_units(units, labels),
            LineView::Segment(seg) => Emission { current: seg, ..self },
            _ => self,
        }
    }
}

/// The emission after the first `n` lines of `lines`.
pub open spec fn emission_of(lines: Seq<LineView>, labels: Map<Seq<char>, u32>, n: nat) -> Emission
    decreases n,
{
    if n == 0 {
        Emission::start()
    } else {
        emission_of(lines, labels, (n - 1) as nat).after(lines[n - 1], labels)
    }
}

/// The memory image of a program: what its lines emit, with label
/// references resolved against the program's own label table, and the guard
/// word behind the last byte of the text segment.
pub open spec fn image_of(lines: Seq<LineView>) -> Map<u32, u8> {
    let emitted = emission_of(lines, labels_of(lines).labels, lines.len());
    store_word(emitted.mem, emitted.text, GUARD_WORD)
}

/// What assembling the program `text` gives: its memory image and its label
/// table, or the error of its first line that cannot be read.
pub open spec fn assembled(text: Seq<char>) -> Result<(Map<u32, u8>, LabelTableView), ParseError> {
    match program(text) {
        Ok(lines) => Ok((image_of(lines), labels_of(lines))),
        Err(e) => Err(e),
    }
}

/// Whether `r` is what `expected` describes.
pub open spec fn same_assembly(
    r: Result<(Memory, LabelTable), ParseError>,
    expected: Result<(Map<u32, u8>, LabelTableView), ParseError>,
) -> bool {
    match (r, expected) {
        (Ok(got), Ok(want)) => got.0@ == want.0 && got.1@ == want.1,
        (Err(e), Err(want)) => e == want,
        _ => false,
    }
}

/// Assembling is deterministic: two runs on equal texts give equal memory
/// images and equal label tables, or the same error.
pub proof fn lemma_assembler_deterministic(
    first: Seq<char>,
    second: Seq<char>,
    r1: Result<(Memory, LabelTable), ParseError>,
    r2: Result<(Memory, LabelTable), ParseError>,
)
    requires
        first == second,
        same_assembly(r1, assembled(first)),
        same_assembly(r2, assembled(second)),
    ensures
        match (r1, r2) {
            (Ok(a), Ok(b)) => a.0@ == b.0@ && a.1@ == b.1@,
            (Err(a), Err(b)) => a == b,
            _ => false,
        },
{
}

/// The raw bytes of a unit; none for a machine instruction.
pub open spec fn literal_data(unit: InstructionView) -> Seq<u8> {
    match unit {
        InstructionView::Literal { data } => data,
        _ => Seq::empty(),
    }
}

/// The raw bytes of the units of a line, in order.
pub open spec fn units_data(units: Seq<InstructionView>) -> Seq<u8>
    decreases units.len(),
{
    if units.len() == 0 {
        Seq::empty()
    } else {
        units_data(units.drop_last()) + literal_data(units.last())
    }
}

/// Whether a line emits raw bytes or nothing: the line of a data
/// directive, a label, a comment or a blank line.
pub open spec fn literal_line(line: LineView) -> bool {
    match line {
        LineView::Instruction(units) => forall|j: int|
            0 <= j < units.len() ==> #[trigger] units[j] is Literal,
        LineView::Segment(_) => false,
        _ => true,
    }
}

/// The most bytes that the text segment takes with the guard word behind
/// them.
pub const TEXT_ROOM: u32 = 0xffbf_fffc;

/// The raw bytes of the first `n` lines of a program, in order.
pub open spec fn lines_data(lines: Seq<LineView>, n: nat) -> Seq<u8>
    decreases n,
{
    if n == 0 {
        Seq::empty()
    } else {
        match lines[n - 1] {
            LineView::Instruction(units) => lines_data(lines, (n - 1) as nat) + units_data(units),
            _ => lines_data(lines, (n - 1) as nat),
        }
    }
}

/// Bytes that are written in a row land in a row, and nothing else changes.
pub proof fn lemma_written(mem: Map<u32, u8>, at: u32, bytes: Seq<u8>)
    requires
        bytes.len() <= 0x1_0000_0000,
    ensures
        forall|k: int|
            0 <= k < bytes.len() ==> #[trigger] written(mem, at, bytes)[address_after(at, k)]
                == bytes[k],
        forall|x: u32|
            (forall|k: int| 0 <= k < bytes.len() ==> address_after(at, k) != x) ==> #[trigger] written(
                mem,
                at,
                bytes,
            )[x] == mem[x],
    decreases bytes.len(),
{
    if bytes.len() > 0 {
        let front = bytes.drop_last();
        lemma_written(mem, at, front);
        let last = address_after(at, bytes.len() - 1);
        assert forall|k: int| 0 <= k < bytes.len() implies #[trigger] written(
            mem,
            at,
            bytes,
        )[address_after(at, k)] == bytes[k] by {
            if k < bytes.len() - 1 {
                assert(address_after(at, k) != last);
                assert(written(mem, at, front)[address_after(at, k)] == front[k]);
            }
        }
        assert forall|x: u32|
            (forall|k: int| 0 <= k < bytes.len() ==> address_after(at, k) != x) implies #[trigger] written(
            mem,
            at,
            bytes,
        )[x] == mem[x] by {
            assert(address_after(at, bytes.len() - 1) != x);
            assert forall|k: int| 0 <= k < front.len() implies address_after(at, k) != x by {
                assert(0 <= k < bytes.len());
            }
            assert(written(mem, at, front)[x] == mem[x]);
            assert(written(mem, at, bytes) == written(mem, at, front).insert(last, bytes.last()));
        }
    }
}

/// What the text segment holds after raw bytes went into it.
spec fn holds_from_base(e: Emission, data: Seq<u8>) -> bool {
    &&& e.current == Segment::Text
    &&& e.text == TEXT_BASE + data.len()
    &&& forall|k: int| 0 <= k < data.len() ==> #[trigger] e.mem[(TEXT_BASE + k) as u32] == data[k]
}

/// Raw units that go behind raw bytes leave those in place and follow them.
proof fn lemma_units_in_order(
    e: Emission,
    data: Seq<u8>,
    units: Seq<InstructionView>,
    labels: Map<Seq<char>, u32>,
)
    requires
        holds_from_base(e, data),
        forall|j: int| 0 <= j < units.len() ==> #[trigger] units[j] is Literal,
        data.len() + units_data(units).len() <= TEXT_ROOM,
    ensures
        holds_from_base(e.with_units(units, labels), data + units_data(units)),
    decreases units.len(),
{
    if units.len() == 0 {
        assert(data + units_data(units) =~= data);
    } else {
        let front = units.drop_last();
        assert forall|j: int| 0 <= j < front.len() implies #[trigger] front[j] is Literal by {
            assert(units[j] is Literal);
        }
        lemma_units_in_order(e, data, front, labels);
        let before = e.with_units(front, labels);
        let held = data + units_data(front);
        assert(units.last() is Literal);
        let bytes = units.last().encoding(labels, before.cursor());
        assert(bytes == literal_data(units.last()));
        let after = before.with_bytes(bytes);
        let all = data + units_data(units);
        assert(all =~= held + bytes);
        lemma_written(before.mem, before.text, bytes);
        assert forall|k: int| 0 <= k < all.len() implies #[trigger] after.mem[(TEXT_BASE
            + k) as u32] == all[k] by {
            if k < held.len() {
                assert forall|i: int| 0 <= i < bytes.len() implies address_after(before.text, i)
                    != (TEXT_BASE + k) as u32 by {
                }
                assert(after.mem[(TEXT_BASE + k) as u32] == before.mem[(TEXT_BASE + k) as u32]);
            } else {
                let i = k - held.len();
                assert(address_after(before.text, i) == (TEXT_BASE + k) as u32);
                assert(after.mem[address_after(before.text, i)] == bytes[i]);
            }
        }
    }
}

/// The lines of a program of raw bytes go into the text segment in order.
proof fn lemma_lines_in_order(lines: Seq<LineView>, labels: Map<Seq<char>, u32>, n: nat)
    requires
        n <= lines.len(),
        forall|i: int| 0 <= i < lines.len() ==> literal_line(#[trigger] lines[i]),
        lines_data(lines, n).len() <= TEXT_ROOM,
    ensures
        holds_from_base(emission_of(lines, labels, n), lines_data(lines, n)),
    decreases n,
{
    if n > 0 {
        assert(literal_line(lines[n - 1]));
        lemma_lines_in_order(lines, labels, (n - 1) as nat);
        match lines[n - 1] {
            LineView::Instruction(units) => {
                lemma_units_in_order(
                    emission_of(lines, labels, (n - 1) as nat),
                    lines_data(lines, (n - 1) as nat),
                    units,
                    labels,
                );
            },
            _ => {},
        }
    }
}

/// A program of data directives alone assembles to the bytes of its
/// directives, in order, from `TEXT_BASE` on: byte `k` of the program's raw
/// bytes is the byte at `TEXT_BASE + k`. The guard word follows them. This
/// is stated for programs that leave room for the guard word below the top
/// of the address space.
pub proof fn lemma_literals_in_order(lines: Seq<LineView>, k: int)
    requires
        forall|i: int| 0 <= i < lines.len() ==> literal_line(#[trigger] lines[i]),
        lines_data(lines, lines.len()).len() <= TEXT_ROOM,
        0 <= k < lines_data(lines, lines.len()).len(),
    ensures
        image_of(lines)[(TEXT_BASE + k) as u32] == lines_data(lines, lines.len())[k],
        load_word(image_of(lines), (TEXT_BASE + lines_data(lines, lines.len()).len()) as u32)
            == GUARD_WORD,
{
    let labels = labels_of(lines).labels;
    lemma_lines_in_order(lines, labels, lines.len());
    let emitted = emission_of(lines, labels, lines.len());
    crate::memory::lemma_load_after_store(emitted.mem, emitted.text, GUARD_WORD);
}

/// The bytes of a `.word` directive's number are the four bytes of the
/// number as a 32-bit word, least significant first.
pub proof fn lemma_word_directive_bytes(v: int)
    ensures
        crate::parser::directives::number_bytes(v, 4) == crate::parser::model::instruction::le_bytes(
            (v as i64) as u32,
        ),
        crate::parser::directives::number_bytes(v, 4).len() == 4,
{
    let bytes = crate::parser::model::instruction::le_bytes((v as i64) as u32);
    assert(bytes.take(4) =~= bytes);
}

/// Writes `bytes` from `at` on and gives the address behind them.
fn emit_bytes(memory: &mut Memory, at: u32, bytes: &Vec<u8>) -> (end: u32)
    ensures
        final(memory)@ == written(old(memory)@, at, bytes@),
        end == advanced(at, bytes@.len()),
{
    let mut cursor = at;
    let mut i: usize = 0;
    while i < bytes.len()
        invariant
            i <= bytes.len(),
            cursor == address_after(at, i as int),
            memory@ == written(old(memory)@, at, bytes@.take(i as int)),
        decreases bytes.len() - i,
    {
        proof {
            assert(bytes@.take(i + 1).drop_last() =~= bytes@.take(i as int));
        }
        let _ = memory.set_byte(cursor, bytes[i]);
        cursor = cursor.wrapping_add(1);
        i += 1;
    }
    assert(bytes@.take(i as int) =~= bytes@);
    cursor
}

/// Emits the units of one line.
fn emit_units(
    memory: &mut Memory,
    segments: &mut Segments,
    current: Segment,
    units: &Vec<Instruction>,
    labels: &LabelTable,
    Ghost(before): Ghost<Emission>,
)
    requires
        before.mem == old(memory)@,
        before.text == old(segments).cursor(Segment::Text),
        before.data == old(segments).cursor(Segment::Data),
        before.current == current,
    ensures
        ({
            let done = before.with_units(views_of_units(units@), labels@.labels);
            &&& final(memory)@ == done.mem
            &&& final(segments).cursor(Segment::Text) == done.text
            &&& final(segments).cursor(Segment::Data) == done.data
            &&& done.current == current
        }),
{
    let ghost views = views_of_units(units@);
    let mut i: usize = 0;
    while i < units.len()
        invariant
            i <= units.len(),
            views == views_of_units(units@),
            ({
                let done = before.with_units(views.take(i as int), labels@.labels);
                &&& memory@ == done.mem
                &&& segments.cursor(Segment::Text) == done.text
                &&& segments.cursor(Segment::Data) == done.data
                &&& done.current == current
            }),
        decreases units.len() - i,
    {
        proof {
            assert(views.take(i + 1).drop_last() =~= views.take(i as int));
            assert(views.take(i + 1).last() == units@[i as int]@);
        }
        let at = segments.position(current);
        let bytes = units[i].assemble(labels, at);
        let end = emit_bytes(memory, at, &bytes);
        let pc = segments.switch(current);
        *pc = end;
        i += 1;
    }
    assert(views.take(i as int) =~= views);
}

/// Assembles a program: parses it, lays out its labels, and writes the
/// bytes of its lines into a fresh memory, the text segment from
/// `TEXT_BASE` and the data segment from `DATA_BASE` on. The guard word
/// goes behind the last byte of the text segment.
pub fn assembler(script: &str) -> (r: Result<(Memory, LabelTable), ParseError>)
    ensures
        same_assembly(r, assembled(script@)),
{
    let lines = match parse_string(script) {
        Ok(lines) => lines,
        Err(e) => {
            return Err(e);
        },
    };
    let labels = compute_labels(lines.as_slice());

    let mut memory = Memory::new();
    let mut segments = Segments::default();
    let mut current = Segment::Text;
    let ghost views = views_of(lines@);
    let mut i: usize = 0;
    while i < lines.len()
        invariant
            i <= lines.len(),
            views == views_of(lines@),
            ({
                let done = emission_of(views, labels@.labels, i as nat);
                &&& memory@ == done.mem
                &&& segments.cursor(Segment::Text) == done.text
                &&& segments.cursor(Segment::Data) == done.data
                &&& done.current == current
            }),
        decreases lines.len() - i,
    {
        let ghost done = emission_of(views, labels@.labels, i as nat);
        assert(views[i as int] == lines@[i as int]@);
        match &lines[i] {
            Line::Instruction(units) => {
                assert(views[i as int] == LineView::Instruction(views_of_units(units@))) by {
                    assert(views[i as int]->Instruction_0 =~= views_of_units(units@));
                }
                emit_units(&mut memory, &mut segments, current, units, &labels, Ghost(done));
            },
            Line::Segment(seg) => {
                current = *seg;
            },
            _ => {},
        }
        i += 1;
    }
    memory.set_word(segments.position(Segment::Text), GUARD_WORD);
    Ok((memory, labels))
}

/// The system call that is left pending when the surrounding program has
/// answered `outcome` to `pending`: none after `Break`.
pub open spec fn settled(pending: Option<SyscallView>, outcome: ControlFlow<()>) -> Option<
    SyscallView,
> {
    if outcome is Break {
        None
    } else {
        pending
    }
}

/// The address of word `index` of the stack, counted from the top down.
pub open spec fn stack_address(index: int) -> u32 {
    (4 * (STACK_BASE / 4 - 1 - index)) as u32
}

/// How many words lie between the stack pointer `sp` and the top of the
/// stack.
pub open spec fn stack_depth(sp: u32) -> nat {
    if sp / 4 < STACK_BASE / 4 {
        (STACK_BASE / 4 - sp / 4) as nat
    } else {
        0
    }
}

impl Machine {
    /// The program counter.
    pub closed spec fn program_counter(&self) -> u32 {
        self.pc
    }

    /// The register contents.
    pub closed spec fn registers(&self) -> Seq<u32> {
        self.regs@
    }

    /// The memory contents.
    pub closed spec fn memory(&self) -> Map<u32, u8> {
        self.mem@
    }

    /// The five latches.
    pub closed spec fn latches(&self) -> PipelineState {
        self.state
    }

    /// The label table of the program that was flashed.
    pub closed spec fn labels(&self) -> LabelTableView {
        self.syms@
    }

    /// The system call that waits for the surrounding program, if one does.
    pub closed spec fn pending(&self) -> Option<SyscallView> {
        pending_view(self.pending_syscall)
    }

    /// Whether `other` is in the state of this machine.
    pub open spec fn same_state(&self, other: &Machine) -> bool {
        &&& other.program_counter() == self.program_counter()
        &&& other.registers() == self.registers()
        &&& other.memory() == self.memory()
        &&& other.latches() == self.latches()
        &&& other.labels() == self.labels()
        &&& other.pending() == self.pending()
    }

    /// What one cycle makes of the state of this machine.
    pub open spec fn step(&self) -> Cycled {
        cycled(self.program_counter(), self.registers(), self.memory(), self.latches())
    }

    /// Whether `other` is this machine one cycle on, with `pending` as its
    /// pending system call: program counter, registers and memory are as
    /// the cycle left them, and the latches are the new ones, or the old
    /// ones where the cycle failed.
    pub open spec fn stepped(&self, other: &Machine, pending: Option<SyscallView>) -> bool {
        &&& other.program_counter() == self.step().pc
        &&& other.registers() == self.step().regs
        &&& other.memory() == self.step().mem
        &&& other.labels() == self.labels()
        &&& other.pending() == pending
        &&& other.latches() == match self.step().result {
            Ok(next) => next.0,
            Err(_) => self.latches(),
        }
    }

    /// Whether `other` differs from this machine in its registers at most.
    pub open spec fn same_but_registers(&self, other: &Machine) -> bool {
        &&& other.program_counter() == self.program_counter()
        &&& other.memory() == self.memory()
        &&& other.latches() == self.latches()
        &&& other.labels() == self.labels()
        &&& other.pending() == self.pending()
    }

    /// Whether `other` differs from this machine in its memory at most.
    pub open spec fn same_but_memory(&self, other: &Machine) -> bool {
        &&& other.program_counter() == self.program_counter()
        &&& other.registers() == self.registers()
        &&& other.latches() == self.latches()
        &&& other.labels() == self.labels()
        &&& other.pending() == self.pending()
    }

    /// Whether `other` differs from this machine in its pending system call
    /// at most.
    pub open spec fn same_but_pending(&self, other: &Machine) -> bool {
        &&& other.program_counter() == self.program_counter()
        &&& other.registers() == self.registers()
        &&& other.memory() == self.memory()
        &&& other.latches() == self.latches()
        &&& other.labels() == self.labels()
    }

    /// The value of a register. Register 0 reads as zero.
    pub fn register(&self, reg: Register) -> (v: u32)
        ensures
            v == self.registers()[reg.slot()],
            reg.slot() == 0 ==> v == 0,
    {
        proof {
            self.regs.lemma_shape();
        }
        self.regs.read_register(reg)
    }

    /// A mutable handle on a register. What is written through a handle on
    /// register 0 is never read back.
    pub fn register_mut(&mut self, reg: Register) -> (slot: &mut u32)
        ensures
            *slot == old(self).registers()[reg.slot()],
            final(self).registers() == (if reg.slot() == 0 {
                old(self).registers()
            } else {
                old(self).registers().update(reg.slot(), *final(slot))
            }),
            old(self).same_but_registers(final(self)),
    {
        self.regs.get_mut(reg)
    }

    /// The word at `addr`, which must be a multiple of four. Memory that
    /// was never written reads as zero.
    pub fn read_word(&self, addr: u32) -> (r: Result<u32, MemoryError>)
        ensures
            r == (if addr % 4 == 0 {
                Ok(load_word(self.memory(), addr))
            } else {
                Err(MemoryError::Unaligned { address: addr })
            }),
    {
        self.mem.get(addr)
    }

    /// Stores a word at `addr`, least significant byte first.
    pub fn write_word(&mut self, addr: u32, val: u32)
        ensures
            final(self).memory() == store_word(old(self).memory(), addr, val),
            old(self).same_but_memory(final(self)),
    {
        self.mem.set_word(addr, val);
    }

    /// Makes the machine ready to run the program in its memory from the
    /// start: the program counter goes to the base of the text segment, the
    /// latches are emptied and the registers are set to their initial
    /// values. Memory and labels stay.
    pub fn reset(&mut self)
        ensures
            final(self).program_counter() == TEXT_BASE,
            final(self).latches() == PipelineState::empty(),
            final(self).registers() == initial_registers(),
            final(self).registers()[SP as int] == STACK_BASE,
            final(self).memory() == old(self).memory(),
            final(self).labels() == old(self).labels(),
            final(self).pending() == old(self).pending(),
    {
        self.pc = TEXT_BASE;
        self.state = PipelineState::default();
        self.regs = RegisterFile::default();
    }

    /// Resets the machine and clears its memory and its labels as well.
    pub fn hard_reset(&mut self)
        ensures
            final(self).program_counter() == TEXT_BASE,
            final(self).latches() == PipelineState::empty(),
            final(self).registers() == initial_registers(),
            final(self).memory() == blank_memory(),
            final(self).labels().labels == Map::<Seq<char>, u32>::empty(),
            final(self).labels().lines == Seq::<(usize, u32)>::empty(),
            final(self).pending() == old(self).pending(),
    {
        self.mem = Memory::default();
        self.syms = LabelTable::default();
        self.reset();
    }

    /// Installs an assembled program: its memory image and its labels.
    pub fn flash(&mut self, mem: Memory, syms: LabelTable)
        ensures
            final(self).memory() == mem@,
            final(self).labels() == syms@,
            final(self).program_counter() == old(self).program_counter(),
            final(self).registers() == old(self).registers(),
            final(self).latches() == old(self).latches(),
            final(self).pending() == old(self).pending(),
    {
        self.mem = mem;
        self.syms = syms;
    }

    /// The source line of the instruction in each stage, from fetch to
    /// writeback.
    pub fn current_line(&mut self) -> (lines: [Option<usize>; 5])
        ensures
            *final(self) == *old(self),
            lines[0] == line_of(old(self).labels().lines, old(self).latches().if_id.pc),
            lines[1] == line_of(old(self).labels().lines, old(self).latches().id_ex.pc),
            lines[2] == line_of(old(self).labels().lines, old(self).latches().ex_mem.pc),
            lines[3] == line_of(old(self).labels().lines, old(self).latches().mem_wb.pc),
            lines[4] == line_of(old(self).labels().lines, old(self).latches().pipe_out.pc),
    {
        [
            self.syms.get_line(self.state.if_id.pc),
            self.syms.get_line(self.state.id_ex.pc),
            self.syms.get_line(self.state.ex_mem.pc),
            self.syms.get_line(self.state.mem_wb.pc),
            self.syms.get_line(self.state.pipe_out.pc),
        ]
    }

    /// The five latches.
    pub fn pipeline(&self) -> (state: &PipelineState)
        ensures
            *state == self.latches(),
    {
        &self.state
    }

    /// The words of the stack with their addresses, from the word below
    /// `STACK_BASE` down to the word that `$sp` points into.
    pub fn stack(&mut self) -> (stack: Vec<(u32, u32)>)
        ensures
            *final(self) == *old(self),
            stack@.len() == stack_depth(old(self).registers()[SP as int]),
            forall|k: int|
                0 <= k < stack@.len() ==> #[trigger] stack@[k] == (
                    stack_address(k),
                    load_word(old(self).memory(), stack_address(k)),
                ),
    {
        proof {
            self.regs.lemma_shape();
        }
        let sp = self.regs.read_register(Register(SP)) / 4;
        let top = STACK_BASE / 4;
        let mut stack: Vec<(u32, u32)> = Vec::new();
        let mut i = top;
        while i > sp
            invariant
                sp <= i <= top || (i == top && top < sp),
                top == STACK_BASE / 4,
                stack@.len() == top - i,
                forall|k: int|
                    0 <= k < stack@.len() ==> #[trigger] stack@[k] == (
                        stack_address(k),
                        load_word(self.mem@, stack_address(k)),
                    ),
            decreases i,
        {
            i -= 1;
            let addr = i * 4;
            let word = match self.mem.get(addr) {
                Ok(word) => word,
                Err(_) => 0,
            };
            stack.push((addr, word));
        }
        stack
    }

    /// Hands the text that the user entered to the system call that waits
    /// for it. For `ReadInt` the number in the text goes to `$v0` and the
    /// call is done; text that is no number is refused, and the call goes
    /// on waiting. A call of another kind is done without more.
    pub fn resolve_input(&mut self, input: &str) -> (r: Result<(), SyscallError>)
        ensures
            final(self).program_counter() == old(self).program_counter(),
            final(self).memory() == old(self).memory(),
            final(self).latches() == old(self).latches(),
            final(self).labels() == old(self).labels(),
            match old(self).pending() {
                Some(SyscallView::ReadInt) => match input_number(input@) {
                    Some(v) => {
                        &&& r is Ok
                        &&& final(self).pending() is None
                        &&& final(self).registers() == old(self).registers().update(
                            V0 as int,
                            word_of_number(v),
                        )
                    },
                    None => {
                        &&& r matches Err(e)
                        &&& e@ == SyscallErrorView::InvalidInput { text: trimmed(input@) }
                        &&& final(self).pending() == old(self).pending()
                        &&& final(self).registers() == old(self).registers()
                    },
                },
                _ => {
                    &&& r is Ok
                    &&& final(self).pending() is None
                    &&& final(self).registers() == old(self).registers()
                },
            },
    {
        match &self.pending_syscall {
            Some(syscall) => {
                match resolve_syscall(&mut self.regs, syscall, input) {
                    Ok(()) => {},
                    Err(e) => {
                        return Err(e);
                    },
                }
                self.pending_syscall = None;
            },
            None => {},
        }
        Ok(())
    }

    /// Ends the wait for the pending system call if the surrounding program
    /// has dealt with it, which `outcome` says: `Break` where it has,
    /// `Continue` where the call is to wait on.
    pub fn settle_syscall(&mut self, outcome: ControlFlow<()>)
        ensures
            old(self).same_but_pending(final(self)),
            final(self).pending() == settled(old(self).pending(), outcome),
    {
        match outcome {
            ControlFlow::Break(_) => {
                self.pending_syscall = None;
            },
            ControlFlow::Continue(_) => {},
        }
    }

    /// Shows the pending system call, if there is one, to `f`, and ends the
    /// wait for it if `f` returns `Break`.
    pub fn handle_syscall<F>(&mut self, f: F) where F: FnOnce(&Syscall) -> ControlFlow<()>
        requires
            forall|syscall: &Syscall| #[trigger] f.requires((syscall,)),
        ensures
            old(self).same_but_pending(final(self)),
            old(self).pending() is None ==> final(self).pending() is None,
            old(self).pending() is Some ==> exists|syscall: &Syscall, outcome: ControlFlow<()>|
                #![trigger f.ensures((syscall,), outcome)]
                {
                    &&& old(self).pending() == Some(syscall@)
                    &&& f.ensures((syscall,), outcome)
                    &&& final(self).pending() == settled(old(self).pending(), outcome)
                },
    {
        match &self.pending_syscall {
            Some(syscall) => {
                let outcome = f(syscall);
                assert(f.ensures((syscall,), outcome));
                match outcome {
                    ControlFlow::Break(b) => {
                        self.pending_syscall = None;
                    },
                    ControlFlow::Continue(c) => {},
                }
            },
            None => {},
        }
    }

    /// The system call that waits for the surrounding program, if one does.
    pub fn waiting_syscall(&self) -> (waiting: Option<&Syscall>)
        ensures
            match waiting {
                Some(syscall) => self.pending() == Some(syscall@),
                None => self.pending() is None,
            },
    {
        self.pending_syscall.as_ref()
    }

    /// Whether a system call waits for the surrounding program.
    pub fn pending_syscall(&self) -> (waiting: bool)
        ensures
            waiting == self.pending() is Some,
    {
        self.pending_syscall.is_some()
    }

    /// Steps the machine forward by one cycle of its pipeline. Nothing
    /// happens while a system call is pending. A cycle that fails leaves the
    /// latches as they were; what its stages did to registers, memory and
    /// program counter before the failure stays.
    pub fn cycle(&mut self) -> (r: Result<(), CycleError>)
        ensures
            old(self).pending() is Some ==> r is Ok && old(self).same_state(final(self)),
            old(self).pending() is None ==> match old(self).step().result {
                Ok(next) => r is Ok && old(self).stepped(final(self), next.1),
                Err(e) => r == Err::<(), CycleError>(e) && old(self).stepped(final(self), None),
            },
    {
        if self.pending_syscall.is_none() {
            match pipe_cycle(&mut self.pc, &mut self.regs, &mut self.mem, self.state) {
                Ok(next) => {
                    self.state = next.0;
                    self.pending_syscall = next.1;
                },
                Err(e) => {
                    return Err(e);
                },
            }
        }
        Ok(())
    }
}

impl Default for Machine {
    fn default() -> (m: Self)
        ensures
            m.program_counter() == 0,
            m.registers() == initial_registers(),
            m.memory() == blank_memory(),
            m.latches() == PipelineState::empty(),
            m.labels().labels == Map::<Seq<char>, u32>::empty(),
            m.labels().lines == Seq::<(usize, u32)>::empty(),
            m.pending() is None,
    {
        Machine {
            pc: 0,
            regs: RegisterFile::default(),
            state: PipelineState::default(),
            mem: Memory::default(),
            syms: LabelTable::default(),
            pending_syscall: None,
        }
    }
}

} // verus!
