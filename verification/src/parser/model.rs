//! What the parser produces and the assembler consumes: lines, segments and
//! the label table.

use crate::text::same_text;
use vstd::prelude::*;

pub mod instruction;
pub mod opcode;

pub use instruction::{Imm, ImmView, Instruction, InstructionView, Symbol, SymbolView};
pub use opcode::Opcode;

verus! {

/// Where the text segment starts.
pub const TEXT_BASE: u32 = 0x00400000;

/// Where the data segment starts.
pub const DATA_BASE: u32 = 0x10010000;

/// The top of the stack, which grows downward.
pub const STACK_BASE: u32 = 0x7fffeffc;

/// A segment of the memory image.
#[derive(Debug, Copy, Clone, PartialEq, Eq, Structural)]
pub enum Segment {
    Text,
    Data,
}

/// The write position in each segment.
pub struct Segments {
    text: u32,
    data: u32,
}

impl Segments {
    /// The write position in `seg`.
    pub closed spec fn cursor(&self, seg: Segment) -> u32 {
        match seg {
            Segment::Text => self.text,
            Segment::Data => self.data,
        }
    }

    /// The write position in `seg`, as a handle through which it is moved.
    /// The other segment's position stays.
    pub fn switch(&mut self, seg: Segment) -> (cursor: &mut u32)
        ensures
            *cursor == old(self).cursor(seg),
            final(self).cursor(seg) == *final(cursor),
            forall|other: Segment|
                other != seg ==> final(self).cursor(other) == old(self).cursor(other),
    {
        match seg {
            Segment::Text => &mut self.text,
            Segment::Data => &mut self.data,
        }
    }

    /// The write position in `seg`.
    pub fn position(&self, seg: Segment) -> (at: u32)
        ensures
            at == self.cursor(seg),
    {
        match seg {
            Segment::Text => self.text,
            Segment::Data => self.data,
        }
    }
}

impl Default for Segments {
    fn default() -> (s: Self)
        ensures
            s.cursor(Segment::Text) == TEXT_BASE,
            s.cursor(Segment::Data) == DATA_BASE,
    {
        Segments { text: TEXT_BASE, data: DATA_BASE }
    }
}

/// One line of a program.
#[derive(Debug, Clone, PartialEq, Eq)]
pub enum Line {
    /// What the line assembles to; a pseudo-instruction or a directive may
    /// give several units.
    Instruction(Vec<Instruction>),
    Label(String),
    Segment(Segment),
    Comment(String),
    Blank,
}

/// What a line holds, with texts as sequences of characters.
pub enum LineView {
    Instruction(Seq<InstructionView>),
    Label(Seq<char>),
    Segment(Segment),
    Comment(Seq<char>),
    Blank,
}

impl View for Line {
    type V = LineView;

    open spec fn view(&self) -> LineView {
        match self {
            Line::Instruction(units) => LineView::Instruction(
                Seq::new(units@.len(), |i: int| units@[i]@),
            ),
            Line::Label(name) => LineView::Label(name@),
            Line::Segment(seg) => LineView::Segment(*seg),
            Line::Comment(text) => LineView::Comment(text@),
            Line::Blank => LineView::Blank,
        }
    }
}

/// The views of a sequence of lines.
pub open spec fn line_views(lines: Seq<Line>) -> Seq<LineView> {
    Seq::new(lines.len(), |i: int| lines[i]@)
}

/// The map that a list of bindings denotes; a later binding of a name
/// replaces an earlier one.
pub open spec fn bindings(entries: Seq<(String, u32)>) -> Map<Seq<char>, u32>
    decreases entries.len(),
{
    if entries.len() == 0 {
        Map::empty()
    } else {
        bindings(entries.drop_last()).insert(entries.last().0@, entries.last().1)
    }
}

/// Where an entry with address `pc` goes into `lines` so that addresses stay
/// in ascending order and entries with equal addresses stay in the order in
/// which they came.
pub open spec fn place_of(lines: Seq<(usize, u32)>, pc: u32) -> int
    decreases lines.len(),
{
    if lines.len() == 0 {
        0
    } else if lines.last().1 <= pc {
        lines.len() as int
    } else {
        place_of(lines.drop_last(), pc)
    }
}

/// Whether the addresses in `lines` ascend.
pub open spec fn ascending(lines: Seq<(usize, u32)>) -> bool {
    forall|i: int, j: int| 0 <= i <= j < lines.len() ==> lines[i].1 <= lines[j].1
}

/// The entry of `lines` that covers `pc`: of those that start at or below
/// `pc` the one with the highest address, and of several at that address
/// the last.
pub open spec fn covering_entry(lines: Seq<(usize, u32)>, pc: u32) -> Option<(usize, u32)>
    decreases lines.len(),
{
    if lines.len() == 0 {
        None
    } else {
        let last = lines.last();
        match covering_entry(lines.drop_last(), pc) {
            Some(best) => if best.1 <= last.1 && last.1 <= pc {
                Some(last)
            } else {
                Some(best)
            },
            None => if last.1 <= pc {
                Some(last)
            } else {
                None
            },
        }
    }
}

/// The source line that `pc` belongs to. Addresses below the text segment
/// belong to no line.
pub open spec fn line_of(lines: Seq<(usize, u32)>, pc: u32) -> Option<usize> {
    if pc < TEXT_BASE {
        None
    } else {
        match covering_entry(lines, pc) {
            Some(entry) => Some(entry.0),
            None => None,
        }
    }
}

/// What a label table holds.
pub struct LabelTableView {
    /// The address of each label.
    pub labels: Map<Seq<char>, u32>,
    /// Source line index and start address of each line that emits bytes,
    /// in ascending order of address.
    pub lines: Seq<(usize, u32)>,
}

/// Label addresses, and the start address of each source line.
#[derive(Debug)]
pub struct LabelTable {
    labels: Vec<(String, u32)>,
    lines: Vec<(usize, u32)>,
}

impl View for LabelTable {
    type V = LabelTableView;

    closed spec fn view(&self) -> LabelTableView {
        LabelTableView { labels: bindings(self.labels@), lines: self.lines@ }
    }
}

impl Default for LabelTable {
    fn default() -> (t: Self)
        ensures
            t@.labels == Map::<Seq<char>, u32>::empty(),
            t@.lines == Seq::<(usize, u32)>::empty(),
    {
        LabelTable { labels: Vec::new(), lines: Vec::new() }
    }
}

/// The prefix of a list of bindings denotes the map of the list without the
/// last binding.
proof fn lemma_bindings_step(entries: Seq<(String, u32)>, n: int)
    requires
        0 < n <= entries.len(),
    ensures
        bindings(entries.take(n)) == bindings(entries.take(n - 1)).insert(
            entries[n - 1].0@,
            entries[n - 1].1,
        ),
{
    assert(entries.take(n).drop_last() =~= entries.take(n - 1));
}

/// Inserting at its place keeps the addresses ascending.
pub proof fn lemma_place_keeps_order(lines: Seq<(usize, u32)>, key: usize, pc: u32)
    requires
        ascending(lines),
    ensures
        0 <= place_of(lines, pc) <= lines.len(),
        ascending(lines.insert(place_of(lines, pc), (key, pc))),
        forall|i: int| 0 <= i < place_of(lines, pc) ==> lines[i].1 <= pc,
        forall|i: int| place_of(lines, pc) <= i < lines.len() ==> lines[i].1 > pc,
    decreases lines.len(),
{
    if lines.len() == 0 {
    } else if lines.last().1 > pc {
        let shorter = lines.drop_last();
        assert forall|i: int, j: int| 0 <= i <= j < shorter.len() implies shorter[i].1
            <= shorter[j].1 by {
            assert(lines[i].1 <= lines[j].1);
        }
        lemma_place_keeps_order(shorter, key, pc);
        let at = place_of(shorter, pc);
        assert(place_of(lines, pc) == at);
        assert forall|i: int| 0 <= i < at implies lines[i].1 <= pc by {
            assert(shorter[i].1 <= pc);
        }
        assert forall|i: int| at <= i < lines.len() implies lines[i].1 > pc by {
            if i < shorter.len() {
                assert(shorter[i].1 > pc);
            }
        }
    } else {
        assert forall|i: int| 0 <= i < lines.len() implies lines[i].1 <= pc by {
            assert(lines[i].1 <= lines[lines.len() - 1].1);
        }
    }
    let at = place_of(lines, pc);
    let longer = lines.insert(at, (key, pc));
    assert forall|i: int, j: int| 0 <= i <= j < longer.len() implies longer[i].1
        <= longer[j].1 by {
        if i < at && j > at {
            assert(lines[i].1 <= pc);
            assert(lines[j - 1].1 > pc);
        } else if i < at && j < at {
            assert(lines[i].1 <= lines[j].1);
        } else if i > at && j > at {
            assert(lines[i - 1].1 <= lines[j - 1].1);
        } else if i == at && j > at {
            assert(lines[j - 1].1 > pc);
        } else if i < at && j == at {
            assert(lines[i].1 <= pc);
        }
    }
}

impl LabelTable {
    /// Binds `key` to the address `v`, in place of what it was bound to.
    pub fn insert_label(&mut self, key: String, v: u32)
        ensures
            final(self)@.labels == old(self)@.labels.insert(key@, v),
            final(self)@.lines == old(self)@.lines,
    {
        self.labels.push((key, v));
        assert(self.labels@.drop_last() =~= old(self).labels@);
    }

    /// Records that source line `key` starts at address `v`. The entry goes
    /// behind the last one whose address is not above `v`.
    pub fn insert_line(&mut self, key: usize, v: u32)
        ensures
            final(self)@.lines == old(self)@.lines.insert(
                place_of(old(self)@.lines, v),
                (key, v),
            ),
            0 <= place_of(old(self)@.lines, v) <= old(self)@.lines.len(),
            final(self)@.labels == old(self)@.labels,
    {
        let mut at: usize = self.lines.len();
        assert(self.lines@.take(at as int) =~= self.lines@);
        while at > 0 && self.lines[at - 1].1 > v
            invariant
                at <= self.lines.len(),
                place_of(self.lines@, v) == place_of(self.lines@.take(at as int), v),
            decreases at,
        {
            assert(self.lines@.take(at as int).drop_last() =~= self.lines@.take(at - 1));
            at -= 1;
        }
        proof {
            assert(self.lines@.take(self.lines.len() as int) =~= self.lines@);
            if at > 0 {
                assert(self.lines@.take(at as int).last() == self.lines@[at - 1]);
            }
            assert(place_of(self.lines@, v) == at);
        }
        self.lines.insert(at, (key, v));
    }

    /// The address that `key` is bound to.
    pub fn get_label(&self, key: &str) -> (r: Option<u32>)
        ensures
            r == (if self@.labels.contains_key(key@) {
                Some(self@.labels[key@])
            } else {
                None
            }),
    {
        let mut at: usize = self.labels.len();
        assert(self.labels@.take(at as int) =~= self.labels@);
        while at > 0
            invariant
                at <= self.labels.len(),
                bindings(self.labels@).contains_key(key@) <==> bindings(
                    self.labels@.take(at as int),
                ).contains_key(key@),
                bindings(self.labels@).contains_key(key@) ==> bindings(self.labels@)[key@]
                    == bindings(self.labels@.take(at as int))[key@],
            decreases at,
        {
            proof {
                lemma_bindings_step(self.labels@, at as int);
            }
            if same_text(self.labels[at - 1].0.as_str(), key) {
                return Some(self.labels[at - 1].1);
            }
            at -= 1;
        }
        None
    }

    /// The source line that the address `pc` belongs to.
    pub fn get_line(&self, pc: u32) -> (r: Option<usize>)
        ensures
            r == line_of(self@.lines, pc),
    {
        if pc < TEXT_BASE {
            return None;
        }
        let mut best: Option<(usize, u32)> = None;
        let mut at: usize = 0;
        while at < self.lines.len()
            invariant
                at <= self.lines.len(),
                best == covering_entry(self.lines@.take(at as int), pc),
            decreases self.lines.len() - at,
        {
            let entry = self.lines[at];
            proof {
                assert(self.lines@.take(at + 1).drop_last() =~= self.lines@.take(at as int));
            }
            if entry.1 <= pc {
                best = match best {
                    Some(b) => if b.1 <= entry.1 {
                        Some(entry)
                    } else {
                        Some(b)
                    },
                    None => Some(entry),
                };
            }
            at += 1;
        }
        assert(self.lines@.take(at as int) =~= self.lines@);
        match best {
            Some(entry) => Some(entry.0),
            None => None,
        }
    }
}

} // verus!
