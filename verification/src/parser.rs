//! The assembler's front end: from program text to lines, and from lines to
//! the label table.

use crate::memory::address_after;
use crate::text::chars_of;
use label::{label_at, parsed};
use model::{
    place_of, Instruction, InstructionView, LabelTable, LabelTableView, Line, LineView, Segment, Segments,
    DATA_BASE, TEXT_BASE,
};
use opcode::instruction_at;
use scan::{at_char, char_at, run_end, skip, text_between, Class, Expected, ParseError};
use vstd::prelude::*;

pub mod directives;
pub mod instruction;
pub mod label;
pub mod model;
pub mod scan;
pub mod numbers;
pub mod opcode;
pub mod register;

pub use label::label;
pub use opcode::{instruction, opcode, opcode_name};
pub use numbers::{bin, dec, hex, integer, num_str, oct};
pub use register::register;

verus! {

/// The comment at `at`: behind any spaces a `#`, then the text up to the
/// line feed that ends it.
pub open spec fn comment_at(s: Seq<char>, at: usize) -> Result<(LineView, usize), ParseError> {
    let hash = run_end(s, at, Class::Space);
    if char_at(s, hash) != Some('#') {
        Err(ParseError { at: hash, expected: Expected::Comment })
    } else {
        let end = run_end(s, (hash + 1) as usize, Class::CommentBody);
        if char_at(s, end) == Some('\n') {
            Ok((LineView::Comment(s.subrange(hash + 1, end as int)), (end + 1) as usize))
        } else {
            Err(ParseError { at: end, expected: Expected::EndOfComment })
        }
    }
}

/// Reads a comment.
pub fn comment(input: &[char], at: usize) -> (r: Result<(Line, usize), ParseError>)
    requires
        at <= input.len(),
    ensures
        parsed(r) == comment_at(input@, at),
        r matches Ok(done) ==> at < done.1 <= input.len(),
{
    let hash = skip(input, at, Class::Space);
    if !at_char(input, hash, '#') {
        return Err(ParseError { at: hash, expected: Expected::Comment });
    }
    let end = skip(input, hash + 1, Class::CommentBody);
    if at_char(input, end, '\n') {
        Ok((Line::Comment(text_between(input, hash + 1, end)), end + 1))
    } else {
        Err(ParseError { at: end, expected: Expected::EndOfComment })
    }
}

/// Where the line ends that holds nothing more from `at` on: behind any
/// spaces a line feed, the end of the input, or a comment.
pub open spec fn line_end_at(s: Seq<char>, at: usize) -> Result<usize, ParseError> {
    let end = run_end(s, at, Class::Space);
    if char_at(s, end) == Some('\n') {
        Ok((end + 1) as usize)
    } else if end >= s.len() {
        Ok(end)
    } else {
        match comment_at(s, end) {
            Ok(found) => Ok(found.1),
            Err(_) => Err(ParseError { at: end, expected: Expected::EndOfLine }),
        }
    }
}

/// Finds the end of a line that holds nothing more.
fn line_end(input: &[char], at: usize) -> (r: Result<usize, ParseError>)
    requires
        at <= input.len(),
    ensures
        r == line_end_at(input@, at),
        r matches Ok(end) ==> at <= end <= input.len(),
        r matches Ok(end) ==> at < input.len() ==> at < end,
{
    let end = skip(input, at, Class::Space);
    if at_char(input, end, '\n') {
        Ok(end + 1)
    } else if end >= input.len() {
        Ok(end)
    } else {
        match comment(input, end) {
            Ok(found) => Ok(found.1),
            Err(_) => Err(ParseError { at: end, expected: Expected::EndOfLine }),
        }
    }
}

/// The blank line at `at`.
pub open spec fn blank_at(s: Seq<char>, at: usize) -> Result<(LineView, usize), ParseError> {
    match line_end_at(s, at) {
        Ok(end) => Ok((LineView::Blank, end)),
        Err(e) => Err(e),
    }
}

/// Reads a line that holds nothing, or nothing but a comment.
pub fn blank(input: &[char], at: usize) -> (r: Result<(Line, usize), ParseError>)
    requires
        at <= input.len(),
    ensures
        parsed(r) == blank_at(input@, at),
        r matches Ok(done) ==> at <= done.1 <= input.len(),
        r matches Ok(done) ==> at < input.len() ==> at < done.1,
{
    let end = line_end(input, at)?;
    Ok((Line::Blank, end))
}

/// The instruction line at `at`: an instruction, and nothing more on the
/// line but perhaps a comment.
pub open spec fn parse_line_at(s: Seq<char>, at: usize) -> Result<(LineView, usize), ParseError> {
    match instruction_at(s, run_end(s, at, Class::Space)) {
        Err(e) => Err(e),
        Ok(found) => match line_end_at(s, found.1) {
            Ok(end) => Ok((found.0, end)),
            Err(e) => Err(e),
        },
    }
}

/// Reads a line that holds an instruction.
pub fn parse_line(input: &[char], at: usize) -> (r: Result<(Line, usize), ParseError>)
    requires
        at <= input.len(),
    ensures
        parsed(r) == parse_line_at(input@, at),
        r matches Ok(done) ==> at <= done.1 <= input.len(),
{
    let (line, next) = instruction(input, skip(input, at, Class::Space))?;
    let end = line_end(input, next)?;
    Ok((line, end))
}

/// The label line at `at`: a label, then any spaces and the line feed, if
/// one follows.
pub open spec fn label_line_at(s: Seq<char>, at: usize) -> Result<(LineView, usize), ParseError> {
    match label_at(s, at) {
        Err(e) => Err(e),
        Ok(found) => {
            let end = run_end(s, found.1, Class::Space);
            if char_at(s, end) == Some('\n') {
                Ok((found.0, (end + 1) as usize))
            } else {
                Ok((found.0, end))
            }
        },
    }
}

/// Reads a label and the rest of its line, where nothing follows the label.
fn label_line(input: &[char], at: usize) -> (r: Result<(Line, usize), ParseError>)
    requires
        at <= input.len(),
    ensures
        parsed(r) == label_line_at(input@, at),
        r matches Ok(done) ==> at < done.1 <= input.len(),
{
    let (line, next) = label(input, at)?;
    let end = skip(input, next, Class::Space);
    if at_char(input, end, '\n') {
        Ok((line, end + 1))
    } else {
        Ok((line, end))
    }
}

/// The line at `at`: a comment, a blank line, a label or an instruction,
/// whichever is found first in that order. Where none is found, the reason
/// is that why no instruction was.
pub open spec fn line_at(s: Seq<char>, at: usize) -> Result<(LineView, usize), ParseError> {
    if comment_at(s, at) is Ok {
        comment_at(s, at)
    } else if blank_at(s, at) is Ok {
        blank_at(s, at)
    } else if label_line_at(s, at) is Ok {
        label_line_at(s, at)
    } else {
        parse_line_at(s, at)
    }
}

/// Reads one line.
fn line(input: &[char], at: usize) -> (r: Result<(Line, usize), ParseError>)
    requires
        at <= input.len(),
    ensures
        parsed(r) == line_at(input@, at),
        r matches Ok(done) ==> at <= done.1 <= input.len(),
{
    match comment(input, at) {
        Ok(found) => Ok(found),
        Err(_) => match blank(input, at) {
            Ok(found) => Ok(found),
            Err(_) => match label_line(input, at) {
                Ok(found) => Ok(found),
                Err(_) => parse_line(input, at),
            },
        },
    }
}

/// The lines from `at` to the end of the input. A line that takes nothing
/// from the input ends the parse with the error of a missing line end.
pub open spec fn lines_at(s: Seq<char>, at: usize) -> Result<Seq<LineView>, ParseError>
    decreases s.len() - at,
{
    if at >= s.len() {
        Ok(Seq::empty())
    } else {
        match line_at(s, at) {
            Err(e) => Err(e),
            Ok(found) => if at < found.1 <= s.len() {
                match lines_at(s, found.1) {
                    Err(e) => Err(e),
                    Ok(rest) => Ok(seq![found.0] + rest),
                }
            } else {
                Err(ParseError { at, expected: Expected::EndOfLine })
            },
        }
    }
}

/// The lines of the program `text`.
pub open spec fn program(text: Seq<char>) -> Result<Seq<LineView>, ParseError> {
    lines_at(text, 0)
}

/// The views of the lines in `lines`.
pub open spec fn views_of(lines: Seq<Line>) -> Seq<LineView> {
    Seq::new(lines.len(), |i: int| lines[i]@)
}

/// Whether `r` is the parse that `expected` describes.
pub open spec fn same_program(
    r: Result<Vec<Line>, ParseError>,
    expected: Result<Seq<LineView>, ParseError>,
) -> bool {
    match (r, expected) {
        (Ok(lines), Ok(views)) => views_of(lines@) == views,
        (Err(e), Err(want)) => e == want,
        _ => false,
    }
}

/// Parses a program into its lines. The first line that cannot be read ends
/// the parse with its error.
pub fn parse_string(input: &str) -> (r: Result<Vec<Line>, ParseError>)
    ensures
        same_program(r, program(input@)),
{
    let chars = chars_of(input);
    let text = chars.as_slice();
    let mut lines: Vec<Line> = Vec::new();
    let mut at: usize = 0;
    let ghost mut views: Seq<LineView> = Seq::empty();
    while at < text.len()
        invariant
            at <= text.len(),
            text@ == input@,
            views == views_of(lines@),
            match lines_at(text@, at) {
                Ok(rest) => program(text@) == Ok::<Seq<LineView>, ParseError>(views + rest),
                Err(e) => program(text@) == Err::<Seq<LineView>, ParseError>(e),
            },
        decreases text.len() - at,
    {
        match line(text, at) {
            Err(e) => {
                return Err(e);
            },
            Ok(found) => {
                if found.1 <= at {
                    return Err(ParseError { at, expected: Expected::EndOfLine });
                }
                proof {
                    match lines_at(text@, found.1) {
                        Ok(rest) => {
                            assert(views.push(found.0@) + rest =~= views + (seq![found.0@]
                                + rest));
                        },
                        Err(_) => {},
                    }
                    assert(views_of(lines@.push(found.0)) =~= views.push(found.0@));
                    views = views.push(found.0@);
                }
                lines.push(found.0);
                at = found.1;
            },
        }
    }
    proof {
        assert(views + Seq::<LineView>::empty() =~= views);
    }
    Ok(lines)
}

/// How many bytes the units of a line take.
pub open spec fn units_size(units: Seq<InstructionView>) -> nat
    decreases units.len(),
{
    if units.len() == 0 {
        0
    } else {
        units_size(units.drop_last()) + units.last().size()
    }
}

/// The address `distance` bytes behind `cursor`, wrapping at the top of the
/// address space.
pub open spec fn advanced(cursor: u32, distance: nat) -> u32 {
    address_after(cursor, distance as int)
}

/// What the first pass over a program has worked out after some of its
/// lines.
pub struct Layout {
    pub table: LabelTableView,
    /// The write position in the text segment.
    pub text: u32,
    /// The write position in the data segment.
    pub data: u32,
    /// The segment that lines go into.
    pub current: Segment,
}

impl Layout {
    /// The write position in the current segment.
    pub open spec fn cursor(self) -> u32 {
        match self.current {
            Segment::Text => self.text,
            Segment::Data => self.data,
        }
    }

    /// The layout with the write position of the current segment at `to`.
    pub open spec fn moved(self, to: u32) -> Layout {
        match self.current {
            Segment::Text => Layout { text: to, ..self },
            Segment::Data => Layout { data: to, ..self },
        }
    }

    /// The layout before the first line: both segments at their base, and
    /// the text segment current.
    pub open spec fn start() -> Layout {
        Layout {
            table: LabelTableView { labels: Map::empty(), lines: Seq::empty() },
            text: TEXT_BASE,
            data: DATA_BASE,
            current: Segment::Text,
        }
    }

    /// The layout after the line `line`, which is line `index` of the
    /// program: a label is bound to the write position, a line that emits
    /// bytes is recorded at the write position and moves it by its size, a
    /// segment directive makes its segment current.
    pub open spec fn after(self, index: usize, line: LineView) -> Layout {
        match line {
            LineView::Label(name) => Layout {
                table: LabelTableView {
                    labels: self.table.labels.insert(name, self.cursor()),
                    lines: self.table.lines,
                },
                ..self
            },
            LineView::Instruction(units) => Layout {
                table: LabelTableView {
                    labels: self.table.labels,
                    lines: self.table.lines.insert(
                        place_of(self.table.lines, self.cursor()),
                        (index, self.cursor()),
                    ),
                },
                ..self
            }.moved(advanced(self.cursor(), units_size(units))),
            LineView::Segment(seg) => Layout { current: seg, ..self },
            _ => self,
        }
    }
}

/// The layout after the first `n` lines of `lines`.
pub open spec fn layout_of(lines: Seq<LineView>, n: nat) -> Layout
    decreases n,
{
    if n == 0 {
        Layout::start()
    } else {
        layout_of(lines, (n - 1) as nat).after((n - 1) as usize, lines[n - 1])
    }
}

/// The label table of a program.
pub open spec fn labels_of(lines: Seq<LineView>) -> LabelTableView {
    layout_of(lines, lines.len()).table
}

/// The highest address that a line in `seg` may end at if the segment is
/// not to run into what lies above it.
pub open spec fn segment_limit(seg: Segment) -> int {
    match seg {
        Segment::Text => DATA_BASE as int,
        Segment::Data => 0xffff_ffff,
    }
}

/// Whether a line that is laid out behind `before` ends within its segment.
pub open spec fn line_fits(before: Layout, line: LineView) -> bool {
    match line {
        LineView::Instruction(units) => before.cursor() + units_size(units) <= segment_limit(
            before.current,
        ),
        _ => true,
    }
}

/// Whether line `i` of the program ends within its segment.
pub open spec fn fits_at(lines: Seq<LineView>, i: int) -> bool {
    line_fits(layout_of(lines, i as nat), lines[i])
}

/// Whether every line of the program ends within its segment: the text
/// below the data, the data within the address space.
pub open spec fn fits(lines: Seq<LineView>) -> bool {
    forall|i: int| 0 <= i < lines.len() ==> #[trigger] fits_at(lines, i)
}

/// Whether each entry starts at or below `text` or in the data segment.
spec fn starts_sorted_out(entries: Seq<(usize, u32)>, text: u32) -> bool {
    forall|q: int|
        0 <= q < entries.len() ==> (#[trigger] entries[q]).1 <= text || entries[q].1 >= DATA_BASE
}

/// What holds of the layout after any number of lines of a program that
/// fits: the cursors stay in their segments, the line entries ascend, and
/// each entry starts at or below the text cursor or in the data segment.
spec fn orderly(layout: Layout) -> bool {
    &&& TEXT_BASE <= layout.text <= DATA_BASE <= layout.data
    &&& model::ascending(layout.table.lines)
    &&& starts_sorted_out(layout.table.lines, layout.text)
}

/// An entry that goes to its place among entries that are sorted out leaves
/// them sorted out, under a text cursor that is no lower.
proof fn lemma_insert_sorted_out(
    entries: Seq<(usize, u32)>,
    key: usize,
    start: u32,
    text: u32,
    later: u32,
)
    requires
        model::ascending(entries),
        starts_sorted_out(entries, text),
        text <= later,
        start <= later || start >= DATA_BASE,
    ensures
        starts_sorted_out(entries.insert(place_of(entries, start), (key, start)), later),
{
    model::lemma_place_keeps_order(entries, key, start);
    let at = place_of(entries, start);
    let longer = entries.insert(at, (key, start));
    assert forall|q: int| 0 <= q < longer.len() implies (#[trigger] longer[q]).1 <= later
        || longer[q].1 >= DATA_BASE by {
        if q < at {
            assert(longer[q] == entries[q]);
        } else if q > at {
            assert(longer[q] == entries[q - 1]);
        }
    }
}

/// A line that fits leaves an orderly layout orderly.
proof fn lemma_orderly_step(before: Layout, index: usize, line: LineView)
    requires
        orderly(before),
        line_fits(before, line),
    ensures
        orderly(before.after(index, line)),
{
    match line {
        LineView::Instruction(units) => {
            let cursor = before.cursor();
            let to = advanced(cursor, units_size(units));
            assert(to == cursor + units_size(units));
            model::lemma_place_keeps_order(before.table.lines, index, cursor);
            match before.current {
                Segment::Text => {
                    lemma_insert_sorted_out(before.table.lines, index, cursor, before.text, to);
                },
                Segment::Data => {
                    lemma_insert_sorted_out(
                        before.table.lines,
                        index,
                        cursor,
                        before.text,
                        before.text,
                    );
                },
            }
        },
        _ => {},
    }
}

proof fn lemma_orderly(lines: Seq<LineView>, n: nat)
    requires
        fits(lines),
        n <= lines.len(),
    ensures
        orderly(layout_of(lines, n)),
    decreases n,
{
    if n > 0 {
        lemma_orderly(lines, (n - 1) as nat);
        assert(fits_at(lines, n - 1));
        lemma_orderly_step(layout_of(lines, (n - 1) as nat), (n - 1) as usize, lines[n - 1]);
    }
}

/// The covering entry is one of the entries.
proof fn lemma_covering_bound(entries: Seq<(usize, u32)>, pc: u32)
    ensures
        model::covering_entry(entries, pc) matches Some(best) ==> exists|k: int|
            0 <= k < entries.len() && entries[k] == best,
    decreases entries.len(),
{
    if entries.len() > 0 {
        let front = entries.drop_last();
        lemma_covering_bound(front, pc);
        match model::covering_entry(entries, pc) {
            Some(best) => {
                if best == entries.last() {
                    assert(entries[entries.len() - 1] == best);
                } else {
                    let k = choose|k: int| 0 <= k < front.len() && front[k] == best;
                    assert(entries[k] == best);
                }
            },
            None => {},
        }
    }
}

/// Whether entry `p` is the last of `entries` that starts at or below `pc`.
spec fn last_below(entries: Seq<(usize, u32)>, p: int, pc: u32) -> bool {
    &&& 0 <= p < entries.len()
    &&& entries[p].1 <= pc
    &&& forall|q: int| p < q < entries.len() ==> (#[trigger] entries[q]).1 > pc
}

/// In ascending entries, the entry that covers an address is the last one
/// that starts at or below it.
proof fn lemma_covering_is_last_below(entries: Seq<(usize, u32)>, p: int, pc: u32)
    requires
        model::ascending(entries),
        last_below(entries, p, pc),
    ensures
        model::covering_entry(entries, pc) == Some(entries[p]),
    decreases entries.len(),
{
    let front = entries.drop_last();
    if p == entries.len() - 1 {
        lemma_covering_bound(front, pc);
        match model::covering_entry(front, pc) {
            Some(best) => {
                let k = choose|k: int| 0 <= k < front.len() && front[k] == best;
                assert(entries[k].1 <= entries[p].1);
            },
            None => {},
        }
    } else {
        assert(entries.last().1 > pc);
        assert forall|i: int, j: int| 0 <= i <= j < front.len() implies front[i].1
            <= front[j].1 by {
            assert(entries[i].1 <= entries[j].1);
        }
        assert forall|q: int| p < q < front.len() implies (#[trigger] front[q]).1 > pc by {
            assert(entries[q].1 > pc);
        }
        lemma_covering_is_last_below(front, p, pc);
    }
}

/// The entry of a line that is laid out at the text cursor is the last one
/// that starts at or below the addresses of the line.
proof fn lemma_new_entry_is_last_below(
    entries: Seq<(usize, u32)>,
    key: usize,
    start: u32,
    pc: u32,
    end: int,
)
    requires
        model::ascending(entries),
        starts_sorted_out(entries, start),
        start <= pc < end <= DATA_BASE,
    ensures
        last_below(
            entries.insert(place_of(entries, start), (key, start)),
            place_of(entries, start),
            pc,
        ),
        entries.insert(place_of(entries, start), (key, start))[place_of(entries, start)] == (
            key,
            start,
        ),
{
    model::lemma_place_keeps_order(entries, key, start);
    let at = place_of(entries, start);
    let longer = entries.insert(at, (key, start));
    assert forall|q: int| at < q < longer.len() implies (#[trigger] longer[q]).1 > pc by {
        assert(longer[q] == entries[q - 1]);
        assert(entries[q - 1].1 > start);
    }
}

/// An entry that starts above `pc` goes behind the last entry that starts
/// at or below `pc`, and leaves it the last one.
proof fn lemma_later_entry_goes_behind(
    entries: Seq<(usize, u32)>,
    p: int,
    pc: u32,
    key: usize,
    start: u32,
)
    requires
        model::ascending(entries),
        last_below(entries, p, pc),
        start > pc,
    ensures
        last_below(entries.insert(place_of(entries, start), (key, start)), p, pc),
        entries.insert(place_of(entries, start), (key, start))[p] == entries[p],
{
    model::lemma_place_keeps_order(entries, key, start);
    let at = place_of(entries, start);
    let longer = entries.insert(at, (key, start));
    assert(p < at) by {
        if at <= p {
            assert(entries[p].1 > start);
        }
    }
    assert forall|q: int| p < q < longer.len() implies (#[trigger] longer[q]).1 > pc by {
        if q < at {
            assert(longer[q] == entries[q]);
        } else if q > at {
            assert(longer[q] == entries[q - 1]);
        }
    }
}

/// Whether the entry of line `i`, which starts at `start`, is in `layout`
/// the last entry that starts at or below `pc`, with the text cursor above
/// `pc`.
spec fn settled(layout: Layout, i: usize, start: u32, pc: u32) -> bool {
    &&& layout.text > pc
    &&& exists|p: int| #[trigger]
        last_below(layout.table.lines, p, pc) && layout.table.lines[p] == (i, start)
}

/// A later line leaves the entry of line `i` settled.
proof fn lemma_settled_step(
    before: Layout,
    index: usize,
    line: LineView,
    i: usize,
    start: u32,
    pc: u32,
)
    requires
        orderly(before),
        line_fits(before, line),
        settled(before, i, start, pc),
        pc < DATA_BASE,
    ensures
        settled(before.after(index, line), i, start, pc),
{
    let entries = before.table.lines;
    let p = choose|p: int| #[trigger] last_below(entries, p, pc) && entries[p] == (i, start);
    match line {
        LineView::Instruction(units) => {
            let cursor = before.cursor();
            let to = advanced(cursor, units_size(units));
            assert(to == cursor + units_size(units));
            lemma_later_entry_goes_behind(entries, p, pc, index, cursor);
            let after = before.after(index, line);
            assert(last_below(after.table.lines, p, pc) && after.table.lines[p] == (i, start));
        },
        _ => {
            let after = before.after(index, line);
            assert(last_below(after.table.lines, p, pc) && after.table.lines[p] == (i, start));
        },
    }
}

/// Once line `i` is laid out, its entry stays the last one that starts at
/// or below the addresses of the line.
proof fn lemma_entry_stays_last(lines: Seq<LineView>, i: int, pc: u32, n: nat)
    requires
        fits(lines),
        lines.len() <= usize::MAX,
        0 <= i < n <= lines.len(),
        lines[i] is Instruction,
        layout_of(lines, i as nat).current == Segment::Text,
        layout_of(lines, i as nat).text <= pc < layout_of(lines, i as nat).text + units_size(
            lines[i]->Instruction_0,
        ),
    ensures
        settled(layout_of(lines, n), i as usize, layout_of(lines, i as nat).text, pc),
        pc < DATA_BASE,
    decreases n,
{
    let start = layout_of(lines, i as nat).text;
    let before = layout_of(lines, (n - 1) as nat);
    lemma_orderly(lines, (n - 1) as nat);
    assert(fits_at(lines, n - 1));
    assert(fits_at(lines, i));
    if n == i + 1 {
        let units = lines[i]->Instruction_0;
        let end = start + units_size(units);
        lemma_new_entry_is_last_below(before.table.lines, i as usize, start, pc, end);
        let after = layout_of(lines, n);
        let p = place_of(before.table.lines, start);
        assert(advanced(start, units_size(units)) == end);
        assert(last_below(after.table.lines, p, pc) && after.table.lines[p] == (i as usize, start));
    } else {
        lemma_entry_stays_last(lines, i, pc, (n - 1) as nat);
        lemma_settled_step(before, (n - 1) as usize, lines[n - 1], i as usize, start, pc);
    }
}

/// The label table finds the line of every address in the text segment:
/// where line `i` of a program emits bytes into the text segment, the table
/// of the program gives `i` for each address from the start of the line up
/// to its end. This is stated for programs whose lines end within their
/// segments.
pub proof fn lemma_line_of_spanned_address(lines: Seq<LineView>, i: int, pc: u32)
    requires
        fits(lines),
        lines.len() <= usize::MAX,
        0 <= i < lines.len(),
        lines[i] is Instruction,
        layout_of(lines, i as nat).current == Segment::Text,
        layout_of(lines, i as nat).text <= pc < layout_of(lines, i as nat).text + units_size(
            lines[i]->Instruction_0,
        ),
    ensures
        model::line_of(labels_of(lines).lines, pc) == Some(i as usize),
{
    lemma_entry_stays_last(lines, i, pc, lines.len());
    lemma_orderly(lines, lines.len());
    lemma_orderly(lines, i as nat);
    let entries = labels_of(lines).lines;
    let start = layout_of(lines, i as nat).text;
    let p = choose|p: int| #[trigger]
        last_below(entries, p, pc) && entries[p] == (i as usize, start);
    lemma_covering_is_last_below(entries, p, pc);
}

/// The size of a line's units, as far as it moves a write position.
fn size_of_units(units: &Vec<Instruction>) -> (distance: u32)
    ensures
        forall|cursor: u32| #[trigger]
            advanced(cursor, units_size(views_of_units(units@))) == address_after(
                cursor,
                distance as int,
            ),
{
    let mut distance: u32 = 0;
    let mut i: usize = 0;
    while i < units.len()
        invariant
            i <= units.len(),
            distance as int == units_size(views_of_units(units@).take(i as int)) % 0x1_0000_0000,
        decreases units.len() - i,
    {
        let size = (units[i].len() as u64 % 0x1_0000_0000) as u32;
        proof {
            let views = views_of_units(units@);
            assert(views.take(i + 1).drop_last() =~= views.take(i as int));
            assert(views.take(i + 1).last() == units@[i as int]@);
        }
        distance = distance.wrapping_add(size);
        i += 1;
    }
    proof {
        let views = views_of_units(units@);
        assert(views.take(i as int) =~= views);
    }
    distance
}

/// The views of the units of a line.
pub open spec fn views_of_units(units: Seq<Instruction>) -> Seq<InstructionView> {
    Seq::new(units.len(), |i: int| units[i]@)
}

/// The first pass of the assembler: binds each label to the address at
/// which it stands and records at which address each line starts that emits
/// bytes.
pub fn compute_labels(input: &[Line]) -> (labels: LabelTable)
    ensures
        labels@ == labels_of(views_of(input@)),
{
    let mut labels = LabelTable::default();
    let mut segments = Segments::default();
    let mut current = Segment::Text;
    let mut i: usize = 0;
    assert(labels@ =~= Layout::start().table);
    while i < input.len()
        invariant
            i <= input.len(),
            labels@ == layout_of(views_of(input@), i as nat).table,
            segments.cursor(Segment::Text) == layout_of(views_of(input@), i as nat).text,
            segments.cursor(Segment::Data) == layout_of(views_of(input@), i as nat).data,
            current == layout_of(views_of(input@), i as nat).current,
        decreases input.len() - i,
    {
        let ghost before = layout_of(views_of(input@), i as nat);
        let ghost view = views_of(input@)[i as int];
        assert(view == input@[i as int]@);
        match &input[i] {
            Line::Label(name) => {
                labels.insert_label(name.clone(), segments.position(current));
                assert(labels@ =~= before.after(i, view).table);
            },
            Line::Instruction(units) => {
                assert(view == LineView::Instruction(views_of_units(units@))) by {
                    assert(view->Instruction_0 =~= views_of_units(units@));
                }
                let cursor = segments.position(current);
                labels.insert_line(i, cursor);
                let distance = size_of_units(units);
                let pc = segments.switch(current);
                *pc = cursor.wrapping_add(distance);
                assert(labels@ =~= before.after(i, view).table);
            },
            Line::Segment(seg) => {
                current = *seg;
            },
            _ => {},
        }
        i += 1;
    }
    labels
}

} // verus!
