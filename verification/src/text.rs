//! The mathematical model of the compiled stimulus text.
//!
//! Every statement the compiler can emit is modelled as a sequence of
//! characters (one line, without its trailing newline); a compiled block
//! or program is a sequence of such lines, and `lines_text` renders a
//! line sequence as the final text, one newline after each line.

use vstd::prelude::*;
use crate::model::{Input, Assert, InputWithAsserts};

verus! {

/// The line separator.
pub open spec fn nl() -> Seq<char> {
    "\n"@
}

/// The assignment statement that drives the reset signal.
pub open spec fn reset_line(b: bool) -> Seq<char> {
    if b {
        "\treset <= '1';"@
    } else {
        "\treset <= '0';"@
    }
}

/// The lower-case hexadecimal digit for a nibble value.
pub open spec fn hex_digit(n: int) -> Seq<char> {
    if n == 0 {
        "0"@
    } else if n == 1 {
        "1"@
    } else if n == 2 {
        "2"@
    } else if n == 3 {
        "3"@
    } else if n == 4 {
        "4"@
    } else if n == 5 {
        "5"@
    } else if n == 6 {
        "6"@
    } else if n == 7 {
        "7"@
    } else if n == 8 {
        "8"@
    } else if n == 9 {
        "9"@
    } else if n == 10 {
        "a"@
    } else if n == 11 {
        "b"@
    } else if n == 12 {
        "c"@
    } else if n == 13 {
        "d"@
    } else if n == 14 {
        "e"@
    } else {
        "f"@
    }
}

/// The assignment statement that drives the number signal, as a
/// two-digit hexadecimal bit-vector literal.
pub open spec fn number_line(n: u8) -> Seq<char> {
    "\tnumber <= x\""@ + hex_digit(n as int / 16) + hex_digit(n as int % 16) + "\";"@
}

/// The assignment statement that drives the first signal.
pub open spec fn first_line(b: bool) -> Seq<char> {
    if b {
        "\tfirst <= '1';"@
    } else {
        "\tfirst <= '0';"@
    }
}

/// The statement that advances simulated time by one clock period.
pub open spec fn wait_line() -> Seq<char> {
    "\tWAIT FOR CLK_PERIOD;"@
}

/// The assertion statement that checks the unlock output signal.
pub open spec fn unlock_line(b: bool) -> Seq<char> {
    if b {
        "\tASSERT unlock = '1' REPORT \"Unlock error\" SEVERITY error;"@
    } else {
        "\tASSERT unlock = '0' REPORT \"Unlock error\" SEVERITY error;"@
    }
}

/// The assertion statement that checks the warning output signal.
pub open spec fn warning_line(b: bool) -> Seq<char> {
    if b {
        "\tASSERT warning = '1' REPORT \"Warning error\" SEVERITY error;"@
    } else {
        "\tASSERT warning = '0' REPORT \"Warning error\" SEVERITY error;"@
    }
}

/// The statement that stops the simulation.
pub open spec fn stop_line() -> Seq<char> {
    "STOP;"@
}

/// Renders a sequence of lines as text: each line followed by one newline.
pub open spec fn lines_text(lines: Seq<Seq<char>>) -> Seq<char>
    decreases lines.len(),
{
    if lines.len() == 0 {
        Seq::empty()
    } else {
        lines[0] + nl() + lines_text(lines.drop_first())
    }
}

/// The full assignment block: all three signal assignments, in the fixed
/// order reset, number, first. Emitted for the first cycle of a program.
pub open spec fn full_assign_lines(cur: Input) -> Seq<Seq<char>> {
    seq![reset_line(cur.reset), number_line(cur.number), first_line(cur.first)]
}

/// The differential assignment block: an assignment for exactly the
/// fields whose value differs from the previous cycle, in the fixed
/// order reset, number, first.
pub open spec fn diff_assign_lines(prev: Input, cur: Input) -> Seq<Seq<char>> {
    (if cur.reset != prev.reset {
        seq![reset_line(cur.reset)]
    } else {
        Seq::empty()
    }) + (if cur.number != prev.number {
        seq![number_line(cur.number)]
    } else {
        Seq::empty()
    }) + (if cur.first != prev.first {
        seq![first_line(cur.first)]
    } else {
        Seq::empty()
    })
}

/// The assignment block of one cycle: full when there is no previous
/// cycle, differential against the previous cycle otherwise.
pub open spec fn assign_lines(prev: Option<Input>, cur: Input) -> Seq<Seq<char>> {
    match prev {
        None => full_assign_lines(cur),
        Some(p) => diff_assign_lines(p, cur),
    }
}

/// The assertion block of one cycle: two assertion statements, unlock
/// then warning, when the entry carries a check; nothing otherwise.
pub open spec fn check_lines(a: Option<Assert>) -> Seq<Seq<char>> {
    match a {
        None => Seq::empty(),
        Some(chk) => seq![unlock_line(chk.unlock), warning_line(chk.warning)],
    }
}

/// What follows the assignments of one cycle: the clock-period advance,
/// then the assertion block.
pub open spec fn tail_lines(a: Option<Assert>) -> Seq<Seq<char>> {
    seq![wait_line()] + check_lines(a)
}

/// The complete compiled block of one cycle.
pub open spec fn block_lines(prev: Option<Input>, e: InputWithAsserts) -> Seq<Seq<char>> {
    assign_lines(prev, e.input) + tail_lines(e.asserts)
}

/// The compiled blocks of a whole entry sequence, each cycle compiled
/// against the inputs of the cycle before it.
pub open spec fn body_lines(entries: Seq<InputWithAsserts>, prev: Option<Input>) -> Seq<Seq<char>>
    decreases entries.len(),
{
    if entries.len() == 0 {
        Seq::empty()
    } else {
        block_lines(prev, entries[0]) + body_lines(entries.drop_first(), Some(entries[0].input))
    }
}

/// The inputs a given entry is compiled against: nothing for the first
/// entry, the previous entry's inputs for every later one.
pub open spec fn prev_at(entries: Seq<InputWithAsserts>, i: int) -> Option<Input> {
    if i == 0 {
        None
    } else {
        Some(entries[i - 1].input)
    }
}

/// The compiled block of the entry at one position of a program.
pub open spec fn block_at(entries: Seq<InputWithAsserts>, i: int) -> Seq<Seq<char>> {
    block_lines(prev_at(entries, i), entries[i])
}

/// The compiled blocks of the entries from one position onward.
pub open spec fn blocks_from(entries: Seq<InputWithAsserts>, i: int) -> Seq<Seq<char>>
    decreases entries.len() - i,
{
    if i < 0 || i >= entries.len() {
        Seq::empty()
    } else {
        block_at(entries, i) + blocks_from(entries, i + 1)
    }
}

/// The line model of a whole compiled program: the body, then a blank
/// line, then the stop statement.
pub open spec fn program_lines(entries: Seq<InputWithAsserts>) -> Seq<Seq<char>> {
    body_lines(entries, None) + seq![Seq::empty(), stop_line()]
}

/// The compiled stimulus text of a program: the rendered body followed
/// by the terminal stop statement.
pub open spec fn program_text(entries: Seq<InputWithAsserts>) -> Seq<char> {
    lines_text(body_lines(entries, None)) + "\nSTOP;\n"@
}

/// Rendering distributes over concatenation of line sequences.
pub proof fn lemma_lines_text_add(a: Seq<Seq<char>>, b: Seq<Seq<char>>)
    ensures
        lines_text(a + b) == lines_text(a) + lines_text(b),
    decreases a.len(),
{
    if a.len() == 0 {
        assert(a + b =~= b);
        assert(lines_text(a) + lines_text(b) =~= lines_text(b));
    } else {
        assert((a + b).drop_first() =~= a.drop_first() + b);
        lemma_lines_text_add(a.drop_first(), b);
        assert(lines_text(a + b) =~= lines_text(a) + lines_text(b));
    }
}

/// Rendering a single line yields the line and its newline.
pub proof fn lemma_lines_text_single(l: Seq<char>)
    ensures
        lines_text(seq![l]) == l + nl(),
{
    let s = seq![l];
    assert(s.drop_first() =~= Seq::<Seq<char>>::empty());
    assert(lines_text(s.drop_first()) == Seq::<char>::empty());
    assert(lines_text(s) == l + nl() + lines_text(s.drop_first()));
    assert(lines_text(s) =~= l + nl());
}

/// Rendering after appending one line appends the line and its newline.
pub proof fn lemma_lines_text_push(lines: Seq<Seq<char>>, l: Seq<char>)
    ensures
        lines_text(lines.push(l)) == lines_text(lines) + l + nl(),
{
    assert(lines.push(l) =~= lines + seq![l]);
    lemma_lines_text_add(lines, seq![l]);
    lemma_lines_text_single(l);
    assert(lines_text(lines) + (l + nl()) =~= lines_text(lines) + l + nl());
}

/// The compiled blocks from a position onward are the compiled body of
/// the remaining entries, each against the entry before it.
proof fn lemma_blocks_from_is_body(entries: Seq<InputWithAsserts>, i: int)
    requires
        0 <= i <= entries.len(),
    ensures
        blocks_from(entries, i) == body_lines(entries.skip(i), prev_at(entries, i)),
    decreases entries.len() - i,
{
    if i == entries.len() {
        assert(entries.skip(i) =~= Seq::<InputWithAsserts>::empty());
    } else {
        let rest = entries.skip(i);
        assert(rest[0] == entries[i]);
        assert(rest.drop_first() =~= entries.skip(i + 1));
        lemma_blocks_from_is_body(entries, i + 1);
        assert(prev_at(entries, i + 1) == Some(entries[i].input));
        assert(body_lines(rest, prev_at(entries, i)) == block_lines(prev_at(entries, i), entries[i])
            + body_lines(entries.skip(i + 1), Some(entries[i].input)));
    }
}

/// The compiled body of a program is the concatenation of its entries'
/// blocks, in order: the first entry's block compiled against no
/// previous cycle, every later entry's against the entry before it.
pub proof fn lemma_body_is_blocks(entries: Seq<InputWithAsserts>)
    ensures
        body_lines(entries, None) == blocks_from(entries, 0),
{
    lemma_blocks_from_is_body(entries, 0);
    assert(entries.skip(0) =~= entries);
}

} // verus!
