//! The library's stated laws: what the loader recovers from each
//! element shape, how the differential compiler behaves on unchanged
//! and changed inputs, where assertions appear, and how every compiled
//! program terminates.

use vstd::prelude::*;
use crate::model::{Input, Assert, InputWithAsserts};
use crate::text::{
    reset_line, number_line, first_line, wait_line, unlock_line, warning_line, stop_line,
    lines_text, full_assign_lines, diff_assign_lines, assign_lines, check_lines, tail_lines,
    block_lines, body_lines, prev_at, block_at, program_lines, program_text,
    lemma_lines_text_add, lemma_lines_text_push,
};
use crate::loader::{Field, elem_error, entry_of, in_range, is_list, list_of};

verus! {

/// Every valid three-scalar element loads, and loads to the entry whose
/// reset and first flags are the first and third integers' nonzero-ness,
/// whose number keeps the second integer's 8-bit magnitude, and which
/// carries no output check.
pub proof fn lemma_simple_element_shape(e: Seq<Field>, a: i64, b: i64, c: i64)
    requires
        e.len() == 3,
        e[0] == Field::Int(a),
        e[1] == Field::Int(b),
        e[2] == Field::Int(c),
        in_range(a),
        in_range(b),
        in_range(c),
    ensures
        elem_error(e) is None,
        entry_of(e) == (InputWithAsserts {
            input: Input { reset: a != 0, number: b as u8, first: c != 0 },
            asserts: None,
        }),
{
}

/// Every valid four-field element loads, and loads to the same input
/// mapping as the three-scalar shape plus the output check built from
/// the nested pair's nonzero-ness: unlock from the first entry, warning
/// from the second.
pub proof fn lemma_asserted_element_shape(e: Seq<Field>, a: i64, b: i64, c: i64, u: i64, w: i64)
    requires
        e.len() == 4,
        e[0] == Field::Int(a),
        e[1] == Field::Int(b),
        e[2] == Field::Int(c),
        is_list(e[3]),
        list_of(e[3]) == seq![u, w],
        in_range(a),
        in_range(b),
        in_range(c),
        in_range(u),
        in_range(w),
    ensures
        elem_error(e) is None,
        entry_of(e) == (InputWithAsserts {
            input: Input { reset: a != 0, number: b as u8, first: c != 0 },
            asserts: Some(Assert { unlock: u != 0, warning: w != 0 }),
        }),
{
    assert forall|i: int| 0 <= i < list_of(e[3]).len() implies in_range(
        #[trigger] list_of(e[3])[i],
    ) by {
        if i == 0 {
            assert(list_of(e[3])[0] == u);
        } else {
            assert(list_of(e[3])[1] == w);
        }
    }
}

/// The first entry of any nonempty program compiles to exactly three
/// assignment statements, one per signal, in the fixed order reset,
/// number, first, whatever the values.
pub proof fn lemma_first_entry_completeness(entries: Seq<InputWithAsserts>)
    requires
        entries.len() > 0,
    ensures
        block_at(entries, 0) == full_assign_lines(entries[0].input) + tail_lines(
            entries[0].asserts,
        ),
        full_assign_lines(entries[0].input).len() == 3,
        full_assign_lines(entries[0].input)[0] == reset_line(entries[0].input.reset),
        full_assign_lines(entries[0].input)[1] == number_line(entries[0].input.number),
        full_assign_lines(entries[0].input)[2] == first_line(entries[0].input.first),
{
}

/// An entry whose inputs equal the previous entry's compiles to a block
/// with zero assignment statements: only the clock advance and any
/// assertions.
pub proof fn lemma_differential_minimality(entries: Seq<InputWithAsserts>, i: int)
    requires
        1 <= i < entries.len(),
        entries[i].input == entries[i - 1].input,
    ensures
        assign_lines(prev_at(entries, i), entries[i].input) == Seq::<Seq<char>>::empty(),
        block_at(entries, i) == tail_lines(entries[i].asserts),
{
    assert(diff_assign_lines(entries[i - 1].input, entries[i].input) =~= Seq::<Seq<char>>::empty());
    assert(block_at(entries, i) =~= tail_lines(entries[i].asserts));
}

/// An entry differing from the previous one in exactly one field
/// compiles to a block with exactly one assignment statement: the one
/// for that field, carrying its new value.
pub proof fn lemma_differential_correctness(entries: Seq<InputWithAsserts>, i: int)
    requires
        1 <= i < entries.len(),
    ensures
        ({
            let p = entries[i - 1].input;
            let c = entries[i].input;
            &&& (c.reset != p.reset && c.number == p.number && c.first == p.first ==> block_at(
                entries,
                i,
            ) == seq![reset_line(c.reset)] + tail_lines(entries[i].asserts))
            &&& (c.reset == p.reset && c.number != p.number && c.first == p.first ==> block_at(
                entries,
                i,
            ) == seq![number_line(c.number)] + tail_lines(entries[i].asserts))
            &&& (c.reset == p.reset && c.number == p.number && c.first != p.first ==> block_at(
                entries,
                i,
            ) == seq![first_line(c.first)] + tail_lines(entries[i].asserts))
        }),
{
    let p = entries[i - 1].input;
    let c = entries[i].input;
    if c.reset != p.reset && c.number == p.number && c.first == p.first {
        assert(diff_assign_lines(p, c) =~= seq![reset_line(c.reset)]);
    }
    if c.reset == p.reset && c.number != p.number && c.first == p.first {
        assert(diff_assign_lines(p, c) =~= seq![number_line(c.number)]);
    }
    if c.reset == p.reset && c.number == p.number && c.first != p.first {
        assert(diff_assign_lines(p, c) =~= seq![first_line(c.first)]);
    }
}

/// An entry's compiled block holds exactly two assertion statements,
/// unlock then warning, when the entry carries an output check, and
/// none otherwise; they follow the clock advance.
pub proof fn lemma_assertion_presence(entries: Seq<InputWithAsserts>, i: int)
    requires
        0 <= i < entries.len(),
    ensures
        (match entries[i].asserts {
            Some(chk) => check_lines(entries[i].asserts) == seq![
                unlock_line(chk.unlock),
                warning_line(chk.warning),
            ],
            None => check_lines(entries[i].asserts) == Seq::<Seq<char>>::empty(),
        }),
        block_at(entries, i) == assign_lines(prev_at(entries, i), entries[i].input) + seq![
            wait_line(),
        ] + check_lines(entries[i].asserts),
{
    assert(block_at(entries, i) =~= assign_lines(prev_at(entries, i), entries[i].input) + seq![
        wait_line(),
    ] + check_lines(entries[i].asserts));
}

/// A statement line of a compiled block: nonempty, and opening with the
/// indentation that every stimulus statement carries.
pub open spec fn tabbed(l: Seq<char>) -> bool {
    l.len() > 0 && l[0] == '\t'
}

/// Every statement a cycle's block can hold is an indented line.
proof fn lemma_block_lines_tabbed(prev: Option<Input>, e: InputWithAsserts)
    ensures
        forall|i: int|
            0 <= i < block_lines(prev, e).len() ==> tabbed(#[trigger] block_lines(prev, e)[i]),
{
    reveal_strlit("\treset <= '1';");
    reveal_strlit("\treset <= '0';");
    reveal_strlit("\tnumber <= x\"");
    reveal_strlit("\tfirst <= '1';");
    reveal_strlit("\tfirst <= '0';");
    reveal_strlit("\tWAIT FOR CLK_PERIOD;");
    reveal_strlit("\tASSERT unlock = '1' REPORT \"Unlock error\" SEVERITY error;");
    reveal_strlit("\tASSERT unlock = '0' REPORT \"Unlock error\" SEVERITY error;");
    reveal_strlit("\tASSERT warning = '1' REPORT \"Warning error\" SEVERITY error;");
    reveal_strlit("\tASSERT warning = '0' REPORT \"Warning error\" SEVERITY error;");
    assert forall|b: bool| tabbed(reset_line(b)) && tabbed(first_line(b)) && tabbed(
        unlock_line(b),
    ) && tabbed(warning_line(b)) by {}
    assert forall|n: u8| tabbed(#[trigger] number_line(n)) by {
        assert(number_line(n)[0] == '\t');
    }
    assert(tabbed(wait_line()));
}

/// Every statement of a compiled body is an indented line.
proof fn lemma_body_lines_tabbed(entries: Seq<InputWithAsserts>, prev: Option<Input>)
    ensures
        forall|i: int|
            0 <= i < body_lines(entries, prev).len() ==> tabbed(
                #[trigger] body_lines(entries, prev)[i],
            ),
    decreases entries.len(),
{
    if entries.len() > 0 {
        lemma_block_lines_tabbed(prev, entries[0]);
        lemma_body_lines_tabbed(entries.drop_first(), Some(entries[0].input));
        let blk = block_lines(prev, entries[0]);
        let rest = body_lines(entries.drop_first(), Some(entries[0].input));
        assert forall|i: int| 0 <= i < body_lines(entries, prev).len() implies tabbed(
            #[trigger] body_lines(entries, prev)[i],
        ) by {
            if i < blk.len() {
                assert(body_lines(entries, prev)[i] == blk[i]);
            } else {
                assert(body_lines(entries, prev)[i] == rest[i - blk.len()]);
            }
        }
    }
}

/// The compiled text of any program, the empty one included, ends with
/// exactly one stop statement: the last line of its line model is the
/// stop statement, no earlier line is, and the rendered text is the body
/// followed by the terminal stop text.
pub proof fn lemma_termination(entries: Seq<InputWithAsserts>)
    ensures
        program_text(entries) == lines_text(program_lines(entries)),
        program_lines(entries).len() >= 1,
        program_lines(entries).last() == stop_line(),
        forall|i: int|
            0 <= i < program_lines(entries).len() - 1 ==> #[trigger] program_lines(entries)[i]
                != stop_line(),
{
    reveal_strlit("STOP;");
    reveal_strlit("\n");
    reveal_strlit("\nSTOP;\n");
    let body = body_lines(entries, None);
    let tailing = seq![Seq::<char>::empty(), stop_line()];
    lemma_lines_text_add(body, tailing);
    let l0 = Seq::<Seq<char>>::empty();
    let l1 = l0.push(Seq::<char>::empty());
    lemma_lines_text_push(l0, Seq::<char>::empty());
    lemma_lines_text_push(l1, stop_line());
    assert(l1.push(stop_line()) =~= tailing);
    assert(lines_text(tailing) =~= "\nSTOP;\n"@);
    assert(program_text(entries) == lines_text(program_lines(entries)));
    lemma_body_lines_tabbed(entries, None);
    assert(stop_line().len() == 5);
    assert(stop_line()[0] == 'S');
    assert forall|i: int| 0 <= i < program_lines(entries).len() - 1 implies #[trigger] program_lines(
        entries,
    )[i] != stop_line() by {
        if i < body.len() {
            assert(tabbed(body[i]));
            assert(program_lines(entries)[i][0] == '\t');
        } else {
            assert(program_lines(entries)[i].len() == 0);
        }
    }
}

} // verus!
