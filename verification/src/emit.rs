//! The differential stimulus compiler: renders a stimulus program as
//! statement text, emitting a signal assignment only when the signal's
//! value changed since the previous clock period.

use vstd::prelude::*;
use crate::model::{Input, InputWithAsserts, InputListWithAsserts};
use crate::text::{
    nl, reset_line, hex_digit, number_line, first_line, wait_line, unlock_line, warning_line,
    lines_text, full_assign_lines, diff_assign_lines, tail_lines, block_lines,
    body_lines, program_text, lemma_lines_text_add, lemma_lines_text_single,
    lemma_lines_text_push,
};

verus! {

/// The lower-case hexadecimal digit of one nibble.
fn hex_digit_str(n: u8) -> (r: &'static str)
    requires
        n < 16,
    ensures
        r@ == hex_digit(n as int),
{
    if n == 0 {
        "0"
    } else if n == 1 {
        "1"
    } else if n == 2 {
        "2"
    } else if n == 3 {
        "3"
    } else if n == 4 {
        "4"
    } else if n == 5 {
        "5"
    } else if n == 6 {
        "6"
    } else if n == 7 {
        "7"
    } else if n == 8 {
        "8"
    } else if n == 9 {
        "9"
    } else if n == 10 {
        "a"
    } else if n == 11 {
        "b"
    } else if n == 12 {
        "c"
    } else if n == 13 {
        "d"
    } else if n == 14 {
        "e"
    } else {
        "f"
    }
}

/// Appends one statement line and its newline.
fn push_line(acc: &mut String, line: &str)
    ensures
        final(acc)@ == old(acc)@ + line@ + nl(),
{
    acc.append(line);
    acc.append("\n");
    proof {
        assert(old(acc)@ + line@ + "\n"@ =~= old(acc)@ + line@ + nl());
    }
}

impl Input {
    /// The assignment statement for the reset signal.
    pub fn emit_reset(&self) -> (r: String)
        ensures
            r@ == reset_line(self.reset),
    {
        if self.reset {
            String::from_str("\treset <= '1';")
        } else {
            String::from_str("\treset <= '0';")
        }
    }

    /// The assignment statement for the number signal, its value written
    /// as a two-digit hexadecimal literal.
    pub fn emit_number(&self) -> (r: String)
        ensures
            r@ == number_line(self.number),
    {
        let hi: u8 = self.number / 16;
        let lo: u8 = self.number % 16;
        String::from_str("\tnumber <= x\"").concat(hex_digit_str(hi)).concat(
            hex_digit_str(lo),
        ).concat("\";")
    }

    /// The assignment statement for the first signal.
    pub fn emit_first(&self) -> (r: String)
        ensures
            r@ == first_line(self.first),
    {
        if self.first {
            String::from_str("\tfirst <= '1';")
        } else {
            String::from_str("\tfirst <= '0';")
        }
    }

    /// The full assignment block: all three signals, in the fixed order
    /// reset, number, first. Used for the first cycle of a program.
    pub fn emit(&self) -> (r: String)
        ensures
            r@ == lines_text(full_assign_lines(*self)),
    {
        let mut acc = String::new();
        push_line(&mut acc, self.emit_reset().as_str());
        push_line(&mut acc, self.emit_number().as_str());
        push_line(&mut acc, self.emit_first().as_str());
        proof {
            let ghost l0 = Seq::<Seq<char>>::empty();
            let ghost l1 = l0.push(reset_line(self.reset));
            let ghost l2 = l1.push(number_line(self.number));
            let ghost l3 = l2.push(first_line(self.first));
            lemma_lines_text_push(l0, reset_line(self.reset));
            lemma_lines_text_push(l1, number_line(self.number));
            lemma_lines_text_push(l2, first_line(self.first));
            assert(l3 =~= full_assign_lines(*self));
            assert(acc@ =~= lines_text(full_assign_lines(*self)));
        }
        acc
    }

    /// The differential assignment block: an assignment for exactly the
    /// signals whose value differs from the previous cycle, in the fixed
    /// order reset, number, first.
    pub fn emit_diff(&self, prev: &Input) -> (r: String)
        ensures
            r@ == lines_text(diff_assign_lines(*prev, *self)),
    {
        let mut acc = String::new();
        let ghost mut lines = Seq::<Seq<char>>::empty();
        if self.reset != prev.reset {
            push_line(&mut acc, self.emit_reset().as_str());
            proof {
                lemma_lines_text_push(lines, reset_line(self.reset));
                lines = lines.push(reset_line(self.reset));
            }
        }
        if self.number != prev.number {
            push_line(&mut acc, self.emit_number().as_str());
            proof {
                lemma_lines_text_push(lines, number_line(self.number));
                lines = lines.push(number_line(self.number));
            }
        }
        if self.first != prev.first {
            push_line(&mut acc, self.emit_first().as_str());
            proof {
                lemma_lines_text_push(lines, first_line(self.first));
                lines = lines.push(first_line(self.first));
            }
        }
        proof {
            assert(lines =~= diff_assign_lines(*prev, *self));
            assert(acc@ == lines_text(lines));
        }
        acc
    }
}

impl InputWithAsserts {
    /// The complete compiled block of a first cycle: the full assignment
    /// block, the clock-period advance, and the entry's assertions.
    pub fn emit(&self) -> (r: String)
        ensures
            r@ == lines_text(block_lines(None, *self)),
    {
        let r = self.emit_base(self.input.emit());
        proof {
            lemma_lines_text_add(full_assign_lines(self.input), tail_lines(self.asserts));
        }
        r
    }

    /// The complete compiled block of a later cycle: the differential
    /// assignment block against the previous entry, the clock-period
    /// advance, and the entry's assertions.
    pub fn emit_diff(&self, prev: &InputWithAsserts) -> (r: String)
        ensures
            r@ == lines_text(block_lines(Some(prev.input), *self)),
    {
        let r = self.emit_base(self.input.emit_diff(&prev.input));
        proof {
            lemma_lines_text_add(diff_assign_lines(prev.input, self.input), tail_lines(self.asserts));
        }
        r
    }

    /// Appends to an already-rendered assignment block the clock-period
    /// advance and, when the entry carries a check, its two assertion
    /// statements, unlock first.
    pub fn emit_base(&self, assigns: String) -> (r: String)
        ensures
            r@ == assigns@ + lines_text(tail_lines(self.asserts)),
    {
        let mut acc = assigns;
        push_line(&mut acc, "\tWAIT FOR CLK_PERIOD;");
        let ghost mut lines = seq![wait_line()];
        proof {
            lemma_lines_text_single(wait_line());
            assert(acc@ == assigns@ + lines_text(lines));
        }
        if let Some(asserts) = self.asserts {
            if asserts.unlock {
                push_line(&mut acc, "\tASSERT unlock = '1' REPORT \"Unlock error\" SEVERITY error;");
            } else {
                push_line(&mut acc, "\tASSERT unlock = '0' REPORT \"Unlock error\" SEVERITY error;");
            }
            proof {
                lemma_lines_text_push(lines, unlock_line(asserts.unlock));
                lines = lines.push(unlock_line(asserts.unlock));
                assert(acc@ =~= assigns@ + lines_text(lines));
            }
            if asserts.warning {
                push_line(&mut acc, "\tASSERT warning = '1' REPORT \"Warning error\" SEVERITY error;");
            } else {
                push_line(&mut acc, "\tASSERT warning = '0' REPORT \"Warning error\" SEVERITY error;");
            }
            proof {
                lemma_lines_text_push(lines, warning_line(asserts.warning));
                lines = lines.push(warning_line(asserts.warning));
                assert(acc@ =~= assigns@ + lines_text(lines));
            }
        }
        proof {
            assert(lines =~= tail_lines(self.asserts));
        }
        acc
    }
}

/// The inputs of the last entry of a prefix, against which the next
/// entry's block is compiled; absent for an empty prefix.
pub open spec fn last_input(entries: Seq<InputWithAsserts>) -> Option<Input> {
    if entries.len() == 0 {
        None
    } else {
        Some(entries.last().input)
    }
}

/// Compiling one more entry appends that entry's block, compiled against
/// the inputs of the entry before it.
proof fn lemma_body_lines_push(entries: Seq<InputWithAsserts>, prev: Option<Input>, e: InputWithAsserts)
    ensures
        body_lines(entries.push(e), prev) == body_lines(entries, prev) + block_lines(
            (if entries.len() == 0 {
                prev
            } else {
                Some(entries.last().input)
            }),
            e,
        ),
    decreases entries.len(),
{
    let s = entries.push(e);
    if entries.len() == 0 {
        assert(s.drop_first() =~= Seq::<InputWithAsserts>::empty());
        assert(body_lines(s.drop_first(), Some(e.input)) == Seq::<Seq<char>>::empty());
        assert(body_lines(s, prev) =~= body_lines(entries, prev) + block_lines(prev, e));
    } else {
        assert(s.drop_first() =~= entries.drop_first().push(e));
        lemma_body_lines_push(entries.drop_first(), Some(entries[0].input), e);
        if entries.len() == 1 {
            assert(entries[0] == entries.last());
        } else {
            assert(entries.drop_first().last() == entries.last());
        }
        assert(body_lines(s, prev) =~= body_lines(entries, prev) + block_lines(
            Some(entries.last().input),
            e,
        ));
    }
}

impl InputListWithAsserts {
    /// Compiles the whole program: every entry's block in order, the
    /// first against no previous cycle and each later one against the
    /// entry before it, followed by the terminal stop statement.
    pub fn emit(&self) -> (r: String)
        ensures
            r@ == program_text(self.inputs@),
    {
        let mut acc = String::new();
        let mut prev: Option<InputWithAsserts> = None;
        let n = self.inputs.len();
        let mut i: usize = 0;
        while i < n
            invariant
                i <= n,
                n == self.inputs.len(),
                acc@ == lines_text(body_lines(self.inputs@.take(i as int), None)),
                (match prev {
                    None => i == 0,
                    Some(p) => i > 0 && p == self.inputs@[i - 1],
                }),
            decreases n - i,
        {
            let e = self.inputs[i];
            let block = match &prev {
                None => e.emit(),
                Some(p) => e.emit_diff(p),
            };
            acc.append(block.as_str());
            proof {
                let taken = self.inputs@.take(i as int);
                let ghost bprev = last_input(taken);
                lemma_body_lines_push(taken, None, e);
                lemma_lines_text_add(body_lines(taken, None), block_lines(bprev, e));
                assert(taken.push(e) =~= self.inputs@.take(i + 1));
            }
            prev = Some(e);
            i = i + 1;
        }
        proof {
            assert(self.inputs@.take(n as int) =~= self.inputs@);
        }
        acc.append("\nSTOP;\n");
        acc
    }
}

} // verus!
