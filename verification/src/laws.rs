//! Properties of the language that hold of every program and every state,
//! proved from the definitions of the semantics.
use crate::instruction::InstructionView;
use crate::interpreter::interpretation;
use crate::machine::STEP_LIMIT;
use crate::number::{decimal, literal_value};
use crate::program::{compile, ProgramView};
use crate::semantics::{at_end, bare_quote, halted, message, message_from, operand_value,
    piece_text, quotient, result, run, step, State};
use crate::text::{has_match, stripped, stripped_end, stripped_start, Pattern};
use vstd::arithmetic::div_mod::lemma_fundamental_div_mod;
use vstd::prelude::*;

verus! {

/// The text written by the last message instruction among the first `steps`
/// instructions of the run from `start`, or the text that `start` held if none of
/// them was a message instruction.
pub open spec fn last_message(program: ProgramView, start: State, steps: nat) -> Seq<char>
    decreases steps,
{
    if steps == 0 {
        start.output
    } else {
        let before = run(program, start, (steps - 1) as nat);
        if !halted(program, before) {
            match program.instructions[before.pointer as int] {
                InstructionView::Msg(pieces) => message(pieces, before.registers),
                _ => last_message(program, start, (steps - 1) as nat),
            }
        } else {
            last_message(program, start, (steps - 1) as nat)
        }
    }
}

/// One more step of a run is one `step` from where the run had come.
pub proof fn law_run_extends(program: ProgramView, start: State, steps: nat)
    ensures
        run(program, start, steps + 1) == step(program, run(program, start, steps)),
    decreases steps,
{
    if steps > 0 && !halted(program, start) {
        law_run_extends(program, step(program, start), (steps - 1) as nat);
    } else if steps == 0 && !halted(program, start) {
        assert(run(program, step(program, start), 0) == step(program, start));
    }
}

/// A run that has stopped stays where it is: more steps change nothing.
pub proof fn law_stopped_run_stays(program: ProgramView, start: State, steps: nat, more: nat)
    requires
        halted(program, run(program, start, steps)),
    ensures
        run(program, start, steps + more) == run(program, start, steps),
    decreases more,
{
    if more > 0 {
        law_stopped_run_stays(program, start, steps, (more - 1) as nat);
        law_run_extends(program, start, (steps + more - 1) as nat);
    }
}

/// At every point of a run the output is the text of the last message
/// instruction executed so far. So a run that stands at an `end` yields a result,
/// and the result is the text of the last message executed before that `end`.
pub proof fn law_result_is_last_message(program: ProgramView, start: State, steps: nat)
    ensures
        run(program, start, steps).output == last_message(program, start, steps),
        at_end(program, run(program, start, steps)) ==> result(
            program,
            run(program, start, steps),
        ) == Some(last_message(program, start, steps)),
    decreases steps,
{
    if steps > 0 {
        law_result_is_last_message(program, start, (steps - 1) as nat);
        law_run_extends(program, start, (steps - 1) as nat);
    }
}

/// Interpreting a text yields the last message of the run of its program where
/// that run comes to stand at an `end`, and nothing in every other case: where a
/// line lacks an operand, where a fault stops the run, where the run goes past
/// the last instruction, and where it has not stopped within the step limit.
pub proof fn law_interpretation(source: Seq<char>)
    ensures
        match compile(source) {
            Ok(program) => interpretation(source) == if at_end(
                program,
                run(program, State::initial(), STEP_LIMIT as nat),
            ) {
                Some(last_message(program, State::initial(), STEP_LIMIT as nat))
            } else {
                None::<Seq<char>>
            },
            Err(_) => interpretation(source) is None,
        },
{
    match compile(source) {
        Ok(program) => {
            law_result_is_last_message(program, State::initial(), STEP_LIMIT as nat);
        },
        Err(_) => {},
    }
}

/// A run that never stands at an `end` yields no result, however long it goes on.
pub proof fn law_no_end_no_result(program: ProgramView, start: State, steps: nat)
    requires
        forall|k: nat| k <= steps ==> !at_end(program, #[trigger] run(program, start, k)),
    ensures
        result(program, run(program, start, steps)) is None,
{
}

/// A result is yielded exactly by a state that stands at an `end`; a state that
/// has run past the last instruction, or that a fault stopped, yields none.
pub proof fn law_result_only_at_end(program: ProgramView, state: State)
    ensures
        result(program, state) is Some <==> at_end(program, state),
        state.fault is Some ==> result(program, state) is None,
        state.pointer >= program.instructions.len() ==> result(program, state) is None,
{
}

/// A compare never sets both flags. It sets the zero flag alone where the
/// operands are equal and the carry flag alone where the left one is smaller, and
/// it leaves both clear exactly when the left operand is the greater. It changes
/// nothing else but the pointer.
pub proof fn law_compare_flags(
    program: ProgramView,
    state: State,
    left: Seq<char>,
    right: Seq<char>,
)
    requires
        !halted(program, state),
        program.instructions[state.pointer as int] == InstructionView::Cmp(left, right),
    ensures
        ({
            let a = operand_value(state.registers, left);
            let b = operand_value(state.registers, right);
            let after = step(program, state);
            &&& !(after.zero && after.carry)
            &&& a == b ==> after.zero && !after.carry
            &&& a < b ==> !after.zero && after.carry
            &&& (!after.zero && !after.carry) <==> a > b
            &&& after.registers == state.registers
            &&& after.stack == state.stack
            &&& after.output == state.output
            &&& after.fault is None
        }),
{
}

/// A call followed by its return comes back to the instruction just after the
/// call: whatever happens in between, a `ret` executed on the stack that the call
/// left goes to the position after the call and restores the stack from before it.
pub proof fn law_call_then_ret(
    program: ProgramView,
    state: State,
    label: Seq<char>,
    returning: State,
)
    requires
        program.instructions.len() <= usize::MAX,
        !halted(program, state),
        program.instructions[state.pointer as int] == InstructionView::Call(label),
        program.labels.contains_key(label),
        !halted(program, returning),
        program.instructions[returning.pointer as int] == InstructionView::Ret,
        returning.stack == step(program, state).stack,
    ensures
        step(program, state).pointer == program.labels[label],
        step(program, returning).pointer == state.pointer + 1,
        step(program, returning).stack == state.stack,
        step(program, returning).fault is None,
{
}

/// The quotient is rounded toward zero: what is left over, `a - q * b`, is
/// smaller in size than `b` and never of the sign opposite to that of `a`.
pub proof fn law_quotient_truncates(a: int, b: int)
    requires
        b != 0,
    ensures
        ({
            let q = quotient(a, b);
            let left = a - q * b;
            let size = if b < 0 {
                -b
            } else {
                b
            };
            &&& a >= 0 ==> 0 <= left < size
            &&& a <= 0 ==> -size < left <= 0
        }),
{
    let x = if a < 0 {
        -a
    } else {
        a
    };
    let y = if b < 0 {
        -b
    } else {
        b
    };
    lemma_fundamental_div_mod(x, y);
    let n = x / y;
    let q = quotient(a, b);
    assert(q * b == if a < 0 {
        -(y * n)
    } else {
        y * n
    }) by (nonlinear_arith)
        requires
            q == if (a < 0) == (b < 0) {
                n
            } else {
                -n
            },
            y == if b < 0 {
                -b
            } else {
                b
            },
    ;
}

/// A literal piece is copied as written: a text between two quote marks that
/// neither starts nor ends with a quote mark of its own comes out unchanged, inner
/// spaces and all.
pub proof fn law_literal_piece(text: Seq<char>, registers: Map<Seq<char>, i64>, opened: bool)
    requires
        text.len() > 0 ==> text[0] != '\'' && text.last() != '\'',
    ensures
        piece_text(seq!['\''] + text + seq!['\''], registers, opened) == text,
{
    let quote = Pattern::Char('\'');
    let piece = seq!['\''] + text + seq!['\''];
    let open = text + seq!['\''];
    assert(quote.admits(piece[0]));
    assert(piece.drop_first() == open);
    assert(open.drop_last() == text);
    if text.len() == 0 {
        assert(open.drop_first() == text);
        assert(quote.admits(open[0]));
        assert(stripped_start(text, quote) == text);
        assert(stripped_start(open, quote) == text);
    } else {
        assert(stripped_start(open, quote) == open);
        assert(stripped_end(text, quote) == text);
    }
    assert(stripped_start(piece, quote) == stripped_start(open, quote));
    assert(stripped(piece, quote) == text);
}

/// A literal made of a comma and a space keeps them: its two bare quote marks
/// give a comma and a space, whatever comes after.
pub proof fn law_comma_literal(rest: Seq<Seq<char>>, registers: Map<Seq<char>, i64>)
    ensures
        message(seq![bare_quote(), bare_quote()] + rest, registers) == seq![',', ' ']
            + message_from(rest, registers, false),
{
    let pieces = seq![bare_quote(), bare_quote()] + rest;
    let tail = seq![bare_quote()] + rest;
    assert(pieces.drop_first() == tail);
    assert(tail.drop_first() == rest);
    assert(message_from(tail, registers, true) == seq![' '] + message_from(
        rest,
        registers,
        false,
    ));
}

/// A piece without a quote mark is shown as a number: the decimal text of the
/// literal that it is, or of the content of the register that it names, which is
/// `0` for a register never written.
pub proof fn law_numeric_piece(piece: Seq<char>, registers: Map<Seq<char>, i64>, opened: bool)
    requires
        !has_match(piece, Pattern::Char('\'')),
    ensures
        piece_text(piece, registers, opened) == decimal(operand_value(registers, piece) as int),
        literal_value(piece) is None && !registers.contains_key(piece) ==> piece_text(
            piece,
            registers,
            opened,
        ) == seq!['0'],
{
}

} // verus!
