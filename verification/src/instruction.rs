//! The instruction set and the grammar of one source line.
//!
//! A line is `mnemonic operand[, operand]...`, a label `name:`, or blank; a `;`
//! starts a comment that runs to the end of the line.
use crate::text::{find, first_match, lemma_first_match_skip, spells, strip_end, stripped_end,
    to_chars, to_string, trim, trimmed, Pattern};
use vstd::prelude::*;
use vstd::slice::slice_subrange;

verus! {

/// One instruction. An operand is kept as written: the text of an integer
/// literal or the name of a register or label.
#[derive(Debug, PartialEq, Eq)]
pub enum Instruction {
    Mov(String, String),
    Inc(String),
    Dec(String),
    Add(String, String),
    Sub(String, String),
    Mul(String, String),
    Div(String, String),
    /// A label definition; the name comes without its colon.
    Function(String),
    Call(String),
    Cmp(String, String),
    Jmp(String),
    Jne(String),
    Je(String),
    Jge(String),
    Jg(String),
    Jle(String),
    Jl(String),
    /// The comma-separated pieces of the message, each trimmed.
    Msg(Vec<String>),
    Ret,
    End,
    Nop,
}

/// What an [`Instruction`] is in specifications: the same variants over `Seq<char>`.
pub enum InstructionView {
    Mov(Seq<char>, Seq<char>),
    Inc(Seq<char>),
    Dec(Seq<char>),
    Add(Seq<char>, Seq<char>),
    Sub(Seq<char>, Seq<char>),
    Mul(Seq<char>, Seq<char>),
    Div(Seq<char>, Seq<char>),
    Function(Seq<char>),
    Call(Seq<char>),
    Cmp(Seq<char>, Seq<char>),
    Jmp(Seq<char>),
    Jne(Seq<char>),
    Je(Seq<char>),
    Jge(Seq<char>),
    Jg(Seq<char>),
    Jle(Seq<char>),
    Jl(Seq<char>),
    Msg(Seq<Seq<char>>),
    Ret,
    End,
    Nop,
}

/// The texts that a sequence of strings spells.
pub open spec fn texts(strings: Seq<String>) -> Seq<Seq<char>> {
    Seq::new(strings.len(), |i: int| strings[i]@)
}

impl View for Instruction {
    type V = InstructionView;

    open spec fn view(&self) -> InstructionView {
        match self {
            Instruction::Mov(dst, src) => InstructionView::Mov(dst@, src@),
            Instruction::Inc(dst) => InstructionView::Inc(dst@),
            Instruction::Dec(dst) => InstructionView::Dec(dst@),
            Instruction::Add(dst, src) => InstructionView::Add(dst@, src@),
            Instruction::Sub(dst, src) => InstructionView::Sub(dst@, src@),
            Instruction::Mul(dst, src) => InstructionView::Mul(dst@, src@),
            Instruction::Div(dst, src) => InstructionView::Div(dst@, src@),
            Instruction::Function(name) => InstructionView::Function(name@),
            Instruction::Call(label) => InstructionView::Call(label@),
            Instruction::Cmp(left, right) => InstructionView::Cmp(left@, right@),
            Instruction::Jmp(label) => InstructionView::Jmp(label@),
            Instruction::Jne(label) => InstructionView::Jne(label@),
            Instruction::Je(label) => InstructionView::Je(label@),
            Instruction::Jge(label) => InstructionView::Jge(label@),
            Instruction::Jg(label) => InstructionView::Jg(label@),
            Instruction::Jle(label) => InstructionView::Jle(label@),
            Instruction::Jl(label) => InstructionView::Jl(label@),
            Instruction::Msg(pieces) => InstructionView::Msg(texts(pieces@)),
            Instruction::Ret => InstructionView::Ret,
            Instruction::End => InstructionView::End,
            Instruction::Nop => InstructionView::Nop,
        }
    }
}

/// The part of `line` that counts: what stands before the first `;`, trimmed.
pub open spec fn statement(line: Seq<char>) -> Seq<char> {
    trimmed(line.take(first_match(line, Pattern::Char(';'), 0)))
}

/// The first word of a statement: its characters up to the first whitespace.
pub open spec fn opcode(statement: Seq<char>) -> Seq<char> {
    statement.take(first_match(statement, Pattern::Whitespace, 0))
}

/// The pieces of `text` between its commas, each trimmed. A text without a comma
/// is one piece, and an empty text is one empty piece.
pub open spec fn operand_list(text: Seq<char>) -> Seq<Seq<char>>
    decreases text.len(),
{
    let comma = first_match(text, Pattern::Char(','), 0);
    if 0 <= comma < text.len() {
        seq![trimmed(text.take(comma))] + operand_list(text.skip(comma + 1))
    } else {
        seq![trimmed(text)]
    }
}

/// The operands of a statement: what follows its opcode, trimmed and cut at commas.
pub open spec fn operands(statement: Seq<char>) -> Seq<Seq<char>> {
    operand_list(trimmed(statement.skip(opcode(statement).len() as int)))
}

/// The instruction that opcode `op` makes of the operands `args`, or `None` when
/// `op` needs two operands and `args` holds fewer. A word that is no mnemonic is a
/// label definition if it ends with `:` (the name is the word without its trailing
/// colons), and otherwise does nothing.
pub open spec fn decode(op: Seq<char>, args: Seq<Seq<char>>) -> Option<InstructionView> {
    if op == "mov"@ {
        if args.len() >= 2 {
            Some(InstructionView::Mov(args[0], args[1]))
        } else {
            None
        }
    } else if op == "inc"@ {
        Some(InstructionView::Inc(args[0]))
    } else if op == "dec"@ {
        Some(InstructionView::Dec(args[0]))
    } else if op == "add"@ {
        if args.len() >= 2 {
            Some(InstructionView::Add(args[0], args[1]))
        } else {
            None
        }
    } else if op == "sub"@ {
        if args.len() >= 2 {
            Some(InstructionView::Sub(args[0], args[1]))
        } else {
            None
        }
    } else if op == "mul"@ {
        if args.len() >= 2 {
            Some(InstructionView::Mul(args[0], args[1]))
        } else {
            None
        }
    } else if op == "div"@ {
        if args.len() >= 2 {
            Some(InstructionView::Div(args[0], args[1]))
        } else {
            None
        }
    } else if op == "call"@ {
        Some(InstructionView::Call(args[0]))
    } else if op == "cmp"@ {
        if args.len() >= 2 {
            Some(InstructionView::Cmp(args[0], args[1]))
        } else {
            None
        }
    } else if op == "jmp"@ {
        Some(InstructionView::Jmp(args[0]))
    } else if op == "jne"@ {
        Some(InstructionView::Jne(args[0]))
    } else if op == "je"@ {
        Some(InstructionView::Je(args[0]))
    } else if op == "jge"@ {
        Some(InstructionView::Jge(args[0]))
    } else if op == "jg"@ {
        Some(InstructionView::Jg(args[0]))
    } else if op == "jle"@ {
        Some(InstructionView::Jle(args[0]))
    } else if op == "jl"@ {
        Some(InstructionView::Jl(args[0]))
    } else if op == "msg"@ {
        Some(InstructionView::Msg(args))
    } else if op == "ret"@ {
        Some(InstructionView::Ret)
    } else if op == "end"@ {
        Some(InstructionView::End)
    } else if op.len() > 0 && op.last() == ':' {
        Some(InstructionView::Function(stripped_end(op, Pattern::Char(':'))))
    } else {
        Some(InstructionView::Nop)
    }
}

/// The instruction that `line` stands for: `Nop` for a line that is blank once its
/// comment is gone, else what its first word and its operands decode to.
pub open spec fn parse_line(line: Seq<char>) -> Option<InstructionView> {
    let st = statement(line);
    if st.len() == 0 {
        Some(InstructionView::Nop)
    } else {
        decode(opcode(st), operands(st))
    }
}

/// An operand list is never empty, so an instruction of one operand always
/// finds it: as the empty text where the line gives none.
pub proof fn law_operands_never_empty(text: Seq<char>)
    ensures
        operand_list(text).len() >= 1,
    decreases text.len(),
{
    let comma = first_match(text, Pattern::Char(','), 0);
    if 0 <= comma < text.len() {
        law_operands_never_empty(text.skip(comma + 1));
    }
}

/// Cuts `text` at its commas and trims each piece.
fn split_operands(text: &[char]) -> (list: Vec<String>)
    ensures
        texts(list@) == operand_list(text@),
        list@.len() >= 1,
{
    let mut list: Vec<String> = Vec::new();
    let mut from: usize = 0;
    assert(text@.skip(0) == text@);
    loop
        invariant_except_break
            from <= text@.len(),
            texts(list@) + operand_list(text@.skip(from as int)) == operand_list(text@),
        ensures
            texts(list@) == operand_list(text@),
            list@.len() >= 1,
        decreases text@.len() - from,
    {
        let comma = find(text, Pattern::Char(','), from);
        let piece = to_string(trim(slice_subrange(text, from, comma)));
        let ghost rest = text@.skip(from as int);
        proof {
            lemma_first_match_skip(text@, Pattern::Char(','), from as int, 0);
            assert(text@.subrange(from as int, comma as int) == rest.take(comma - from));
        }
        list.push(piece);
        if comma >= text.len() {
            break ;
        }
        assert(rest.skip(comma - from + 1) == text@.skip(comma + 1));
        from = comma + 1;
    }
    list
}

impl Instruction {
    /// Builds the instruction for opcode `op` and operand list `list`.
    fn assemble(op: &[char], list: Vec<String>) -> (made: Option<Instruction>)
        requires
            list@.len() >= 1,
        ensures
            match made {
                Some(instruction) => decode(op@, texts(list@)) == Some(instruction@),
                None => decode(op@, texts(list@)) is None,
            },
    {
        let two = list.len() >= 2;
        if spells(op, "mov") {
            if two {
                Some(Instruction::Mov(list[0].clone(), list[1].clone()))
            } else {
                None
            }
        } else if spells(op, "inc") {
            Some(Instruction::Inc(list[0].clone()))
        } else if spells(op, "dec") {
            Some(Instruction::Dec(list[0].clone()))
        } else if spells(op, "add") {
            if two {
                Some(Instruction::Add(list[0].clone(), list[1].clone()))
            } else {
                None
            }
        } else if spells(op, "sub") {
            if two {
                Some(Instruction::Sub(list[0].clone(), list[1].clone()))
            } else {
                None
            }
        } else if spells(op, "mul") {
            if two {
                Some(Instruction::Mul(list[0].clone(), list[1].clone()))
            } else {
                None
            }
        } else if spells(op, "div") {
            if two {
                Some(Instruction::Div(list[0].clone(), list[1].clone()))
            } else {
                None
            }
        } else if spells(op, "call") {
            Some(Instruction::Call(list[0].clone()))
        } else if spells(op, "cmp") {
            if two {
                Some(Instruction::Cmp(list[0].clone(), list[1].clone()))
            } else {
                None
            }
        } else if spells(op, "jmp") {
            Some(Instruction::Jmp(list[0].clone()))
        } else if spells(op, "jne") {
            Some(Instruction::Jne(list[0].clone()))
        } else if spells(op, "je") {
            Some(Instruction::Je(list[0].clone()))
        } else if spells(op, "jge") {
            Some(Instruction::Jge(list[0].clone()))
        } else if spells(op, "jg") {
            Some(Instruction::Jg(list[0].clone()))
        } else if spells(op, "jle") {
            Some(Instruction::Jle(list[0].clone()))
        } else if spells(op, "jl") {
            Some(Instruction::Jl(list[0].clone()))
        } else if spells(op, "msg") {
            Some(Instruction::Msg(list))
        } else if spells(op, "ret") {
            Some(Instruction::Ret)
        } else if spells(op, "end") {
            Some(Instruction::End)
        } else if op.len() > 0 && op[op.len() - 1] == ':' {
            Some(Instruction::Function(to_string(strip_end(op, Pattern::Char(':')))))
        } else {
            Some(Instruction::Nop)
        }
    }

    /// Parses one line given as characters.
    pub fn parse_chars(line: &[char]) -> (parsed: Option<Instruction>)
        ensures
            match parsed {
                Some(instruction) => parse_line(line@) == Some(instruction@),
                None => parse_line(line@) is None,
            },
    {
        let comment = find(line, Pattern::Char(';'), 0);
        let st = trim(slice_subrange(line, 0, comment));
        if st.len() == 0 {
            return Some(Instruction::Nop);
        }
        let stop = find(st, Pattern::Whitespace, 0);
        let op = slice_subrange(st, 0, stop);
        let rest = trim(slice_subrange(st, stop, st.len()));
        Instruction::assemble(op, split_operands(rest))
    }

    /// Parses one source line. `None` means that the line names an instruction of
    /// two operands and gives fewer.
    pub fn parse(line: &str) -> (parsed: Option<Instruction>)
        ensures
            match parsed {
                Some(instruction) => parse_line(line@) == Some(instruction@),
                None => parse_line(line@) is None,
            },
    {
        let chars = to_chars(line);
        Instruction::parse_chars(chars.as_slice())
    }
}

} // verus!
