//! A program: the instructions parsed from a source text, and its label table.
use crate::fault::Fault;
use crate::instruction::{parse_line, Instruction, InstructionView};
use crate::text::{find, first_match, lemma_first_match_skip, to_chars, Pattern};
use vstd::hash_map::StringHashMap;
use vstd::prelude::*;
use vstd::slice::slice_subrange;

verus! {

/// What a [`Program`] is in specifications: its instructions in order, and the
/// position that each label stands for.
#[verifier::ext_equal]
pub struct ProgramView {
    pub instructions: Seq<InstructionView>,
    pub labels: Map<Seq<char>, usize>,
}

impl ProgramView {
    /// The program without instructions.
    pub open spec fn empty() -> ProgramView {
        ProgramView { instructions: Seq::empty(), labels: Map::empty() }
    }
}

/// The lines of `source`: its pieces between line feeds. A line feed at the very
/// end of the text opens no further line, so the empty text has no lines.
pub open spec fn source_lines(source: Seq<char>) -> Seq<Seq<char>>
    decreases source.len(),
{
    if source.len() == 0 {
        Seq::empty()
    } else {
        let end = first_match(source, Pattern::Char('\n'), 0);
        if 0 <= end < source.len() {
            seq![source.take(end)] + source_lines(source.skip(end + 1))
        } else {
            seq![source]
        }
    }
}

/// The position of the first line at or after `from` that fails to parse, or
/// `lines.len()` when every such line parses.
pub open spec fn first_malformed(lines: Seq<Seq<char>>, from: int) -> int
    recommends
        0 <= from,
    decreases lines.len() - from,
{
    if from >= lines.len() {
        lines.len() as int
    } else if parse_line(lines[from]) is None {
        from
    } else {
        first_malformed(lines, from + 1)
    }
}

/// The instructions of `lines`, one for each line.
pub open spec fn parsed(lines: Seq<Seq<char>>) -> Seq<InstructionView> {
    Seq::new(lines.len(), |i: int| parse_line(lines[i])->0)
}

/// The label table of `instructions`: each label definition sends its name to the
/// position just after it, and a later definition of a name replaces an earlier one.
pub open spec fn label_table(instructions: Seq<InstructionView>) -> Map<Seq<char>, usize>
    decreases instructions.len(),
{
    if instructions.len() == 0 {
        Map::empty()
    } else {
        let earlier = label_table(instructions.drop_last());
        match instructions.last() {
            InstructionView::Function(name) => earlier.insert(name, instructions.len() as usize),
            _ => earlier,
        }
    }
}

/// The program that `source` stands for, or the fault of its first line that
/// lacks an operand.
pub open spec fn compile(source: Seq<char>) -> Result<ProgramView, Fault> {
    let lines = source_lines(source);
    let bad = first_malformed(lines, 0);
    if bad < lines.len() {
        Err(Fault::MissingOperand { line: bad as usize })
    } else {
        Ok(ProgramView { instructions: parsed(lines), labels: label_table(parsed(lines)) })
    }
}

/// The views of a sequence of instructions.
pub open spec fn instruction_views(instructions: Seq<Instruction>) -> Seq<InstructionView> {
    Seq::new(instructions.len(), |i: int| instructions[i]@)
}

/// `first_malformed` is the least position at or after `from` of a line that does
/// not parse.
pub proof fn law_first_malformed(lines: Seq<Seq<char>>, from: int)
    requires
        0 <= from <= lines.len(),
    ensures
        from <= first_malformed(lines, from) <= lines.len(),
        forall|i: int|
            from <= i < first_malformed(lines, from) ==> parse_line(#[trigger] lines[i]) is Some,
        first_malformed(lines, from) < lines.len() ==> parse_line(
            lines[first_malformed(lines, from)],
        ) is None,
    decreases lines.len() - from,
{
    if from < lines.len() && parse_line(lines[from]) is Some {
        law_first_malformed(lines, from + 1);
    }
}

/// Whether the instruction at `at` defines the label `name`.
pub open spec fn defines(instructions: Seq<InstructionView>, at: int, name: Seq<char>) -> bool {
    0 <= at < instructions.len() && instructions[at] == InstructionView::Function(name)
}

/// A label resolves exactly when some instruction defines it, and then to the
/// position just after its last definition.
pub proof fn law_last_definition_wins(instructions: Seq<InstructionView>, name: Seq<char>)
    requires
        instructions.len() <= usize::MAX,
    ensures
        label_table(instructions).contains_key(name) <==> exists|at: int|
            defines(instructions, at, name),
        label_table(instructions).contains_key(name) ==> {
            let target = label_table(instructions)[name];
            &&& defines(instructions, target - 1, name)
            &&& forall|at: int| target <= at ==> !defines(instructions, at, name)
        },
    decreases instructions.len(),
{
    if instructions.len() > 0 {
        let shorter = instructions.drop_last();
        let last = instructions.len() - 1;
        law_last_definition_wins(shorter, name);
        assert forall|at: int| at != last implies defines(shorter, at, name) == defines(
            instructions,
            at,
            name,
        ) by {}
        if defines(instructions, last, name) {
        } else if label_table(instructions).contains_key(name) {
            let at = choose|at: int| defines(shorter, at, name);
        } else if exists|at: int| defines(instructions, at, name) {
            let at = choose|at: int| defines(instructions, at, name);
        }
    } else {
        assert forall|at: int| !defines(instructions, at, name) by {}
    }
}

/// A source text with the instructions and the label table parsed from it.
pub struct Program<'a> {
    source: &'a str,
    pub instructions: Vec<Instruction>,
    functions: StringHashMap<usize>,
}

impl<'a> View for Program<'a> {
    type V = ProgramView;

    closed spec fn view(&self) -> ProgramView {
        ProgramView {
            instructions: instruction_views(self.instructions@),
            labels: self.functions@,
        }
    }
}

impl<'a> Program<'a> {
    /// The source text that this program was made for.
    pub closed spec fn source(&self) -> Seq<char> {
        self.source@
    }

    /// A program for `source`, not yet parsed: it has no instructions and no labels.
    pub fn new(source: &'a str) -> (program: Self)
        ensures
            program.source() == source@,
            program@ == ProgramView::empty(),
    {
        Self { source, instructions: Vec::new(), functions: StringHashMap::new() }
    }

    /// The instructions, in order.
    pub fn instructions(&self) -> (list: &Vec<Instruction>)
        ensures
            instruction_views(list@) == self@.instructions,
    {
        &self.instructions
    }

    /// The position that `label` stands for, if the program defines it.
    pub fn resolve(&self, label: &String) -> (target: Option<usize>)
        ensures
            target == if self@.labels.contains_key(label@) {
                Some(self@.labels[label@])
            } else {
                None
            },
    {
        match self.functions.get(label.as_str()) {
            Some(target) => Some(*target),
            None => None,
        }
    }

    /// Parses the source text: fills in the instructions, one for each line, and
    /// the label table. Where a line lacks an operand, the program is left without
    /// instructions and the fault names the first such line.
    pub fn parse(&mut self) -> (outcome: Result<(), Fault>)
        ensures
            final(self).source() == old(self).source(),
            match compile(old(self).source()) {
                Ok(program) => outcome is Ok && final(self)@ == program,
                Err(fault) => outcome == Err::<(), Fault>(fault) && final(self)@
                    == ProgramView::empty(),
            },
    {
        let chars = to_chars(self.source);
        let text = chars.as_slice();
        let ghost lines = source_lines(text@);
        let mut instructions: Vec<Instruction> = Vec::new();
        let mut from: usize = 0;
        assert(text@.skip(0) == text@);
        while from < text.len()
            invariant
                from <= text@.len(),
                lines == source_lines(text@),
                instructions@.len() <= lines.len(),
                lines.take(instructions@.len() as int) + source_lines(text@.skip(from as int))
                    == lines,
                first_malformed(lines, instructions@.len() as int) == first_malformed(lines, 0),
                forall|i: int|
                    0 <= i < instructions@.len() ==> parse_line(#[trigger] lines[i]) == Some(
                        instructions@[i]@,
                    ),
                text@ == old(self).source(),
                self.source() == old(self).source(),
            decreases text@.len() - from,
        {
            let end = find(text, Pattern::Char('\n'), from);
            let line = slice_subrange(text, from, end);
            let ghost rest = text@.skip(from as int);
            proof {
                lemma_first_match_skip(text@, Pattern::Char('\n'), from as int, 0);
                assert(text@.subrange(from as int, end as int) == rest.take(end - from));
                if end < text@.len() {
                    assert(rest.skip(end - from + 1) == text@.skip(end + 1));
                }
            }
            match Instruction::parse_chars(line) {
                Some(instruction) => {
                    instructions.push(instruction);
                },
                None => {
                    self.instructions = Vec::new();
                    self.functions = StringHashMap::new();
                    return Err(Fault::MissingOperand { line: instructions.len() });
                },
            }
            from = if end < text.len() {
                end + 1
            } else {
                end
            };
        }
        let mut functions: StringHashMap<usize> = StringHashMap::new();
        let mut at: usize = 0;
        let ghost views = instruction_views(instructions@);
        while at < instructions.len()
            invariant
                at <= instructions@.len(),
                views == instruction_views(instructions@),
                functions@ == label_table(views.take(at as int)),
            decreases instructions@.len() - at,
        {
            assert(views.take(at + 1).drop_last() == views.take(at as int));
            match &instructions[at] {
                Instruction::Function(name) => {
                    functions.insert(name.clone(), at + 1);
                },
                _ => {},
            }
            at += 1;
        }
        assert(views.take(at as int) == views);
        self.instructions = instructions;
        self.functions = functions;
        Ok(())
    }
}

} // verus!
