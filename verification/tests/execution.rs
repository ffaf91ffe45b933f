use asmintr::machine::STEP_LIMIT;
use asmintr::{Fault, Interpreter, Machine, Program, Registers};

fn s(text: &str) -> String {
    String::from(text)
}

fn output(source: &str) -> Option<String> {
    Interpreter::interpret(source).1
}

fn register(interpreter: &Interpreter, name: &str) -> i64 {
    interpreter.state.registers().get(&s(name))
}

#[test]
fn an_end_yields_the_last_message() {
    assert_eq!(output("msg 'one'\nmsg 'two'\nend\nmsg 'three'"), Some(s("two")));
    assert_eq!(output("mov a, 1\nmsg a\ninc a\nend"), Some(s("1")));
}

#[test]
fn an_end_without_a_message_yields_the_empty_text() {
    assert_eq!(output("end"), Some(s("")));
    assert_eq!(output("mov a, 1\nend"), Some(s("")));
}

#[test]
fn running_off_the_end_yields_nothing() {
    let (interpreter, result) = Interpreter::interpret("mov a, 1\nmsg a");
    assert_eq!(result, None);
    assert_eq!(interpreter.state.fault(), None);
    assert_eq!(interpreter.state.pointer(), 2);
    assert_eq!(interpreter.state.output(), "1");
    assert!(interpreter.state.halted(&interpreter.program));
    assert!(!interpreter.state.at_end(&interpreter.program));

    let (empty, nothing) = Interpreter::interpret("");
    assert_eq!(nothing, None);
    assert_eq!(empty.state.fault(), None);
    assert_eq!(empty.state.pointer(), 0);
}

#[test]
fn the_state_stays_at_the_end_instruction() {
    let (interpreter, result) = Interpreter::interpret("mov a, 7\nend\nmov a, 8");
    assert_eq!(result, Some(s("")));
    assert_eq!(interpreter.state.pointer(), 1);
    assert_eq!(register(&interpreter, "a"), 7);
    assert!(interpreter.state.at_end(&interpreter.program));
}

#[test]
fn labels_blank_lines_and_unknown_words_are_stepped_over() {
    let (interpreter, result) =
        Interpreter::interpret("start:\n\nbogus x, y\n; note\nmsg 'ok'\nafter:\nend");
    assert_eq!(result, Some(s("ok")));
    assert_eq!(interpreter.state.pointer(), 6);
    assert!(interpreter.state.registers().entries().is_empty());
    assert!(interpreter.state.stack().is_empty());
}

#[test]
fn mov_copies_a_literal_or_a_register() {
    let (interpreter, _) = Interpreter::interpret("mov a, -12\nmov b, a\nmov c, nowhere\nend");
    assert_eq!(register(&interpreter, "a"), -12);
    assert_eq!(register(&interpreter, "b"), -12);
    assert_eq!(register(&interpreter, "c"), 0);
    assert_eq!(register(&interpreter, "never"), 0);
}

#[test]
fn arithmetic_works_on_the_destination_register() {
    let (interpreter, _) = Interpreter::interpret(
        "inc a\ninc a\ndec b\nadd c, 5\nadd c, a\nsub d, 3\nmov e, 6\nmul e, -7\nmul f, 9\nend",
    );
    assert_eq!(register(&interpreter, "a"), 2);
    assert_eq!(register(&interpreter, "b"), -1);
    assert_eq!(register(&interpreter, "c"), 7);
    assert_eq!(register(&interpreter, "d"), -3);
    assert_eq!(register(&interpreter, "e"), -42);
    assert_eq!(register(&interpreter, "f"), 0);
}

#[test]
fn division_truncates_toward_zero() {
    let (interpreter, _) = Interpreter::interpret(
        "mov a, 10\ndiv a, 3\nmov b, -10\ndiv b, 3\nmov c, 10\ndiv c, -3\nmov d, -10\ndiv d, -3\n\
         mov e, 2\ndiv e, 3\nmov f, -2\ndiv f, 3\ndiv g, 5\nend",
    );
    assert_eq!(register(&interpreter, "a"), 3);
    assert_eq!(register(&interpreter, "b"), -3);
    assert_eq!(register(&interpreter, "c"), -3);
    assert_eq!(register(&interpreter, "d"), 3);
    assert_eq!(register(&interpreter, "e"), 0);
    assert_eq!(register(&interpreter, "f"), 0);
    assert_eq!(register(&interpreter, "g"), 0);
}

#[test]
fn compare_sets_the_flags() {
    let (equal, _) = Interpreter::interpret("mov a, 4\ncmp a, 4\nend");
    assert!(equal.state.zero_flag());
    assert!(!equal.state.carry_flag());

    let (less, _) = Interpreter::interpret("mov a, 3\ncmp a, 4\nend");
    assert!(!less.state.zero_flag());
    assert!(less.state.carry_flag());

    let (greater, _) = Interpreter::interpret("mov a, 5\ncmp a, 4\nend");
    assert!(!greater.state.zero_flag());
    assert!(!greater.state.carry_flag());

    let (reset, _) = Interpreter::interpret("cmp 1, 1\ncmp 1, 2\ncmp 2, 1\nend");
    assert!(!reset.state.zero_flag());
    assert!(!reset.state.carry_flag());

    let (fresh, _) = Interpreter::interpret("end");
    assert!(!fresh.state.zero_flag());
    assert!(!fresh.state.carry_flag());
}

fn taken(compare: &str, jump: &str) -> bool {
    let source = format!("{}\n{} yes\nmsg 'no'\nend\nyes:\nmsg 'yes'\nend", compare, jump);
    match output(&source) {
        Some(text) if text == "yes" => true,
        Some(text) if text == "no" => false,
        other => panic!("unexpected result {:?}", other),
    }
}

#[test]
fn each_jump_tests_its_flags() {
    let equal = "cmp 1, 1";
    let less = "cmp 1, 2";
    let greater = "cmp 2, 1";
    assert_eq!([taken(equal, "jmp"), taken(less, "jmp"), taken(greater, "jmp")], [true, true, true]);
    assert_eq!([taken(equal, "jne"), taken(less, "jne"), taken(greater, "jne")], [false, true, true]);
    assert_eq!([taken(equal, "je"), taken(less, "je"), taken(greater, "je")], [true, false, false]);
    assert_eq!([taken(equal, "jge"), taken(less, "jge"), taken(greater, "jge")], [true, false, true]);
    assert_eq!([taken(equal, "jg"), taken(less, "jg"), taken(greater, "jg")], [false, false, true]);
    assert_eq!([taken(equal, "jle"), taken(less, "jle"), taken(greater, "jle")], [true, true, false]);
    assert_eq!([taken(equal, "jl"), taken(less, "jl"), taken(greater, "jl")], [false, true, false]);
}

#[test]
fn jumps_before_any_compare_see_clear_flags() {
    assert!(taken("", "jne"));
    assert!(!taken("", "je"));
    assert!(taken("", "jge"));
    assert!(taken("", "jg"));
    assert!(!taken("", "jle"));
    assert!(!taken("", "jl"));
}

#[test]
fn call_then_ret_comes_back_after_the_call() {
    let (interpreter, result) =
        Interpreter::interpret("mov a, 1\ncall f\nmsg a\nend\nf:\nadd a, 10\nret");
    assert_eq!(result, Some(s("11")));
    assert_eq!(interpreter.state.pointer(), 3);
    assert!(interpreter.state.stack().is_empty());
}

#[test]
fn calls_nest() {
    let (interpreter, result) = Interpreter::interpret(
        "call outer\nmsg a\nend\nouter:\ncall inner\nadd a, 1\nret\ninner:\nmov a, 40\ncall leaf\nret\nleaf:\ninc a\nend",
    );
    assert_eq!(result, Some(s("")));
    assert_eq!(register(&interpreter, "a"), 41);
    assert_eq!(interpreter.state.stack(), &vec![1, 5, 10]);
}

#[test]
fn an_untaken_jump_needs_no_label() {
    assert_eq!(output("cmp 1, 2\nje nowhere\nmsg 'fine'\nend"), Some(s("fine")));
}

#[test]
fn a_message_shows_literals_and_values() {
    assert_eq!(output("mov a, 5\nmsg 'a = ', a\nend"), Some(s("a = 5")));
    assert_eq!(output("mov a, -5\nmsg a, ' and ', 7, ' and ', b\nend"), Some(s("-5 and 7 and 0")));
    assert_eq!(output("msg 'only text'\nend"), Some(s("only text")));
    assert_eq!(output("msg unset\nend"), Some(s("0")));
    assert_eq!(output("msg\nend"), Some(s("0")));
}

#[test]
fn a_comma_literal_keeps_its_comma() {
    assert_eq!(output("mov a, 1\nmov b, 2\nmsg a, ', ', b\nend"), Some(s("1, 2")));
    assert_eq!(output("msg ', ', ', '\nend"), Some(s(", , ")));
    assert_eq!(
        output("mov a, 81\nmov b, 153\nmov c, 9\nmsg 'gcd(', a, ', ', b, ') = ', c\nend"),
        Some(s("gcd(81, 153) = 9"))
    );
}

#[test]
fn a_literal_is_cut_at_commas_inside_it() {
    assert_eq!(output("msg 'a, b'\nend"), Some(s("ab")));
    assert_eq!(output("mov x, 3\nmsg 'a, x, b'\nend"), Some(s("a3b")));
    assert_eq!(output("msg 'it''s'\nend"), Some(s("it''s")));
}

#[test]
fn a_literal_that_looks_like_a_number_is_a_register_when_too_large() {
    let (interpreter, result) =
        Interpreter::interpret("mov a, 9223372036854775807\nmov b, 9223372036854775808\nmsg a, ' ', b\nend");
    assert_eq!(result, Some(s("9223372036854775807 0")));
    assert_eq!(register(&interpreter, "b"), 0);
}

#[test]
fn a_register_named_like_a_number_is_never_read() {
    let (interpreter, result) = Interpreter::interpret("inc 5\nmov a, 5\nmsg a\nend");
    assert_eq!(result, Some(s("5")));
    assert_eq!(register(&interpreter, "5"), 1);
    assert_eq!(interpreter.constant_or_register("5"), 5);
}

#[test]
fn constant_or_register_reads_literals_and_registers() {
    let (interpreter, _) = Interpreter::interpret("mov a, 12\nend");
    assert_eq!(interpreter.constant_or_register("a"), 12);
    assert_eq!(interpreter.constant_or_register("b"), 0);
    assert_eq!(interpreter.constant_or_register("-3"), -3);
    assert_eq!(interpreter.constant_or_register("+3"), 3);
    assert_eq!(interpreter.constant_or_register(""), 0);
    assert_eq!(interpreter.state.operand(&s("a")), 12);
}

#[test]
fn a_missing_operand_stops_before_the_run() {
    let (interpreter, result) = Interpreter::interpret("mov a, 1\nmsg 'x'\nadd a\nend");
    assert_eq!(result, None);
    assert_eq!(interpreter.state.fault(), Some(Fault::MissingOperand { line: 2 }));
    assert!(interpreter.program.instructions.is_empty());
    assert_eq!(interpreter.state.pointer(), 0);
    assert_eq!(interpreter.state.output(), "");
    assert_eq!(register(&interpreter, "a"), 0);
}

#[test]
fn an_unresolved_label_is_a_fault() {
    for jump in ["call", "jmp", "jne", "jge", "jg"] {
        let source = format!("mov a, 1\n{} nowhere\nend", jump);
        let (interpreter, result) = Interpreter::interpret(&source);
        assert_eq!(result, None);
        assert_eq!(interpreter.state.fault(), Some(Fault::UnresolvedLabel));
        assert_eq!(interpreter.state.pointer(), 1);
        assert!(interpreter.state.stack().is_empty());
    }
}

#[test]
fn a_return_on_an_empty_stack_is_a_fault() {
    let (interpreter, result) = Interpreter::interpret("msg 'x'\nret\nend");
    assert_eq!(result, None);
    assert_eq!(interpreter.state.fault(), Some(Fault::StackUnderflow));
    assert_eq!(interpreter.state.pointer(), 1);
    assert_eq!(interpreter.state.output(), "x");
}

#[test]
fn a_division_by_zero_is_a_fault() {
    let (interpreter, result) = Interpreter::interpret("mov a, 5\ndiv a, 0\nend");
    assert_eq!(result, None);
    assert_eq!(interpreter.state.fault(), Some(Fault::DivisionByZero));
    assert_eq!(register(&interpreter, "a"), 5);
    assert_eq!(interpreter.state.pointer(), 1);

    let (by_register, _) = Interpreter::interpret("mov a, 5\ndiv a, b\nend");
    assert_eq!(by_register.state.fault(), Some(Fault::DivisionByZero));
}

#[test]
fn a_result_that_does_not_fit_is_a_fault() {
    let sources = [
        "mov a, 9223372036854775807\ninc a\nend",
        "mov a, -9223372036854775808\ndec a\nend",
        "mov a, 9223372036854775807\nadd a, 1\nend",
        "mov a, -9223372036854775808\nsub a, 1\nend",
        "mov a, 4611686018427387904\nmul a, 2\nend",
        "mov a, -9223372036854775808\ndiv a, -1\nend",
    ];
    for source in sources {
        let (interpreter, result) = Interpreter::interpret(source);
        assert_eq!(result, None, "{}", source);
        assert_eq!(interpreter.state.fault(), Some(Fault::Overflow), "{}", source);
        assert_eq!(interpreter.state.pointer(), 1);
    }
    let (fits, result) =
        Interpreter::interpret("mov a, -4611686018427387904\nmul a, 2\nmsg a\nend");
    assert_eq!(result, Some(s("-9223372036854775808")));
    assert_eq!(fits.state.fault(), None);
}

#[test]
fn a_fault_keeps_the_state_of_the_moment() {
    let (interpreter, _) = Interpreter::interpret("mov a, 3\ncmp a, 5\ncall f\nend\nf:\nmsg 'in f'\njmp nowhere");
    assert_eq!(interpreter.state.fault(), Some(Fault::UnresolvedLabel));
    assert_eq!(interpreter.state.pointer(), 6);
    assert_eq!(interpreter.state.stack(), &vec![3]);
    assert_eq!(interpreter.state.output(), "in f");
    assert!(interpreter.state.carry_flag());
    assert!(interpreter.state.halted(&interpreter.program));
}

#[test]
fn a_machine_starts_clear() {
    let machine = Machine::new();
    assert!(machine.stack().is_empty());
    assert!(machine.registers().entries().is_empty());
    assert_eq!(machine.pointer(), 0);
    assert!(!machine.zero_flag());
    assert!(!machine.carry_flag());
    assert_eq!(machine.output(), "");
    assert_eq!(machine.fault(), None);
}

#[test]
fn a_new_interpreter_has_not_parsed_yet() {
    let mut interpreter = Interpreter::new("msg 'x'\nend");
    assert!(interpreter.program.instructions.is_empty());
    assert_eq!(interpreter.run(), None);
    assert_eq!(interpreter.program.parse(), Ok(()));
    assert_eq!(interpreter.run(), Some(s("x")));
}

#[test]
fn steps_advance_one_instruction_at_a_time() {
    let mut program = Program::new("mov a, 2\nadd a, 3\nmsg a\nend");
    assert_eq!(program.parse(), Ok(()));
    let mut machine = Machine::new();
    machine.step(&program);
    assert_eq!(machine.pointer(), 1);
    assert_eq!(machine.registers().get(&s("a")), 2);
    machine.step(&program);
    assert_eq!(machine.registers().get(&s("a")), 5);
    machine.step(&program);
    assert_eq!(machine.output(), "5");
    assert_eq!(machine.pointer(), 3);
    assert!(machine.at_end(&program));
    machine.step(&program);
    assert_eq!(machine.pointer(), 3);
}

#[test]
fn a_run_stops_at_its_limit() {
    let mut program = Program::new("again:\ninc a\njmp again\nend");
    assert_eq!(program.parse(), Ok(()));
    let mut machine = Machine::new();
    assert_eq!(machine.run_for(&program, 0), None);
    assert_eq!(machine.pointer(), 0);
    assert_eq!(machine.run_for(&program, 7), None);
    assert_eq!(machine.registers().get(&s("a")), 3);
    assert_eq!(machine.pointer(), 1);
    assert_eq!(machine.fault(), None);
    assert!(!machine.halted(&program));
    assert_eq!(machine.run_for(&program, 1000), None);
    assert_eq!(machine.registers().get(&s("a")), 503);
}

#[test]
fn a_run_goes_on_from_where_it_stands() {
    let mut program = Program::new("mov a, 1\ninc a\ninc a\nmsg a\nend");
    assert_eq!(program.parse(), Ok(()));
    let mut machine = Machine::new();
    assert_eq!(machine.run_for(&program, 2), None);
    assert_eq!(machine.run(&program), Some(s("3")));
    assert_eq!(machine.run(&program), Some(s("3")));
    assert_eq!(STEP_LIMIT, u64::MAX);
}

#[test]
fn registers_keep_the_last_value_written() {
    let mut registers = Registers::new();
    assert_eq!(registers.get(&s("a")), 0);
    registers.set(&s("a"), 1);
    registers.set(&s("b"), 2);
    registers.set(&s("a"), 3);
    registers.set(&s(""), -1);
    assert_eq!(registers.get(&s("a")), 3);
    assert_eq!(registers.get(&s("b")), 2);
    assert_eq!(registers.get(&s("")), -1);
    assert_eq!(registers.get(&s("c")), 0);
    let mut listed = registers.entries().clone();
    listed.sort();
    assert_eq!(listed, vec![(s(""), -1), (s("a"), 3), (s("b"), 2)]);
}

#[test]
fn a_program_can_run_more_than_once() {
    let mut program = Program::new("inc a\nmsg a\nend");
    assert_eq!(program.parse(), Ok(()));
    let mut first = Machine::new();
    let mut second = Machine::new();
    assert_eq!(first.run(&program), Some(s("1")));
    assert_eq!(second.run(&program), Some(s("1")));
}
