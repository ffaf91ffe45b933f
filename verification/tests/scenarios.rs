use asmintr::Interpreter;

#[test]
fn check_interpreter() {
    let programs_list = &[
        "\n; My first program\nmov  a, 5\ninc  a\ncall function\nmsg  '(5+1)/2 = ', a    ; output message\nend\n\nfunction:\n    div  a, 2\n    ret\n",
        "\nmov   a, 5\nmov   b, a\nmov   c, a\ncall  proc_fact\ncall  print\nend\n\nproc_fact:\n    dec   b\n    mul   c, b\n    cmp   b, 1\n    jne   proc_fact\n    ret\n\nprint:\n    msg   a, '! = ', c ; output text\n    ret\n",
        "\ncall  func1\ncall  print\nend\n\nfunc1:\n    call  func2\n    ret\n\nfunc2:\n    ret\n\nprint:\n    msg 'This program should return null'\n",
        "\n            mov a, 173   ; instruction mov a, 173\n            mov k, 88   ; instruction mov k, 88\n            call func\n            msg 'Random result: ', o\n            end\n            func:\n              cmp a, k\n              jne exit\n              mov o, a\n              add o, k\n              ret\n            ; Do nothing\n            exit:\n              msg 'Do nothing'",
        "\n            mov q, 86   ; instruction mov q, 86\n            mov m, 73   ; instruction mov m, 73\n            call func\n            msg 'Random result: ', g\n            end\n            func:\n              cmp q, m\n              jl exit\n              mov g, q\n              div g, m\n              ret\n            ; Do nothing\n            exit:\n              msg 'Do nothing'"
    ];

    assert_eq!(Some(String::from("(5+1)/2 = 3")), Interpreter::interpret(&programs_list[0]).1);
    assert_eq!(Some(String::from("5! = 120")), Interpreter::interpret(&programs_list[1]).1);
    assert_eq!(None, Interpreter::interpret(&programs_list[2]).1);
    assert_eq!(None, Interpreter::interpret(&programs_list[3]).1);
    assert_eq!(Some(String::from("Random result: 1")), Interpreter::interpret(&programs_list[4]).1);
}

#[test]
fn gcd_by_repeated_subtraction() {
    let source = "
mov   a, 81         ; value1
mov   b, 153        ; value2
call  init
call  proc_gcd
call  print
end

proc_gcd:
    cmp   c, d
    jne   loop
    ret

loop:
    cmp   c, d
    jg    a_bigger
    jmp   b_bigger

a_bigger:
    sub   c, d
    jmp   proc_gcd

b_bigger:
    sub   d, c
    jmp   proc_gcd

init:
    cmp   a, 0
    jl    a_abs
    cmp   b, 0
    jl    b_abs
    mov   c, a            ; temp1
    mov   d, b            ; temp2
    ret

a_abs:
    mul   a, -1
    jmp   init

b_abs:
    mul   b, -1
    jmp   init

print:
    msg   'gcd(', a, ', ', b, ') = ', c
    ret
";
    assert_eq!(Some(String::from("gcd(81, 153) = 9")), Interpreter::interpret(source).1);
}

#[test]
fn first_program_divides_after_a_call() {
    let source = "mov a,5\ninc a\ncall function\nmsg '(5+1)/2 = ', a\nend\nfunction:\ndiv a,2\nret";
    let (interpreter, output) = Interpreter::interpret(source);
    assert_eq!(output, Some(String::from("(5+1)/2 = 3")));
    assert_eq!(interpreter.state.fault(), None);
    assert_eq!(interpreter.state.pointer(), 4);
}

#[test]
fn factorial_by_a_loop() {
    let source = "mov a, 5\nmov b, a\nmov c, a\ncall proc_fact\ncall print\nend\nproc_fact:\ndec b\nmul c, b\ncmp b, 1\njne proc_fact\nret\nprint:\nmsg a, '! = ', c\nret";
    assert_eq!(Interpreter::interpret(source).1, Some(String::from("5! = 120")));
}

#[test]
fn falling_through_a_message_without_end_yields_nothing() {
    let source = "call func1\ncall print\nend\nfunc1:\ncall func2\nret\nfunc2:\nret\nprint:\nmsg 'This program should return null'";
    let (interpreter, output) = Interpreter::interpret(source);
    assert_eq!(output, None);
    assert_eq!(interpreter.state.fault(), None);
    assert_eq!(interpreter.state.output(), "This program should return null");
    assert_eq!(interpreter.state.pointer(), interpreter.program.instructions.len());
}

#[test]
fn a_jump_past_the_assignment_yields_nothing() {
    let source = "mov a, 173\nmov k, 88\ncall func\nmsg 'Random result: ', o\nend\nfunc:\ncmp a, k\njne exit\nmov o, a\nadd o, k\nret\nexit:\nmsg 'Do nothing'";
    let (interpreter, output) = Interpreter::interpret(source);
    assert_eq!(output, None);
    assert_eq!(interpreter.state.fault(), None);
    assert_eq!(interpreter.state.output(), "Do nothing");
    assert_eq!(interpreter.state.registers().get(&String::from("o")), 0);
}

#[test]
fn fibonacci_by_recursion_on_the_stack() {
    let source = "
mov   a, 8            ; value
mov   b, 0            ; next
mov   c, 0            ; counter
mov   d, 0            ; first
mov   e, 1            ; second
call  proc_fib
call  print
end

proc_fib:
    cmp   c, 2
    jl    func_0
    mov   b, d
    add   b, e
    mov   d, e
    mov   e, b
    inc   c
    cmp   c, a
    jle   proc_fib
    ret

func_0:
    mov   b, c
    inc   c
    jmp   proc_fib

print:
    msg   'Term ', a, ' of Fibonacci series is: ', b        ; output text
    ret
";
    assert_eq!(
        Interpreter::interpret(source).1,
        Some(String::from("Term 8 of Fibonacci series is: 21"))
    );
}

#[test]
fn modulo_by_division_and_multiplication() {
    let source = "
mov   a, 11           ; value1
mov   b, 3            ; value2
call  mod_func
msg   'mod(', a, ', ', b, ') = ', d        ; output
end

; Mod function
mod_func:
    mov   c, a        ; temp1
    div   c, b
    mul   c, b
    mov   d, a        ; temp2
    sub   d, c
    ret
";
    assert_eq!(Interpreter::interpret(source).1, Some(String::from("mod(11, 3) = 2")));
}

#[test]
fn power_by_repeated_multiplication() {
    let source = "
mov   a, 2            ; value1
mov   b, 10           ; value2
mov   c, a            ; temp1
mov   d, b            ; temp2
call  proc_func
call  print
end

proc_func:
    cmp   d, 1
    je    continue
    mul   c, a
    dec   d
    call  proc_func

continue:
    ret

print:
    msg a, '^', b, ' = ', c
    ret
";
    assert_eq!(Interpreter::interpret(source).1, Some(String::from("2^10 = 1024")));
}
