use tapevm::interpreter::{Interpreter, Machine, RunError, Status};
use tapevm::interpreter_op::InterpreterOp;
use tapevm::pipeline::Parser;

fn compile(src: &str) -> Vec<InterpreterOp> {
    let mut p = Parser::new();
    for b in src.bytes() {
        p.feed(b).unwrap();
    }
    p.flush().unwrap();
    p.view().unwrap().clone()
}

fn run(src: &str, input: &[u8]) -> Machine {
    let ops = compile(src);
    let interp = Interpreter::new(&ops);
    interp.interpret(input, u64::MAX)
}

#[test]
fn empty_program_is_a_no_op() {
    let ops = compile("");
    assert!(ops.is_empty());
    let m = run("", b"");
    assert!(m.halted(&[]));
    assert!(m.output.is_empty());
    assert_eq!(m.tape[0], 0);
}

#[test]
fn leading_empty_loop_is_skipped() {
    let m = run("[]", b"");
    assert_eq!(m.status, Status::Running);
    assert_eq!(m.pc, 2);
    assert_eq!(m.head, 0);
    for i in 0..16 {
        assert_eq!(m.tape[i], 0);
    }
    assert!(m.output.is_empty());
}

#[test]
fn two_hundred_fifty_six_increments_wrap_to_zero() {
    let src: String = "+".repeat(256);
    let m = run(&src, b"");
    assert_eq!(m.tape[0], 0);
}

#[test]
fn run_length_two_hundred_fifty_six_increments_wrap_to_zero() {
    let m = run("256+", b"");
    assert_eq!(m.tape[0], 0);
}

#[test]
fn unmatched_loop_start_fails() {
    let mut p = Parser::new();
    for b in "[".bytes() {
        p.feed(b).unwrap();
    }
    p.flush().unwrap();
    assert!(p.view().is_err());
}

#[test]
fn unmatched_loop_end_fails() {
    let mut p = Parser::new();
    for b in "]".bytes() {
        p.feed(b).unwrap();
    }
    assert!(p.flush().is_err());
}

#[test]
fn invalid_character_fails() {
    let mut p = Parser::new();
    assert!(p.feed(b'a').is_err());
}

#[test]
fn input_at_end_of_stream_reads_zero() {
    let m = run("+++,.", b"");
    assert_eq!(m.tape[0], 0);
    assert_eq!(m.output, vec![0]);
}

#[test]
fn input_reads_bytes_in_order() {
    let m = run(",.,.,.", b"abc");
    assert_eq!(m.output, b"abc".to_vec());
}

#[test]
fn hello_world() {
    let src = "++++++++[>++++[>++>+++>+++>+<<<<-]>+>+>->>+[<]<-]>>.>---.+++++++..+++.>>.\
               <-.<.+++.------.--------.>>+.>++.";
    let m = run(src, b"");
    assert_eq!(m.output, b"Hello World!\n".to_vec());
}

#[test]
fn cell_zero_idiom() {
    let m = run("+++[-]", b"");
    assert_eq!(m.tape[0], 0);
}

#[test]
fn move_add_idiom() {
    let m = run("+++[->+<]", b"");
    assert_eq!(m.tape[0], 0);
    assert_eq!(m.tape[1], 3);
}

#[test]
fn run_length_output() {
    let m = run("7+.", b"");
    assert_eq!(m.output, vec![7]);
}

#[test]
fn panic_trap_reports_its_code() {
    // The trap idiom is a recognized `Set` followed by an empty loop.
    let m = run("[-]++++[]", b"");
    assert_eq!(m.status, Status::Panicked(4));
}

#[test]
fn bare_increments_before_empty_loop_spin() {
    // Without an explicit zeroing, `++++[]` stays a raw loop and spins.
    let ops = compile("++++[]");
    let interp = Interpreter::new(&ops);
    let m = interp.interpret(b"", 10_000);
    assert_eq!(m.status, Status::Running);
    assert!(m.pc < ops.len());
}

#[test]
fn div_mod_idiom() {
    let src = "17+>5+>[-]>[-]>[-]>[-]<<<<<[->[->+>>]>[<<+>>[-<+>]>+>>]<<<<<]>[>>>]>[[-<+>]>+>>]<<<";
    let m = run(src, b"");
    assert_eq!(m.head, 2);
    assert_eq!(m.tape[2], 2, "modulus 17 % 5");
    assert_eq!(m.tape[3], 3, "quotient 17 / 5");
    assert_eq!(m.tape[1], 3, "divisor minus modulus");
    assert_eq!(m.tape[0], 0);
}

#[test]
fn run_length_equals_repetition() {
    // A single run-length-prefixed operator compiles to the same program as
    // the operator written out.
    assert_eq!(compile("7+"), compile("+++++++"));
    assert_eq!(compile("5>"), compile(">>>>>"));
    assert_eq!(compile("4<"), compile("<<<<"));
    assert_eq!(compile("3,"), compile(",,,"));
    assert_eq!(compile("3."), compile("..."));
    assert_eq!(compile("2[2]"), compile("[[]]"));
    assert_eq!(compile("3[,3]"), compile("[[[,]]]"));
}

#[test]
fn whitespace_is_ignored() {
    assert_eq!(compile("+ +\n+"), compile("+++"));
}

#[test]
fn out_of_bounds_head_fails() {
    let m = run("<", b"");
    assert_eq!(m.status, Status::Failed(RunError::OutOfBounds));
}
