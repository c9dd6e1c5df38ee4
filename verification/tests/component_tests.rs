use tapevm::basic_op::{BasicOp, BasicOpAcc};
use tapevm::compound_op::CompoundOp;
use tapevm::interpreter::{Interpreter, Machine, RunError, Status, CELL_COUNT};
use tapevm::interpreter_op::InterpreterOp;
use tapevm::pipeline::Parser;

fn compile(src: &str) -> Vec<InterpreterOp> {
    let mut p = Parser::new();
    for b in src.bytes() {
        p.feed(b).unwrap();
    }
    p.flush().unwrap();
    p.view().unwrap().clone()
}

fn basic(op: BasicOp) -> InterpreterOp {
    InterpreterOp::CompoundOp(CompoundOp::BasicOp(op))
}

fn comp(op: CompoundOp) -> InterpreterOp {
    InterpreterOp::CompoundOp(op)
}

#[test]
fn lexer_coalesces_same_kind_ops() {
    let mut acc = BasicOpAcc::new();
    for b in "+++".bytes() {
        assert_eq!(acc.feed_byte(b).unwrap(), None);
    }
    // A different kind flushes the coalesced op.
    assert_eq!(acc.feed_byte(b'>').unwrap(), Some(BasicOp::ChangeBy(3)));
    assert_eq!(acc.finalize(), Some(BasicOp::Shift(1)));
}

#[test]
fn lexer_drops_cancelled_ops() {
    let mut acc = BasicOpAcc::new();
    assert_eq!(acc.feed_byte(b'+').unwrap(), None);
    assert_eq!(acc.feed_byte(b'-').unwrap(), None);
    // +1 then -1 coalesce to a zero change, which is filtered out.
    assert_eq!(acc.feed_byte(b'>').unwrap(), None);
    assert_eq!(acc.finalize(), Some(BasicOp::Shift(1)));
}

#[test]
fn lexer_applies_run_length_prefix() {
    let mut acc = BasicOpAcc::new();
    assert_eq!(acc.feed_byte(b'1').unwrap(), None);
    assert_eq!(acc.feed_byte(b'2').unwrap(), None);
    assert_eq!(acc.feed_byte(b'-').unwrap(), None);
    assert_eq!(acc.finalize(), Some(BasicOp::ChangeBy(244)));
}

#[test]
fn lexer_duplicates_loop_tokens() {
    let mut acc = BasicOpAcc::new();
    assert_eq!(acc.feed_byte(b'3').unwrap(), None);
    assert_eq!(acc.feed_byte(b'[').unwrap(), None);
    assert_eq!(acc.continued(), Some(BasicOp::LoopStart));
    assert_eq!(acc.continued(), Some(BasicOp::LoopStart));
    assert_eq!(acc.continued(), None);
    assert_eq!(acc.finalize(), Some(BasicOp::LoopStart));
}

#[test]
fn lexer_rejects_stray_bytes() {
    let mut acc = BasicOpAcc::new();
    assert!(acc.feed_byte(b'x').is_err());
}

#[test]
fn recognizer_emits_zero() {
    assert_eq!(
        compile("+++[-]"),
        vec![basic(BasicOp::ChangeBy(3)), comp(CompoundOp::Zero)]
    );
}

#[test]
fn recognizer_merges_set() {
    assert_eq!(compile("[-]+++"), vec![comp(CompoundOp::SetCell(3))]);
    // Consecutive sets keep only the last one.
    assert_eq!(compile("[-]+[-]++"), vec![comp(CompoundOp::SetCell(2))]);
}

#[test]
fn recognizer_merges_zero_advance() {
    assert_eq!(compile("[-]>[-]>"), vec![comp(CompoundOp::ZeroAdvance(2))]);
    assert_eq!(compile("[-]<[-]<"), vec![comp(CompoundOp::ZeroRetreat(2))]);
}

#[test]
fn recognizer_emits_panic() {
    assert_eq!(
        compile("[-]++++[]"),
        vec![comp(CompoundOp::Panic(4))]
    );
}

#[test]
fn recognizer_emits_move_add_both_spellings() {
    assert_eq!(
        compile("[->>+<<]"),
        vec![comp(CompoundOp::MoveAdd(2))]
    );
    assert_eq!(
        compile("[>>+<<-]"),
        vec![comp(CompoundOp::MoveAdd(2))]
    );
}

#[test]
fn recognizer_emits_move_add2() {
    assert_eq!(
        compile("[>+>+<<-]"),
        vec![comp(CompoundOp::MoveAdd2(1, 2))]
    );
}

#[test]
fn recognizer_emits_print_static() {
    let ops = compile("[-]72+2.");
    assert_eq!(ops, vec![comp(CompoundOp::PrintStatic(vec![72, 72]))]);
}

#[test]
fn recognizer_continues_print_static() {
    // 'H' twice, then change by one and print again: 'I'.
    let ops = compile("[-]72+2.+.");
    assert_eq!(ops, vec![comp(CompoundOp::PrintStatic(vec![72, 72, 73]))]);
}

#[test]
fn recognizer_emits_equals() {
    let ops = compile("3+>3+<[->-<]+>[<->[-]]");
    assert_eq!(
        ops,
        vec![
            basic(BasicOp::ChangeBy(3)),
            basic(BasicOp::Shift(1)),
            basic(BasicOp::ChangeBy(3)),
            basic(BasicOp::Shift(-1)),
            comp(CompoundOp::Equals),
        ]
    );
    let interp = Interpreter::new(&ops);
    let m = interp.interpret(b"", u64::MAX);
    assert_eq!(m.tape[0], 1);
    assert_eq!(m.tape[1], 0);
    assert_eq!(m.head, 1);
}

#[test]
fn print_static_runs() {
    let m = {
        let ops = compile("[-]72+2.+.");
        Interpreter::new(&ops).interpret(b"", u64::MAX)
    };
    assert_eq!(m.output, b"HHI".to_vec());
    assert_eq!(m.tape[0], 73);
}

#[test]
fn loop_linking_distances() {
    let ops = compile("+[,[,],]");
    // Outer loop spans six slots, inner spans two.
    assert_eq!(ops.len(), 8);
    match (&ops[1], &ops[7]) {
        (InterpreterOp::LoopStart(d1), InterpreterOp::LoopEnd(d2)) => {
            assert_eq!(*d1, 6);
            assert_eq!(*d2, 6);
        }
        other => panic!("outer loop not linked: {:?}", other),
    }
    match (&ops[3], &ops[5]) {
        (InterpreterOp::LoopStart(d1), InterpreterOp::LoopEnd(d2)) => {
            assert_eq!(*d1, 2);
            assert_eq!(*d2, 2);
        }
        other => panic!("inner loop not linked: {:?}", other),
    }
}

#[test]
fn backend_rejects_raw_loop_tokens() {
    let ops = vec![basic(BasicOp::LoopStart)];
    let m = Interpreter::new(&ops).interpret(b"", u64::MAX);
    assert_eq!(m.status, Status::Failed(RunError::UnprocessedLoop));
}

#[test]
fn backend_rejects_empty_print() {
    let ops = vec![comp(CompoundOp::PrintStatic(vec![]))];
    let m = Interpreter::new(&ops).interpret(b"", u64::MAX);
    assert_eq!(m.status, Status::Failed(RunError::EmptyPrint));
}

#[test]
fn backend_rejects_bad_backward_jump() {
    let ops = vec![basic(BasicOp::ChangeBy(1)), InterpreterOp::LoopEnd(5)];
    let m = Interpreter::new(&ops).interpret(b"", u64::MAX);
    assert_eq!(m.status, Status::Failed(RunError::BadJump));
}

#[test]
fn backend_checks_tape_bounds() {
    let ops = vec![comp(CompoundOp::BitAnd)];
    // BitAnd reads seven cells below the head; at the origin that is outside.
    let m = Interpreter::new(&ops).interpret(b"", u64::MAX);
    assert_eq!(m.status, Status::Failed(RunError::OutOfBounds));
}

#[test]
fn machine_runs_single_ops() {
    let ops = vec![
        basic(BasicOp::ChangeBy(200)),
        basic(BasicOp::ChangeBy(100)),
        basic(BasicOp::Output(2)),
    ];
    let m = Interpreter::new(&ops).interpret(b"", u64::MAX);
    assert_eq!(m.tape[0], 44, "adds wrap modulo 256");
    assert_eq!(m.output, vec![44, 44]);
}

#[test]
fn machine_with_small_tape() {
    let mut m = Machine::new(4, vec![]);
    let ops = vec![basic(BasicOp::Shift(3)), basic(BasicOp::ChangeBy(9))];
    m.run(&ops, u64::MAX);
    assert_eq!(m.tape, vec![0, 0, 0, 9]);
    let mut m2 = Machine::new(4, vec![]);
    let ops2 = vec![basic(BasicOp::Shift(4)), basic(BasicOp::ChangeBy(9))];
    m2.run(&ops2, u64::MAX);
    assert_eq!(m2.status, Status::Failed(RunError::OutOfBounds));
}

#[test]
fn dynamic_move_and_block_move_ops() {
    // An indirect store: head at 5, value below at 3, index at 4.
    let mut m = Machine::new(8, vec![]);
    let ops = vec![
        basic(BasicOp::Shift(3)),
        basic(BasicOp::ChangeBy(7)),
        basic(BasicOp::Shift(1)),
        basic(BasicOp::ChangeBy(2)),
        basic(BasicOp::Shift(1)),
        comp(CompoundOp::MoveCellDynamicU8(0)),
    ];
    m.run(&ops, u64::MAX);
    assert_eq!(m.status, Status::Running);
    // destination = head - 3 - 0 + index = 5 - 3 + 2 = 4
    assert_eq!(m.tape[4], 7);
    assert_eq!(m.tape[3], 2);
    assert_eq!(m.head, 3);

    // A block move: two cells ending at the head, moved three to the right.
    let mut m2 = Machine::new(8, vec![]);
    let ops2 = vec![
        basic(BasicOp::Shift(1)),
        basic(BasicOp::ChangeBy(5)),
        basic(BasicOp::Shift(1)),
        basic(BasicOp::ChangeBy(6)),
        comp(CompoundOp::MoveCellsStaticReverse(3, 2)),
    ];
    m2.run(&ops2, u64::MAX);
    assert_eq!(m2.status, Status::Running);
    assert_eq!(m2.tape, vec![0, 0, 0, 0, 5, 6, 0, 0]);
    assert_eq!(m2.head, 0);
}

#[test]
fn default_tape_size_is_large() {
    assert_eq!(CELL_COUNT, 25_000_000);
}

#[test]
fn recognizer_emits_not_equals() {
    assert_eq!(compile("[->-<]>[<+>[-]]"), vec![comp(CompoundOp::NotEquals)]);
}

#[test]
fn recognizer_emits_bit_neg() {
    assert_eq!(
        compile("5+[->+<]>+[<->-]"),
        vec![basic(BasicOp::ChangeBy(5)), comp(CompoundOp::BitNeg)]
    );
}

#[test]
fn recognizer_emits_move_set() {
    assert_eq!(compile(">>[-]<<[->>+<<]"), vec![comp(CompoundOp::MoveSet(2))]);
    let m = {
        let ops = compile("3+>>[-]<<[->>+<<]");
        Interpreter::new(&ops).interpret(b"", u64::MAX)
    };
    assert_eq!(m.tape[0], 0);
    assert_eq!(m.tape[2], 3);
}

#[test]
fn recognizer_emits_dupe() {
    assert_eq!(
        compile("[-]>[-]<<[>+>+<<-]>>[<<+>>-]"),
        vec![comp(CompoundOp::Dupe(-1))]
    );
    let m = {
        let ops = compile("7+>[-]>[-]<<[>+>+<<-]>>[<<+>>-]");
        Interpreter::new(&ops).interpret(b"", u64::MAX)
    };
    assert_eq!(m.tape[1], 7);
    assert_eq!(m.head, 2);
}
