use tapevm::basic_op::{render_basic_op, BasicOp, BasicOpAcc};
use tapevm::compound_op::CompoundOp;
use tapevm::interpreter::{Machine, RunError, Status};
use tapevm::interpreter_op::InterpreterOp;
use tapevm::pipeline::Parser;
use tapevm::transpile_c::{transpile_c, TranspileError};

fn compile(src: &str) -> Vec<InterpreterOp> {
    let mut p = Parser::new();
    for b in src.bytes() {
        p.feed(b).unwrap();
    }
    p.flush().unwrap();
    p.view().unwrap().clone()
}

fn lex_all(src: &[u8]) -> Vec<BasicOp> {
    let mut acc = BasicOpAcc::new();
    let mut out = Vec::new();
    for b in src {
        if let Some(op) = acc.feed_byte(*b).unwrap() {
            out.push(op);
        }
        while let Some(op) = acc.continued() {
            out.push(op);
        }
    }
    while let Some(op) = acc.finalize() {
        out.push(op);
    }
    out
}

#[test]
fn transpile_whole_program_text() {
    let ops = compile("+.");
    let text = transpile_c(&ops).unwrap();
    let mut expected = String::new();
    for line in [
        "#include <stdio.h>\n",
        "#include <stdlib.h>\n",
        "#include <string.h>\n",
        "static inline void put(unsigned char c){ putchar((char) c); }\n",
        "static inline unsigned char get(void){ char c = getc(stdin); return c != EOF ? (unsigned char) c : 0; }\n",
        "int main(){\n",
        "unsigned char *m = malloc(25000000);\n",
        "size_t i = 0;\n",
        "memset(m, 0, 25000000);\n",
        "m[i] += 1;\n",
        "put(m[i]);\n",
        "fflush(stdout);\n",
        "free(m);\n",
        "return 0;\n",
        "}\n",
    ] {
        expected.push_str(line);
    }
    assert_eq!(text, expected);
}

#[test]
fn transpile_loops_and_idioms() {
    let text = transpile_c(&compile("[,]")).unwrap();
    assert!(text.contains("while(m[i]){\nm[i] = get();\n}\n"));

    let text2 = transpile_c(&compile("[-]5+")).unwrap();
    assert!(text2.contains("m[i] = 5;\n"));

    let text3 = transpile_c(&compile("[-<+>]")).unwrap();
    assert!(text3.contains("m[i + -1] += m[i];\nm[i] = 0;\n"));

    let text4 = transpile_c(&compile("[-]>[-]>")).unwrap();
    assert!(text4.contains("memset(&m[i], 0, 2);\ni += 2;\n"));
}

#[test]
fn transpile_rejects_raw_loop_tokens() {
    let ops = vec![InterpreterOp::CompoundOp(CompoundOp::BasicOp(
        BasicOp::LoopStart,
    ))];
    assert!(matches!(
        transpile_c(&ops),
        Err(TranspileError::UnprocessedLoop)
    ));
}

#[test]
fn transpile_rejects_empty_print() {
    let ops = vec![InterpreterOp::CompoundOp(CompoundOp::PrintStatic(vec![]))];
    assert!(matches!(transpile_c(&ops), Err(TranspileError::EmptyPrint)));
}

#[test]
fn coalesced_output_reparses_to_itself() {
    // Printing the coalescer's output and lexing it again gives the same
    // op stream back.
    for src in ["12+3<[2.]", "7+>5-<[->+<],,.", "3[,3]"] {
        let ops1 = lex_all(src.as_bytes());
        let mut text: Vec<u8> = Vec::new();
        for op in &ops1 {
            text.extend(render_basic_op(op));
        }
        let ops2 = lex_all(&text);
        assert_eq!(ops1, ops2, "round trip of {:?} via {:?}", src, text);
    }
}

#[test]
fn comparison_and_bit_ops_run() {
    // LessThan: operands below the head, result where the first operand was.
    let mut m = Machine::new(8, vec![]);
    let ops = vec![
        InterpreterOp::CompoundOp(CompoundOp::BasicOp(BasicOp::ChangeBy(3))),
        InterpreterOp::CompoundOp(CompoundOp::BasicOp(BasicOp::Shift(1))),
        InterpreterOp::CompoundOp(CompoundOp::BasicOp(BasicOp::ChangeBy(7))),
        InterpreterOp::CompoundOp(CompoundOp::BasicOp(BasicOp::Shift(1))),
        InterpreterOp::CompoundOp(CompoundOp::LessThan),
    ];
    m.run(&ops, u64::MAX);
    assert_eq!(m.status, Status::Running);
    assert_eq!(m.tape[0], 1, "3 < 7");
    assert_eq!((m.tape[1], m.tape[2], m.tape[3]), (0, 0, 0));
    assert_eq!(m.head, 2);

    // Logical shift left: 3 << 2 at head - 2.
    let mut m2 = Machine::new(8, vec![]);
    let ops2 = vec![
        InterpreterOp::CompoundOp(CompoundOp::BasicOp(BasicOp::ChangeBy(3))),
        InterpreterOp::CompoundOp(CompoundOp::BasicOp(BasicOp::Shift(1))),
        InterpreterOp::CompoundOp(CompoundOp::BasicOp(BasicOp::ChangeBy(2))),
        InterpreterOp::CompoundOp(CompoundOp::BasicOp(BasicOp::Shift(1))),
        InterpreterOp::CompoundOp(CompoundOp::ShiftLeftLogical),
    ];
    m2.run(&ops2, u64::MAX);
    assert_eq!(m2.tape[0], 12);
    assert_eq!(m2.tape[1], 0);
    assert_eq!(m2.head, 1);

    // Bit negation advances the head and clears the scratch cell.
    let mut m3 = Machine::new(4, vec![]);
    let ops3 = vec![
        InterpreterOp::CompoundOp(CompoundOp::BasicOp(BasicOp::ChangeBy(5))),
        InterpreterOp::CompoundOp(CompoundOp::BitNeg),
    ];
    m3.run(&ops3, u64::MAX);
    assert_eq!(m3.tape[0], 250);
    assert_eq!(m3.tape[1], 0);
    assert_eq!(m3.head, 1);

    // Dupe copies from the given offset and clears the next cell.
    let mut m4 = Machine::new(4, vec![]);
    let ops4 = vec![
        InterpreterOp::CompoundOp(CompoundOp::BasicOp(BasicOp::ChangeBy(9))),
        InterpreterOp::CompoundOp(CompoundOp::BasicOp(BasicOp::Shift(1))),
        InterpreterOp::CompoundOp(CompoundOp::Dupe(-1)),
    ];
    m4.run(&ops4, u64::MAX);
    assert_eq!(m4.tape[1], 9);
    assert_eq!(m4.tape[2], 0);
    assert_eq!(m4.head, 2);

    // Division with remainder guards a zero divisor.
    let mut m5 = Machine::new(8, vec![]);
    let ops5 = vec![
        InterpreterOp::CompoundOp(CompoundOp::BasicOp(BasicOp::ChangeBy(9))),
        InterpreterOp::CompoundOp(CompoundOp::BasicOp(BasicOp::Shift(2))),
        InterpreterOp::CompoundOp(CompoundOp::WellBehavedDivMod(0)),
    ];
    m5.run(&ops5, u64::MAX);
    assert_eq!(m5.status, Status::Running);
    assert_eq!((m5.tape[2], m5.tape[3]), (0, 0), "zero divisor gives 0, 0");

    // An input driven off the tape fails cleanly.
    let mut m6 = Machine::new(2, vec![]);
    let ops6 = vec![
        InterpreterOp::CompoundOp(CompoundOp::BasicOp(BasicOp::Shift(5))),
        InterpreterOp::CompoundOp(CompoundOp::BasicOp(BasicOp::Input(1))),
    ];
    m6.run(&ops6, u64::MAX);
    assert_eq!(m6.status, Status::Failed(RunError::OutOfBounds));
}
