use crate::basic_op::{
    can_merge, dec_bytes, feed_step, grow_number, is_digit_byte, is_operator_byte,
    is_whitespace_byte, merged, render_count, render_op, render_ops, spec_filter, synth_op,
    BasicOp, BasicOpAcc,
};
use crate::compound_op::CompoundOp;
use crate::interpreter::{init_state, is_done, mrun, mstep, MState};
use crate::interpreter_op::InterpreterOp;
use crate::pipeline::{
    byte_step, empty_stage, flush_step, fresh_lexer, lex_emits, lex_final_ops, lex_from,
    lex_next, lex_ok, lex_source, opt_seq, program_of, push_all, repeat_op, run_bytes,
    PipelineError, StageModel,
};
use crate::interpreter_op::LinkError;
use vstd::arithmetic::div_mod::{
    lemma_add_mod_noop, lemma_fundamental_div_mod, lemma_mod_add_multiples_vanish,
    lemma_sub_mod_noop,
};
use vstd::prelude::*;

verus! {

/// An empty program leaves the machine exactly as it started, for any input,
/// tape size, and amount of fuel: running it is a no-op.
pub proof fn lemma_empty_program_is_no_op(input: Seq<u8>, tape_len: nat, fuel: nat)
    ensures
        mrun(Seq::<InterpreterOp>::empty(), init_state(input, tape_len), fuel) == init_state(
            input,
            tape_len,
        ),
{
}

/// The raw expansion of the zeroing idiom: a loop whose body changes the
/// current cell by one, in either direction.
pub open spec fn zero_loop_program(delta: u8) -> Seq<InterpreterOp> {
    seq![
        InterpreterOp::LoopStart(2usize),
        InterpreterOp::CompoundOp(CompoundOp::BasicOp(BasicOp::ChangeBy(delta))),
        InterpreterOp::LoopEnd(2usize),
    ]
}

/// How many loop passes the zeroing idiom's expansion makes from cell
/// value `v`.
pub open spec fn zero_loop_iterations(v: u8, delta: u8) -> nat {
    if delta == 255 {
        v as nat
    } else if v == 0 {
        0
    } else {
        (256 - v) as nat
    }
}

/// The zeroing idiom is preserved: from any state, the raw expansion
/// `[ ChangeBy(+1 or -1) ]` reaches, in finitely many steps, exactly the
/// state the single `Zero` instruction produces — the current cell cleared
/// and nothing else changed — with the program counter past the loop.
pub proof fn lemma_zero_idiom_preserved(s: MState, delta: u8)
    requires
        s.status is Running,
        s.pc == 0,
        s.head < s.tape.len(),
        delta == 1 || delta == 255,
    ensures
        exists|n: nat|
            mrun(zero_loop_program(delta), s, n) == (MState {
                tape: s.tape.update(s.head as int, 0u8),
                pc: 3usize,
                ..s
            }),
    decreases zero_loop_iterations(s.tape[s.head as int], delta),
{
    let prog = zero_loop_program(delta);
    let target = MState { tape: s.tape.update(s.head as int, 0u8), pc: 3usize, ..s };
    let v = s.tape[s.head as int];
    assert(prog[0] == InterpreterOp::LoopStart(2usize));
    assert(prog[1] == InterpreterOp::CompoundOp(CompoundOp::BasicOp(BasicOp::ChangeBy(delta))));
    assert(prog[2] == InterpreterOp::LoopEnd(2usize));
    if v == 0 {
        let s1 = mstep(prog, s);
        assert(s1 == MState { pc: 2usize, ..s });
        let s2 = mstep(prog, s1);
        assert(s2 == MState { pc: 3usize, ..s });
        assert(s.tape.update(s.head as int, 0u8) =~= s.tape);
        assert(!is_done(prog, s));
        assert(!is_done(prog, s1));
        assert(mrun(prog, s, 2) == mrun(prog, s1, 1));
        assert(mrun(prog, s1, 1) == mrun(prog, s2, 0));
        assert(mrun(prog, s, 2) == target);
    } else {
        let s1 = mstep(prog, s);
        assert(s1 == MState { pc: 1usize, ..s });
        let v2 = v.wrapping_add(delta);
        let s2 = mstep(prog, s1);
        assert(s2 == MState { tape: s.tape.update(s.head as int, v2), pc: 2usize, ..s });
        let s3 = mstep(prog, s2);
        if v2 == 0 {
            assert(s3 == MState { tape: s.tape.update(s.head as int, v2), pc: 3usize, ..s });
            assert(s.tape.update(s.head as int, v2) =~= s.tape.update(s.head as int, 0u8));
            assert(!is_done(prog, s));
            assert(!is_done(prog, s1));
            assert(!is_done(prog, s2));
            assert(mrun(prog, s, 3) == mrun(prog, s1, 2));
            assert(mrun(prog, s1, 2) == mrun(prog, s2, 1));
            assert(mrun(prog, s2, 1) == mrun(prog, s3, 0));
            assert(mrun(prog, s, 3) == target);
        } else {
            assert(s3 == MState { tape: s.tape.update(s.head as int, v2), pc: 0usize, ..s });
            assert(zero_loop_iterations(v2, delta) < zero_loop_iterations(v, delta));
            lemma_zero_idiom_preserved(s3, delta);
            let target3 = MState {
                tape: s3.tape.update(s3.head as int, 0u8),
                pc: 3usize,
                ..s3
            };
            let n3 = choose|n: nat| mrun(prog, s3, n) == target3;
            assert(s3.tape.update(s3.head as int, 0u8) =~= s.tape.update(s.head as int, 0u8));
            assert(target3 == target);
            assert(!is_done(prog, s));
            assert(!is_done(prog, s1));
            assert(!is_done(prog, s2));
            assert(mrun(prog, s, (3 + n3) as nat) == mrun(prog, s1, (2 + n3) as nat));
            assert(mrun(prog, s1, (2 + n3) as nat) == mrun(prog, s2, (1 + n3) as nat));
            assert(mrun(prog, s2, (1 + n3) as nat) == mrun(prog, s3, n3));
            assert(mrun(prog, s, (3 + n3) as nat) == target);
        }
    }
}


proof fn lemma_lex_from_concat(lex: BasicOpAcc, b1: Seq<u8>, b2: Seq<u8>)
    requires
        lex.trailing is None,
    ensures
        lex_from(lex, b1 + b2) == (match lex_from(lex, b1) {
            Option::Some(p) => match lex_from(p.0, b2) {
                Option::Some(q) => Option::Some((q.0, p.1 + q.1)),
                Option::None => Option::<(BasicOpAcc, Seq<BasicOp>)>::None,
            },
            Option::None => Option::<(BasicOpAcc, Seq<BasicOp>)>::None,
        }),
    decreases b1.len(),
{
    if b1.len() == 0 {
        assert(b1 + b2 =~= b2);
        match lex_from(lex, b2) {
            Option::Some(q) => {
                assert(Seq::<BasicOp>::empty() + q.1 =~= q.1);
            },
            Option::None => {},
        }
    } else {
        assert((b1 + b2)[0] == b1[0]);
        assert((b1 + b2).drop_first() =~= b1.drop_first() + b2);
        if lex_ok(lex, b1[0]) {
            let lex1 = lex_next(lex, b1[0]);
            assert(lex1.trailing is None);
            lemma_lex_from_concat(lex1, b1.drop_first(), b2);
            match lex_from(lex1, b1.drop_first()) {
                Option::Some(p) => {
                    match lex_from(p.0, b2) {
                        Option::Some(q) => {
                            assert(lex_emits(lex, b1[0]) + (p.1 + q.1) =~= (lex_emits(lex, b1[0])
                                + p.1) + q.1);
                        },
                        Option::None => {},
                    }
                },
                Option::None => {},
            }
        }
    }
}

proof fn lemma_u64_low_byte(m: u64)
    ensures
        (m as u8) as int == (m as int) % 256,
{
    assert(m as u8 == (m % 256) as u8) by (bit_vector);
    assert(m % 256 < 256);
}


proof fn lemma_lex_one_byte(lex: BasicOpAcc, b: u8)
    requires
        lex.trailing is None,
        lex_ok(lex, b),
    ensures
        lex_from(lex, seq![b]) == Option::Some((lex_next(lex, b), lex_emits(lex, b))),
{
    assert(seq![b].drop_first() =~= Seq::<u8>::empty());
    let lex2 = lex_next(lex, b);
    assert(lex_from(lex2, seq![b].drop_first()) == Option::Some(
        (lex2, Seq::<BasicOp>::empty()),
    ));
    assert(lex_emits(lex, b) + Seq::<BasicOp>::empty() =~= lex_emits(lex, b));
}

proof fn lemma_lex_digits(lex: BasicOpAcc, n: u64)
    requires
        lex.trailing is None,
        lex.number is None,
    ensures
        lex_from(lex, dec_bytes(n as nat)) == Option::Some(
            (BasicOpAcc { number: Option::Some(n), ..lex }, Seq::<BasicOp>::empty()),
        ),
    decreases n,
{
    if n < 10 {
        let b = (48 + n) as u8;
        let bytes = seq![b];
        assert(dec_bytes(n as nat) =~= bytes);
        assert(is_digit_byte(b));
        assert(!is_whitespace_byte(b) && !is_operator_byte(b));
        assert(lex_ok(lex, b));
        assert(bytes.drop_first() =~= Seq::<u8>::empty());
        assert((b - 48) as u64 == n);
        assert(grow_number(Option::None, n) == n);
        let lex2 = lex_next(lex, b);
        assert(lex2 == (BasicOpAcc { number: Option::Some(n), ..lex }));
        assert(lex_from(lex2, bytes.drop_first()) == Option::Some(
            (lex2, Seq::<BasicOp>::empty()),
        ));
        assert(lex_emits(lex, b) =~= Seq::<BasicOp>::empty());
        assert(lex_from(lex, bytes) == Option::Some(
            (lex2, lex_emits(lex, b) + Seq::<BasicOp>::empty()),
        ));
        assert(lex_emits(lex, b) + Seq::<BasicOp>::empty() =~= Seq::<BasicOp>::empty());
        assert(lex_from(lex, dec_bytes(n as nat)) == lex_from(lex, bytes));
        assert(lex_from(lex, dec_bytes(n as nat)) == Option::Some(
            (BasicOpAcc { number: Option::Some(n), ..lex }, Seq::<BasicOp>::empty()),
        ));
    } else {
        lemma_lex_digits(lex, n / 10);
        let d = n % 10;
        let b = (48 + d) as u8;
        assert((n as nat) / 10 == (n / 10) as nat);
        assert((n as nat) % 10 == d as nat);
        assert(dec_bytes(n as nat) =~= dec_bytes((n / 10) as nat) + seq![b]);
        lemma_lex_from_concat(lex, dec_bytes((n / 10) as nat), seq![b]);
        let lex1 = BasicOpAcc { number: Option::Some(n / 10), ..lex };
        assert(is_digit_byte(b));
        assert(!is_whitespace_byte(b) && !is_operator_byte(b));
        assert(seq![b].drop_first() =~= Seq::<u8>::empty());
        assert((b - 48) as u64 == d);
        lemma_fundamental_div_mod(n as int, 10);
        assert(10 * ((n as int) / 10) + (n as int) % 10 == n as int);
        assert((n / 10) as int <= ((u64::MAX - d) as int) / 10) by (nonlinear_arith)
            requires
                10 * ((n as int) / 10) + (d as int) == n as int,
                n as int <= u64::MAX as int,
                0 <= d < 10,
                0 <= (n as int) / 10,
        ;
        assert(grow_number(Option::Some(n / 10), d) == n);
        assert(lex_next(lex1, b) == (BasicOpAcc { number: Option::Some(n), ..lex }));
        assert(lex_emits(lex1, b) =~= Seq::<BasicOp>::empty());
        lemma_lex_one_byte(lex1, b);
        assert(lex_from(lex1, seq![b]) == Option::Some(
            (BasicOpAcc { number: Option::Some(n), ..lex }, Seq::<BasicOp>::empty()),
        ));
        assert(Seq::<BasicOp>::empty() + Seq::<BasicOp>::empty() =~= Seq::<BasicOp>::empty());
        assert(lex_from(lex, dec_bytes(n as nat)) == Option::Some(
            (BasicOpAcc { number: Option::Some(n), ..lex }, Seq::<BasicOp>::empty()),
        ));
    }
}

proof fn lemma_merged_synth(b: u8, j: u64)
    requires
        is_operator_byte(b),
        b != 91,
        b != 93,
        j >= 2,
        (b == 60 || b == 62) ==> j <= i64::MAX as u64,
    ensures
        merged(synth_op(b, (j - 1) as u64), synth_op(b, 1)) == synth_op(b, j),
{
    if b == 43 {
        let x = ((j - 1) as u64) as u8;
        lemma_u64_low_byte((j - 1) as u64);
        lemma_u64_low_byte(j);
        lemma_add_mod_noop((j - 1) as int, 1, 256);
        assert((x.wrapping_add(1u8)) as int == ((x as int) + 1) % 256);
        assert(((1 as int)) % 256 == 1);
        assert((x.wrapping_add(1u8)) as int == (j as int) % 256);
        assert(x.wrapping_add(1u8) == j as u8);
    } else if b == 45 {
        let x = (0u8).wrapping_sub(((j - 1) as u64) as u8);
        let y = (0u8).wrapping_sub(1u8);
        lemma_u64_low_byte((j - 1) as u64);
        lemma_u64_low_byte(j);
        lemma_sub_mod_noop(0, (j - 1) as int, 256);
        assert(x as int == (0 - ((j - 1) as int)) % 256);
        assert(y as int == 255);
        assert((x.wrapping_add(y)) as int == ((x as int) + 255) % 256);
        lemma_add_mod_noop(0 - ((j - 1) as int), 0 - 1, 256);
        assert((0 - 1) % 256 == 255);
        assert((x.wrapping_add(y)) as int == (0 - (j as int)) % 256);
        lemma_sub_mod_noop(0, j as int, 256);
        assert(((0u8).wrapping_sub(j as u8)) as int == (0 - ((j as u8) as int)) % 256);
        lemma_sub_mod_noop(0, (j as u8) as int, 256);
        assert(((j as u8) as int) % 256 == (j as int) % 256);
        assert(((0u8).wrapping_sub(j as u8)) as int == (0 - (j as int)) % 256);
        assert(x.wrapping_add(y) == (0u8).wrapping_sub(j as u8));
    }
}

proof fn lemma_lex_repeat(b: u8, j: u64)
    requires
        is_operator_byte(b),
        b != 91,
        b != 93,
        j >= 1,
        (b == 60 || b == 62) ==> j <= i64::MAX as u64,
    ensures
        lex_from(fresh_lexer(), Seq::new(j as nat, |i: int| b)) == Option::Some(
            (
                BasicOpAcc {
                    building: Option::Some(synth_op(b, j)),
                    trailing: Option::None,
                    number: Option::None,
                },
                Seq::<BasicOp>::empty(),
            ),
        ),
    decreases j,
{
    let bytes = Seq::new(j as nat, |i: int| b);
    assert(!is_whitespace_byte(b) && !is_digit_byte(b));
    if j == 1 {
        assert(bytes =~= seq![b]);
        lemma_lex_one_byte(fresh_lexer(), b);
        assert(lex_emits(fresh_lexer(), b) =~= Seq::<BasicOp>::empty());
    } else {
        let prefix = Seq::new((j - 1) as nat, |i: int| b);
        assert(bytes =~= prefix + seq![b]);
        lemma_lex_repeat(b, (j - 1) as u64);
        lemma_lex_from_concat(fresh_lexer(), prefix, seq![b]);
        let lex1 = BasicOpAcc {
            building: Option::Some(synth_op(b, (j - 1) as u64)),
            trailing: Option::None,
            number: Option::None,
        };
        assert(can_merge(synth_op(b, (j - 1) as u64), synth_op(b, 1)));
        lemma_merged_synth(b, j);
        lemma_lex_one_byte(lex1, b);
        assert(lex_emits(lex1, b) =~= Seq::<BasicOp>::empty());
        assert(Seq::<BasicOp>::empty() + Seq::<BasicOp>::empty() =~= Seq::<BasicOp>::empty());
    }
}

proof fn lemma_lex_repeat_loop(b: u8, j: u64)
    requires
        b == 91 || b == 93,
        j >= 1,
    ensures
        lex_from(fresh_lexer(), Seq::new(j as nat, |i: int| b)) == Option::Some(
            (
                BasicOpAcc {
                    building: Option::Some(synth_op(b, 1)),
                    trailing: Option::None,
                    number: Option::None,
                },
                repeat_op(synth_op(b, 1), (j - 1) as u64),
            ),
        ),
    decreases j,
{
    let bytes = Seq::new(j as nat, |i: int| b);
    let op = synth_op(b, 1);
    assert(!is_whitespace_byte(b) && !is_digit_byte(b) && is_operator_byte(b));
    if j == 1 {
        assert(bytes =~= seq![b]);
        lemma_lex_one_byte(fresh_lexer(), b);
        assert(lex_emits(fresh_lexer(), b) =~= repeat_op(op, 0));
    } else {
        let prefix = Seq::new((j - 1) as nat, |i: int| b);
        assert(bytes =~= prefix + seq![b]);
        lemma_lex_repeat_loop(b, (j - 1) as u64);
        lemma_lex_from_concat(fresh_lexer(), prefix, seq![b]);
        let lex1 = BasicOpAcc {
            building: Option::Some(op),
            trailing: Option::None,
            number: Option::None,
        };
        assert(!can_merge(op, op));
        assert(spec_filter(op) == Option::Some(op));
        lemma_lex_one_byte(lex1, b);
        assert(lex_emits(lex1, b) =~= seq![op]);
        assert(repeat_op(op, (j - 2) as u64) + seq![op] =~= repeat_op(op, (j - 1) as u64));
    }
}

/// Token semantics: a single operator written with a run-length prefix `k`
/// lexes to exactly the op stream that `k` copies of that operator produce,
/// so the program built from either source is the same. Shift counts are
/// bounded by what an `i64` offset can hold.
pub proof fn lemma_run_length_token_semantics(b: u8, k: u64)
    requires
        is_operator_byte(b),
        k >= 1,
        (b == 60 || b == 62) ==> k <= i64::MAX as u64,
    ensures
        lex_source(dec_bytes(k as nat).push(b)) == lex_source(Seq::new(k as nat, |i: int| b)),
{
    assert(dec_bytes(k as nat).push(b) =~= dec_bytes(k as nat) + seq![b]);
    lemma_lex_digits(fresh_lexer(), k);
    lemma_lex_from_concat(fresh_lexer(), dec_bytes(k as nat), seq![b]);
    let lexd = BasicOpAcc { number: Option::Some(k), ..fresh_lexer() };
    let op = synth_op(b, k);
    assert(!is_whitespace_byte(b) && !is_digit_byte(b));
    lemma_lex_one_byte(lexd, b);
    if b == 91 || b == 93 {
        lemma_lex_repeat_loop(b, k);
        assert(synth_op(b, 1) == op);
        let extra = repeat_op(op, (k - 1) as u64);
        assert(lex_emits(lexd, b) =~= extra);
        assert(Seq::<BasicOp>::empty() + extra =~= extra);
        let lex2 = BasicOpAcc {
            building: Option::Some(op),
            trailing: Option::None,
            number: Option::None,
        };
        assert(spec_filter(op) == Option::Some(op));
        assert(lex_final_ops(lex2) =~= seq![op]);
        assert(extra + lex_final_ops(lex2) =~= extra + seq![op]);
    } else {
        lemma_lex_repeat(b, k);
        assert(lex_emits(lexd, b) =~= Seq::<BasicOp>::empty());
        assert(Seq::<BasicOp>::empty() + Seq::<BasicOp>::empty() =~= Seq::<BasicOp>::empty());
    }
}


/// An op stream as the coalescer emits it on most inputs: no op that
/// cancelled to nothing, no adjacent pair the coalescer would merge, and no
/// shift at the very bottom of the `i64` range.
pub open spec fn canonical_stream(ops: Seq<BasicOp>) -> bool {
    &&& forall|i: int| 0 <= i < ops.len() ==> #[trigger] spec_filter(ops[i]) is Some
    &&& forall|i: int| 0 <= i < ops.len() ==> (#[trigger] ops[i]) != BasicOp::Shift(i64::MIN)
    &&& forall|i: int| 0 <= i < ops.len() - 1 ==> !can_merge(ops[i], #[trigger] ops[i + 1])
}

pub open spec fn flush_opt(b: Option<BasicOp>) -> Seq<BasicOp> {
    match b {
        Option::Some(p) => seq![p],
        Option::None => Seq::empty(),
    }
}

proof fn lemma_lex_count_sym(lex: BasicOpAcc, sym: u8, c: u64)
    requires
        lex.trailing is None,
        lex.number is None,
        is_operator_byte(sym),
        (sym == 91 || sym == 93) ==> c == 1,
    ensures
        lex_from(lex, render_count(c, sym)) == Option::Some(
            (
                BasicOpAcc {
                    building: feed_step(lex.building, synth_op(sym, c)).0,
                    trailing: Option::None,
                    number: Option::None,
                },
                opt_seq(feed_step(lex.building, synth_op(sym, c)).1),
            ),
        ),
{
    assert(!is_whitespace_byte(sym) && !is_digit_byte(sym));
    if c == 1 {
        assert(render_count(1, sym) =~= seq![sym]);
        lemma_lex_one_byte(lex, sym);
        assert(lex_emits(lex, sym) =~= opt_seq(feed_step(lex.building, synth_op(sym, 1)).1));
    } else {
        assert(render_count(c, sym) =~= dec_bytes(c as nat) + seq![sym]);
        lemma_lex_digits(lex, c);
        lemma_lex_from_concat(lex, dec_bytes(c as nat), seq![sym]);
        let lexd = BasicOpAcc { number: Option::Some(c), ..lex };
        lemma_lex_one_byte(lexd, sym);
        assert(lex_emits(lexd, sym) =~= opt_seq(feed_step(lex.building, synth_op(sym, c)).1));
        assert(Seq::<BasicOp>::empty() + lex_emits(lexd, sym) =~= lex_emits(lexd, sym));
    }
}

proof fn lemma_lex_render_one(lex: BasicOpAcc, op: BasicOp)
    requires
        lex.trailing is None,
        lex.number is None,
        spec_filter(op) is Some,
        op != BasicOp::Shift(i64::MIN),
    ensures
        lex_from(lex, render_op(op)) == Option::Some(
            (
                BasicOpAcc {
                    building: feed_step(lex.building, op).0,
                    trailing: Option::None,
                    number: Option::None,
                },
                opt_seq(feed_step(lex.building, op).1),
            ),
        ),
{
    match op {
        BasicOp::ChangeBy(a) => {
            if a > 128 {
                let c = (256 - a) as u64;
                lemma_lex_count_sym(lex, 45, c);
                assert((c as u8) as int == c as int);
                assert(synth_op(45, c) == op);
            } else {
                let c = a as u64;
                lemma_lex_count_sym(lex, 43, c);
                assert((c as u8) as int == a as int);
                assert(synth_op(43, c) == op);
            }
        },
        BasicOp::Shift(v) => {
            if v > 0 {
                let c = v as u64;
                lemma_lex_count_sym(lex, 62, c);
                assert(synth_op(62, c) == op);
            } else {
                let c = (-(v as int)) as u64;
                lemma_lex_count_sym(lex, 60, c);
                assert(c <= i64::MAX as u64);
                assert(synth_op(60, c) == op);
            }
        },
        BasicOp::LoopStart => {
            lemma_lex_count_sym(lex, 91, 1);
            assert(render_op(op) =~= render_count(1, 91));
            assert(synth_op(91, 1) == op);
        },
        BasicOp::LoopEnd => {
            lemma_lex_count_sym(lex, 93, 1);
            assert(render_op(op) =~= render_count(1, 93));
            assert(synth_op(93, 1) == op);
        },
        BasicOp::Input(c) => {
            lemma_lex_count_sym(lex, 44, c);
            assert(synth_op(44, c) == op);
        },
        BasicOp::Output(c) => {
            lemma_lex_count_sym(lex, 46, c);
            assert(synth_op(46, c) == op);
        },
    }
}

proof fn lemma_lex_render_stream(lex: BasicOpAcc, ops: Seq<BasicOp>)
    requires
        lex.trailing is None,
        lex.number is None,
        canonical_stream(ops),
        match lex.building {
            Option::Some(prev) => spec_filter(prev) is Some && (ops.len() > 0 ==> !can_merge(
                prev,
                ops[0],
            )),
            Option::None => true,
        },
    ensures
        ops.len() == 0 ==> lex_from(lex, render_ops(ops)) == Option::Some(
            (lex, Seq::<BasicOp>::empty()),
        ),
        ops.len() > 0 ==> lex_from(lex, render_ops(ops)) == Option::Some(
            (
                BasicOpAcc {
                    building: Option::Some(ops.last()),
                    trailing: Option::None,
                    number: Option::None,
                },
                flush_opt(lex.building) + ops.take(ops.len() - 1),
            ),
        ),
    decreases ops.len(),
{
    if ops.len() == 0 {
        assert(lex == (BasicOpAcc { building: lex.building, trailing: Option::None, number: Option::None }));
    } else {
        let op0 = ops[0];
        let rest = ops.drop_first();
        assert(spec_filter(ops[0]) is Some);
        assert(ops[0] != BasicOp::Shift(i64::MIN));
        lemma_lex_render_one(lex, op0);
        lemma_lex_from_concat(lex, render_op(op0), render_ops(rest));
        let lex1 = BasicOpAcc {
            building: feed_step(lex.building, op0).0,
            trailing: Option::None,
            number: Option::None,
        };
        assert(feed_step(lex.building, op0).0 == Option::Some(op0));
        assert forall|i: int| 0 <= i < rest.len() implies #[trigger] spec_filter(
            rest[i],
        ) is Some by {
            assert(rest[i] == ops[i + 1]);
            assert(spec_filter(ops[i + 1]) is Some);
        }
        assert forall|i: int| 0 <= i < rest.len() implies (#[trigger] rest[i])
            != BasicOp::Shift(i64::MIN) by {
            assert(rest[i] == ops[i + 1]);
            assert(ops[i + 1] != BasicOp::Shift(i64::MIN));
        }
        assert forall|i: int| 0 <= i < rest.len() - 1 implies !can_merge(
            rest[i],
            #[trigger] rest[i + 1],
        ) by {
            assert(rest[i] == ops[i + 1] && rest[i + 1] == ops[i + 2]);
            assert(!can_merge(ops[i + 1], ops[i + 2]));
        }
        assert(canonical_stream(rest));
        if rest.len() > 0 {
            assert(rest[0] == ops[1]);
            assert(!can_merge(op0, ops[1]));
        }
        lemma_lex_render_stream(lex1, rest);
        let emit0 = opt_seq(feed_step(lex.building, op0).1);
        assert(emit0 =~= flush_opt(lex.building));
        if rest.len() == 0 {
            assert(ops.take(ops.len() - 1) =~= Seq::<BasicOp>::empty());
            assert(emit0 + Seq::<BasicOp>::empty() =~= flush_opt(lex.building) + ops.take(
                ops.len() - 1,
            ));
            assert(ops.last() == op0);
        } else {
            assert(ops.last() == rest.last());
            assert(emit0 + (flush_opt(Option::Some(op0)) + rest.take(rest.len() - 1))
                =~= flush_opt(lex.building) + ops.take(ops.len() - 1));
        }
    }
}

/// Coalescer idempotence: any canonical op stream — one with no cancelled
/// op, no adjacent mergeable pair, and no bottom-of-range shift, as the
/// coalescer emits on most inputs — re-lexes from its own textual form to
/// exactly itself. Feeding the coalescer's printed output back through it
/// is a round trip.
pub proof fn lemma_coalescer_idempotent(ops: Seq<BasicOp>)
    requires
        canonical_stream(ops),
    ensures
        lex_source(render_ops(ops)) == Option::Some(ops),
{
    lemma_lex_render_stream(fresh_lexer(), ops);
    if ops.len() == 0 {
        assert(lex_final_ops(fresh_lexer()) =~= Seq::<BasicOp>::empty());
        assert(Seq::<BasicOp>::empty() + lex_final_ops(fresh_lexer()) =~= ops);
    } else {
        let lexf = BasicOpAcc {
            building: Option::Some(ops.last()),
            trailing: Option::None,
            number: Option::None,
        };
        assert(spec_filter(ops[ops.len() - 1]) is Some);
        assert(lex_final_ops(lexf) =~= seq![ops.last()]);
        assert(flush_opt(fresh_lexer().building) =~= Seq::<BasicOp>::empty());
        assert((Seq::<BasicOp>::empty() + ops.take(ops.len() - 1)) + seq![ops.last()] =~= ops);
    }
}


/// The raw expansion of the move-add idiom, first spelling: step to the
/// destination, add one, step back, subtract one, inside one loop.
pub open spec fn move_add_loop_program(t: i64, back: i64) -> Seq<InterpreterOp> {
    seq![
        InterpreterOp::LoopStart(5usize),
        InterpreterOp::CompoundOp(CompoundOp::BasicOp(BasicOp::Shift(t))),
        InterpreterOp::CompoundOp(CompoundOp::BasicOp(BasicOp::ChangeBy(1u8))),
        InterpreterOp::CompoundOp(CompoundOp::BasicOp(BasicOp::Shift(back))),
        InterpreterOp::CompoundOp(CompoundOp::BasicOp(BasicOp::ChangeBy(255u8))),
        InterpreterOp::LoopEnd(5usize),
    ]
}

/// The move-add idiom is preserved: from any state whose destination cell is
/// on the tape, the raw loop `[ > + < - ]` (for any nonzero offset) reaches,
/// in finitely many steps, exactly the state the single `MoveAdd` instruction
/// produces — the source added into the destination modulo 256 and the
/// source cleared — with the program counter past the loop.
pub proof fn lemma_move_add_idiom_preserved(s: MState, t: i64, back: i64)
    requires
        s.status is Running,
        s.pc == 0,
        s.tape.len() <= usize::MAX,
        s.head < s.tape.len(),
        t != 0,
        back as int == -(t as int),
        0 <= s.head + t < s.tape.len(),
    ensures
        exists|n: nat|
            mrun(move_add_loop_program(t, back), s, n) == (MState {
                tape: s.tape.update(
                    s.head + t,
                    s.tape[s.head + t].wrapping_add(s.tape[s.head as int]),
                ).update(s.head as int, 0u8),
                pc: 6usize,
                ..s
            }),
    decreases s.tape[s.head as int],
{
    let prog = move_add_loop_program(t, back);
    let v = s.tape[s.head as int];
    let dest = s.head + t;
    let d = s.tape[dest];
    let target = MState {
        tape: s.tape.update(dest, d.wrapping_add(v)).update(s.head as int, 0u8),
        pc: 6usize,
        ..s
    };
    assert(prog[0] == InterpreterOp::LoopStart(5usize));
    assert(prog[1] == InterpreterOp::CompoundOp(CompoundOp::BasicOp(BasicOp::Shift(t))));
    assert(prog[2] == InterpreterOp::CompoundOp(CompoundOp::BasicOp(BasicOp::ChangeBy(1u8))));
    assert(prog[3] == InterpreterOp::CompoundOp(CompoundOp::BasicOp(BasicOp::Shift(back))));
    assert(prog[4] == InterpreterOp::CompoundOp(CompoundOp::BasicOp(BasicOp::ChangeBy(255u8))));
    assert(prog[5] == InterpreterOp::LoopEnd(5usize));
    if v == 0 {
        let s1 = mstep(prog, s);
        assert(s1 == MState { pc: 5usize, ..s });
        let s2 = mstep(prog, s1);
        assert(s2 == MState { pc: 6usize, ..s });
        assert(d.wrapping_add(0) == d);
        assert(s.tape.update(dest, d).update(s.head as int, 0u8) =~= s.tape);
        assert(!is_done(prog, s));
        assert(!is_done(prog, s1));
        assert(mrun(prog, s, 2) == mrun(prog, s1, 1));
        assert(mrun(prog, s1, 1) == mrun(prog, s2, 0));
        assert(mrun(prog, s, 2) == target);
    } else {
        let s1 = mstep(prog, s);
        assert(s1 == MState { pc: 1usize, ..s });
        let s2 = mstep(prog, s1);
        assert(s2 == MState { head: dest as usize, pc: 2usize, ..s });
        let d1 = d.wrapping_add(1u8);
        let s3 = mstep(prog, s2);
        assert(s3 == MState {
            tape: s.tape.update(dest, d1),
            head: dest as usize,
            pc: 3usize,
            ..s
        });
        let s4 = mstep(prog, s3);
        assert(s4 == MState { tape: s.tape.update(dest, d1), pc: 4usize, ..s });
        let v1 = v.wrapping_add(255u8);
        assert(s.tape.update(dest, d1)[s.head as int] == v);
        let s5 = mstep(prog, s4);
        let tape5 = s.tape.update(dest, d1).update(s.head as int, v1);
        assert(s5 == MState { tape: tape5, pc: 5usize, ..s });
        assert(v1 as int == v - 1);
        let s6 = mstep(prog, s5);
        assert(!is_done(prog, s));
        assert(!is_done(prog, s1));
        assert(!is_done(prog, s2));
        assert(!is_done(prog, s3));
        assert(!is_done(prog, s4));
        assert(!is_done(prog, s5));
        if v1 == 0 {
            assert(s6 == MState { tape: tape5, pc: 6usize, ..s });
            assert(d1 == d.wrapping_add(v));
            assert(tape5 =~= s.tape.update(dest, d.wrapping_add(v)).update(s.head as int, 0u8));
            assert(mrun(prog, s, 6) == mrun(prog, s1, 5));
            assert(mrun(prog, s1, 5) == mrun(prog, s2, 4));
            assert(mrun(prog, s2, 4) == mrun(prog, s3, 3));
            assert(mrun(prog, s3, 3) == mrun(prog, s4, 2));
            assert(mrun(prog, s4, 2) == mrun(prog, s5, 1));
            assert(mrun(prog, s5, 1) == mrun(prog, s6, 0));
            assert(mrun(prog, s, 6) == target);
        } else {
            assert(s6 == MState { tape: tape5, pc: 0usize, ..s });
            assert(s6.tape[s6.head as int] == v1);
            assert(s6.head + t == dest);
            assert(s6.tape.len() == s.tape.len());
            lemma_move_add_idiom_preserved(s6, t, back);
            let target6 = MState {
                tape: s6.tape.update(
                    s6.head + t,
                    s6.tape[s6.head + t].wrapping_add(s6.tape[s6.head as int]),
                ).update(s6.head as int, 0u8),
                pc: 6usize,
                ..s6
            };
            let n6 = choose|n: nat| mrun(prog, s6, n) == target6;
            assert(tape5[dest] == d1);
            assert((d1.wrapping_add(v1)) as int == ((d1 as int) + (v1 as int)) % 256);
            assert((d.wrapping_add(v)) as int == ((d as int) + (v as int)) % 256);
            assert((d1 as int) + (v1 as int) == (d as int) + 1 + (v as int) - 1 || (d1 as int)
                + (v1 as int) == (d as int) + 1 - 256 + (v as int) - 1);
            lemma_mod_add_multiples_vanish((d as int) + (v as int) - 256, 256);
            assert(((d1 as int) + (v1 as int)) % 256 == ((d as int) + (v as int)) % 256);
            assert(d1.wrapping_add(v1) == d.wrapping_add(v));
            assert(target6.tape =~= target.tape);
            assert(target6 == target);
            assert(mrun(prog, s, (6 + n6) as nat) == mrun(prog, s1, (5 + n6) as nat));
            assert(mrun(prog, s1, (5 + n6) as nat) == mrun(prog, s2, (4 + n6) as nat));
            assert(mrun(prog, s2, (4 + n6) as nat) == mrun(prog, s3, (3 + n6) as nat));
            assert(mrun(prog, s3, (3 + n6) as nat) == mrun(prog, s4, (2 + n6) as nat));
            assert(mrun(prog, s4, (2 + n6) as nat) == mrun(prog, s5, (1 + n6) as nat));
            assert(mrun(prog, s5, (1 + n6) as nat) == mrun(prog, s6, n6));
            assert(mrun(prog, s, (6 + n6) as nat) == target);
        }
    }
}


proof fn lemma_push_all_concat(st: StageModel, e1: Seq<BasicOp>, e2: Seq<BasicOp>)
    ensures
        push_all(st, e1 + e2) == (match push_all(st, e1) {
            Result::Ok(m) => push_all(m, e2),
            Result::Err(e) => Result::<StageModel, LinkError>::Err(e),
        }),
    decreases e1.len(),
{
    if e1.len() == 0 {
        assert(e1 + e2 =~= e2);
    } else {
        assert((e1 + e2)[0] == e1[0]);
        assert((e1 + e2).drop_first() =~= e1.drop_first() + e2);
        match crate::pipeline::push_through(st, e1[0]) {
            Result::Ok(m) => {
                lemma_push_all_concat(m, e1.drop_first(), e2);
            },
            Result::Err(_) => {},
        }
    }
}

proof fn lemma_run_bytes_reaches(
    lex: BasicOpAcc,
    st: StageModel,
    bytes: Seq<u8>,
    lex2: BasicOpAcc,
    emitted: Seq<BasicOp>,
    st2: StageModel,
)
    requires
        lex.trailing is None,
        lex_from(lex, bytes) == Option::Some((lex2, emitted)),
        push_all(st, emitted) == Result::<StageModel, LinkError>::Ok(st2),
    ensures
        run_bytes(lex, st, bytes) == Result::<(BasicOpAcc, StageModel), PipelineError>::Ok(
            (lex2, st2),
        ),
    decreases bytes.len(),
{
    if bytes.len() == 0 {
        assert(lex2 == lex && emitted =~= Seq::<BasicOp>::empty());
        assert(st2 == st);
    } else {
        let b0 = bytes[0];
        assert(lex_ok(lex, b0));
        let lexn = lex_next(lex, b0);
        let e1 = lex_emits(lex, b0);
        let rest = match lex_from(lexn, bytes.drop_first()) {
            Option::Some(p) => p.1,
            Option::None => Seq::empty(),
        };
        assert(emitted == e1 + rest);
        lemma_push_all_concat(st, e1, rest);
        match push_all(st, e1) {
            Result::Ok(mid) => {
                assert(byte_step(lex, st, b0) == Result::<
                    (BasicOpAcc, StageModel),
                    PipelineError,
                >::Ok((lexn, mid)));
                lemma_run_bytes_reaches(lexn, mid, bytes.drop_first(), lex2, rest, st2);
            },
            Result::Err(_) => {
                assert(false);
            },
        }
    }
}

/// The pipeline composes: when a source lexes cleanly and its op stream
/// links cleanly, feeding the source byte by byte and then flushing reaches
/// exactly the program of its lexed op stream. The staged, windowed pipeline
/// computes the same program as lexing everything first and linking after.
pub proof fn lemma_pipeline_composes(src: Seq<u8>, ops: Seq<BasicOp>, prog: StageModel)
    requires
        lex_source(src) == Option::Some(ops),
        program_of(ops) == Result::<StageModel, LinkError>::Ok(prog),
    ensures
        run_bytes(fresh_lexer(), empty_stage(), src) matches Result::Ok(p) && flush_step(
            p.0,
            p.1,
        ) == Result::<StageModel, PipelineError>::Ok(prog),
{
    let lex2 = match lex_from(fresh_lexer(), src) {
        Option::Some(p) => p.0,
        Option::None => fresh_lexer(),
    };
    let emitted = match lex_from(fresh_lexer(), src) {
        Option::Some(p) => p.1,
        Option::None => Seq::empty(),
    };
    assert(ops == emitted + lex_final_ops(lex2));
    lemma_push_all_concat(empty_stage(), emitted, lex_final_ops(lex2));
    match push_all(empty_stage(), emitted) {
        Result::Ok(st1) => {
            lemma_run_bytes_reaches(fresh_lexer(), empty_stage(), src, lex2, emitted, st1);
            assert(push_all(st1, lex_final_ops(lex2)) == push_all(empty_stage(), ops));
        },
        Result::Err(_) => {
            assert(push_all(empty_stage(), ops) is Err);
            assert(false);
        },
    }
}


/// The set idiom is preserved: zeroing the cell and then changing it by `v`
/// has exactly the effect of the single `SetCell(v)` instruction.
pub proof fn lemma_set_idiom_preserved(s: MState, v: u8)
    requires
        s.status is Running,
        s.pc == 0,
        s.head < s.tape.len(),
    ensures
        mrun(
            seq![
                InterpreterOp::CompoundOp(CompoundOp::Zero),
                InterpreterOp::CompoundOp(CompoundOp::BasicOp(BasicOp::ChangeBy(v))),
            ],
            s,
            2,
        ) == (MState { tape: s.tape.update(s.head as int, v), pc: 2usize, ..s }),
{
    let prog = seq![
        InterpreterOp::CompoundOp(CompoundOp::Zero),
        InterpreterOp::CompoundOp(CompoundOp::BasicOp(BasicOp::ChangeBy(v))),
    ];
    let s1 = mstep(prog, s);
    assert(s1 == MState { tape: s.tape.update(s.head as int, 0u8), pc: 1usize, ..s });
    let s2 = mstep(prog, s1);
    assert((0u8).wrapping_add(v) == v);
    assert(s.tape.update(s.head as int, 0u8).update(s.head as int, v) =~= s.tape.update(
        s.head as int,
        v,
    ));
    assert(!is_done(prog, s));
    assert(!is_done(prog, s1));
    assert(mrun(prog, s, 2) == mrun(prog, s1, 1));
    assert(mrun(prog, s1, 1) == mrun(prog, s2, 0));
}

/// Consecutive sets collapse: two `SetCell`s in a row leave exactly what the
/// last one alone leaves.
pub proof fn lemma_consecutive_sets_collapse(s: MState, a: u8, b: u8)
    requires
        s.status is Running,
        s.pc == 0,
        s.head < s.tape.len(),
    ensures
        mrun(
            seq![
                InterpreterOp::CompoundOp(CompoundOp::SetCell(a)),
                InterpreterOp::CompoundOp(CompoundOp::SetCell(b)),
            ],
            s,
            2,
        ) == (MState { tape: s.tape.update(s.head as int, b), pc: 2usize, ..s }),
{
    let prog = seq![
        InterpreterOp::CompoundOp(CompoundOp::SetCell(a)),
        InterpreterOp::CompoundOp(CompoundOp::SetCell(b)),
    ];
    let s1 = mstep(prog, s);
    assert(s1 == MState { tape: s.tape.update(s.head as int, a), pc: 1usize, ..s });
    let s2 = mstep(prog, s1);
    assert(s.tape.update(s.head as int, a).update(s.head as int, b) =~= s.tape.update(
        s.head as int,
        b,
    ));
    assert(!is_done(prog, s));
    assert(!is_done(prog, s1));
    assert(mrun(prog, s, 2) == mrun(prog, s1, 1));
    assert(mrun(prog, s1, 1) == mrun(prog, s2, 0));
}

} // verus!
