use crate::basic_op::{
    feed_step, grow_number, is_digit_byte, is_operator_byte, is_whitespace_byte, spec_filter,
    synth_op, BasicOp, BasicOpAcc, ParseError,
};
use crate::compound_op::{feed_result, CompoundOp, CompoundOpAcc, OpModel, WINDOW_SIZE};
use crate::interpreter_op::{
    link_step, loops_linked, ops_model, stack_entry_ok, InterpOpModel, InterpreterOp,
    InterpreterOpAcc, LinkError,
};
use vstd::prelude::*;

verus! {

/// Anything the pipeline can reject: an invalid source byte, or an
/// unmatched bracket.
#[derive(Copy, Clone, Debug, PartialEq, Eq, Structural)]
pub enum PipelineError {
    Parse(ParseError),
    Link(LinkError),
}

/// The model of the two stages behind the lexer: the recognizer's window and
/// the linearizer's instructions and open-bracket stack.
pub ghost struct StageModel {
    pub window: Seq<OpModel>,
    pub ops: Seq<InterpOpModel>,
    pub stack: Seq<usize>,
}

/// `k` copies of one basic op.
pub open spec fn repeat_op(op: BasicOp, k: u64) -> Seq<BasicOp> {
    Seq::new(k as nat, |i: int| op)
}

pub open spec fn opt_seq(o: Option<BasicOp>) -> Seq<BasicOp> {
    match o {
        Option::Some(op) => seq![op],
        Option::None => Seq::empty(),
    }
}

/// The ops still owed by the lexer's run-length loop duplication.
pub open spec fn trail_seq(t: Option<(BasicOp, u64)>) -> Seq<BasicOp> {
    match t {
        Option::Some((op, c)) => repeat_op(op, c),
        Option::None => Seq::empty(),
    }
}

/// Whether the lexer accepts this byte.
pub open spec fn lex_ok(lex: BasicOpAcc, byte: u8) -> bool {
    is_whitespace_byte(byte) || is_digit_byte(byte) || is_operator_byte(byte)
}

/// The lexer state after one byte, its owed loop tokens fully drained.
pub open spec fn lex_next(lex: BasicOpAcc, byte: u8) -> BasicOpAcc
    recommends
        lex_ok(lex, byte),
        lex.trailing is None,
{
    if is_whitespace_byte(byte) {
        lex
    } else if is_digit_byte(byte) {
        BasicOpAcc {
            number: Option::Some(grow_number(lex.number, (byte - 48) as u64)),
            ..lex
        }
    } else {
        let k = match lex.number {
            Option::Some(c) => c,
            Option::None => 1u64,
        };
        BasicOpAcc {
            building: feed_step(lex.building, synth_op(byte, k)).0,
            trailing: Option::None,
            number: Option::None,
        }
    }
}

/// All basic ops one byte makes the lexer emit, loop duplicates included.
pub open spec fn lex_emits(lex: BasicOpAcc, byte: u8) -> Seq<BasicOp>
    recommends
        lex_ok(lex, byte),
        lex.trailing is None,
{
    if is_whitespace_byte(byte) || is_digit_byte(byte) {
        Seq::empty()
    } else {
        let k = match lex.number {
            Option::Some(c) => c,
            Option::None => 1u64,
        };
        let op = synth_op(byte, k);
        let extra = if (byte == 91 || byte == 93) && k > 1 {
            repeat_op(op, (k - 1) as u64)
        } else {
            Seq::<BasicOp>::empty()
        };
        opt_seq(feed_step(lex.building, op).1) + extra
    }
}

/// The op the lexer still holds when input ends.
pub open spec fn lex_final_ops(lex: BasicOpAcc) -> Seq<BasicOp>
    recommends
        lex.trailing is None,
{
    match lex.building {
        Option::Some(b) => opt_seq(spec_filter(b)),
        Option::None => Seq::empty(),
    }
}

/// One basic op pushed through the recognizer and, when the window
/// overflows, on into the linearizer.
pub open spec fn push_through(st: StageModel, op: BasicOp) -> Result<StageModel, LinkError> {
    let w1 = feed_result(st.window, op);
    if w1.len() > WINDOW_SIZE {
        match link_step(st.ops, st.stack, w1[0]) {
            Result::Ok((ops2, stack2)) => Result::Ok(
                StageModel { window: w1.drop_first(), ops: ops2, stack: stack2 },
            ),
            Result::Err(e) => Result::Err(e),
        }
    } else {
        Result::Ok(StageModel { window: w1, ..st })
    }
}

/// A whole op sequence pushed through, stopping at the first bracket error.
pub open spec fn push_all(st: StageModel, ops: Seq<BasicOp>) -> Result<StageModel, LinkError>
    decreases ops.len(),
{
    if ops.len() == 0 {
        Result::Ok(st)
    } else {
        match push_through(st, ops[0]) {
            Result::Ok(st2) => push_all(st2, ops.drop_first()),
            Result::Err(e) => Result::Err(e),
        }
    }
}

/// The window emptied into the linearizer at end of input.
pub open spec fn drain_window(st: StageModel) -> Result<StageModel, LinkError>
    decreases st.window.len(),
{
    if st.window.len() == 0 {
        Result::Ok(st)
    } else {
        match link_step(st.ops, st.stack, st.window[0]) {
            Result::Ok((ops2, stack2)) => drain_window(
                StageModel { window: st.window.drop_first(), ops: ops2, stack: stack2 },
            ),
            Result::Err(e) => Result::Err(e),
        }
    }
}

/// What one source byte does to the whole pipeline.
pub open spec fn byte_step(lex: BasicOpAcc, st: StageModel, byte: u8) -> Result<
    (BasicOpAcc, StageModel),
    PipelineError,
>
    recommends
        lex.trailing is None,
{
    if !lex_ok(lex, byte) {
        Result::Err(PipelineError::Parse(ParseError::InvalidCharacter))
    } else {
        match push_all(st, lex_emits(lex, byte)) {
            Result::Ok(st2) => Result::Ok((lex_next(lex, byte), st2)),
            Result::Err(e) => Result::Err(PipelineError::Link(e)),
        }
    }
}

/// What finishing the input does to the whole pipeline.
pub open spec fn flush_step(lex: BasicOpAcc, st: StageModel) -> Result<StageModel, PipelineError>
    recommends
        lex.trailing is None,
{
    match push_all(st, lex_final_ops(lex)) {
        Result::Ok(st1) => match drain_window(st1) {
            Result::Ok(st2) => Result::Ok(st2),
            Result::Err(e) => Result::Err(PipelineError::Link(e)),
        },
        Result::Err(e) => Result::Err(PipelineError::Link(e)),
    }
}

/// The whole pull-based pipeline: source bytes in, a linearized program out.
pub struct Parser {
    pub basic_op_acc: BasicOpAcc,
    pub compound_op_acc: CompoundOpAcc,
    pub interpreter_op_acc: InterpreterOpAcc,
}

impl Parser {
    /// The pipeline is at rest: no loop tokens owed, and the linearizer's
    /// invariant holds.
    pub open spec fn wf(self) -> bool {
        &&& self.basic_op_acc.trailing is None
        &&& self.interpreter_op_acc.wf()
    }

    pub open spec fn lexer(self) -> BasicOpAcc {
        self.basic_op_acc
    }

    pub open spec fn stage(self) -> StageModel {
        StageModel {
            window: self.compound_op_acc.wview(),
            ops: ops_model(self.interpreter_op_acc.ops@),
            stack: self.interpreter_op_acc.loop_start_indices@,
        }
    }

    pub fn new() -> (r: Self)
        ensures
            r.wf(),
            r.lexer().building is None,
            r.lexer().number is None,
            r.stage().window == Seq::<OpModel>::empty(),
            r.stage().ops == Seq::<InterpOpModel>::empty(),
            r.stage().stack == Seq::<usize>::empty(),
    {
        let p = Parser {
            basic_op_acc: BasicOpAcc::new(),
            compound_op_acc: CompoundOpAcc::new(),
            interpreter_op_acc: InterpreterOpAcc::new(),
        };
        proof {
            assert(p.stage().ops =~= Seq::<InterpOpModel>::empty());
        }
        p
    }

    /// One basic op through the recognizer and (on overflow) the linearizer.
    #[verifier::rlimit(100)]
    #[verifier::spinoff_prover]
    fn push_op(&mut self, op: BasicOp) -> (r: Result<(), LinkError>)
        requires
            old(self).interpreter_op_acc.wf(),
        ensures
            final(self).interpreter_op_acc.wf(),
            final(self).basic_op_acc == old(self).basic_op_acc,
            match push_through(old(self).stage(), op) {
                Result::Ok(st2) => r is Ok && final(self).stage() == st2,
                Result::Err(e) => r == Result::<(), LinkError>::Err(e),
            },
    {
        let emitted = self.compound_op_acc.feed(op);
        match emitted {
            Option::Some(comp) => {
                let res = self.interpreter_op_acc.feed(comp);
                match res {
                    Result::Ok(()) => {
                        proof {
                            let st0 = old(self).stage();
                            let w1 = feed_result(st0.window, op);
                            match comp@ {
                                OpModel::BasicOp(BasicOp::LoopStart) => {
                                    assert(comp == CompoundOp::BasicOp(BasicOp::LoopStart));
                                    assert(ops_model(self.interpreter_op_acc.ops@) =~= st0.ops.push(
                                        InterpOpModel::LoopStart(0usize),
                                    ));
                                },
                                OpModel::BasicOp(BasicOp::LoopEnd) => {
                                    assert(comp == CompoundOp::BasicOp(BasicOp::LoopEnd));
                                    let stk = old(self).interpreter_op_acc.loop_start_indices@;
                                    assert(stack_entry_ok(
                                        old(self).interpreter_op_acc.ops@,
                                        stk,
                                        stk.len() - 1,
                                    ));
                                    let start = stk.last() as int;
                                    let d = (st0.ops.len() - start) as usize;
                                    assert(ops_model(self.interpreter_op_acc.ops@) =~= st0.ops.update(
                                        start,
                                        InterpOpModel::LoopStart(d),
                                    ).push(InterpOpModel::LoopEnd(d)));
                                },
                                _ => {
                                    assert(!(comp matches CompoundOp::BasicOp(BasicOp::LoopStart))
                                        && !(comp matches CompoundOp::BasicOp(BasicOp::LoopEnd)));
                                    assert(ops_model(self.interpreter_op_acc.ops@) =~= st0.ops.push(
                                        InterpOpModel::CompoundOp(comp@),
                                    ));
                                },
                            }
                        }
                        Result::Ok(())
                    },
                    Result::Err(e) => Result::Err(e),
                }
            },
            Option::None => Result::Ok(()),
        }
    }

    /// Feed one source byte through the whole pipeline.
    #[verifier::rlimit(100)]
    #[verifier::spinoff_prover]
    pub fn feed(&mut self, byte: u8) -> (r: Result<(), PipelineError>)
        requires
            old(self).wf(),
        ensures
            final(self).interpreter_op_acc.wf(),
            r is Ok ==> final(self).wf(),
            match byte_step(old(self).lexer(), old(self).stage(), byte) {
                Result::Ok(pair) => r is Ok && final(self).lexer() == pair.0 && final(self).stage()
                    == pair.1,
                Result::Err(e) => r == Result::<(), PipelineError>::Err(e),
            },
    {
        let ghost lex0 = self.basic_op_acc;
        let ghost st0 = self.stage();
        let fed = self.basic_op_acc.feed_byte(byte);
        let first = match fed {
            Result::Err(e) => {
                return Result::Err(PipelineError::Parse(e));
            },
            Result::Ok(o) => o,
        };
        proof {
            if first is Some {
                assert(lex_emits(lex0, byte) =~= opt_seq(first) + trail_seq(
                    self.basic_op_acc.trailing,
                ));
                assert(lex_emits(lex0, byte)[0] == first->0);
                assert(lex_emits(lex0, byte).drop_first() =~= trail_seq(
                    self.basic_op_acc.trailing,
                ));
            } else {
                assert(lex_emits(lex0, byte) =~= trail_seq(self.basic_op_acc.trailing));
            }
        }
        match first {
            Option::Some(op) => {
                let pushed = self.push_op(op);
                match pushed {
                    Result::Ok(()) => {},
                    Result::Err(e) => {
                        proof {
                            assert(push_all(st0, lex_emits(lex0, byte)) == Result::<
                                StageModel,
                                LinkError,
                            >::Err(e));
                        }
                        return Result::Err(PipelineError::Link(e));
                    },
                }
            },
            Option::None => {},
        }
        loop
            invariant
                self.interpreter_op_acc.wf(),
                lex0 == old(self).basic_op_acc,
                st0 == old(self).stage(),
                lex_ok(lex0, byte),
                lex0.trailing is None,
                self.basic_op_acc.building == lex_next(lex0, byte).building,
                self.basic_op_acc.number == lex_next(lex0, byte).number,
                push_all(self.stage(), trail_seq(self.basic_op_acc.trailing)) == push_all(
                    st0,
                    lex_emits(lex0, byte),
                ),
            ensures
                self.interpreter_op_acc.wf(),
                self.basic_op_acc.building == lex_next(lex0, byte).building,
                self.basic_op_acc.number == lex_next(lex0, byte).number,
                self.basic_op_acc.trailing is None,
                push_all(st0, lex_emits(lex0, byte)) == Result::<StageModel, LinkError>::Ok(
                    self.stage(),
                ),
            decreases (match self.basic_op_acc.trailing {
                Option::Some((op2, c)) => c as int + 1,
                Option::None => 0int,
            }),
        {
            let ghost trail_before = self.basic_op_acc.trailing;
            let cont = self.basic_op_acc.continued();
            match cont {
                Option::Some(op) => {
                    let ghost st_pre = self.stage();
                    proof {
                        assert(trail_seq(trail_before)[0] == op);
                        assert(trail_seq(trail_before).drop_first() =~= trail_seq(
                            self.basic_op_acc.trailing,
                        ));
                    }
                    let pushed = self.push_op(op);
                    match pushed {
                        Result::Ok(()) => {},
                        Result::Err(e) => {
                            proof {
                                assert(push_all(st_pre, trail_seq(trail_before)) == Result::<
                                    StageModel,
                                    LinkError,
                                >::Err(e));
                                assert(push_all(st0, lex_emits(lex0, byte)) == Result::<
                                    StageModel,
                                    LinkError,
                                >::Err(e));
                            }
                            return Result::Err(PipelineError::Link(e));
                        },
                    }
                },
                Option::None => {
                    proof {
                        assert(trail_seq(trail_before) =~= Seq::<BasicOp>::empty());
                        assert(trail_seq(self.basic_op_acc.trailing) =~= Seq::<BasicOp>::empty());
                    }
                    break;
                },
            }
        }
        Result::Ok(())
    }

    /// Finish the input: flush the lexer, then empty the recognizer's window
    /// into the linearizer.
    #[verifier::rlimit(100)]
    #[verifier::spinoff_prover]
    pub fn flush(&mut self) -> (r: Result<(), PipelineError>)
        requires
            old(self).wf(),
        ensures
            final(self).interpreter_op_acc.wf(),
            r is Ok ==> final(self).wf(),
            match flush_step(old(self).lexer(), old(self).stage()) {
                Result::Ok(st2) => r is Ok && final(self).stage() == st2
                    && final(self).basic_op_acc.building is None
                    && final(self).basic_op_acc.trailing is None,
                Result::Err(e) => r == Result::<(), PipelineError>::Err(e),
            },
    {
        let ghost lex0 = self.basic_op_acc;
        let ghost st0 = self.stage();
        loop
            invariant
                self.interpreter_op_acc.wf(),
                lex0 == old(self).basic_op_acc,
                st0 == old(self).stage(),
                lex0.trailing is None,
                self.basic_op_acc.trailing is None,
                self.basic_op_acc.number == lex0.number,
                push_all(self.stage(), lex_final_ops(self.basic_op_acc)) == push_all(
                    st0,
                    lex_final_ops(lex0),
                ),
            ensures
                self.interpreter_op_acc.wf(),
                self.basic_op_acc.trailing is None,
                self.basic_op_acc.building is None,
                push_all(st0, lex_final_ops(lex0)) == Result::<StageModel, LinkError>::Ok(
                    self.stage(),
                ),
            decreases (if self.basic_op_acc.building is Some {
                1int
            } else {
                0int
            }),
        {
            let ghost lex_before = self.basic_op_acc;
            let done = self.basic_op_acc.finalize();
            match done {
                Option::Some(op) => {
                    let ghost st_pre = self.stage();
                    proof {
                        assert(lex_final_ops(lex_before)[0] == op);
                        assert(lex_final_ops(lex_before).drop_first() =~= lex_final_ops(
                            self.basic_op_acc,
                        ));
                    }
                    let pushed = self.push_op(op);
                    match pushed {
                        Result::Ok(()) => {},
                        Result::Err(e) => {
                            proof {
                                assert(push_all(st_pre, lex_final_ops(lex_before)) == Result::<
                                    StageModel,
                                    LinkError,
                                >::Err(e));
                                assert(push_all(st0, lex_final_ops(lex0)) == Result::<
                                    StageModel,
                                    LinkError,
                                >::Err(e));
                            }
                            return Result::Err(PipelineError::Link(e));
                        },
                    }
                },
                Option::None => {
                    proof {
                        assert(lex_final_ops(lex_before) =~= Seq::<BasicOp>::empty());
                        assert(lex_final_ops(self.basic_op_acc) =~= Seq::<BasicOp>::empty());
                    }
                    break;
                },
            }
        }
        let ghost st1 = self.stage();
        loop
            invariant
                self.interpreter_op_acc.wf(),
                lex0 == old(self).basic_op_acc,
                st0 == old(self).stage(),
                lex0.trailing is None,
                push_all(st0, lex_final_ops(lex0)) == Result::<StageModel, LinkError>::Ok(st1),
                self.basic_op_acc == final_lex_state(lex0),
                drain_window(self.stage()) == drain_window(st1),
            ensures
                self.interpreter_op_acc.wf(),
                self.basic_op_acc == final_lex_state(lex0),
                self.stage().window.len() == 0,
                drain_window(st1) == Result::<StageModel, LinkError>::Ok(self.stage()),
            decreases self.stage().window.len(),
        {
            let ghost st_before = self.stage();
            let done = self.compound_op_acc.finalize();
            match done {
                Option::Some(comp) => {
                    let ghost pre_ops = self.interpreter_op_acc.ops@;
                    let ghost pre_stack = self.interpreter_op_acc.loop_start_indices@;
                    let res = self.interpreter_op_acc.feed(comp);
                    match res {
                        Result::Ok(()) => {
                            proof {
                                let w0 = st_before.window;
                                match comp@ {
                                    OpModel::BasicOp(BasicOp::LoopStart) => {
                                        assert(comp == CompoundOp::BasicOp(BasicOp::LoopStart));
                                        assert(ops_model(self.interpreter_op_acc.ops@)
                                            =~= st_before.ops.push(
                                            InterpOpModel::LoopStart(0usize),
                                        ));
                                    },
                                    OpModel::BasicOp(BasicOp::LoopEnd) => {
                                        assert(comp == CompoundOp::BasicOp(BasicOp::LoopEnd));
                                        assert(stack_entry_ok(
                                            pre_ops,
                                            pre_stack,
                                            pre_stack.len() - 1,
                                        ));
                                        let start = st_before.stack.last() as int;
                                        let d = (st_before.ops.len() - start) as usize;
                                        assert(ops_model(self.interpreter_op_acc.ops@)
                                            =~= st_before.ops.update(
                                            start,
                                            InterpOpModel::LoopStart(d),
                                        ).push(InterpOpModel::LoopEnd(d)));
                                    },
                                    _ => {
                                        assert(!(comp matches CompoundOp::BasicOp(
                                            BasicOp::LoopStart,
                                        )) && !(comp matches CompoundOp::BasicOp(
                                            BasicOp::LoopEnd,
                                        )));
                                        assert(ops_model(self.interpreter_op_acc.ops@)
                                            =~= st_before.ops.push(
                                            InterpOpModel::CompoundOp(comp@),
                                        ));
                                    },
                                }
                            }
                        },
                        Result::Err(e) => {
                            proof {
                                assert(comp == CompoundOp::BasicOp(BasicOp::LoopEnd));
                                assert(link_step(
                                    st_before.ops,
                                    st_before.stack,
                                    st_before.window[0],
                                ) == Result::<(Seq<InterpOpModel>, Seq<usize>), LinkError>::Err(e));
                                assert(drain_window(st_before) == Result::<
                                    StageModel,
                                    LinkError,
                                >::Err(e));
                            }
                            return Result::Err(PipelineError::Link(e));
                        },
                    }
                },
                Option::None => {
                    break;
                },
            }
        }
        Result::Ok(())
    }

    /// Hand out the finished program; fails while a `[` is still open. On
    /// success every loop instruction is linked (see `loops_linked`).
    pub fn view(&self) -> (r: Result<&Vec<InterpreterOp>, PipelineError>)
        requires
            self.wf(),
        ensures
            self.stage().stack.len() != 0 ==> r == Result::<
                &Vec<InterpreterOp>,
                PipelineError,
            >::Err(PipelineError::Link(LinkError::UnmatchedLoopStart)),
            self.stage().stack.len() == 0 ==> (r matches Result::Ok(v) && v@
                == self.interpreter_op_acc.ops@ && ops_model(v@) == self.stage().ops
                && loops_linked(v@)),
    {
        let res = self.interpreter_op_acc.view();
        match res {
            Result::Ok(v) => Result::Ok(v),
            Result::Err(e) => Result::Err(PipelineError::Link(e)),
        }
    }
}


/// A lexer that has seen nothing.
pub open spec fn fresh_lexer() -> BasicOpAcc {
    BasicOpAcc { building: Option::None, trailing: Option::None, number: Option::None }
}

/// A whole byte sequence through the lexer from the given state: the state
/// afterwards and every op emitted, or nothing on an invalid byte.
pub open spec fn lex_from(lex: BasicOpAcc, bytes: Seq<u8>) -> Option<(BasicOpAcc, Seq<BasicOp>)>
    recommends
        lex.trailing is None,
    decreases bytes.len(),
{
    if bytes.len() == 0 {
        Option::Some((lex, Seq::empty()))
    } else if !lex_ok(lex, bytes[0]) {
        Option::None
    } else {
        match lex_from(lex_next(lex, bytes[0]), bytes.drop_first()) {
            Option::Some(p) => Option::Some((p.0, lex_emits(lex, bytes[0]) + p.1)),
            Option::None => Option::None,
        }
    }
}

/// The basic-op stream of a whole source text, end-of-input flush included.
pub open spec fn lex_source(bytes: Seq<u8>) -> Option<Seq<BasicOp>> {
    match lex_from(fresh_lexer(), bytes) {
        Option::Some(p) => Option::Some(p.1 + lex_final_ops(p.0)),
        Option::None => Option::None,
    }
}


/// A stage pair that has seen nothing.
pub open spec fn empty_stage() -> StageModel {
    StageModel {
        window: Seq::empty(),
        ops: Seq::empty(),
        stack: Seq::empty(),
    }
}

/// The program a whole op stream settles into: everything pushed through the
/// recognizer, then the window drained into the linearizer.
pub open spec fn program_of(ops: Seq<BasicOp>) -> Result<StageModel, LinkError> {
    match push_all(empty_stage(), ops) {
        Result::Ok(st) => drain_window(st),
        Result::Err(e) => Result::Err(e),
    }
}

/// A whole source fed to the pipeline byte by byte.
pub open spec fn run_bytes(lex: BasicOpAcc, st: StageModel, bytes: Seq<u8>) -> Result<
    (BasicOpAcc, StageModel),
    PipelineError,
>
    recommends
        lex.trailing is None,
    decreases bytes.len(),
{
    if bytes.len() == 0 {
        Result::Ok((lex, st))
    } else {
        match byte_step(lex, st, bytes[0]) {
            Result::Ok(p) => run_bytes(p.0, p.1, bytes.drop_first()),
            Result::Err(e) => Result::Err(e),
        }
    }
}

/// The lexer once flushed: nothing pending but the run-length count.
pub open spec fn final_lex_state(lex: BasicOpAcc) -> BasicOpAcc {
    BasicOpAcc { building: Option::None, trailing: Option::None, number: lex.number }
}

} // verus!
