use crate::basic_op::BasicOp;
use crate::compound_op::{CompoundOp, OpModel};
use vstd::prelude::*;

verus! {

/// One linearized instruction. `LoopStart(d)` jumps forward `d` slots when the
/// cell is zero; `LoopEnd(d)` jumps back `d` slots when it is not.
#[derive(Clone, Debug, PartialEq, Eq)]
pub enum InterpreterOp {
    CompoundOp(CompoundOp),
    LoopStart(usize),
    LoopEnd(usize),
}

/// A bracket error found while linearizing.
#[derive(Copy, Clone, Debug, PartialEq, Eq, Structural)]
pub enum LinkError {
    /// A `]` arrived with no `[` still open.
    UnmatchedLoopEnd,
    /// Input ended with a `[` still open.
    UnmatchedLoopStart,
}

/// A `LoopStart` at `i` has its `LoopEnd` exactly its distance ahead.
pub open spec fn start_linked(ops: Seq<InterpreterOp>, i: int) -> bool
    recommends
        0 <= i < ops.len(),
{
    ops[i] matches InterpreterOp::LoopStart(d) ==> 1 <= d && i + d < ops.len() && ops[i + d]
        == InterpreterOp::LoopEnd(d)
}

/// A `LoopEnd` at `i` has its `LoopStart` exactly its distance behind.
pub open spec fn end_linked(ops: Seq<InterpreterOp>, i: int) -> bool
    recommends
        0 <= i < ops.len(),
{
    ops[i] matches InterpreterOp::LoopEnd(d) ==> 1 <= d <= i && ops[i - d]
        == InterpreterOp::LoopStart(d)
}

/// Every loop instruction is linked to its partner at its stated distance.
pub open spec fn loops_linked(ops: Seq<InterpreterOp>) -> bool {
    &&& forall|i: int| 0 <= i < ops.len() ==> #[trigger] start_linked(ops, i)
    &&& forall|i: int| 0 <= i < ops.len() ==> #[trigger] end_linked(ops, i)
}

/// Stack entry `k` points at a `LoopStart` placeholder.
pub open spec fn stack_entry_ok(ops: Seq<InterpreterOp>, stack: Seq<usize>, k: int) -> bool
    recommends
        0 <= k < stack.len(),
{
    (stack[k] as int) < ops.len() && ops[stack[k] as int] == InterpreterOp::LoopStart(0usize)
}

/// A `LoopStart` at `i` is linked once resolved; placeholders are exempt.
pub open spec fn start_resolved(ops: Seq<InterpreterOp>, i: int) -> bool
    recommends
        0 <= i < ops.len(),
{
    ops[i] matches InterpreterOp::LoopStart(d) ==> (d != 0 ==> i + d < ops.len() && ops[i + d]
        == InterpreterOp::LoopEnd(d))
}

/// A placeholder at `i` is recorded on the stack.
pub open spec fn placeholder_tracked(ops: Seq<InterpreterOp>, stack: Seq<usize>, i: int) -> bool
    recommends
        0 <= i < ops.len(),
{
    ops[i] == InterpreterOp::LoopStart(0usize) ==> stack.contains(i as usize)
}

/// The linearizer's construction invariant, over its instruction sequence and
/// its stack of open `[` positions.
pub open spec fn linker_wf(ops: Seq<InterpreterOp>, stack: Seq<usize>) -> bool {
    &&& forall|k: int| 0 <= k < stack.len() ==> #[trigger] stack_entry_ok(ops, stack, k)
    &&& forall|k1: int, k2: int|
        0 <= k1 < k2 < stack.len() ==> #[trigger] stack[k1] < #[trigger] stack[k2]
    &&& forall|i: int| 0 <= i < ops.len() ==> #[trigger] start_resolved(ops, i)
    &&& forall|i: int| 0 <= i < ops.len() ==> #[trigger] end_linked(ops, i)
    &&& forall|i: int| 0 <= i < ops.len() ==> #[trigger] placeholder_tracked(ops, stack, i)
}

proof fn lemma_wf_push_start(ops: Seq<InterpreterOp>, stack: Seq<usize>)
    requires
        linker_wf(ops, stack),
        ops.len() <= usize::MAX,
    ensures
        linker_wf(ops.push(InterpreterOp::LoopStart(0usize)), stack.push(ops.len() as usize)),
{
    let ops2 = ops.push(InterpreterOp::LoopStart(0usize));
    let stack2 = stack.push(ops.len() as usize);
    assert forall|k: int| 0 <= k < stack2.len() implies #[trigger] stack_entry_ok(
        ops2,
        stack2,
        k,
    ) by {
        if k < stack.len() {
            assert(stack_entry_ok(ops, stack, k));
        }
    }
    assert forall|k1: int, k2: int| 0 <= k1 < k2 < stack2.len() implies stack2[k1]
        < stack2[k2] by {
        if k2 == stack.len() {
            assert(stack_entry_ok(ops, stack, k1));
        }
    }
    assert forall|i: int| 0 <= i < ops2.len() implies #[trigger] start_resolved(ops2, i) by {
        if i < ops.len() {
            assert(start_resolved(ops, i));
            match ops[i] {
                InterpreterOp::LoopStart(d) => {
                    if d != 0 {
                        assert(ops2[i + d] == ops[i + d]);
                    }
                },
                _ => {},
            }
        }
    }
    assert forall|i: int| 0 <= i < ops2.len() implies #[trigger] end_linked(ops2, i) by {
        if i < ops.len() {
            assert(end_linked(ops, i));
        }
    }
    assert forall|i: int| 0 <= i < ops2.len() implies #[trigger] placeholder_tracked(
        ops2,
        stack2,
        i,
    ) by {
        if i < ops.len() {
            assert(placeholder_tracked(ops, stack, i));
            if ops[i] == InterpreterOp::LoopStart(0usize) {
                let k = choose|k: int| 0 <= k < stack.len() && stack[k] == i as usize;
                assert(stack2[k] == i as usize);
            }
        } else {
            assert(stack2.last() == i as usize);
        }
    }
}

proof fn lemma_wf_push_other(ops: Seq<InterpreterOp>, stack: Seq<usize>, op: InterpreterOp)
    requires
        linker_wf(ops, stack),
        op matches InterpreterOp::CompoundOp(_),
    ensures
        linker_wf(ops.push(op), stack),
{
    let ops2 = ops.push(op);
    assert forall|k: int| 0 <= k < stack.len() implies #[trigger] stack_entry_ok(
        ops2,
        stack,
        k,
    ) by {
        assert(stack_entry_ok(ops, stack, k));
    }
    assert forall|i: int| 0 <= i < ops2.len() implies #[trigger] start_resolved(ops2, i) by {
        if i < ops.len() {
            assert(start_resolved(ops, i));
            match ops[i] {
                InterpreterOp::LoopStart(d) => {
                    if d != 0 {
                        assert(ops2[i + d] == ops[i + d]);
                    }
                },
                _ => {},
            }
        }
    }
    assert forall|i: int| 0 <= i < ops2.len() implies #[trigger] end_linked(ops2, i) by {
        if i < ops.len() {
            assert(end_linked(ops, i));
        }
    }
    assert forall|i: int| 0 <= i < ops2.len() implies #[trigger] placeholder_tracked(
        ops2,
        stack,
        i,
    ) by {
        if i < ops.len() {
            assert(placeholder_tracked(ops, stack, i));
        }
    }
}

proof fn lemma_wf_link_end(ops: Seq<InterpreterOp>, stack: Seq<usize>)
    requires
        linker_wf(ops, stack),
        stack.len() > 0,
        ops.len() <= usize::MAX,
    ensures
        ({
            let s = stack.last() as int;
            let d = ops.len() - s;
            linker_wf(
                ops.update(s, InterpreterOp::LoopStart(d as usize)).push(
                    InterpreterOp::LoopEnd(d as usize),
                ),
                stack.drop_last(),
            )
        }),
{
    let s = stack.last() as int;
    let d = ops.len() - s;
    assert(stack_entry_ok(ops, stack, stack.len() - 1));
    assert(s < ops.len());
    assert(ops[s] == InterpreterOp::LoopStart(0usize));
    let ops2 = ops.update(s, InterpreterOp::LoopStart(d as usize)).push(
        InterpreterOp::LoopEnd(d as usize),
    );
    let stack2 = stack.drop_last();

    assert forall|k: int| 0 <= k < stack2.len() implies #[trigger] stack_entry_ok(
        ops2,
        stack2,
        k,
    ) by {
        assert(stack_entry_ok(ops, stack, k));
        assert(stack[k] < stack[stack.len() - 1]);
    }
    assert forall|i: int| 0 <= i < ops2.len() implies #[trigger] start_resolved(ops2, i) by {
        if i == s {
            assert(ops2[s + d] == InterpreterOp::LoopEnd(d as usize));
        } else if i < ops.len() {
            assert(start_resolved(ops, i));
            match ops[i] {
                InterpreterOp::LoopStart(d2) => {
                    if d2 != 0 {
                        assert(ops[i + d2] == InterpreterOp::LoopEnd(d2));
                        assert(i + d2 != s);
                        assert(ops2[i + d2] == ops[i + d2]);
                    }
                },
                _ => {},
            }
        }
    }
    assert forall|i: int| 0 <= i < ops2.len() implies #[trigger] end_linked(ops2, i) by {
        if i == ops.len() {
            assert(ops2[i - d] == InterpreterOp::LoopStart(d as usize));
        } else if i != s {
            assert(end_linked(ops, i));
            match ops[i] {
                InterpreterOp::LoopEnd(d2) => {
                    assert(ops[i - d2] == InterpreterOp::LoopStart(d2));
                    assert(i - d2 != s);
                    assert(ops2[i - d2] == ops[i - d2]);
                },
                _ => {},
            }
        }
    }
    assert forall|i: int| 0 <= i < ops2.len() implies #[trigger] placeholder_tracked(
        ops2,
        stack2,
        i,
    ) by {
        if i != s && i < ops.len() && ops2[i] == InterpreterOp::LoopStart(0usize) {
            assert(placeholder_tracked(ops, stack, i));
            assert(ops[i] == InterpreterOp::LoopStart(0usize));
            let k = choose|k: int| 0 <= k < stack.len() && stack[k] == i as usize;
            if k == stack.len() - 1 {
                assert(false);
            }
            assert(stack2[k] == i as usize);
        }
    }
}


/// The mathematical shadow of a linearized instruction.
pub ghost enum InterpOpModel {
    CompoundOp(OpModel),
    LoopStart(usize),
    LoopEnd(usize),
}

impl View for InterpreterOp {
    type V = InterpOpModel;

    open spec fn view(&self) -> InterpOpModel {
        match self {
            InterpreterOp::CompoundOp(c) => InterpOpModel::CompoundOp(c@),
            InterpreterOp::LoopStart(d) => InterpOpModel::LoopStart(*d),
            InterpreterOp::LoopEnd(d) => InterpOpModel::LoopEnd(*d),
        }
    }
}

/// The models of a linearized instruction sequence, in order.
pub open spec fn ops_model(ops: Seq<InterpreterOp>) -> Seq<InterpOpModel> {
    Seq::new(ops.len(), |i: int| ops[i]@)
}

/// What one compound op does to the linearizer, at the model level: the new
/// instruction models and the new stack, or the bracket error.
pub open spec fn link_step(
    ops: Seq<InterpOpModel>,
    stack: Seq<usize>,
    m: OpModel,
) -> Result<(Seq<InterpOpModel>, Seq<usize>), LinkError> {
    match m {
        OpModel::BasicOp(BasicOp::LoopStart) => Result::Ok(
            (ops.push(InterpOpModel::LoopStart(0usize)), stack.push(ops.len() as usize)),
        ),
        OpModel::BasicOp(BasicOp::LoopEnd) => {
            if stack.len() == 0 {
                Result::Err(LinkError::UnmatchedLoopEnd)
            } else {
                let start = stack.last() as int;
                let d = (ops.len() - start) as usize;
                Result::Ok(
                    (
                        ops.update(start, InterpOpModel::LoopStart(d)).push(
                            InterpOpModel::LoopEnd(d),
                        ),
                        stack.drop_last(),
                    ),
                )
            }
        },
        _ => Result::Ok((ops.push(InterpOpModel::CompoundOp(m)), stack)),
    }
}

/// The linearizer: flattens compound ops into an instruction vector and
/// resolves each `[` / `]` pair into jump distances.
pub struct InterpreterOpAcc {
    /// The instructions linearized so far.
    pub ops: Vec<InterpreterOp>,
    /// Indices of `LoopStart` placeholders whose `]` has not arrived yet.
    pub loop_start_indices: Vec<usize>,
}

impl InterpreterOpAcc {
    pub open spec fn wf(self) -> bool {
        linker_wf(self.ops@, self.loop_start_indices@)
    }

    pub fn new() -> (r: Self)
        ensures
            r.wf(),
            r.ops@ == Seq::<InterpreterOp>::empty(),
            r.loop_start_indices@ == Seq::<usize>::empty(),
    {
        Self { ops: Vec::new(), loop_start_indices: Vec::new() }
    }

    /// Append one compound op. A raw `[` pushes a placeholder; a raw `]` pops
    /// its partner and links the two with their distance; anything else is
    /// appended as a finished instruction.
    pub fn feed(&mut self, compound_op: CompoundOp) -> (r: Result<(), LinkError>)
        requires
            old(self).wf(),
        ensures
            final(self).wf(),
            match compound_op {
                CompoundOp::BasicOp(BasicOp::LoopStart) => {
                    &&& r is Ok
                    &&& final(self).ops@ == old(self).ops@.push(InterpreterOp::LoopStart(0usize))
                    &&& final(self).loop_start_indices@ == old(self).loop_start_indices@.push(
                        old(self).ops@.len() as usize,
                    )
                },
                CompoundOp::BasicOp(BasicOp::LoopEnd) => {
                    if old(self).loop_start_indices@.len() == 0 {
                        &&& r == Result::<(), LinkError>::Err(LinkError::UnmatchedLoopEnd)
                        &&& final(self).ops@ == old(self).ops@
                        &&& final(self).loop_start_indices@ == old(self).loop_start_indices@
                    } else {
                        let start = old(self).loop_start_indices@.last() as int;
                        let d = old(self).ops@.len() - start;
                        &&& r is Ok
                        &&& final(self).loop_start_indices@ == old(
                            self,
                        ).loop_start_indices@.drop_last()
                        &&& final(self).ops@ == old(self).ops@.update(
                            start,
                            InterpreterOp::LoopStart(d as usize),
                        ).push(InterpreterOp::LoopEnd(d as usize))
                    }
                },
                _ => {
                    &&& r is Ok
                    &&& final(self).ops@ == old(self).ops@.push(
                        InterpreterOp::CompoundOp(compound_op),
                    )
                    &&& final(self).loop_start_indices@ == old(self).loop_start_indices@
                },
            },
    {
        match compound_op {
            CompoundOp::BasicOp(BasicOp::LoopStart) => {
                let here = self.ops.len();
                proof {
                    lemma_wf_push_start(old(self).ops@, old(self).loop_start_indices@);
                }
                self.loop_start_indices.push(here);
                self.ops.push(InterpreterOp::LoopStart(0));
                Result::Ok(())
            },
            CompoundOp::BasicOp(BasicOp::LoopEnd) => {
                match self.loop_start_indices.pop() {
                    Option::Some(start_index) => {
                        let end_index = self.ops.len();
                        proof {
                            lemma_wf_link_end(old(self).ops@, old(self).loop_start_indices@);
                            assert(stack_entry_ok(
                                old(self).ops@,
                                old(self).loop_start_indices@,
                                old(self).loop_start_indices@.len() - 1,
                            ));
                        }
                        let distance = end_index - start_index;
                        self.ops.push(InterpreterOp::LoopEnd(distance));
                        let linked = InterpreterOp::LoopStart(distance);
                        self.ops.set(start_index, linked);
                        proof {
                            assert(self.ops@ =~= old(self).ops@.update(
                                start_index as int,
                                InterpreterOp::LoopStart(distance),
                            ).push(InterpreterOp::LoopEnd(distance)));
                        }
                        Result::Ok(())
                    },
                    Option::None => Result::Err(LinkError::UnmatchedLoopEnd),
                }
            },
            _ => {
                proof {
                    lemma_wf_push_other(
                        old(self).ops@,
                        old(self).loop_start_indices@,
                        InterpreterOp::CompoundOp(compound_op),
                    );
                }
                self.ops.push(InterpreterOp::CompoundOp(compound_op));
                Result::Ok(())
            },
        }
    }

    /// Hand out the finished program. Fails when a `[` is still open; on
    /// success every loop instruction is linked to its partner.
    pub fn view(&self) -> (r: Result<&Vec<InterpreterOp>, LinkError>)
        requires
            self.wf(),
        ensures
            self.loop_start_indices@.len() != 0 ==> r == Result::<
                &Vec<InterpreterOp>,
                LinkError,
            >::Err(LinkError::UnmatchedLoopStart),
            self.loop_start_indices@.len() == 0 ==> (r matches Result::Ok(v) && v@ == self.ops@
                && loops_linked(self.ops@)),
    {
        if self.loop_start_indices.len() != 0 {
            return Result::Err(LinkError::UnmatchedLoopStart);
        }
        proof {
            let ops = self.ops@;
            assert forall|i: int| 0 <= i < ops.len() implies #[trigger] start_linked(ops, i) by {
                assert(start_resolved(ops, i));
                assert(placeholder_tracked(ops, self.loop_start_indices@, i));
                match ops[i] {
                    InterpreterOp::LoopStart(d) => {
                        if d == 0 {
                            assert(self.loop_start_indices@.contains(i as usize));
                            assert(false);
                        }
                    },
                    _ => {},
                }
            }
            assert forall|i: int| 0 <= i < ops.len() implies #[trigger] end_linked(ops, i) by {
                assert(end_linked(ops, i));
            }
        }
        Result::Ok(&self.ops)
    }
}

} // verus!
