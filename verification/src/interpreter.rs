use crate::basic_op::BasicOp;
use crate::compound_op::{repeat_byte, CompoundOp};
use crate::interpreter_op::InterpreterOp;
use vstd::prelude::*;
use vstd::slice::slice_index_get;

verus! {

/// The tape length the top-level interpreter allocates.
pub const CELL_COUNT: usize = 25_000_000;

/// Why a run stopped early. Every tape access is validated; an access outside
/// the tape, a jump before the program's start, a raw loop token, or an empty
/// static print stops the machine instead of continuing wild.
#[derive(Copy, Clone, Debug, PartialEq, Eq, Structural)]
pub enum RunError {
    /// A raw `[` or `]` token reached the backend: a construction bug.
    UnprocessedLoop,
    /// A cell access or head move left the tape.
    OutOfBounds,
    /// A backward jump reached before the program's start.
    BadJump,
    /// A `PrintStatic` with no bytes reached the backend.
    EmptyPrint,
}

/// Whether the machine is still running, has trapped, or has failed.
#[derive(Copy, Clone, Debug, PartialEq, Eq, Structural)]
pub enum Status {
    Running,
    /// The program entered a panic trap with this code.
    Panicked(u8),
    Failed(RunError),
}

/// The machine's whole state: tape, head, program counter, the input stream
/// with its read position, the output gathered so far, and the status.
pub struct Machine {
    pub tape: Vec<u8>,
    pub head: usize,
    pub pc: usize,
    pub input: Vec<u8>,
    pub in_pos: usize,
    pub output: Vec<u8>,
    pub status: Status,
}

/// The machine state's mathematical shadow.
pub ghost struct MState {
    pub tape: Seq<u8>,
    pub head: usize,
    pub pc: usize,
    pub input: Seq<u8>,
    pub in_pos: usize,
    pub output: Seq<u8>,
    pub status: Status,
}

impl View for Machine {
    type V = MState;

    open spec fn view(&self) -> MState {
        MState {
            tape: self.tape@,
            head: self.head,
            pc: self.pc,
            input: self.input@,
            in_pos: self.in_pos,
            output: self.output@,
            status: self.status,
        }
    }
}

/// The state a run starts from: a zeroed tape and everything at the origin.
pub open spec fn init_state(input: Seq<u8>, tape_len: nat) -> MState {
    MState {
        tape: Seq::new(tape_len, |i: int| 0u8),
        head: 0,
        pc: 0,
        input: input,
        in_pos: 0,
        output: Seq::empty(),
        status: Status::Running,
    }
}

pub open spec fn with_fail(s: MState, e: RunError) -> MState {
    MState { status: Status::Failed(e), ..s }
}

pub open spec fn running(prog: Seq<InterpreterOp>, s: MState) -> bool {
    s.status is Running && s.pc < prog.len()
}

pub open spec fn is_done(prog: Seq<InterpreterOp>, s: MState) -> bool {
    !(s.status is Running) || s.pc >= prog.len()
}

pub open spec fn sem_loop_start(prog_len: int, s: MState, d: usize) -> MState {
    if s.head < s.tape.len() {
        if s.tape[s.head as int] == 0 {
            let target = if s.pc + d < prog_len {
                (s.pc + d) as usize
            } else {
                prog_len as usize
            };
            MState { pc: target, ..s }
        } else {
            MState { pc: (s.pc + 1) as usize, ..s }
        }
    } else {
        with_fail(s, RunError::OutOfBounds)
    }
}

pub open spec fn sem_loop_end(s: MState, d: usize) -> MState {
    if s.head < s.tape.len() {
        if s.tape[s.head as int] != 0 {
            if d <= s.pc {
                MState { pc: (s.pc - d) as usize, ..s }
            } else {
                with_fail(s, RunError::BadJump)
            }
        } else {
            MState { pc: (s.pc + 1) as usize, ..s }
        }
    } else {
        with_fail(s, RunError::OutOfBounds)
    }
}

pub open spec fn sem_change_by(s: MState, amount: u8) -> MState {
    if s.head < s.tape.len() {
        MState {
            tape: s.tape.update(s.head as int, s.tape[s.head as int].wrapping_add(amount)),
            pc: (s.pc + 1) as usize,
            ..s
        }
    } else {
        with_fail(s, RunError::OutOfBounds)
    }
}

pub open spec fn sem_shift(s: MState, amount: i64) -> MState {
    let target = s.head + amount;
    if 0 <= target <= usize::MAX {
        MState { head: target as usize, pc: (s.pc + 1) as usize, ..s }
    } else {
        with_fail(s, RunError::OutOfBounds)
    }
}

pub open spec fn sem_input(s: MState, count: u64) -> MState {
    if count == 0 {
        MState { pc: (s.pc + 1) as usize, ..s }
    } else if s.head < s.tape.len() {
        let remaining = if s.in_pos <= s.input.len() {
            s.input.len() - s.in_pos
        } else {
            0
        };
        if count <= remaining {
            MState {
                tape: s.tape.update(s.head as int, s.input[s.in_pos + count - 1]),
                in_pos: (s.in_pos + count) as usize,
                pc: (s.pc + 1) as usize,
                ..s
            }
        } else {
            MState {
                tape: s.tape.update(s.head as int, 0u8),
                in_pos: s.input.len() as usize,
                pc: (s.pc + 1) as usize,
                ..s
            }
        }
    } else {
        with_fail(s, RunError::OutOfBounds)
    }
}

pub open spec fn sem_output(s: MState, count: u64) -> MState {
    if count == 0 {
        MState { pc: (s.pc + 1) as usize, ..s }
    } else if s.head < s.tape.len() {
        MState {
            output: s.output + repeat_byte(s.tape[s.head as int], count),
            pc: (s.pc + 1) as usize,
            ..s
        }
    } else {
        with_fail(s, RunError::OutOfBounds)
    }
}

pub open spec fn sem_set_cell(s: MState, value: u8) -> MState {
    if s.head < s.tape.len() {
        MState {
            tape: s.tape.update(s.head as int, value),
            pc: (s.pc + 1) as usize,
            ..s
        }
    } else {
        with_fail(s, RunError::OutOfBounds)
    }
}

pub open spec fn sem_zero_advance(s: MState, n: u64) -> MState {
    if n == 0 {
        MState { pc: (s.pc + 1) as usize, ..s }
    } else if s.head + n <= s.tape.len() {
        MState {
            tape: Seq::new(
                s.tape.len(),
                |i: int| if s.head <= i < s.head + n { 0u8 } else { s.tape[i] },
            ),
            head: (s.head + n) as usize,
            pc: (s.pc + 1) as usize,
            ..s
        }
    } else {
        with_fail(s, RunError::OutOfBounds)
    }
}

pub open spec fn sem_zero_retreat(s: MState, n: u64) -> MState {
    if n == 0 {
        MState { pc: (s.pc + 1) as usize, ..s }
    } else if s.head < s.tape.len() && s.head >= n {
        MState {
            tape: Seq::new(
                s.tape.len(),
                |i: int| if s.head + 1 - n <= i < s.head + 1 { 0u8 } else { s.tape[i] },
            ),
            head: (s.head - n) as usize,
            pc: (s.pc + 1) as usize,
            ..s
        }
    } else {
        with_fail(s, RunError::OutOfBounds)
    }
}

pub open spec fn sem_dupe(s: MState, offset: i64) -> MState {
    let src = s.head + offset;
    if s.head + 1 < s.tape.len() && 0 <= src < s.tape.len() {
        MState {
            tape: s.tape.update(s.head as int, s.tape[src]).update(s.head + 1, 0u8),
            head: (s.head + 1) as usize,
            pc: (s.pc + 1) as usize,
            ..s
        }
    } else {
        with_fail(s, RunError::OutOfBounds)
    }
}

pub open spec fn sem_move_add(s: MState, offset: i64) -> MState {
    let dest = s.head + offset;
    if s.head < s.tape.len() && 0 <= dest < s.tape.len() {
        let cur = s.tape[s.head as int];
        MState {
            tape: s.tape.update(dest, s.tape[dest].wrapping_add(cur)).update(s.head as int, 0u8),
            pc: (s.pc + 1) as usize,
            ..s
        }
    } else {
        with_fail(s, RunError::OutOfBounds)
    }
}

pub open spec fn sem_move_set(s: MState, offset: i64) -> MState {
    let dest = s.head + offset;
    if s.head < s.tape.len() && 0 <= dest < s.tape.len() {
        MState {
            tape: s.tape.update(dest, s.tape[s.head as int]).update(s.head as int, 0u8),
            pc: (s.pc + 1) as usize,
            ..s
        }
    } else {
        with_fail(s, RunError::OutOfBounds)
    }
}

pub open spec fn sem_move_add2(s: MState, offset1: i64, offset2: i64) -> MState {
    let d1 = s.head + offset1;
    let d2 = s.head + offset2;
    if s.head < s.tape.len() && 0 <= d1 < s.tape.len() && 0 <= d2 < s.tape.len() {
        let cur = s.tape[s.head as int];
        let t1 = s.tape.update(d1, s.tape[d1].wrapping_add(cur));
        let t2 = t1.update(d2, t1[d2].wrapping_add(cur));
        MState {
            tape: t2.update(s.head as int, 0u8),
            pc: (s.pc + 1) as usize,
            ..s
        }
    } else {
        with_fail(s, RunError::OutOfBounds)
    }
}

pub open spec fn sem_equals(s: MState, negated: bool) -> MState {
    if s.head + 1 < s.tape.len() {
        let a = s.tape[s.head as int];
        let b = s.tape[s.head + 1];
        let hit = if negated { a != b } else { a == b };
        let res: u8 = if hit { 1u8 } else { 0u8 };
        MState {
            tape: s.tape.update(s.head as int, res).update(s.head + 1, 0u8),
            head: (s.head + 1) as usize,
            pc: (s.pc + 1) as usize,
            ..s
        }
    } else {
        with_fail(s, RunError::OutOfBounds)
    }
}

/// Which 8-bit comparison a compare instruction performs.
pub open spec fn cmp_result(a: u8, b: u8, lt: bool, gt: bool, eq: bool) -> u8 {
    if (a < b && lt) || (a > b && gt) || (a == b && eq) {
        1u8
    } else {
        0u8
    }
}

/// The shared shape of the four two-operand comparisons: operands at
/// `head - 2` and `head - 1`, result at `head - 2`, scratch cleared.
pub open spec fn sem_compare(s: MState, lt: bool, gt: bool, eq: bool) -> MState {
    if s.head >= 2 && s.head + 1 < s.tape.len() {
        let a = s.tape[s.head - 2];
        let b = s.tape[s.head - 1];
        MState {
            tape: s.tape.update(s.head + 1, 0u8).update(s.head - 2, cmp_result(a, b, lt, gt, eq))
                .update(s.head - 1, 0u8).update(s.head as int, 0u8),
            pc: (s.pc + 1) as usize,
            ..s
        }
    } else {
        with_fail(s, RunError::OutOfBounds)
    }
}

pub open spec fn sem_shift_left_logical(s: MState) -> MState {
    if s.head >= 2 && s.head < s.tape.len() {
        let a = s.tape[s.head - 2];
        let b = s.tape[s.head - 1];
        let res: u8 = if b >= 8 { 0u8 } else { a << b };
        MState {
            tape: s.tape.update(s.head - 2, res).update(s.head - 1, 0u8).update(
                s.head as int,
                0u8,
            ),
            head: (s.head - 1) as usize,
            pc: (s.pc + 1) as usize,
            ..s
        }
    } else {
        with_fail(s, RunError::OutOfBounds)
    }
}

pub open spec fn sem_shift_right_logical(s: MState) -> MState {
    if s.head >= 2 && s.head + 3 < s.tape.len() {
        let a = s.tape[s.head - 2];
        let b = s.tape[s.head - 1];
        let res: u8 = if b >= 8 { 0u8 } else { a >> b };
        MState {
            tape: s.tape.update(s.head + 3, 0u8).update(s.head - 2, res).update(s.head - 1, 0u8)
                .update(s.head as int, 0u8).update(s.head + 1, 0u8).update(s.head + 2, 0u8),
            head: (s.head - 1) as usize,
            pc: (s.pc + 1) as usize,
            ..s
        }
    } else {
        with_fail(s, RunError::OutOfBounds)
    }
}

pub open spec fn sem_bit_and(s: MState) -> MState {
    if s.head >= 7 && s.head - 6 < s.tape.len() && s.head + 2 <= usize::MAX {
        let a = s.tape[s.head - 7];
        let b = s.tape[s.head - 6];
        MState {
            tape: s.tape.update(s.head - 7, a & b).update(s.head - 6, 0u8),
            head: (s.head + 2) as usize,
            pc: (s.pc + 1) as usize,
            ..s
        }
    } else {
        with_fail(s, RunError::OutOfBounds)
    }
}

pub open spec fn sem_bit_neg(s: MState) -> MState {
    if s.head + 1 < s.tape.len() {
        let v = s.tape[s.head as int];
        MState {
            tape: s.tape.update(s.head as int, !v).update(s.head + 1, 0u8),
            head: (s.head + 1) as usize,
            pc: (s.pc + 1) as usize,
            ..s
        }
    } else {
        with_fail(s, RunError::OutOfBounds)
    }
}

pub open spec fn sem_div_mod(s: MState, shift: i64) -> MState {
    let target = s.head + shift;
    if s.head >= 2 && s.head + 3 < s.tape.len() && 0 <= target <= usize::MAX {
        let n = s.tape[s.head - 2];
        let d = s.tape[s.head - 1];
        let q: u8 = if d == 0 { 0u8 } else { (n / d) as u8 };
        let r: u8 = if d == 0 { 0u8 } else { (n % d) as u8 };
        MState {
            tape: s.tape.update(s.head + 3, 0u8).update(s.head - 2, 0u8).update(
                s.head - 1,
                (d - r) as u8,
            ).update(s.head as int, r).update(s.head + 1, q).update(s.head + 2, 0u8),
            head: target as usize,
            pc: (s.pc + 1) as usize,
            ..s
        }
    } else {
        with_fail(s, RunError::OutOfBounds)
    }
}

pub open spec fn sem_print_static(s: MState, bytes: Seq<u8>) -> MState {
    if bytes.len() == 0 {
        with_fail(s, RunError::EmptyPrint)
    } else if s.head < s.tape.len() {
        MState {
            tape: s.tape.update(s.head as int, bytes.last()),
            output: s.output + bytes,
            pc: (s.pc + 1) as usize,
            ..s
        }
    } else {
        with_fail(s, RunError::OutOfBounds)
    }
}

pub open spec fn sem_move_cell_dynamic_u8(s: MState, offset: u64) -> MState {
    if s.head >= 2 && s.head - 1 < s.tape.len() {
        let value = s.tape[s.head - 2];
        let index = s.tape[s.head - 1];
        let dest = s.head - 3 - offset + index;
        if 0 <= dest < s.tape.len() {
            MState {
                tape: s.tape.update(dest, value).update(s.head - 2, index),
                head: (s.head - 2) as usize,
                pc: (s.pc + 1) as usize,
                ..s
            }
        } else {
            with_fail(s, RunError::OutOfBounds)
        }
    } else {
        with_fail(s, RunError::OutOfBounds)
    }
}

pub open spec fn sem_move_cell_dynamic_u16(s: MState, offset: u64) -> MState {
    if s.head >= 3 && s.head - 1 < s.tape.len() {
        let b0 = s.tape[s.head - 2];
        let b1 = s.tape[s.head - 1];
        let value = s.tape[s.head - 3];
        let dest = s.head - offset + b0 + 256 * b1;
        if 0 <= dest < s.tape.len() {
            MState {
                tape: s.tape.update(dest, value).update(s.head - 3, b0).update(s.head - 2, b1),
                head: (s.head - 3) as usize,
                pc: (s.pc + 1) as usize,
                ..s
            }
        } else {
            with_fail(s, RunError::OutOfBounds)
        }
    } else {
        with_fail(s, RunError::OutOfBounds)
    }
}

pub open spec fn sem_move_cell_dynamic_u32(s: MState, offset: u64) -> MState {
    if s.head >= 5 && s.head - 1 < s.tape.len() {
        let b0 = s.tape[s.head - 4];
        let b1 = s.tape[s.head - 3];
        let b2 = s.tape[s.head - 2];
        let b3 = s.tape[s.head - 1];
        let value = s.tape[s.head - 5];
        let dest = s.head - offset + b0 + 256 * b1 + 65536 * b2 + 16777216 * b3;
        if 0 <= dest < s.tape.len() {
            MState {
                tape: s.tape.update(dest, value).update(s.head - 5, b0).update(s.head - 4, b1)
                    .update(s.head - 3, b2).update(s.head - 2, b3),
                head: (s.head - 5) as usize,
                pc: (s.pc + 1) as usize,
                ..s
            }
        } else {
            with_fail(s, RunError::OutOfBounds)
        }
    } else {
        with_fail(s, RunError::OutOfBounds)
    }
}

pub open spec fn sem_copy_cell_dynamic_u8(s: MState, offset: u64) -> MState {
    if s.head >= 1 && s.head - 1 < s.tape.len() {
        let index = s.tape[s.head - 1];
        let src = s.head - 1 - offset + index;
        if 0 <= src < s.tape.len() {
            MState {
                tape: s.tape.update(s.head - 1, s.tape[src]),
                pc: (s.pc + 1) as usize,
                ..s
            }
        } else {
            with_fail(s, RunError::OutOfBounds)
        }
    } else {
        with_fail(s, RunError::OutOfBounds)
    }
}

pub open spec fn sem_copy_cell_dynamic_u32(s: MState, offset: u64) -> MState {
    if s.head >= 4 && s.head - 1 < s.tape.len() {
        let b0 = s.tape[s.head - 4];
        let b1 = s.tape[s.head - 3];
        let b2 = s.tape[s.head - 2];
        let b3 = s.tape[s.head - 1];
        let src = s.head - offset + b0 + 256 * b1 + 65536 * b2 + 16777216 * b3;
        if 0 <= src < s.tape.len() {
            MState {
                tape: s.tape.update(s.head - 4, s.tape[src]),
                head: (s.head - 3) as usize,
                pc: (s.pc + 1) as usize,
                ..s
            }
        } else {
            with_fail(s, RunError::OutOfBounds)
        }
    } else {
        with_fail(s, RunError::OutOfBounds)
    }
}

pub open spec fn sem_move_cells_static_reverse(s: MState, offset: i64, count: u64) -> MState {
    if count == 0 {
        MState { pc: (s.pc + 1) as usize, ..s }
    } else {
        let start_src = s.head - count + 1;
        let end_src = s.head + 1;
        let end_dest = s.head + offset + 1;
        let start_dest = end_dest - count;
        if s.head >= count && s.head < s.tape.len() && start_dest >= 0 && end_dest <= s.tape.len() {
            MState {
                tape: Seq::new(
                    s.tape.len(),
                    |i: int|
                        if start_src <= i < end_src {
                            0u8
                        } else if start_dest <= i < end_dest {
                            s.tape[start_src + (i - start_dest)]
                        } else {
                            s.tape[i]
                        },
                ),
                head: (s.head - count) as usize,
                pc: (s.pc + 1) as usize,
                ..s
            }
        } else {
            with_fail(s, RunError::OutOfBounds)
        }
    }
}

/// One step of the machine on the instruction under the program counter.
pub open spec fn mstep(prog: Seq<InterpreterOp>, s: MState) -> MState
    recommends
        running(prog, s),
{
    match prog[s.pc as int] {
        InterpreterOp::LoopStart(d) => sem_loop_start(prog.len() as int, s, d),
        InterpreterOp::LoopEnd(d) => sem_loop_end(s, d),
        InterpreterOp::CompoundOp(c) => match c {
            CompoundOp::BasicOp(BasicOp::ChangeBy(a)) => sem_change_by(s, a),
            CompoundOp::BasicOp(BasicOp::Shift(a)) => sem_shift(s, a),
            CompoundOp::BasicOp(BasicOp::Input(k)) => sem_input(s, k),
            CompoundOp::BasicOp(BasicOp::Output(k)) => sem_output(s, k),
            CompoundOp::BasicOp(BasicOp::LoopStart) => with_fail(s, RunError::UnprocessedLoop),
            CompoundOp::BasicOp(BasicOp::LoopEnd) => with_fail(s, RunError::UnprocessedLoop),
            CompoundOp::Panic(v) => MState { status: Status::Panicked(v), ..s },
            CompoundOp::Zero => sem_set_cell(s, 0u8),
            CompoundOp::ZeroAdvance(n) => sem_zero_advance(s, n),
            CompoundOp::ZeroRetreat(n) => sem_zero_retreat(s, n),
            CompoundOp::SetCell(v) => sem_set_cell(s, v),
            CompoundOp::MoveAdd(o) => sem_move_add(s, o),
            CompoundOp::MoveAdd2(o1, o2) => sem_move_add2(s, o1, o2),
            CompoundOp::MoveSet(o) => sem_move_set(s, o),
            CompoundOp::Dupe(o) => sem_dupe(s, o),
            CompoundOp::Equals => sem_equals(s, false),
            CompoundOp::NotEquals => sem_equals(s, true),
            CompoundOp::ShiftLeftLogical => sem_shift_left_logical(s),
            CompoundOp::ShiftRightLogical => sem_shift_right_logical(s),
            CompoundOp::LessThan => sem_compare(s, true, false, false),
            CompoundOp::GreaterThan => sem_compare(s, false, true, false),
            CompoundOp::LessThanEqual => sem_compare(s, true, false, true),
            CompoundOp::GreaterThanEqual => sem_compare(s, false, true, true),
            CompoundOp::BitAnd => sem_bit_and(s),
            CompoundOp::BitNeg => sem_bit_neg(s),
            CompoundOp::WellBehavedDivMod(sh) => sem_div_mod(s, sh),
            CompoundOp::PrintStatic(bytes) => sem_print_static(s, bytes@),
            CompoundOp::MoveCellDynamicU8(o) => sem_move_cell_dynamic_u8(s, o),
            CompoundOp::MoveCellDynamicU16(o) => sem_move_cell_dynamic_u16(s, o),
            CompoundOp::MoveCellDynamicU32(o) => sem_move_cell_dynamic_u32(s, o),
            CompoundOp::CopyCellDynamicU8(o) => sem_copy_cell_dynamic_u8(s, o),
            CompoundOp::CopyCellDynamicU32(o) => sem_copy_cell_dynamic_u32(s, o),
            CompoundOp::MoveCellsStaticReverse(o, c2) => sem_move_cells_static_reverse(s, o, c2),
        },
    }
}

/// Up to `fuel` steps of the machine, stopping early once it is done.
pub open spec fn mrun(prog: Seq<InterpreterOp>, s: MState, fuel: nat) -> MState
    decreases fuel,
{
    if fuel == 0 || is_done(prog, s) {
        s
    } else {
        mrun(prog, mstep(prog, s), (fuel - 1) as nat)
    }
}



impl Machine {
    /// A fresh machine: `tape_len` zeroed cells, the given input, no output.
    pub fn new(tape_len: usize, input: Vec<u8>) -> (r: Self)
        ensures
            r@ == init_state(input@, tape_len as nat),
    {
        let mut tape: Vec<u8> = Vec::new();
        let mut i: usize = 0;
        while i < tape_len
            invariant
                i <= tape_len,
                tape@ == Seq::new(i as nat, |j: int| 0u8),
            decreases tape_len - i,
        {
            tape.push(0);
            i = i + 1;
            proof {
                assert(tape@ =~= Seq::new(i as nat, |j: int| 0u8));
            }
        }
        let m = Machine {
            tape,
            head: 0,
            pc: 0,
            input,
            in_pos: 0,
            output: Vec::new(),
            status: Status::Running,
        };
        proof {
            assert(m@.output =~= Seq::<u8>::empty());
        }
        m
    }

    fn fail(&mut self, e: RunError)
        ensures
            final(self)@ == with_fail(old(self)@, e),
    {
        self.status = Status::Failed(e);
    }

    fn op_change_by(&mut self, amount: u8)
        requires
            old(self).pc < usize::MAX,
        ensures
            final(self)@ == sem_change_by(old(self)@, amount),
    {
        if self.head < self.tape.len() {
            let v = self.tape[self.head];
            self.tape.set(self.head, v.wrapping_add(amount));
            self.pc = self.pc + 1;
        } else {
            self.fail(RunError::OutOfBounds);
        }
    }

    fn op_shift(&mut self, amount: i64)
        requires
            old(self).pc < usize::MAX,
        ensures
            final(self)@ == sem_shift(old(self)@, amount),
    {
        let target: i128 = self.head as i128 + amount as i128;
        if 0 <= target && target <= usize::MAX as i128 {
            self.head = target as usize;
            self.pc = self.pc + 1;
        } else {
            self.fail(RunError::OutOfBounds);
        }
    }

    fn op_input(&mut self, count: u64)
        requires
            old(self).pc < usize::MAX,
        ensures
            final(self)@ == sem_input(old(self)@, count),
    {
        if count == 0 {
            self.pc = self.pc + 1;
            return;
        }
        if self.head < self.tape.len() {
            let remaining: usize = if self.in_pos <= self.input.len() {
                self.input.len() - self.in_pos
            } else {
                0
            };
            if count <= remaining as u64 {
                let idx = self.in_pos + (count as usize) - 1;
                let v = self.input[idx];
                self.tape.set(self.head, v);
                self.in_pos = self.in_pos + (count as usize);
            } else {
                self.tape.set(self.head, 0);
                self.in_pos = self.input.len();
            }
            self.pc = self.pc + 1;
        } else {
            self.fail(RunError::OutOfBounds);
        }
    }

    fn op_output(&mut self, count: u64)
        requires
            old(self).pc < usize::MAX,
        ensures
            final(self)@ == sem_output(old(self)@, count),
    {
        if count == 0 {
            self.pc = self.pc + 1;
            return;
        }
        if self.head < self.tape.len() {
            let ghost s0 = self@;
            let v = self.tape[self.head];
            let mut k: u64 = 0;
            while k < count
                invariant
                    k <= count,
                    v == s0.tape[s0.head as int],
                    s0.head < s0.tape.len(),
                    self.tape == old(self).tape,
                    self.head == s0.head,
                    self.pc == s0.pc,
                    self.input == old(self).input,
                    self.in_pos == s0.in_pos,
                    self.status == s0.status,
                    self.output@ == s0.output + repeat_byte(v, k),
                decreases count - k,
            {
                self.output.push(v);
                k = k + 1;
                proof {
                    assert(self.output@ =~= s0.output + repeat_byte(v, k));
                }
            }
            self.pc = self.pc + 1;
        } else {
            self.fail(RunError::OutOfBounds);
        }
    }

    fn op_set_cell(&mut self, value: u8)
        requires
            old(self).pc < usize::MAX,
        ensures
            final(self)@ == sem_set_cell(old(self)@, value),
    {
        if self.head < self.tape.len() {
            self.tape.set(self.head, value);
            self.pc = self.pc + 1;
        } else {
            self.fail(RunError::OutOfBounds);
        }
    }

    fn op_zero_advance(&mut self, n: u64)
        requires
            old(self).pc < usize::MAX,
        ensures
            final(self)@ == sem_zero_advance(old(self)@, n),
    {
        if n == 0 {
            self.pc = self.pc + 1;
            return;
        }
        if self.head as u128 + n as u128 <= self.tape.len() as u128 {
            let ghost s0 = self@;
            let mut k: u64 = 0;
            while k < n
                invariant
                    k <= n,
                    s0.head + n <= s0.tape.len(),
                    s0.head + n <= usize::MAX,
                    self.head == s0.head,
                    self.pc == s0.pc,
                    self.input == old(self).input,
                    self.in_pos == s0.in_pos,
                    self.output == old(self).output,
                    self.status == s0.status,
                    self.tape@ == Seq::new(
                        s0.tape.len(),
                        |i: int| if s0.head <= i < s0.head + k { 0u8 } else { s0.tape[i] },
                    ),
                decreases n - k,
            {
                let idx = self.head + (k as usize);
                self.tape.set(idx, 0);
                k = k + 1;
                proof {
                    assert(self.tape@ =~= Seq::new(
                        s0.tape.len(),
                        |i: int| if s0.head <= i < s0.head + k { 0u8 } else { s0.tape[i] },
                    ));
                }
            }
            self.head = self.head + (n as usize);
            self.pc = self.pc + 1;
        } else {
            self.fail(RunError::OutOfBounds);
        }
    }

    fn op_zero_retreat(&mut self, n: u64)
        requires
            old(self).pc < usize::MAX,
        ensures
            final(self)@ == sem_zero_retreat(old(self)@, n),
    {
        if n == 0 {
            self.pc = self.pc + 1;
            return;
        }
        if self.head < self.tape.len() && self.head as u128 >= n as u128 {
            let ghost s0 = self@;
            let mut k: u64 = 0;
            while k < n
                invariant
                    k <= n,
                    s0.head < s0.tape.len(),
                    s0.head >= n,
                    self.head == s0.head,
                    self.pc == s0.pc,
                    self.input == old(self).input,
                    self.in_pos == s0.in_pos,
                    self.output == old(self).output,
                    self.status == s0.status,
                    self.tape@ == Seq::new(
                        s0.tape.len(),
                        |i: int|
                            if s0.head + 1 - k <= i < s0.head + 1 {
                                0u8
                            } else {
                                s0.tape[i]
                            },
                    ),
                decreases n - k,
            {
                let idx = self.head - (k as usize);
                self.tape.set(idx, 0);
                k = k + 1;
                proof {
                    assert(self.tape@ =~= Seq::new(
                        s0.tape.len(),
                        |i: int|
                            if s0.head + 1 - k <= i < s0.head + 1 {
                                0u8
                            } else {
                                s0.tape[i]
                            },
                    ));
                }
            }
            self.head = self.head - (n as usize);
            self.pc = self.pc + 1;
        } else {
            self.fail(RunError::OutOfBounds);
        }
    }

    fn op_dupe(&mut self, offset: i64)
        requires
            old(self).pc < usize::MAX,
        ensures
            final(self)@ == sem_dupe(old(self)@, offset),
    {
        let src: i128 = self.head as i128 + offset as i128;
        if self.head as u128 + 1 < self.tape.len() as u128 && 0 <= src && src < self.tape.len() as i128 {
            let v = self.tape[src as usize];
            self.tape.set(self.head, v);
            self.tape.set(self.head + 1, 0);
            self.head = self.head + 1;
            self.pc = self.pc + 1;
        } else {
            self.fail(RunError::OutOfBounds);
        }
    }

    fn op_move_add(&mut self, offset: i64)
        requires
            old(self).pc < usize::MAX,
        ensures
            final(self)@ == sem_move_add(old(self)@, offset),
    {
        let dest: i128 = self.head as i128 + offset as i128;
        if self.head < self.tape.len() && 0 <= dest && dest < self.tape.len() as i128 {
            let cur = self.tape[self.head];
            let dv = self.tape[dest as usize];
            self.tape.set(dest as usize, dv.wrapping_add(cur));
            self.tape.set(self.head, 0);
            self.pc = self.pc + 1;
        } else {
            self.fail(RunError::OutOfBounds);
        }
    }

    fn op_move_set(&mut self, offset: i64)
        requires
            old(self).pc < usize::MAX,
        ensures
            final(self)@ == sem_move_set(old(self)@, offset),
    {
        let dest: i128 = self.head as i128 + offset as i128;
        if self.head < self.tape.len() && 0 <= dest && dest < self.tape.len() as i128 {
            let cur = self.tape[self.head];
            self.tape.set(dest as usize, cur);
            self.tape.set(self.head, 0);
            self.pc = self.pc + 1;
        } else {
            self.fail(RunError::OutOfBounds);
        }
    }

    fn op_move_add2(&mut self, offset1: i64, offset2: i64)
        requires
            old(self).pc < usize::MAX,
        ensures
            final(self)@ == sem_move_add2(old(self)@, offset1, offset2),
    {
        let d1: i128 = self.head as i128 + offset1 as i128;
        let d2: i128 = self.head as i128 + offset2 as i128;
        let len = self.tape.len();
        if self.head < len && 0 <= d1 && d1 < len as i128 && 0 <= d2 && d2 < len as i128 {
            let cur = self.tape[self.head];
            let v1 = self.tape[d1 as usize];
            self.tape.set(d1 as usize, v1.wrapping_add(cur));
            let v2 = self.tape[d2 as usize];
            self.tape.set(d2 as usize, v2.wrapping_add(cur));
            self.tape.set(self.head, 0);
            self.pc = self.pc + 1;
        } else {
            self.fail(RunError::OutOfBounds);
        }
    }

    fn op_equals(&mut self, negated: bool)
        requires
            old(self).pc < usize::MAX,
        ensures
            final(self)@ == sem_equals(old(self)@, negated),
    {
        if self.head as u128 + 1 < self.tape.len() as u128 {
            let a = self.tape[self.head];
            let b = self.tape[self.head + 1];
            let hit = if negated {
                a != b
            } else {
                a == b
            };
            let res: u8 = if hit {
                1
            } else {
                0
            };
            self.tape.set(self.head, res);
            self.tape.set(self.head + 1, 0);
            self.head = self.head + 1;
            self.pc = self.pc + 1;
        } else {
            self.fail(RunError::OutOfBounds);
        }
    }

    fn op_compare(&mut self, lt: bool, gt: bool, eq: bool)
        requires
            old(self).pc < usize::MAX,
        ensures
            final(self)@ == sem_compare(old(self)@, lt, gt, eq),
    {
        if self.head >= 2 && self.head as u128 + 1 < self.tape.len() as u128 {
            let a = self.tape[self.head - 2];
            let b = self.tape[self.head - 1];
            let hit = (a < b && lt) || (a > b && gt) || (a == b && eq);
            let res: u8 = if hit {
                1
            } else {
                0
            };
            self.tape.set(self.head + 1, 0);
            self.tape.set(self.head - 2, res);
            self.tape.set(self.head - 1, 0);
            self.tape.set(self.head, 0);
            self.pc = self.pc + 1;
        } else {
            self.fail(RunError::OutOfBounds);
        }
    }

    fn op_shift_left_logical(&mut self)
        requires
            old(self).pc < usize::MAX,
        ensures
            final(self)@ == sem_shift_left_logical(old(self)@),
    {
        if self.head >= 2 && self.head < self.tape.len() {
            let a = self.tape[self.head - 2];
            let b = self.tape[self.head - 1];
            let res: u8 = if b >= 8 {
                0
            } else {
                a << b
            };
            self.tape.set(self.head - 2, res);
            self.tape.set(self.head - 1, 0);
            self.tape.set(self.head, 0);
            self.head = self.head - 1;
            self.pc = self.pc + 1;
        } else {
            self.fail(RunError::OutOfBounds);
        }
    }

    fn op_shift_right_logical(&mut self)
        requires
            old(self).pc < usize::MAX,
        ensures
            final(self)@ == sem_shift_right_logical(old(self)@),
    {
        if self.head >= 2 && self.head as u128 + 3 < self.tape.len() as u128 {
            let a = self.tape[self.head - 2];
            let b = self.tape[self.head - 1];
            let res: u8 = if b >= 8 {
                0
            } else {
                a >> b
            };
            self.tape.set(self.head + 3, 0);
            self.tape.set(self.head - 2, res);
            self.tape.set(self.head - 1, 0);
            self.tape.set(self.head, 0);
            self.tape.set(self.head + 1, 0);
            self.tape.set(self.head + 2, 0);
            self.head = self.head - 1;
            self.pc = self.pc + 1;
        } else {
            self.fail(RunError::OutOfBounds);
        }
    }

    fn op_bit_and(&mut self)
        requires
            old(self).pc < usize::MAX,
        ensures
            final(self)@ == sem_bit_and(old(self)@),
    {
        if self.head >= 7 && self.head - 6 < self.tape.len() && self.head as u128 + 2
            <= usize::MAX as u128 {
            let a = self.tape[self.head - 7];
            let b = self.tape[self.head - 6];
            self.tape.set(self.head - 7, a & b);
            self.tape.set(self.head - 6, 0);
            self.head = self.head + 2;
            self.pc = self.pc + 1;
        } else {
            self.fail(RunError::OutOfBounds);
        }
    }

    fn op_bit_neg(&mut self)
        requires
            old(self).pc < usize::MAX,
        ensures
            final(self)@ == sem_bit_neg(old(self)@),
    {
        if self.head as u128 + 1 < self.tape.len() as u128 {
            let v = self.tape[self.head];
            self.tape.set(self.head, !v);
            self.tape.set(self.head + 1, 0);
            self.head = self.head + 1;
            self.pc = self.pc + 1;
        } else {
            self.fail(RunError::OutOfBounds);
        }
    }

    fn op_div_mod(&mut self, shift: i64)
        requires
            old(self).pc < usize::MAX,
        ensures
            final(self)@ == sem_div_mod(old(self)@, shift),
    {
        let target: i128 = self.head as i128 + shift as i128;
        if self.head >= 2 && self.head as u128 + 3 < self.tape.len() as u128 && 0 <= target
            && target <= usize::MAX as i128 {
            let n = self.tape[self.head - 2];
            let d = self.tape[self.head - 1];
            let q: u8 = if d == 0 {
                0
            } else {
                n / d
            };
            let r: u8 = if d == 0 {
                0
            } else {
                n % d
            };
            self.tape.set(self.head + 3, 0);
            self.tape.set(self.head - 2, 0);
            self.tape.set(self.head - 1, d - r);
            self.tape.set(self.head, r);
            self.tape.set(self.head + 1, q);
            self.tape.set(self.head + 2, 0);
            self.head = target as usize;
            self.pc = self.pc + 1;
        } else {
            self.fail(RunError::OutOfBounds);
        }
    }

    fn op_print_static(&mut self, bytes: &Vec<u8>)
        requires
            old(self).pc < usize::MAX,
        ensures
            final(self)@ == sem_print_static(old(self)@, bytes@),
    {
        if bytes.len() == 0 {
            self.fail(RunError::EmptyPrint);
            return;
        }
        if self.head < self.tape.len() {
            let ghost s0 = self@;
            let mut k: usize = 0;
            while k < bytes.len()
                invariant
                    k <= bytes@.len(),
                    self.tape == old(self).tape,
                    self.head == s0.head,
                    self.pc == s0.pc,
                    self.input == old(self).input,
                    self.in_pos == s0.in_pos,
                    self.status == s0.status,
                    self.output@ == s0.output + bytes@.take(k as int),
                decreases bytes@.len() - k,
            {
                let v = bytes[k];
                self.output.push(v);
                k = k + 1;
                proof {
                    assert(self.output@ =~= s0.output + bytes@.take(k as int));
                }
            }
            proof {
                assert(bytes@.take(bytes@.len() as int) =~= bytes@);
            }
            let last = bytes[bytes.len() - 1];
            self.tape.set(self.head, last);
            self.pc = self.pc + 1;
        } else {
            self.fail(RunError::OutOfBounds);
        }
    }

    fn op_move_cell_dynamic_u8(&mut self, offset: u64)
        requires
            old(self).pc < usize::MAX,
        ensures
            final(self)@ == sem_move_cell_dynamic_u8(old(self)@, offset),
    {
        if self.head >= 2 && self.head - 1 < self.tape.len() {
            let value = self.tape[self.head - 2];
            let index = self.tape[self.head - 1];
            let dest: i128 = self.head as i128 - 3 - offset as i128 + index as i128;
            if 0 <= dest && dest < self.tape.len() as i128 {
                self.tape.set(dest as usize, value);
                self.tape.set(self.head - 2, index);
                self.head = self.head - 2;
                self.pc = self.pc + 1;
            } else {
                self.fail(RunError::OutOfBounds);
            }
        } else {
            self.fail(RunError::OutOfBounds);
        }
    }

    fn op_move_cell_dynamic_u16(&mut self, offset: u64)
        requires
            old(self).pc < usize::MAX,
        ensures
            final(self)@ == sem_move_cell_dynamic_u16(old(self)@, offset),
    {
        if self.head >= 3 && self.head - 1 < self.tape.len() {
            let b0 = self.tape[self.head - 2];
            let b1 = self.tape[self.head - 1];
            let value = self.tape[self.head - 3];
            let dest: i128 = self.head as i128 - offset as i128 + b0 as i128 + 256 * (b1 as i128);
            if 0 <= dest && dest < self.tape.len() as i128 {
                self.tape.set(dest as usize, value);
                self.tape.set(self.head - 3, b0);
                self.tape.set(self.head - 2, b1);
                self.head = self.head - 3;
                self.pc = self.pc + 1;
            } else {
                self.fail(RunError::OutOfBounds);
            }
        } else {
            self.fail(RunError::OutOfBounds);
        }
    }

    fn op_move_cell_dynamic_u32(&mut self, offset: u64)
        requires
            old(self).pc < usize::MAX,
        ensures
            final(self)@ == sem_move_cell_dynamic_u32(old(self)@, offset),
    {
        if self.head >= 5 && self.head - 1 < self.tape.len() {
            let b0 = self.tape[self.head - 4];
            let b1 = self.tape[self.head - 3];
            let b2 = self.tape[self.head - 2];
            let b3 = self.tape[self.head - 1];
            let value = self.tape[self.head - 5];
            let dest: i128 = self.head as i128 - offset as i128 + b0 as i128 + 256 * (b1 as i128)
                + 65536 * (b2 as i128) + 16777216 * (b3 as i128);
            if 0 <= dest && dest < self.tape.len() as i128 {
                self.tape.set(dest as usize, value);
                self.tape.set(self.head - 5, b0);
                self.tape.set(self.head - 4, b1);
                self.tape.set(self.head - 3, b2);
                self.tape.set(self.head - 2, b3);
                self.head = self.head - 5;
                self.pc = self.pc + 1;
            } else {
                self.fail(RunError::OutOfBounds);
            }
        } else {
            self.fail(RunError::OutOfBounds);
        }
    }

    fn op_copy_cell_dynamic_u8(&mut self, offset: u64)
        requires
            old(self).pc < usize::MAX,
        ensures
            final(self)@ == sem_copy_cell_dynamic_u8(old(self)@, offset),
    {
        if self.head >= 1 && self.head - 1 < self.tape.len() {
            let index = self.tape[self.head - 1];
            let src: i128 = self.head as i128 - 1 - offset as i128 + index as i128;
            if 0 <= src && src < self.tape.len() as i128 {
                let v = self.tape[src as usize];
                self.tape.set(self.head - 1, v);
                self.pc = self.pc + 1;
            } else {
                self.fail(RunError::OutOfBounds);
            }
        } else {
            self.fail(RunError::OutOfBounds);
        }
    }

    fn op_copy_cell_dynamic_u32(&mut self, offset: u64)
        requires
            old(self).pc < usize::MAX,
        ensures
            final(self)@ == sem_copy_cell_dynamic_u32(old(self)@, offset),
    {
        if self.head >= 4 && self.head - 1 < self.tape.len() {
            let b0 = self.tape[self.head - 4];
            let b1 = self.tape[self.head - 3];
            let b2 = self.tape[self.head - 2];
            let b3 = self.tape[self.head - 1];
            let src: i128 = self.head as i128 - offset as i128 + b0 as i128 + 256 * (b1 as i128)
                + 65536 * (b2 as i128) + 16777216 * (b3 as i128);
            if 0 <= src && src < self.tape.len() as i128 {
                let v = self.tape[src as usize];
                self.tape.set(self.head - 4, v);
                self.head = self.head - 3;
                self.pc = self.pc + 1;
            } else {
                self.fail(RunError::OutOfBounds);
            }
        } else {
            self.fail(RunError::OutOfBounds);
        }
    }

    fn op_move_cells_static_reverse(&mut self, offset: i64, count: u64)
        requires
            old(self).pc < usize::MAX,
        ensures
            final(self)@ == sem_move_cells_static_reverse(old(self)@, offset, count),
    {
        if count == 0 {
            self.pc = self.pc + 1;
            return;
        }
        let len = self.tape.len();
        let end_dest: i128 = self.head as i128 + offset as i128 + 1;
        let start_dest: i128 = end_dest - count as i128;
        if self.head as u128 >= count as u128 && self.head < len && 0 <= start_dest && end_dest
            <= len as i128 {
            let cnt = count as usize;
            let ss = self.head - cnt + 1;
            let sd = start_dest as usize;
            let ghost s0 = self@;
            let mut buf: Vec<u8> = Vec::new();
            let mut k: usize = 0;
            while k < cnt
                invariant
                    k <= cnt,
                    ss + cnt <= s0.tape.len(),
                    ss + cnt <= usize::MAX,
                    *self == *old(self),
                    s0 == self@,
                    buf@ == Seq::new(k as nat, |i: int| s0.tape[ss + i]),
                decreases cnt - k,
            {
                let v = self.tape[ss + k];
                buf.push(v);
                k = k + 1;
                proof {
                    assert(buf@ =~= Seq::new(k as nat, |i: int| s0.tape[ss + i]));
                }
            }
            k = 0;
            while k < cnt
                invariant
                    k <= cnt,
                    ss + cnt <= s0.tape.len(),
                    sd + cnt <= s0.tape.len(),
                    ss + cnt <= usize::MAX,
                    sd + cnt <= usize::MAX,
                    buf@ == Seq::new(cnt as nat, |i: int| s0.tape[ss + i]),
                    self.head == s0.head,
                    self.pc == s0.pc,
                    self.input == old(self).input,
                    self.in_pos == s0.in_pos,
                    self.output == old(self).output,
                    self.status == s0.status,
                    self.tape@ == Seq::new(
                        s0.tape.len(),
                        |i: int|
                            if sd <= i < sd + k {
                                s0.tape[ss + (i - sd)]
                            } else {
                                s0.tape[i]
                            },
                    ),
                decreases cnt - k,
            {
                let v = buf[k];
                self.tape.set(sd + k, v);
                k = k + 1;
                proof {
                    assert(self.tape@ =~= Seq::new(
                        s0.tape.len(),
                        |i: int|
                            if sd <= i < sd + k {
                                s0.tape[ss + (i - sd)]
                            } else {
                                s0.tape[i]
                            },
                    ));
                }
            }
            k = 0;
            while k < cnt
                invariant
                    k <= cnt,
                    ss + cnt <= s0.tape.len(),
                    sd + cnt <= s0.tape.len(),
                    ss + cnt <= usize::MAX,
                    sd + cnt <= usize::MAX,
                    self.head == s0.head,
                    self.pc == s0.pc,
                    self.input == old(self).input,
                    self.in_pos == s0.in_pos,
                    self.output == old(self).output,
                    self.status == s0.status,
                    self.tape@ == Seq::new(
                        s0.tape.len(),
                        |i: int|
                            if ss <= i < ss + k {
                                0u8
                            } else if sd <= i < sd + cnt {
                                s0.tape[ss + (i - sd)]
                            } else {
                                s0.tape[i]
                            },
                    ),
                decreases cnt - k,
            {
                self.tape.set(ss + k, 0);
                k = k + 1;
                proof {
                    assert(self.tape@ =~= Seq::new(
                        s0.tape.len(),
                        |i: int|
                            if ss <= i < ss + k {
                                0u8
                            } else if sd <= i < sd + cnt {
                                s0.tape[ss + (i - sd)]
                            } else {
                                s0.tape[i]
                            },
                    ));
                }
            }
            self.head = self.head - cnt;
            self.pc = self.pc + 1;
            proof {
                let target = sem_move_cells_static_reverse(s0, offset, count);
                assert(self.tape@ =~= target.tape);
            }
        } else {
            self.fail(RunError::OutOfBounds);
        }
    }

    /// Execute the single instruction under the program counter, exactly as
    /// the small-step semantics says.
    pub fn step(&mut self, prog: &[InterpreterOp])
        requires
            old(self).status is Running,
            old(self).pc < prog@.len(),
        ensures
            final(self)@ == mstep(prog@, old(self)@),
    {
        let plen = prog.len();
        proof {
            assert(old(self).pc < plen);
        }
        let op = slice_index_get(prog, self.pc);
        match op {
            InterpreterOp::LoopStart(d) => {
                if self.head < self.tape.len() {
                    let v = self.tape[self.head];
                    if v == 0 {
                        let plen = prog.len();
                        let target = match self.pc.checked_add(*d) {
                            Option::Some(t) => if t < plen {
                                t
                            } else {
                                plen
                            },
                            Option::None => plen,
                        };
                        self.pc = target;
                    } else {
                        self.pc = self.pc + 1;
                    }
                } else {
                    self.fail(RunError::OutOfBounds);
                }
            },
            InterpreterOp::LoopEnd(d) => {
                if self.head < self.tape.len() {
                    let v = self.tape[self.head];
                    if v != 0 {
                        if *d <= self.pc {
                            self.pc = self.pc - *d;
                        } else {
                            self.fail(RunError::BadJump);
                        }
                    } else {
                        self.pc = self.pc + 1;
                    }
                } else {
                    self.fail(RunError::OutOfBounds);
                }
            },
            InterpreterOp::CompoundOp(CompoundOp::BasicOp(BasicOp::ChangeBy(a))) => {
                self.op_change_by(*a);
            },
            InterpreterOp::CompoundOp(CompoundOp::BasicOp(BasicOp::Shift(a))) => {
                self.op_shift(*a);
            },
            InterpreterOp::CompoundOp(CompoundOp::BasicOp(BasicOp::Input(k))) => {
                self.op_input(*k);
            },
            InterpreterOp::CompoundOp(CompoundOp::BasicOp(BasicOp::Output(k))) => {
                self.op_output(*k);
            },
            InterpreterOp::CompoundOp(CompoundOp::BasicOp(BasicOp::LoopStart)) => {
                self.fail(RunError::UnprocessedLoop);
            },
            InterpreterOp::CompoundOp(CompoundOp::BasicOp(BasicOp::LoopEnd)) => {
                self.fail(RunError::UnprocessedLoop);
            },
            InterpreterOp::CompoundOp(CompoundOp::Panic(v)) => {
                self.status = Status::Panicked(*v);
            },
            InterpreterOp::CompoundOp(CompoundOp::Zero) => {
                self.op_set_cell(0);
            },
            InterpreterOp::CompoundOp(CompoundOp::ZeroAdvance(n)) => {
                self.op_zero_advance(*n);
            },
            InterpreterOp::CompoundOp(CompoundOp::ZeroRetreat(n)) => {
                self.op_zero_retreat(*n);
            },
            InterpreterOp::CompoundOp(CompoundOp::SetCell(v)) => {
                self.op_set_cell(*v);
            },
            InterpreterOp::CompoundOp(CompoundOp::MoveAdd(o)) => {
                self.op_move_add(*o);
            },
            InterpreterOp::CompoundOp(CompoundOp::MoveAdd2(o1, o2)) => {
                self.op_move_add2(*o1, *o2);
            },
            InterpreterOp::CompoundOp(CompoundOp::MoveSet(o)) => {
                self.op_move_set(*o);
            },
            InterpreterOp::CompoundOp(CompoundOp::Dupe(o)) => {
                self.op_dupe(*o);
            },
            InterpreterOp::CompoundOp(CompoundOp::Equals) => {
                self.op_equals(false);
            },
            InterpreterOp::CompoundOp(CompoundOp::NotEquals) => {
                self.op_equals(true);
            },
            InterpreterOp::CompoundOp(CompoundOp::ShiftLeftLogical) => {
                self.op_shift_left_logical();
            },
            InterpreterOp::CompoundOp(CompoundOp::ShiftRightLogical) => {
                self.op_shift_right_logical();
            },
            InterpreterOp::CompoundOp(CompoundOp::LessThan) => {
                self.op_compare(true, false, false);
            },
            InterpreterOp::CompoundOp(CompoundOp::GreaterThan) => {
                self.op_compare(false, true, false);
            },
            InterpreterOp::CompoundOp(CompoundOp::LessThanEqual) => {
                self.op_compare(true, false, true);
            },
            InterpreterOp::CompoundOp(CompoundOp::GreaterThanEqual) => {
                self.op_compare(false, true, true);
            },
            InterpreterOp::CompoundOp(CompoundOp::BitAnd) => {
                self.op_bit_and();
            },
            InterpreterOp::CompoundOp(CompoundOp::BitNeg) => {
                self.op_bit_neg();
            },
            InterpreterOp::CompoundOp(CompoundOp::WellBehavedDivMod(sh)) => {
                self.op_div_mod(*sh);
            },
            InterpreterOp::CompoundOp(CompoundOp::PrintStatic(bytes)) => {
                self.op_print_static(bytes);
            },
            InterpreterOp::CompoundOp(CompoundOp::MoveCellDynamicU8(o)) => {
                self.op_move_cell_dynamic_u8(*o);
            },
            InterpreterOp::CompoundOp(CompoundOp::MoveCellDynamicU16(o)) => {
                self.op_move_cell_dynamic_u16(*o);
            },
            InterpreterOp::CompoundOp(CompoundOp::MoveCellDynamicU32(o)) => {
                self.op_move_cell_dynamic_u32(*o);
            },
            InterpreterOp::CompoundOp(CompoundOp::CopyCellDynamicU8(o)) => {
                self.op_copy_cell_dynamic_u8(*o);
            },
            InterpreterOp::CompoundOp(CompoundOp::CopyCellDynamicU32(o)) => {
                self.op_copy_cell_dynamic_u32(*o);
            },
            InterpreterOp::CompoundOp(CompoundOp::MoveCellsStaticReverse(o, c)) => {
                self.op_move_cells_static_reverse(*o, *c);
            },
        }
    }

    /// Run the machine for at most `max_steps` instructions, stopping early
    /// once it halts, traps, or fails.
    pub fn run(&mut self, prog: &[InterpreterOp], max_steps: u64)
        ensures
            final(self)@ == mrun(prog@, old(self)@, max_steps as nat),
    {
        let mut fuel = max_steps;
        loop
            invariant
                mrun(prog@, old(self)@, max_steps as nat) == mrun(prog@, self@, fuel as nat),
            ensures
                mrun(prog@, old(self)@, max_steps as nat) == mrun(prog@, self@, fuel as nat),
                fuel == 0 || is_done(prog@, self@),
            decreases fuel,
        {
            if fuel == 0 {
                break;
            }
            let still_running = match self.status {
                Status::Running => true,
                _ => false,
            };
            if !still_running {
                break;
            }
            if self.pc >= prog.len() {
                break;
            }
            self.step(prog);
            fuel = fuel - 1;
        }
    }

    /// Whether the machine halted normally: it ran off the end of the
    /// program while still in the running state.
    pub fn halted(&self, prog: &[InterpreterOp]) -> (r: bool)
        ensures
            r == (self@.status is Running && self@.pc >= prog@.len()),
    {
        let still_running = match self.status {
            Status::Running => true,
            _ => false,
        };
        still_running && self.pc >= prog.len()
    }
}

/// A copy of a byte slice as an owned vector.
fn bytes_to_vec(s: &[u8]) -> (r: Vec<u8>)
    ensures
        r@ == s@,
{
    let mut v: Vec<u8> = Vec::new();
    let mut i: usize = 0;
    while i < s.len()
        invariant
            i <= s@.len(),
            v@ == s@.take(i as int),
        decreases s@.len() - i,
    {
        let b = *slice_index_get(s, i);
        v.push(b);
        i = i + 1;
        proof {
            assert(v@ =~= s@.take(i as int));
        }
    }
    proof {
        assert(s@.take(s@.len() as int) =~= s@);
    }
    v
}

/// The interpreter backend: runs a linearized program on a fresh machine.
pub struct Interpreter<'ops> {
    pub ops: &'ops [InterpreterOp],
}

impl<'ops> Interpreter<'ops> {
    pub fn new(ops: &'ops [InterpreterOp]) -> (r: Self)
        ensures
            r.ops@ == ops@,
    {
        Self { ops }
    }

    /// Run the program on a zeroed tape of `CELL_COUNT` cells against the
    /// given finite input, for at most `max_steps` instructions, and hand
    /// back the machine's final state.
    pub fn interpret(&self, input: &[u8], max_steps: u64) -> (m: Machine)
        ensures
            m@ == mrun(self.ops@, init_state(input@, CELL_COUNT as nat), max_steps as nat),
    {
        let mut m = Machine::new(CELL_COUNT, bytes_to_vec(input));
        m.run(self.ops, max_steps);
        m
    }
}

} // verus!
