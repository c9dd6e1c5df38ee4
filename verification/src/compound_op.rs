use crate::basic_op::BasicOp;
use crate::window::{window_ops, win_get, win_len, win_new, win_pop_back, win_pop_front,
    win_push, win_truncate};
use vstd::prelude::*;

verus! {

/// A basic op or a recognized idiom. Each idiom fixes its operand and clobber
/// cells relative to the head at the moment the instruction fires.
#[derive(Clone, Debug, PartialEq, Eq)]
pub enum CompoundOp {
    BasicOp(BasicOp),
    Panic(u8),
    Zero,
    ZeroAdvance(u64),
    ZeroRetreat(u64),
    SetCell(u8),
    MoveAdd(i64),
    MoveAdd2(i64, i64),
    MoveSet(i64),
    Dupe(i64),
    Equals,
    NotEquals,
    ShiftLeftLogical,
    ShiftRightLogical,
    LessThan,
    GreaterThan,
    LessThanEqual,
    GreaterThanEqual,
    BitAnd,
    BitNeg,
    WellBehavedDivMod(i64),
    PrintStatic(Vec<u8>),
    MoveCellDynamicU8(u64),
    MoveCellDynamicU16(u64),
    MoveCellDynamicU32(u64),
    CopyCellDynamicU8(u64),
    CopyCellDynamicU32(u64),
    MoveCellsStaticReverse(i64, u64),
}

/// The mathematical shadow of `CompoundOp`: identical but for `PrintStatic`,
/// whose bytes are a `Seq`.
pub ghost enum OpModel {
    BasicOp(BasicOp),
    Panic(u8),
    Zero,
    ZeroAdvance(u64),
    ZeroRetreat(u64),
    SetCell(u8),
    MoveAdd(i64),
    MoveAdd2(i64, i64),
    MoveSet(i64),
    Dupe(i64),
    Equals,
    NotEquals,
    ShiftLeftLogical,
    ShiftRightLogical,
    LessThan,
    GreaterThan,
    LessThanEqual,
    GreaterThanEqual,
    BitAnd,
    BitNeg,
    WellBehavedDivMod(i64),
    PrintStatic(Seq<u8>),
    MoveCellDynamicU8(u64),
    MoveCellDynamicU16(u64),
    MoveCellDynamicU32(u64),
    CopyCellDynamicU8(u64),
    CopyCellDynamicU32(u64),
    MoveCellsStaticReverse(i64, u64),
}

impl View for CompoundOp {
    type V = OpModel;

    open spec fn view(&self) -> OpModel {
        match self {
            CompoundOp::BasicOp(b) => OpModel::BasicOp(*b),
            CompoundOp::Panic(v) => OpModel::Panic(*v),
            CompoundOp::Zero => OpModel::Zero,
            CompoundOp::ZeroAdvance(k) => OpModel::ZeroAdvance(*k),
            CompoundOp::ZeroRetreat(k) => OpModel::ZeroRetreat(*k),
            CompoundOp::SetCell(v) => OpModel::SetCell(*v),
            CompoundOp::MoveAdd(o) => OpModel::MoveAdd(*o),
            CompoundOp::MoveAdd2(a, b) => OpModel::MoveAdd2(*a, *b),
            CompoundOp::MoveSet(o) => OpModel::MoveSet(*o),
            CompoundOp::Dupe(o) => OpModel::Dupe(*o),
            CompoundOp::Equals => OpModel::Equals,
            CompoundOp::NotEquals => OpModel::NotEquals,
            CompoundOp::ShiftLeftLogical => OpModel::ShiftLeftLogical,
            CompoundOp::ShiftRightLogical => OpModel::ShiftRightLogical,
            CompoundOp::LessThan => OpModel::LessThan,
            CompoundOp::GreaterThan => OpModel::GreaterThan,
            CompoundOp::LessThanEqual => OpModel::LessThanEqual,
            CompoundOp::GreaterThanEqual => OpModel::GreaterThanEqual,
            CompoundOp::BitAnd => OpModel::BitAnd,
            CompoundOp::BitNeg => OpModel::BitNeg,
            CompoundOp::WellBehavedDivMod(s) => OpModel::WellBehavedDivMod(*s),
            CompoundOp::PrintStatic(bytes) => OpModel::PrintStatic(bytes@),
            CompoundOp::MoveCellDynamicU8(o) => OpModel::MoveCellDynamicU8(*o),
            CompoundOp::MoveCellDynamicU16(o) => OpModel::MoveCellDynamicU16(*o),
            CompoundOp::MoveCellDynamicU32(o) => OpModel::MoveCellDynamicU32(*o),
            CompoundOp::CopyCellDynamicU8(o) => OpModel::CopyCellDynamicU8(*o),
            CompoundOp::CopyCellDynamicU32(o) => OpModel::CopyCellDynamicU32(*o),
            CompoundOp::MoveCellsStaticReverse(o, c) => OpModel::MoveCellsStaticReverse(*o, *c),
        }
    }
}

// Shorthand for the basic-op members of the model.
pub open spec fn b_ls() -> OpModel {
    OpModel::BasicOp(BasicOp::LoopStart)
}

pub open spec fn b_le() -> OpModel {
    OpModel::BasicOp(BasicOp::LoopEnd)
}

pub open spec fn b_cb(v: u8) -> OpModel {
    OpModel::BasicOp(BasicOp::ChangeBy(v))
}

pub open spec fn b_sh(v: i64) -> OpModel {
    OpModel::BasicOp(BasicOp::Shift(v))
}

// Discriminators and payload readers used by the pattern conditions.
pub open spec fn is_sh(m: OpModel) -> bool {
    match m {
        OpModel::BasicOp(BasicOp::Shift(_)) => true,
        _ => false,
    }
}

pub open spec fn sh_of(m: OpModel) -> i64 {
    match m {
        OpModel::BasicOp(BasicOp::Shift(s)) => s,
        _ => 0,
    }
}

pub open spec fn is_cbv(m: OpModel) -> bool {
    match m {
        OpModel::BasicOp(BasicOp::ChangeBy(_)) => true,
        _ => false,
    }
}

pub open spec fn cb_of(m: OpModel) -> u8 {
    match m {
        OpModel::BasicOp(BasicOp::ChangeBy(v)) => v,
        _ => 0,
    }
}

pub open spec fn is_za(m: OpModel) -> bool {
    match m {
        OpModel::ZeroAdvance(_) => true,
        _ => false,
    }
}

pub open spec fn za_of(m: OpModel) -> u64 {
    match m {
        OpModel::ZeroAdvance(k) => k,
        _ => 0,
    }
}

pub open spec fn is_zr(m: OpModel) -> bool {
    match m {
        OpModel::ZeroRetreat(_) => true,
        _ => false,
    }
}

pub open spec fn zr_of(m: OpModel) -> u64 {
    match m {
        OpModel::ZeroRetreat(k) => k,
        _ => 0,
    }
}

pub open spec fn is_setv(m: OpModel) -> bool {
    match m {
        OpModel::SetCell(_) => true,
        _ => false,
    }
}

pub open spec fn set_of(m: OpModel) -> u8 {
    match m {
        OpModel::SetCell(v) => v,
        _ => 0,
    }
}

pub open spec fn is_ma(m: OpModel) -> bool {
    match m {
        OpModel::MoveAdd(_) => true,
        _ => false,
    }
}

pub open spec fn ma_of(m: OpModel) -> i64 {
    match m {
        OpModel::MoveAdd(o) => o,
        _ => 0,
    }
}

pub open spec fn is_ma2(m: OpModel) -> bool {
    match m {
        OpModel::MoveAdd2(_, _) => true,
        _ => false,
    }
}

pub open spec fn ma2_a(m: OpModel) -> i64 {
    match m {
        OpModel::MoveAdd2(a, _) => a,
        _ => 0,
    }
}

pub open spec fn ma2_b(m: OpModel) -> i64 {
    match m {
        OpModel::MoveAdd2(_, b) => b,
        _ => 0,
    }
}

pub open spec fn is_ms(m: OpModel) -> bool {
    match m {
        OpModel::MoveSet(_) => true,
        _ => false,
    }
}

pub open spec fn ms_of(m: OpModel) -> i64 {
    match m {
        OpModel::MoveSet(o) => o,
        _ => 0,
    }
}

pub open spec fn is_out(m: OpModel) -> bool {
    match m {
        OpModel::BasicOp(BasicOp::Output(_)) => true,
        _ => false,
    }
}

pub open spec fn out_of(m: OpModel) -> u64 {
    match m {
        OpModel::BasicOp(BasicOp::Output(k)) => k,
        _ => 0,
    }
}

pub open spec fn is_print(m: OpModel) -> bool {
    match m {
        OpModel::PrintStatic(_) => true,
        _ => false,
    }
}

pub open spec fn print_of(m: OpModel) -> Seq<u8> {
    match m {
        OpModel::PrintStatic(s) => s,
        _ => Seq::empty(),
    }
}

pub open spec fn abs_int(x: int) -> int {
    if x < 0 {
        -x
    } else {
        x
    }
}

/// `k` copies of the byte `c`.
pub open spec fn repeat_byte(c: u8, k: u64) -> Seq<u8> {
    Seq::new(k as nat, |i: int| c)
}

/// A window suffix of consecutive `Set`s stripped off.
pub open spec fn strip_sets(w: Seq<OpModel>) -> Seq<OpModel>
    decreases w.len(),
{
    if w.len() > 0 && is_setv(w.last()) {
        strip_sets(w.drop_last())
    } else {
        w
    }
}

/// The recognizer: a bounded window of already-rewritten compound ops whose
/// suffix is matched against the idiom table after every push.
pub struct CompoundOpAcc {
    /// The sliding window, oldest op first.
    pub building: slice_deque::SliceDeque<CompoundOp>,
}

/// The window may not grow past this many ops; the front is yielded beyond it.
pub const WINDOW_SIZE: usize = 127;

// ---------------------------------------------------------------------------
// The idiom table. For each pattern P, `pat_P` says when the window suffix
// matches and `rw_P` gives the rewritten window.
/// The 8-bit equality idiom: compares the cell to its right neighbour.
pub open spec fn pat_equals(w: Seq<OpModel>) -> bool {
    let n = w.len() as int;
    &&& n >= 14
    &&& w[n - 14] == b_ls()
    &&& w[n - 13] == b_cb(255u8)
    &&& w[n - 12] == b_sh(1i64)
    &&& w[n - 11] == b_cb(255u8)
    &&& w[n - 10] == b_sh((-1i64))
    &&& w[n - 9] == b_le()
    &&& w[n - 8] == b_cb(1u8)
    &&& w[n - 7] == b_sh(1i64)
    &&& w[n - 6] == b_ls()
    &&& w[n - 5] == b_sh((-1i64))
    &&& w[n - 4] == b_cb(255u8)
    &&& w[n - 3] == b_sh(1i64)
    &&& w[n - 2] == OpModel::Zero
    &&& w[n - 1] == b_le()
}

/// The window after the `equals` rewrite fires.
pub open spec fn rw_equals(w: Seq<OpModel>) -> Seq<OpModel>
    recommends
        pat_equals(w),
{
    let n = w.len() as int;
    w.take(n - 14).push(OpModel::Equals)
}

/// The 8-bit inequality idiom.
pub open spec fn pat_not_equals(w: Seq<OpModel>) -> bool {
    let n = w.len() as int;
    &&& n >= 13
    &&& w[n - 13] == b_ls()
    &&& w[n - 12] == b_cb(255u8)
    &&& w[n - 11] == b_sh(1i64)
    &&& w[n - 10] == b_cb(255u8)
    &&& w[n - 9] == b_sh((-1i64))
    &&& w[n - 8] == b_le()
    &&& w[n - 7] == b_sh(1i64)
    &&& w[n - 6] == b_ls()
    &&& w[n - 5] == b_sh((-1i64))
    &&& w[n - 4] == b_cb(1u8)
    &&& w[n - 3] == b_sh(1i64)
    &&& w[n - 2] == OpModel::Zero
    &&& w[n - 1] == b_le()
}

/// The window after the `not_equals` rewrite fires.
pub open spec fn rw_not_equals(w: Seq<OpModel>) -> Seq<OpModel>
    recommends
        pat_not_equals(w),
{
    let n = w.len() as int;
    w.take(n - 13).push(OpModel::NotEquals)
}

/// The logical shift left idiom.
pub open spec fn pat_shift_left(w: Seq<OpModel>) -> bool {
    let n = w.len() as int;
    &&& n >= 14
    &&& w[n - 14] == OpModel::ZeroRetreat(1u64)
    &&& w[n - 13] == b_ls()
    &&& w[n - 12] == b_sh((-1i64))
    &&& w[n - 11] == OpModel::MoveAdd(2i64)
    &&& w[n - 10] == b_sh(2i64)
    &&& w[n - 9] == b_ls()
    &&& w[n - 8] == b_sh((-2i64))
    &&& w[n - 7] == b_cb(2u8)
    &&& w[n - 6] == b_sh(2i64)
    &&& w[n - 5] == b_cb(255u8)
    &&& w[n - 4] == b_le()
    &&& w[n - 3] == b_sh((-1i64))
    &&& w[n - 2] == b_cb(255u8)
    &&& w[n - 1] == b_le()
}

/// The window after the `shift_left` rewrite fires.
pub open spec fn rw_shift_left(w: Seq<OpModel>) -> Seq<OpModel>
    recommends
        pat_shift_left(w),
{
    let n = w.len() as int;
    w.take(n - 14).push(OpModel::ShiftLeftLogical)
}

/// The logical shift right idiom.
pub open spec fn pat_shift_right(w: Seq<OpModel>) -> bool {
    let n = w.len() as int;
    &&& n >= 32
    &&& w[n - 32] == OpModel::ZeroAdvance(3u64)
    &&& w[n - 31] == OpModel::Zero
    &&& w[n - 30] == b_sh((-4i64))
    &&& w[n - 29] == b_ls()
    &&& w[n - 28] == b_sh(1i64)
    &&& w[n - 27] == b_cb(2u8)
    &&& w[n - 26] == b_sh((-2i64))
    &&& w[n - 25] == b_ls()
    &&& w[n - 24] == b_cb(255u8)
    &&& w[n - 23] == b_sh(2i64)
    &&& w[n - 22] == b_cb(255u8)
    &&& w[n - 21] == OpModel::MoveAdd2(2i64, 3i64)
    &&& w[n - 20] == b_sh(3i64)
    &&& w[n - 19] == OpModel::MoveAdd((-3i64))
    &&& w[n - 18] == b_sh((-1i64))
    &&& w[n - 17] == b_cb(255u8)
    &&& w[n - 16] == b_ls()
    &&& w[n - 15] == b_sh((-1i64))
    &&& w[n - 14] == b_cb(1u8)
    &&& w[n - 13] == b_sh((-1i64))
    &&& w[n - 12] == b_cb(2u8)
    &&& w[n - 11] == b_sh(2i64)
    &&& w[n - 10] == b_cb(1u8)
    &&& w[n - 9] == b_le()
    &&& w[n - 8] == b_sh((-4i64))
    &&& w[n - 7] == b_le()
    &&& w[n - 6] == b_sh(3i64)
    &&& w[n - 5] == OpModel::MoveAdd((-3i64))
    &&& w[n - 4] == b_sh((-1i64))
    &&& w[n - 3] == OpModel::ZeroRetreat(1u64)
    &&& w[n - 2] == b_cb(255u8)
    &&& w[n - 1] == b_le()
}

/// The window after the `shift_right` rewrite fires.
pub open spec fn rw_shift_right(w: Seq<OpModel>) -> Seq<OpModel>
    recommends
        pat_shift_right(w),
{
    let n = w.len() as int;
    w.take(n - 32).push(OpModel::ShiftRightLogical)
}

/// The 8-bit less-than-or-equal idiom.
pub open spec fn pat_less_equal(w: Seq<OpModel>) -> bool {
    let n = w.len() as int;
    &&& n >= 23
    &&& w[n - 23] == OpModel::SetCell(1u8)
    &&& w[n - 22] == b_sh(1i64)
    &&& w[n - 21] == OpModel::Zero
    &&& w[n - 20] == b_sh((-3i64))
    &&& w[n - 19] == b_ls()
    &&& w[n - 18] == b_sh(2i64)
    &&& w[n - 17] == OpModel::ZeroRetreat(1u64)
    &&& w[n - 16] == OpModel::MoveAdd2(1i64, 2i64)
    &&& w[n - 15] == b_sh(1i64)
    &&& w[n - 14] == OpModel::MoveAdd((-1i64))
    &&& w[n - 13] == b_sh(1i64)
    &&& w[n - 12] == b_ls()
    &&& w[n - 11] == OpModel::ZeroRetreat(1u64)
    &&& w[n - 10] == b_cb(1u8)
    &&& w[n - 9] == b_sh((-1i64))
    &&& w[n - 8] == b_cb(255u8)
    &&& w[n - 7] == b_sh(2i64)
    &&& w[n - 6] == b_le()
    &&& w[n - 5] == b_sh((-3i64))
    &&& w[n - 4] == b_cb(255u8)
    &&& w[n - 3] == b_le()
    &&& w[n - 2] == b_sh(2i64)
    &&& w[n - 1] == OpModel::MoveAdd((-2i64))
}

/// The window after the `less_equal` rewrite fires.
pub open spec fn rw_less_equal(w: Seq<OpModel>) -> Seq<OpModel>
    recommends
        pat_less_equal(w),
{
    let n = w.len() as int;
    w.take(n - 23).push(OpModel::LessThanEqual)
}

/// The 8-bit greater-than-or-equal idiom.
pub open spec fn pat_greater_equal(w: Seq<OpModel>) -> bool {
    let n = w.len() as int;
    &&& n >= 26
    &&& w[n - 26] == OpModel::SetCell(1u8)
    &&& w[n - 25] == b_sh(1i64)
    &&& w[n - 24] == OpModel::Zero
    &&& w[n - 23] == b_sh((-2i64))
    &&& w[n - 22] == b_ls()
    &&& w[n - 21] == b_sh(1i64)
    &&& w[n - 20] == OpModel::Zero
    &&& w[n - 19] == b_sh((-2i64))
    &&& w[n - 18] == OpModel::MoveAdd2(2i64, 3i64)
    &&& w[n - 17] == b_sh(2i64)
    &&& w[n - 16] == OpModel::MoveAdd((-2i64))
    &&& w[n - 15] == b_sh(1i64)
    &&& w[n - 14] == b_ls()
    &&& w[n - 13] == OpModel::ZeroRetreat(1u64)
    &&& w[n - 12] == b_cb(1u8)
    &&& w[n - 11] == b_sh((-2i64))
    &&& w[n - 10] == b_cb(255u8)
    &&& w[n - 9] == b_sh(3i64)
    &&& w[n - 8] == b_le()
    &&& w[n - 7] == b_sh((-2i64))
    &&& w[n - 6] == b_cb(255u8)
    &&& w[n - 5] == b_le()
    &&& w[n - 4] == b_sh((-1i64))
    &&& w[n - 3] == OpModel::Zero
    &&& w[n - 2] == b_sh(2i64)
    &&& w[n - 1] == OpModel::MoveAdd((-2i64))
}

/// The window after the `greater_equal` rewrite fires.
pub open spec fn rw_greater_equal(w: Seq<OpModel>) -> Seq<OpModel>
    recommends
        pat_greater_equal(w),
{
    let n = w.len() as int;
    w.take(n - 26).push(OpModel::GreaterThanEqual)
}

/// The bitwise-and idiom.
pub open spec fn pat_bit_and(w: Seq<OpModel>) -> bool {
    let n = w.len() as int;
    &&& n >= 96
    &&& w[n - 96] == OpModel::Zero
    &&& w[n - 95] == b_sh(2i64)
    &&& w[n - 94] == OpModel::ZeroRetreat(1u64)
    &&& w[n - 93] == OpModel::SetCell(248u8)
    &&& w[n - 92] == b_ls()
    &&& w[n - 91] == b_cb(8u8)
    &&& w[n - 90] == b_sh((-2i64))
    &&& w[n - 89] == OpModel::ZeroRetreat(4u64)
    &&& w[n - 88] == OpModel::SetCell(2u8)
    &&& w[n - 87] == b_sh((-2i64))
    &&& w[n - 86] == b_ls()
    &&& w[n - 85] == b_cb(255u8)
    &&& w[n - 84] == b_sh(2i64)
    &&& w[n - 83] == b_cb(255u8)
    &&& w[n - 82] == OpModel::MoveAdd2(1i64, 3i64)
    &&& w[n - 81] == b_sh(1i64)
    &&& w[n - 80] == OpModel::MoveAdd((-1i64))
    &&& w[n - 79] == b_sh(4i64)
    &&& w[n - 78] == b_cb(1u8)
    &&& w[n - 77] == b_sh((-2i64))
    &&& w[n - 76] == b_cb(255u8)
    &&& w[n - 75] == b_ls()
    &&& w[n - 74] == b_sh((-1i64))
    &&& w[n - 73] == b_cb(1u8)
    &&& w[n - 72] == b_sh((-2i64))
    &&& w[n - 71] == b_cb(2u8)
    &&& w[n - 70] == b_sh(5i64)
    &&& w[n - 69] == b_cb(254u8)
    &&& w[n - 68] == b_sh((-2i64))
    &&& w[n - 67] == b_cb(1u8)
    &&& w[n - 66] == b_le()
    &&& w[n - 65] == b_sh((-5i64))
    &&& w[n - 64] == b_le()
    &&& w[n - 63] == b_sh(4i64)
    &&& w[n - 62] == OpModel::MoveAdd((-4i64))
    &&& w[n - 61] == b_sh((-2i64))
    &&& w[n - 60] == OpModel::SetCell(2u8)
    &&& w[n - 59] == b_sh((-1i64))
    &&& w[n - 58] == b_ls()
    &&& w[n - 57] == b_cb(255u8)
    &&& w[n - 56] == b_sh(1i64)
    &&& w[n - 55] == b_cb(255u8)
    &&& w[n - 54] == OpModel::MoveAdd2(1i64, 3i64)
    &&& w[n - 53] == b_sh(1i64)
    &&& w[n - 52] == OpModel::MoveAdd((-1i64))
    &&& w[n - 51] == b_sh(3i64)
    &&& w[n - 50] == b_cb(1u8)
    &&& w[n - 49] == b_sh((-1i64))
    &&& w[n - 48] == b_cb(255u8)
    &&& w[n - 47] == b_ls()
    &&& w[n - 46] == b_sh(1i64)
    &&& w[n - 45] == b_cb(254u8)
    &&& w[n - 44] == b_sh((-2i64))
    &&& w[n - 43] == b_cb(1u8)
    &&& w[n - 42] == b_sh((-2i64))
    &&& w[n - 41] == b_cb(2u8)
    &&& w[n - 40] == b_sh(3i64)
    &&& w[n - 39] == b_cb(1u8)
    &&& w[n - 38] == b_le()
    &&& w[n - 37] == b_sh((-4i64))
    &&& w[n - 36] == b_le()
    &&& w[n - 35] == b_sh(3i64)
    &&& w[n - 34] == OpModel::MoveAdd((-3i64))
    &&& w[n - 33] == b_sh(2i64)
    &&& w[n - 32] == b_ls()
    &&& w[n - 31] == b_cb(255u8)
    &&& w[n - 30] == b_sh(1i64)
    &&& w[n - 29] == OpModel::MoveAdd((-2i64))
    &&& w[n - 28] == b_sh((-1i64))
    &&& w[n - 27] == b_le()
    &&& w[n - 26] == b_sh(1i64)
    &&& w[n - 25] == OpModel::ZeroAdvance(1u64)
    &&& w[n - 24] == OpModel::MoveAdd2((-1i64), (-2i64))
    &&& w[n - 23] == b_sh((-1i64))
    &&& w[n - 22] == OpModel::MoveAdd(1i64)
    &&& w[n - 21] == b_sh((-1i64))
    &&& w[n - 20] == b_ls()
    &&& w[n - 19] == b_sh((-1i64))
    &&& w[n - 18] == OpModel::MoveAdd((-1i64))
    &&& w[n - 17] == b_sh((-1i64))
    &&& w[n - 16] == b_ls()
    &&& w[n - 15] == b_sh(1i64)
    &&& w[n - 14] == b_cb(2u8)
    &&& w[n - 13] == b_sh((-1i64))
    &&& w[n - 12] == b_cb(255u8)
    &&& w[n - 11] == b_le()
    &&& w[n - 10] == b_sh(2i64)
    &&& w[n - 9] == b_cb(255u8)
    &&& w[n - 8] == b_le()
    &&& w[n - 7] == b_sh((-1i64))
    &&& w[n - 6] == OpModel::MoveAdd(4i64)
    &&& w[n - 5] == b_sh(3i64)
    &&& w[n - 4] == b_cb(249u8)
    &&& w[n - 3] == b_le()
    &&& w[n - 2] == b_sh(1i64)
    &&& w[n - 1] == OpModel::MoveAdd((-9i64))
}

/// The window after the `bit_and` rewrite fires.
pub open spec fn rw_bit_and(w: Seq<OpModel>) -> Seq<OpModel>
    recommends
        pat_bit_and(w),
{
    let n = w.len() as int;
    w.take(n - 96).push(OpModel::BitAnd)
}

/// The bitwise negation idiom.
pub open spec fn pat_bit_neg(w: Seq<OpModel>) -> bool {
    let n = w.len() as int;
    &&& n >= 9
    &&& w[n - 9] == OpModel::MoveAdd(1i64)
    &&& w[n - 8] == b_sh(1i64)
    &&& w[n - 7] == b_cb(1u8)
    &&& w[n - 6] == b_ls()
    &&& w[n - 5] == b_sh((-1i64))
    &&& w[n - 4] == b_cb(255u8)
    &&& w[n - 3] == b_sh(1i64)
    &&& w[n - 2] == b_cb(255u8)
    &&& w[n - 1] == b_le()
}

/// The window after the `bit_neg` rewrite fires.
pub open spec fn rw_bit_neg(w: Seq<OpModel>) -> Seq<OpModel>
    recommends
        pat_bit_neg(w),
{
    let n = w.len() as int;
    w.take(n - 9).push(OpModel::BitNeg)
}

/// The 8-bit less-than idiom.
pub open spec fn pat_less_than(w: Seq<OpModel>) -> bool {
    let n = w.len() as int;
    &&& n >= 26
    &&& is_za(w[n - 26])
    &&& w[n - 25] == OpModel::Zero
    &&& w[n - 24] == b_sh((-2i64))
    &&& w[n - 23] == b_ls()
    &&& w[n - 22] == b_sh(1i64)
    &&& w[n - 21] == OpModel::Zero
    &&& w[n - 20] == b_sh((-2i64))
    &&& w[n - 19] == OpModel::MoveAdd2(2i64, 3i64)
    &&& w[n - 18] == b_sh(2i64)
    &&& w[n - 17] == OpModel::MoveAdd((-2i64))
    &&& w[n - 16] == b_cb(1u8)
    &&& w[n - 15] == b_sh(1i64)
    &&& w[n - 14] == b_ls()
    &&& w[n - 13] == OpModel::ZeroRetreat(1u64)
    &&& w[n - 12] == b_cb(255u8)
    &&& w[n - 11] == b_sh((-2i64))
    &&& w[n - 10] == b_cb(255u8)
    &&& w[n - 9] == b_sh(3i64)
    &&& w[n - 8] == b_le()
    &&& w[n - 7] == b_sh((-2i64))
    &&& w[n - 6] == b_cb(255u8)
    &&& w[n - 5] == b_le()
    &&& w[n - 4] == b_sh((-1i64))
    &&& w[n - 3] == OpModel::Zero
    &&& w[n - 2] == b_sh(2i64)
    &&& w[n - 1] == OpModel::MoveAdd((-2i64))
    &&& za_of(w[n - 26]) > 0
}

/// The window after the `less_than` rewrite fires.
pub open spec fn rw_less_than(w: Seq<OpModel>) -> Seq<OpModel>
    recommends
        pat_less_than(w),
{
    let n = w.len() as int;
    let k = za_of(w[n - 26]);
    let base = w.take(n - 26);
    let base2 = if k > 1 { base.push(OpModel::ZeroAdvance((k - 1) as u64)) } else { base };
    base2.push(OpModel::LessThan)
}

/// The 8-bit greater-than idiom.
pub open spec fn pat_greater_than(w: Seq<OpModel>) -> bool {
    let n = w.len() as int;
    &&& n >= 23
    &&& is_za(w[n - 23])
    &&& w[n - 22] == OpModel::Zero
    &&& w[n - 21] == b_sh((-3i64))
    &&& w[n - 20] == b_ls()
    &&& w[n - 19] == b_sh(2i64)
    &&& w[n - 18] == OpModel::ZeroRetreat(1u64)
    &&& w[n - 17] == OpModel::MoveAdd2(1i64, 2i64)
    &&& w[n - 16] == b_sh(1i64)
    &&& w[n - 15] == OpModel::MoveAdd((-1i64))
    &&& w[n - 14] == b_cb(1u8)
    &&& w[n - 13] == b_sh(1i64)
    &&& w[n - 12] == b_ls()
    &&& w[n - 11] == OpModel::ZeroRetreat(1u64)
    &&& w[n - 10] == b_cb(255u8)
    &&& w[n - 9] == b_sh((-1i64))
    &&& w[n - 8] == b_cb(255u8)
    &&& w[n - 7] == b_sh(2i64)
    &&& w[n - 6] == b_le()
    &&& w[n - 5] == b_sh((-3i64))
    &&& w[n - 4] == b_cb(255u8)
    &&& w[n - 3] == b_le()
    &&& w[n - 2] == b_sh(2i64)
    &&& w[n - 1] == OpModel::MoveAdd((-2i64))
    &&& za_of(w[n - 23]) > 0
}

/// The window after the `greater_than` rewrite fires.
pub open spec fn rw_greater_than(w: Seq<OpModel>) -> Seq<OpModel>
    recommends
        pat_greater_than(w),
{
    let n = w.len() as int;
    let k = za_of(w[n - 23]);
    let base = w.take(n - 23);
    let base2 = if k > 1 { base.push(OpModel::ZeroAdvance((k - 1) as u64)) } else { base };
    base2.push(OpModel::GreaterThan)
}

/// A nonzero Set followed by an empty loop: the program requested a trap.
pub open spec fn pat_panic(w: Seq<OpModel>) -> bool {
    let n = w.len() as int;
    &&& n >= 3
    &&& is_setv(w[n - 3])
    &&& w[n - 2] == b_ls()
    &&& w[n - 1] == b_le()
    &&& set_of(w[n - 3]) != 0
}

/// The window after the `panic` rewrite fires.
pub open spec fn rw_panic(w: Seq<OpModel>) -> Seq<OpModel>
    recommends
        pat_panic(w),
{
    let n = w.len() as int;
    w.take(n - 3).push(OpModel::Panic(set_of(w[n - 3])))
}

/// A loop that moves the cell into two destinations at once.
pub open spec fn pat_move_add2(w: Seq<OpModel>) -> bool {
    let n = w.len() as int;
    &&& n >= 8
    &&& w[n - 8] == b_ls()
    &&& is_sh(w[n - 7])
    &&& w[n - 6] == b_cb(1u8)
    &&& is_sh(w[n - 5])
    &&& w[n - 4] == b_cb(1u8)
    &&& is_sh(w[n - 3])
    &&& w[n - 2] == b_cb(255u8)
    &&& w[n - 1] == b_le()
    &&& sh_of(w[n - 7]) as int + sh_of(w[n - 5]) as int == -(sh_of(w[n - 3]) as int)
    &&& sh_of(w[n - 3]) != i64::MIN
}

/// The window after the `move_add2` rewrite fires.
pub open spec fn rw_move_add2(w: Seq<OpModel>) -> Seq<OpModel>
    recommends
        pat_move_add2(w),
{
    let n = w.len() as int;
    w.take(n - 8).push(OpModel::MoveAdd2(sh_of(w[n - 7]), (sh_of(w[n - 7]) as int + sh_of(w[n - 5]) as int) as i64))
}

/// The well-behaved division-with-remainder idiom.
pub open spec fn pat_div_mod(w: Seq<OpModel>) -> bool {
    let n = w.len() as int;
    &&& n >= 36
    &&& w[n - 36] == OpModel::ZeroAdvance(3u64)
    &&& w[n - 35] == OpModel::Zero
    &&& w[n - 34] == b_sh((-5i64))
    &&& w[n - 33] == b_ls()
    &&& w[n - 32] == b_cb(255u8)
    &&& w[n - 31] == b_sh(1i64)
    &&& w[n - 30] == b_ls()
    &&& w[n - 29] == b_cb(255u8)
    &&& w[n - 28] == b_sh(1i64)
    &&& w[n - 27] == b_cb(1u8)
    &&& w[n - 26] == b_sh(2i64)
    &&& w[n - 25] == b_le()
    &&& w[n - 24] == b_sh(1i64)
    &&& w[n - 23] == b_ls()
    &&& w[n - 22] == b_sh((-2i64))
    &&& w[n - 21] == b_cb(1u8)
    &&& w[n - 20] == b_sh(2i64)
    &&& w[n - 19] == OpModel::MoveAdd((-1i64))
    &&& w[n - 18] == b_sh(1i64)
    &&& w[n - 17] == b_cb(1u8)
    &&& w[n - 16] == b_sh(2i64)
    &&& w[n - 15] == b_le()
    &&& w[n - 14] == b_sh((-5i64))
    &&& w[n - 13] == b_le()
    &&& w[n - 12] == b_sh(1i64)
    &&& w[n - 11] == b_ls()
    &&& w[n - 10] == b_sh(3i64)
    &&& w[n - 9] == b_le()
    &&& w[n - 8] == b_sh(1i64)
    &&& w[n - 7] == b_ls()
    &&& w[n - 6] == OpModel::MoveAdd((-1i64))
    &&& w[n - 5] == b_sh(1i64)
    &&& w[n - 4] == b_cb(1u8)
    &&& w[n - 3] == b_sh(2i64)
    &&& w[n - 2] == b_le()
    &&& is_sh(w[n - 1])
    &&& sh_of(w[n - 1]) <= i64::MAX - 3
}

/// The window after the `div_mod` rewrite fires.
pub open spec fn rw_div_mod(w: Seq<OpModel>) -> Seq<OpModel>
    recommends
        pat_div_mod(w),
{
    let n = w.len() as int;
    w.take(n - 36).push(OpModel::WellBehavedDivMod((sh_of(w[n - 1]) + 3) as i64))
}

/// The indirect byte-indexed store idiom.
pub open spec fn pat_move_cell_dynamic(w: Seq<OpModel>) -> bool {
    let n = w.len() as int;
    &&& n >= 44
    &&& w[n - 44] == OpModel::ZeroAdvance(2u64)
    &&& w[n - 43] == OpModel::Zero
    &&& w[n - 42] == b_sh((-3i64))
    &&& w[n - 41] == b_ls()
    &&& w[n - 40] == b_sh(1i64)
    &&& w[n - 39] == b_cb(1u8)
    &&& w[n - 38] == b_sh(1i64)
    &&& w[n - 37] == b_cb(1u8)
    &&& w[n - 36] == b_sh(1i64)
    &&& w[n - 35] == b_cb(1u8)
    &&& w[n - 34] == b_sh((-3i64))
    &&& w[n - 33] == b_cb(255u8)
    &&& w[n - 32] == b_le()
    &&& w[n - 31] == b_sh(3i64)
    &&& w[n - 30] == OpModel::MoveAdd((-3i64))
    &&& w[n - 29] == b_sh((-3i64))
    &&& w[n - 28] == b_ls()
    &&& w[n - 27] == b_cb(255u8)
    &&& w[n - 26] == b_sh(3i64)
    &&& w[n - 25] == OpModel::ZeroRetreat(1u64)
    &&& w[n - 24] == OpModel::MoveAdd(1i64)
    &&& w[n - 23] == b_sh((-1i64))
    &&& w[n - 22] == OpModel::MoveAdd(1i64)
    &&& w[n - 21] == b_sh((-1i64))
    &&& w[n - 20] == OpModel::MoveAdd(1i64)
    &&& w[n - 19] == b_sh((-1i64))
    &&& w[n - 18] == OpModel::MoveAdd(1i64)
    &&& w[n - 17] == b_sh(2i64)
    &&& w[n - 16] == b_le()
    &&& w[n - 15] == b_sh((-1i64))
    &&& is_ms(w[n - 14])
    &&& w[n - 13] == b_sh(3i64)
    &&& w[n - 12] == OpModel::MoveAdd((-2i64))
    &&& w[n - 11] == b_sh((-2i64))
    &&& w[n - 10] == b_ls()
    &&& w[n - 9] == b_cb(255u8)
    &&& w[n - 8] == OpModel::MoveAdd((-1i64))
    &&& w[n - 7] == b_sh(1i64)
    &&& w[n - 6] == OpModel::MoveAdd((-1i64))
    &&& w[n - 5] == b_sh((-2i64))
    &&& w[n - 4] == b_le()
    &&& w[n - 3] == b_sh(1i64)
    &&& w[n - 2] == OpModel::MoveAdd((-2i64))
    &&& is_sh(w[n - 1])
    &&& sh_of(w[n - 1]) <= -2
    &&& ms_of(w[n - 14]) < 0
}

/// The window after the `move_cell_dynamic` rewrite fires.
pub open spec fn rw_move_cell_dynamic(w: Seq<OpModel>) -> Seq<OpModel>
    recommends
        pat_move_cell_dynamic(w),
{
    let n = w.len() as int;
    let e = sh_of(w[n - 1]);
    let no = ms_of(w[n - 14]);
    let base = w.take(n - 44);
    let base2 = if e != -2 { base.push(b_sh((e + 2) as i64)) } else { base };
    base2.push(OpModel::MoveCellDynamicU8((-(no as int) - 1) as u64))
}

/// The indirect byte-indexed load idiom.
pub open spec fn pat_copy_cell_dynamic(w: Seq<OpModel>) -> bool {
    let n = w.len() as int;
    &&& n >= 27
    &&& w[n - 27] == OpModel::MoveAdd((-1i64))
    &&& w[n - 26] == OpModel::Dupe((-1i64))
    &&& w[n - 25] == b_sh((-2i64))
    &&& w[n - 24] == b_ls()
    &&& w[n - 23] == b_cb(255u8)
    &&& w[n - 22] == b_sh(2i64)
    &&& w[n - 21] == OpModel::ZeroRetreat(1u64)
    &&& w[n - 20] == OpModel::MoveAdd(1i64)
    &&& w[n - 19] == b_sh((-1i64))
    &&& w[n - 18] == OpModel::MoveAdd(1i64)
    &&& w[n - 17] == b_sh(1i64)
    &&& w[n - 16] == b_le()
    &&& w[n - 15] == OpModel::Zero
    &&& w[n - 14] == b_sh(2i64)
    &&& w[n - 13] == OpModel::Zero
    &&& is_sh(w[n - 12])
    &&& is_ma2(w[n - 11])
    &&& is_sh(w[n - 10])
    &&& is_ma(w[n - 9])
    &&& w[n - 8] == b_sh((-1i64))
    &&& w[n - 7] == b_ls()
    &&& w[n - 6] == b_cb(255u8)
    &&& w[n - 5] == b_sh((-1i64))
    &&& w[n - 4] == OpModel::MoveAdd((-1i64))
    &&& w[n - 3] == OpModel::MoveAdd((-1i64))
    &&& w[n - 2] == b_sh((-1i64))
    &&& w[n - 1] == b_le()
    &&& sh_of(w[n - 12]) == ma_of(w[n - 9])
    &&& ma2_b(w[n - 11]) == sh_of(w[n - 10])
    &&& -(sh_of(w[n - 12]) as int) == ma2_b(w[n - 11]) as int
    &&& ma2_b(w[n - 11]) as int - 2 == ma2_a(w[n - 11]) as int
}

/// The window after the `copy_cell_dynamic` rewrite fires.
pub open spec fn rw_copy_cell_dynamic(w: Seq<OpModel>) -> Seq<OpModel>
    recommends
        pat_copy_cell_dynamic(w),
{
    let n = w.len() as int;
    w.take(n - 27).push(OpModel::CopyCellDynamicU8(ma2_a(w[n - 11]) as u64))
}

/// A shifted zero ahead of a MoveAdd turns the add into a plain store.
pub open spec fn pat_move_set(w: Seq<OpModel>) -> bool {
    let n = w.len() as int;
    &&& n >= 4
    &&& is_sh(w[n - 4])
    &&& w[n - 3] == OpModel::Zero
    &&& is_sh(w[n - 2])
    &&& is_ma(w[n - 1])
    &&& abs_int(sh_of(w[n - 4]) as int) >= abs_int(sh_of(w[n - 2]) as int)
    &&& -(sh_of(w[n - 2]) as int) == ma_of(w[n - 1]) as int
    &&& i64::MIN <= sh_of(w[n - 4]) as int + sh_of(w[n - 2]) as int <= i64::MAX
}

/// The window after the `move_set` rewrite fires.
pub open spec fn rw_move_set(w: Seq<OpModel>) -> Seq<OpModel>
    recommends
        pat_move_set(w),
{
    let n = w.len() as int;
    let t_amt = sh_of(w[n - 4]) as int;
    let b_amt = sh_of(w[n - 2]) as int;
    let base = w.take(n - 4);
    let base2 = if t_amt + b_amt != 0 { base.push(b_sh((t_amt + b_amt) as i64)) } else { base };
    base2.push(OpModel::MoveSet((-b_amt) as i64))
}

/// A zero-advance, zero, and twin move-adds that duplicate a cell.
pub open spec fn pat_dupe(w: Seq<OpModel>) -> bool {
    let n = w.len() as int;
    &&& n >= 6
    &&& is_za(w[n - 6])
    &&& w[n - 5] == OpModel::Zero
    &&& is_sh(w[n - 4])
    &&& is_ma2(w[n - 3])
    &&& is_sh(w[n - 2])
    &&& is_ma(w[n - 1])
    &&& za_of(w[n - 6]) > 0
    &&& -(sh_of(w[n - 4]) as int) == ma2_b(w[n - 3]) as int
    &&& ma2_a(w[n - 3]) as int + 1 == ma2_b(w[n - 3]) as int
    &&& -(sh_of(w[n - 4]) as int) == sh_of(w[n - 2]) as int
    &&& sh_of(w[n - 4]) == ma_of(w[n - 1])
    &&& ma2_a(w[n - 3]) != i64::MIN
}

/// The window after the `dupe` rewrite fires.
pub open spec fn rw_dupe(w: Seq<OpModel>) -> Seq<OpModel>
    recommends
        pat_dupe(w),
{
    let n = w.len() as int;
    let a = za_of(w[n - 6]);
    let o = ma2_a(w[n - 3]);
    let base = w.take(n - 6);
    let base2 = if a > 1 { base.push(OpModel::ZeroAdvance((a - 1) as u64)) } else { base };
    base2.push(OpModel::Dupe((-(o as int)) as i64))
}

/// A loop that only changes the current cell by one in either direction.
pub open spec fn pat_zero(w: Seq<OpModel>) -> bool {
    let n = w.len() as int;
    &&& n >= 3
    &&& w[n - 3] == b_ls()
    &&& (w[n - 2] == b_cb(1u8) || w[n - 2] == b_cb(255u8))
    &&& w[n - 1] == b_le()
}

/// The window after the `zero` rewrite fires: a `Zero` is pushed unless one
/// is already at the back.
pub open spec fn rw_zero(w: Seq<OpModel>) -> Seq<OpModel>
    recommends
        pat_zero(w),
{
    let t = w.take(w.len() as int - 3);
    if t.len() > 0 && t.last() == OpModel::Zero {
        t
    } else {
        t.push(OpModel::Zero)
    }
}

/// A `Zero` followed by a step right.
pub open spec fn pat_zero_advance(w: Seq<OpModel>) -> bool {
    let n = w.len() as int;
    &&& n >= 2
    &&& w[n - 2] == OpModel::Zero
    &&& w[n - 1] == b_sh(1i64)
}

/// The window after the `zero_advance` rewrite: merged into a prior
/// `ZeroAdvance` when one sits at the back and its count can still grow.
pub open spec fn rw_zero_advance(w: Seq<OpModel>) -> Seq<OpModel>
    recommends
        pat_zero_advance(w),
{
    let t = w.take(w.len() as int - 2);
    if t.len() > 0 && is_za(t.last()) && za_of(t.last()) < u64::MAX {
        t.drop_last().push(OpModel::ZeroAdvance((za_of(t.last()) + 1) as u64))
    } else {
        t.push(OpModel::ZeroAdvance(1))
    }
}

/// A `Zero` followed by a step left.
pub open spec fn pat_zero_retreat(w: Seq<OpModel>) -> bool {
    let n = w.len() as int;
    &&& n >= 2
    &&& w[n - 2] == OpModel::Zero
    &&& w[n - 1] == b_sh((-1i64))
}

/// The window after the `zero_retreat` rewrite.
pub open spec fn rw_zero_retreat(w: Seq<OpModel>) -> Seq<OpModel>
    recommends
        pat_zero_retreat(w),
{
    let t = w.take(w.len() as int - 2);
    if t.len() > 0 && is_zr(t.last()) && zr_of(t.last()) < u64::MAX {
        t.drop_last().push(OpModel::ZeroRetreat((zr_of(t.last()) + 1) as u64))
    } else {
        t.push(OpModel::ZeroRetreat(1))
    }
}

/// A `Zero` followed by a `ChangeBy`: the cell is simply set.
pub open spec fn pat_set(w: Seq<OpModel>) -> bool {
    let n = w.len() as int;
    &&& n >= 2
    &&& w[n - 2] == OpModel::Zero
    &&& is_cbv(w[n - 1])
}

/// The window after the `set` rewrite: earlier `Set`s collapse into this one.
pub open spec fn rw_set(w: Seq<OpModel>) -> Seq<OpModel>
    recommends
        pat_set(w),
{
    strip_sets(w.take(w.len() as int - 2)).push(OpModel::SetCell(cb_of(w.last())))
}

/// A `Set` followed by an `Output`: a static print.
pub open spec fn pat_print_static(w: Seq<OpModel>) -> bool {
    let n = w.len() as int;
    &&& n >= 2
    &&& is_setv(w[n - 2])
    &&& is_out(w[n - 1])
}

/// The window after the `print_static` rewrite: appended to a prior
/// `PrintStatic` when one sits at the back.
pub open spec fn rw_print_static(w: Seq<OpModel>) -> Seq<OpModel>
    recommends
        pat_print_static(w),
{
    let n = w.len() as int;
    let c = set_of(w[n - 2]);
    let k = out_of(w[n - 1]);
    let t = w.take(n - 2);
    if t.len() > 0 && is_print(t.last()) {
        t.drop_last().push(OpModel::PrintStatic(print_of(t.last()) + repeat_byte(c, k)))
    } else {
        t.push(OpModel::PrintStatic(repeat_byte(c, k)))
    }
}

/// A `PrintStatic` continued by a `ChangeBy` and an `Output`: more bytes at a
/// fixed offset from the last printed one.
pub open spec fn pat_print_continue(w: Seq<OpModel>) -> bool {
    let n = w.len() as int;
    &&& n >= 3
    &&& is_print(w[n - 3])
    &&& print_of(w[n - 3]).len() > 0
    &&& is_cbv(w[n - 2])
    &&& is_out(w[n - 1])
}

/// The window after the `print_continue` rewrite.
pub open spec fn rw_print_continue(w: Seq<OpModel>) -> Seq<OpModel>
    recommends
        pat_print_continue(w),
{
    let n = w.len() as int;
    let s = print_of(w[n - 3]);
    let next = s.last().wrapping_add(cb_of(w[n - 2]));
    w.take(n - 3).push(OpModel::PrintStatic(s + repeat_byte(next, out_of(w[n - 1]))))
}

/// A loop that moves the current cell into one destination, in either of its
/// two spellings.
pub open spec fn pat_move_add(w: Seq<OpModel>) -> bool {
    let n = w.len() as int;
    n >= 6 && (pat_move_add_first(w) || pat_move_add_second(w))
}

pub open spec fn pat_move_add_first(w: Seq<OpModel>) -> bool {
    let n = w.len() as int;
    &&& n >= 6
    &&& w[n - 6] == b_ls()
    &&& is_sh(w[n - 5])
    &&& w[n - 4] == b_cb(1u8)
    &&& is_sh(w[n - 3])
    &&& w[n - 2] == b_cb(255u8)
    &&& w[n - 1] == b_le()
    &&& sh_of(w[n - 5]) as int == -(sh_of(w[n - 3]) as int)
}

pub open spec fn pat_move_add_second(w: Seq<OpModel>) -> bool {
    let n = w.len() as int;
    &&& n >= 6
    &&& w[n - 6] == b_ls()
    &&& w[n - 5] == b_cb(255u8)
    &&& is_sh(w[n - 4])
    &&& w[n - 3] == b_cb(1u8)
    &&& is_sh(w[n - 2])
    &&& w[n - 1] == b_le()
    &&& sh_of(w[n - 4]) as int == -(sh_of(w[n - 2]) as int)
}

/// The offset a matched move-add moves by.
pub open spec fn move_add_offset(w: Seq<OpModel>) -> i64 {
    let n = w.len() as int;
    if pat_move_add_first(w) {
        sh_of(w[n - 5])
    } else {
        sh_of(w[n - 4])
    }
}

/// The window after the `move_add` rewrite, which then inspects the new
/// suffix for the rewrites that can only follow a fresh `MoveAdd`.
pub open spec fn rw_move_add(w: Seq<OpModel>) -> Seq<OpModel>
    recommends
        pat_move_add(w),
{
    let w1 = w.take(w.len() as int - 6).push(OpModel::MoveAdd(move_add_offset(w)));
    if pat_move_set(w1) {
        rw_move_set(w1)
    } else if pat_dupe(w1) {
        rw_dupe(w1)
    } else if pat_less_than(w1) {
        rw_less_than(w1)
    } else if pat_greater_than(w1) {
        rw_greater_than(w1)
    } else if pat_less_equal(w1) {
        rw_less_equal(w1)
    } else if pat_greater_equal(w1) {
        rw_greater_equal(w1)
    } else if pat_bit_and(w1) {
        rw_bit_and(w1)
    } else {
        w1
    }
}

/// One rewriting step of the recognizer: the first matching pattern, in
/// priority order, rewrites the window's suffix; an unmatched window stands.
pub open spec fn rewrite(w: Seq<OpModel>) -> Seq<OpModel> {
    if pat_panic(w) {
        rw_panic(w)
    } else if pat_zero(w) {
        rw_zero(w)
    } else if pat_zero_advance(w) {
        rw_zero_advance(w)
    } else if pat_zero_retreat(w) {
        rw_zero_retreat(w)
    } else if pat_set(w) {
        rw_set(w)
    } else if pat_equals(w) {
        rw_equals(w)
    } else if pat_not_equals(w) {
        rw_not_equals(w)
    } else if pat_shift_left(w) {
        rw_shift_left(w)
    } else if pat_shift_right(w) {
        rw_shift_right(w)
    } else if pat_move_add(w) {
        rw_move_add(w)
    } else if pat_move_add2(w) {
        rw_move_add2(w)
    } else if pat_bit_neg(w) {
        rw_bit_neg(w)
    } else if pat_div_mod(w) {
        rw_div_mod(w)
    } else if pat_print_static(w) {
        rw_print_static(w)
    } else if pat_print_continue(w) {
        rw_print_continue(w)
    } else if pat_move_cell_dynamic(w) {
        rw_move_cell_dynamic(w)
    } else if pat_copy_cell_dynamic(w) {
        rw_copy_cell_dynamic(w)
    } else {
        w
    }
}

/// What one fed op does to the whole recognizer: the op is pushed, the suffix
/// rewritten, and the front yielded if the window has grown past its bound.
pub open spec fn feed_result(w: Seq<OpModel>, op: BasicOp) -> Seq<OpModel> {
    rewrite(w.push(OpModel::BasicOp(op)))
}

impl CompoundOpAcc {
    /// The model of the window: each held op's view, front to back.
    pub open spec fn wview(self) -> Seq<OpModel> {
        Seq::new(window_ops(self.building).len(), |i: int| window_ops(self.building)[i]@)
    }

    pub fn new() -> (r: Self)
        ensures
            r.wview() == Seq::<OpModel>::empty(),
    {
        let acc = Self { building: win_new(WINDOW_SIZE + 1) };
        proof {
            assert(acc.wview() =~= Seq::<OpModel>::empty());
        }
        acc
    }

    fn wlen(&self) -> (n: usize)
        ensures
            n == self.wview().len(),
    {
        win_len(&self.building)
    }

    fn wtruncate(&mut self, len: usize)
        requires
            len <= old(self).wview().len(),
        ensures
            final(self).wview() == old(self).wview().take(len as int),
    {
        win_truncate(&mut self.building, len);
        proof {
            assert(self.wview() =~= old(self).wview().take(len as int));
        }
    }

    fn wpush(&mut self, op: CompoundOp)
        ensures
            final(self).wview() == old(self).wview().push(op@),
    {
        let ghost v = op@;
        win_push(&mut self.building, op);
        proof {
            assert(self.wview() =~= old(self).wview().push(v));
        }
    }

    fn wpop_back(&mut self) -> (r: Option<CompoundOp>)
        ensures
            old(self).wview().len() > 0 ==> final(self).wview() == old(self).wview().drop_last()
                && (r matches Option::Some(x) && x@ == old(self).wview().last()),
            old(self).wview().len() == 0 ==> r is None && final(self).wview() == old(
                self,
            ).wview(),
    {
        let r = win_pop_back(&mut self.building);
        proof {
            if old(self).wview().len() > 0 {
                assert(self.wview() =~= old(self).wview().drop_last());
            }
        }
        r
    }

    fn wpop_front(&mut self) -> (r: Option<CompoundOp>)
        ensures
            old(self).wview().len() > 0 ==> final(self).wview() == old(self).wview().drop_first()
                && (r matches Option::Some(x) && x@ == old(self).wview()[0]),
            old(self).wview().len() == 0 ==> r is None && final(self).wview() == old(
                self,
            ).wview(),
    {
        let r = win_pop_front(&mut self.building);
        proof {
            if old(self).wview().len() > 0 {
                assert(self.wview() =~= old(self).wview().drop_first());
            }
        }
        r
    }

    // Indexed matchers against the window's model.
    fn at_ls(&self, i: usize) -> (r: bool)
        requires
            i < self.wview().len(),
        ensures
            r == (self.wview()[i as int] == b_ls()),
    {
        match win_get(&self.building, i) {
            CompoundOp::BasicOp(BasicOp::LoopStart) => true,
            _ => false,
        }
    }

    fn at_le(&self, i: usize) -> (r: bool)
        requires
            i < self.wview().len(),
        ensures
            r == (self.wview()[i as int] == b_le()),
    {
        match win_get(&self.building, i) {
            CompoundOp::BasicOp(BasicOp::LoopEnd) => true,
            _ => false,
        }
    }

    fn at_cb(&self, i: usize, v: u8) -> (r: bool)
        requires
            i < self.wview().len(),
        ensures
            r == (self.wview()[i as int] == b_cb(v)),
    {
        match win_get(&self.building, i) {
            CompoundOp::BasicOp(BasicOp::ChangeBy(x)) => *x == v,
            _ => false,
        }
    }

    fn at_sh(&self, i: usize, v: i64) -> (r: bool)
        requires
            i < self.wview().len(),
        ensures
            r == (self.wview()[i as int] == b_sh(v)),
    {
        match win_get(&self.building, i) {
            CompoundOp::BasicOp(BasicOp::Shift(x)) => *x == v,
            _ => false,
        }
    }

    fn at_zero(&self, i: usize) -> (r: bool)
        requires
            i < self.wview().len(),
        ensures
            r == (self.wview()[i as int] == OpModel::Zero),
    {
        match win_get(&self.building, i) {
            CompoundOp::Zero => true,
            _ => false,
        }
    }

    fn at_za(&self, i: usize, k: u64) -> (r: bool)
        requires
            i < self.wview().len(),
        ensures
            r == (self.wview()[i as int] == OpModel::ZeroAdvance(k)),
    {
        match win_get(&self.building, i) {
            CompoundOp::ZeroAdvance(x) => *x == k,
            _ => false,
        }
    }

    fn at_zr(&self, i: usize, k: u64) -> (r: bool)
        requires
            i < self.wview().len(),
        ensures
            r == (self.wview()[i as int] == OpModel::ZeroRetreat(k)),
    {
        match win_get(&self.building, i) {
            CompoundOp::ZeroRetreat(x) => *x == k,
            _ => false,
        }
    }

    fn at_setv(&self, i: usize, v: u8) -> (r: bool)
        requires
            i < self.wview().len(),
        ensures
            r == (self.wview()[i as int] == OpModel::SetCell(v)),
    {
        match win_get(&self.building, i) {
            CompoundOp::SetCell(x) => *x == v,
            _ => false,
        }
    }

    fn at_ma(&self, i: usize, o: i64) -> (r: bool)
        requires
            i < self.wview().len(),
        ensures
            r == (self.wview()[i as int] == OpModel::MoveAdd(o)),
    {
        match win_get(&self.building, i) {
            CompoundOp::MoveAdd(x) => *x == o,
            _ => false,
        }
    }

    fn at_ma2(&self, i: usize, a: i64, b: i64) -> (r: bool)
        requires
            i < self.wview().len(),
        ensures
            r == (self.wview()[i as int] == OpModel::MoveAdd2(a, b)),
    {
        match win_get(&self.building, i) {
            CompoundOp::MoveAdd2(x, y) => *x == a && *y == b,
            _ => false,
        }
    }

    fn at_dupe(&self, i: usize, o: i64) -> (r: bool)
        requires
            i < self.wview().len(),
        ensures
            r == (self.wview()[i as int] == OpModel::Dupe(o)),
    {
        match win_get(&self.building, i) {
            CompoundOp::Dupe(x) => *x == o,
            _ => false,
        }
    }

    fn at_set_any(&self, i: usize) -> (r: bool)
        requires
            i < self.wview().len(),
        ensures
            r == is_setv(self.wview()[i as int]),
    {
        match win_get(&self.building, i) {
            CompoundOp::SetCell(_) => true,
            _ => false,
        }
    }

    fn at_za_any(&self, i: usize) -> (r: bool)
        requires
            i < self.wview().len(),
        ensures
            r == is_za(self.wview()[i as int]),
    {
        match win_get(&self.building, i) {
            CompoundOp::ZeroAdvance(_) => true,
            _ => false,
        }
    }

    fn at_zr_any(&self, i: usize) -> (r: bool)
        requires
            i < self.wview().len(),
        ensures
            r == is_zr(self.wview()[i as int]),
    {
        match win_get(&self.building, i) {
            CompoundOp::ZeroRetreat(_) => true,
            _ => false,
        }
    }

    fn at_print_any(&self, i: usize) -> (r: bool)
        requires
            i < self.wview().len(),
        ensures
            r == is_print(self.wview()[i as int]),
    {
        match win_get(&self.building, i) {
            CompoundOp::PrintStatic(_) => true,
            _ => false,
        }
    }

    fn at_print_filled(&self, i: usize) -> (r: bool)
        requires
            i < self.wview().len(),
        ensures
            r == (is_print(self.wview()[i as int]) && print_of(self.wview()[i as int]).len() > 0),
    {
        match win_get(&self.building, i) {
            CompoundOp::PrintStatic(s) => s.len() > 0,
            _ => false,
        }
    }

    // Indexed payload readers.
    fn get_sh(&self, i: usize) -> (r: Option<i64>)
        requires
            i < self.wview().len(),
        ensures
            r == (if is_sh(self.wview()[i as int]) {
                Option::Some(sh_of(self.wview()[i as int]))
            } else {
                Option::<i64>::None
            }),
    {
        match win_get(&self.building, i) {
            CompoundOp::BasicOp(BasicOp::Shift(s)) => Option::Some(*s),
            _ => Option::None,
        }
    }

    fn get_cb(&self, i: usize) -> (r: Option<u8>)
        requires
            i < self.wview().len(),
        ensures
            r == (if is_cbv(self.wview()[i as int]) {
                Option::Some(cb_of(self.wview()[i as int]))
            } else {
                Option::<u8>::None
            }),
    {
        match win_get(&self.building, i) {
            CompoundOp::BasicOp(BasicOp::ChangeBy(v)) => Option::Some(*v),
            _ => Option::None,
        }
    }

    fn get_za(&self, i: usize) -> (r: Option<u64>)
        requires
            i < self.wview().len(),
        ensures
            r == (if is_za(self.wview()[i as int]) {
                Option::Some(za_of(self.wview()[i as int]))
            } else {
                Option::<u64>::None
            }),
    {
        match win_get(&self.building, i) {
            CompoundOp::ZeroAdvance(k) => Option::Some(*k),
            _ => Option::None,
        }
    }

    fn get_zr(&self, i: usize) -> (r: Option<u64>)
        requires
            i < self.wview().len(),
        ensures
            r == (if is_zr(self.wview()[i as int]) {
                Option::Some(zr_of(self.wview()[i as int]))
            } else {
                Option::<u64>::None
            }),
    {
        match win_get(&self.building, i) {
            CompoundOp::ZeroRetreat(k) => Option::Some(*k),
            _ => Option::None,
        }
    }

    fn get_setv(&self, i: usize) -> (r: Option<u8>)
        requires
            i < self.wview().len(),
        ensures
            r == (if is_setv(self.wview()[i as int]) {
                Option::Some(set_of(self.wview()[i as int]))
            } else {
                Option::<u8>::None
            }),
    {
        match win_get(&self.building, i) {
            CompoundOp::SetCell(v) => Option::Some(*v),
            _ => Option::None,
        }
    }

    fn get_ma(&self, i: usize) -> (r: Option<i64>)
        requires
            i < self.wview().len(),
        ensures
            r == (if is_ma(self.wview()[i as int]) {
                Option::Some(ma_of(self.wview()[i as int]))
            } else {
                Option::<i64>::None
            }),
    {
        match win_get(&self.building, i) {
            CompoundOp::MoveAdd(o) => Option::Some(*o),
            _ => Option::None,
        }
    }

    fn get_ma2(&self, i: usize) -> (r: Option<(i64, i64)>)
        requires
            i < self.wview().len(),
        ensures
            r == (if is_ma2(self.wview()[i as int]) {
                Option::Some(
                    (ma2_a(self.wview()[i as int]), ma2_b(self.wview()[i as int])),
                )
            } else {
                Option::<(i64, i64)>::None
            }),
    {
        match win_get(&self.building, i) {
            CompoundOp::MoveAdd2(a, b) => Option::Some((*a, *b)),
            _ => Option::None,
        }
    }

    fn get_ms(&self, i: usize) -> (r: Option<i64>)
        requires
            i < self.wview().len(),
        ensures
            r == (if is_ms(self.wview()[i as int]) {
                Option::Some(ms_of(self.wview()[i as int]))
            } else {
                Option::<i64>::None
            }),
    {
        match win_get(&self.building, i) {
            CompoundOp::MoveSet(o) => Option::Some(*o),
            _ => Option::None,
        }
    }

    fn get_out(&self, i: usize) -> (r: Option<u64>)
        requires
            i < self.wview().len(),
        ensures
            r == (if is_out(self.wview()[i as int]) {
                Option::Some(out_of(self.wview()[i as int]))
            } else {
                Option::<u64>::None
            }),
    {
        match win_get(&self.building, i) {
            CompoundOp::BasicOp(BasicOp::Output(k)) => Option::Some(*k),
            _ => Option::None,
        }
    }

    fn try_equals(&mut self) -> (r: bool)
        ensures
            r == pat_equals(old(self).wview()),
            r ==> final(self).wview() == rw_equals(old(self).wview()),
            !r ==> final(self).wview() == old(self).wview(),
    {
        let n = self.wlen();
        if n < 14 {
            return false;
        }
        if !self.at_ls(n - 14) {
            return false;
        }
        if !self.at_cb(n - 13, 255) {
            return false;
        }
        if !self.at_sh(n - 12, 1i64) {
            return false;
        }
        if !self.at_cb(n - 11, 255) {
            return false;
        }
        if !self.at_sh(n - 10, (-1i64)) {
            return false;
        }
        if !self.at_le(n - 9) {
            return false;
        }
        if !self.at_cb(n - 8, 1) {
            return false;
        }
        if !self.at_sh(n - 7, 1i64) {
            return false;
        }
        if !self.at_ls(n - 6) {
            return false;
        }
        if !self.at_sh(n - 5, (-1i64)) {
            return false;
        }
        if !self.at_cb(n - 4, 255) {
            return false;
        }
        if !self.at_sh(n - 3, 1i64) {
            return false;
        }
        if !self.at_zero(n - 2) {
            return false;
        }
        if !self.at_le(n - 1) {
            return false;
        }
        self.wtruncate(n - 14);
        self.wpush(CompoundOp::Equals);
        true
    }

    fn try_not_equals(&mut self) -> (r: bool)
        ensures
            r == pat_not_equals(old(self).wview()),
            r ==> final(self).wview() == rw_not_equals(old(self).wview()),
            !r ==> final(self).wview() == old(self).wview(),
    {
        let n = self.wlen();
        if n < 13 {
            return false;
        }
        if !self.at_ls(n - 13) {
            return false;
        }
        if !self.at_cb(n - 12, 255) {
            return false;
        }
        if !self.at_sh(n - 11, 1i64) {
            return false;
        }
        if !self.at_cb(n - 10, 255) {
            return false;
        }
        if !self.at_sh(n - 9, (-1i64)) {
            return false;
        }
        if !self.at_le(n - 8) {
            return false;
        }
        if !self.at_sh(n - 7, 1i64) {
            return false;
        }
        if !self.at_ls(n - 6) {
            return false;
        }
        if !self.at_sh(n - 5, (-1i64)) {
            return false;
        }
        if !self.at_cb(n - 4, 1) {
            return false;
        }
        if !self.at_sh(n - 3, 1i64) {
            return false;
        }
        if !self.at_zero(n - 2) {
            return false;
        }
        if !self.at_le(n - 1) {
            return false;
        }
        self.wtruncate(n - 13);
        self.wpush(CompoundOp::NotEquals);
        true
    }

    fn try_shift_left(&mut self) -> (r: bool)
        ensures
            r == pat_shift_left(old(self).wview()),
            r ==> final(self).wview() == rw_shift_left(old(self).wview()),
            !r ==> final(self).wview() == old(self).wview(),
    {
        let n = self.wlen();
        if n < 14 {
            return false;
        }
        if !self.at_zr(n - 14, 1) {
            return false;
        }
        if !self.at_ls(n - 13) {
            return false;
        }
        if !self.at_sh(n - 12, (-1i64)) {
            return false;
        }
        if !self.at_ma(n - 11, 2i64) {
            return false;
        }
        if !self.at_sh(n - 10, 2i64) {
            return false;
        }
        if !self.at_ls(n - 9) {
            return false;
        }
        if !self.at_sh(n - 8, (-2i64)) {
            return false;
        }
        if !self.at_cb(n - 7, 2) {
            return false;
        }
        if !self.at_sh(n - 6, 2i64) {
            return false;
        }
        if !self.at_cb(n - 5, 255) {
            return false;
        }
        if !self.at_le(n - 4) {
            return false;
        }
        if !self.at_sh(n - 3, (-1i64)) {
            return false;
        }
        if !self.at_cb(n - 2, 255) {
            return false;
        }
        if !self.at_le(n - 1) {
            return false;
        }
        self.wtruncate(n - 14);
        self.wpush(CompoundOp::ShiftLeftLogical);
        true
    }

    fn try_shift_right(&mut self) -> (r: bool)
        ensures
            r == pat_shift_right(old(self).wview()),
            r ==> final(self).wview() == rw_shift_right(old(self).wview()),
            !r ==> final(self).wview() == old(self).wview(),
    {
        let n = self.wlen();
        if n < 32 {
            return false;
        }
        if !self.at_za(n - 32, 3) {
            return false;
        }
        if !self.at_zero(n - 31) {
            return false;
        }
        if !self.at_sh(n - 30, (-4i64)) {
            return false;
        }
        if !self.at_ls(n - 29) {
            return false;
        }
        if !self.at_sh(n - 28, 1i64) {
            return false;
        }
        if !self.at_cb(n - 27, 2) {
            return false;
        }
        if !self.at_sh(n - 26, (-2i64)) {
            return false;
        }
        if !self.at_ls(n - 25) {
            return false;
        }
        if !self.at_cb(n - 24, 255) {
            return false;
        }
        if !self.at_sh(n - 23, 2i64) {
            return false;
        }
        if !self.at_cb(n - 22, 255) {
            return false;
        }
        if !self.at_ma2(n - 21, 2i64, 3i64) {
            return false;
        }
        if !self.at_sh(n - 20, 3i64) {
            return false;
        }
        if !self.at_ma(n - 19, (-3i64)) {
            return false;
        }
        if !self.at_sh(n - 18, (-1i64)) {
            return false;
        }
        if !self.at_cb(n - 17, 255) {
            return false;
        }
        if !self.at_ls(n - 16) {
            return false;
        }
        if !self.at_sh(n - 15, (-1i64)) {
            return false;
        }
        if !self.at_cb(n - 14, 1) {
            return false;
        }
        if !self.at_sh(n - 13, (-1i64)) {
            return false;
        }
        if !self.at_cb(n - 12, 2) {
            return false;
        }
        if !self.at_sh(n - 11, 2i64) {
            return false;
        }
        if !self.at_cb(n - 10, 1) {
            return false;
        }
        if !self.at_le(n - 9) {
            return false;
        }
        if !self.at_sh(n - 8, (-4i64)) {
            return false;
        }
        if !self.at_le(n - 7) {
            return false;
        }
        if !self.at_sh(n - 6, 3i64) {
            return false;
        }
        if !self.at_ma(n - 5, (-3i64)) {
            return false;
        }
        if !self.at_sh(n - 4, (-1i64)) {
            return false;
        }
        if !self.at_zr(n - 3, 1) {
            return false;
        }
        if !self.at_cb(n - 2, 255) {
            return false;
        }
        if !self.at_le(n - 1) {
            return false;
        }
        self.wtruncate(n - 32);
        self.wpush(CompoundOp::ShiftRightLogical);
        true
    }

    fn try_less_equal(&mut self) -> (r: bool)
        ensures
            r == pat_less_equal(old(self).wview()),
            r ==> final(self).wview() == rw_less_equal(old(self).wview()),
            !r ==> final(self).wview() == old(self).wview(),
    {
        let n = self.wlen();
        if n < 23 {
            return false;
        }
        if !self.at_setv(n - 23, 1) {
            return false;
        }
        if !self.at_sh(n - 22, 1i64) {
            return false;
        }
        if !self.at_zero(n - 21) {
            return false;
        }
        if !self.at_sh(n - 20, (-3i64)) {
            return false;
        }
        if !self.at_ls(n - 19) {
            return false;
        }
        if !self.at_sh(n - 18, 2i64) {
            return false;
        }
        if !self.at_zr(n - 17, 1) {
            return false;
        }
        if !self.at_ma2(n - 16, 1i64, 2i64) {
            return false;
        }
        if !self.at_sh(n - 15, 1i64) {
            return false;
        }
        if !self.at_ma(n - 14, (-1i64)) {
            return false;
        }
        if !self.at_sh(n - 13, 1i64) {
            return false;
        }
        if !self.at_ls(n - 12) {
            return false;
        }
        if !self.at_zr(n - 11, 1) {
            return false;
        }
        if !self.at_cb(n - 10, 1) {
            return false;
        }
        if !self.at_sh(n - 9, (-1i64)) {
            return false;
        }
        if !self.at_cb(n - 8, 255) {
            return false;
        }
        if !self.at_sh(n - 7, 2i64) {
            return false;
        }
        if !self.at_le(n - 6) {
            return false;
        }
        if !self.at_sh(n - 5, (-3i64)) {
            return false;
        }
        if !self.at_cb(n - 4, 255) {
            return false;
        }
        if !self.at_le(n - 3) {
            return false;
        }
        if !self.at_sh(n - 2, 2i64) {
            return false;
        }
        if !self.at_ma(n - 1, (-2i64)) {
            return false;
        }
        self.wtruncate(n - 23);
        self.wpush(CompoundOp::LessThanEqual);
        true
    }

    fn try_greater_equal(&mut self) -> (r: bool)
        ensures
            r == pat_greater_equal(old(self).wview()),
            r ==> final(self).wview() == rw_greater_equal(old(self).wview()),
            !r ==> final(self).wview() == old(self).wview(),
    {
        let n = self.wlen();
        if n < 26 {
            return false;
        }
        if !self.at_setv(n - 26, 1) {
            return false;
        }
        if !self.at_sh(n - 25, 1i64) {
            return false;
        }
        if !self.at_zero(n - 24) {
            return false;
        }
        if !self.at_sh(n - 23, (-2i64)) {
            return false;
        }
        if !self.at_ls(n - 22) {
            return false;
        }
        if !self.at_sh(n - 21, 1i64) {
            return false;
        }
        if !self.at_zero(n - 20) {
            return false;
        }
        if !self.at_sh(n - 19, (-2i64)) {
            return false;
        }
        if !self.at_ma2(n - 18, 2i64, 3i64) {
            return false;
        }
        if !self.at_sh(n - 17, 2i64) {
            return false;
        }
        if !self.at_ma(n - 16, (-2i64)) {
            return false;
        }
        if !self.at_sh(n - 15, 1i64) {
            return false;
        }
        if !self.at_ls(n - 14) {
            return false;
        }
        if !self.at_zr(n - 13, 1) {
            return false;
        }
        if !self.at_cb(n - 12, 1) {
            return false;
        }
        if !self.at_sh(n - 11, (-2i64)) {
            return false;
        }
        if !self.at_cb(n - 10, 255) {
            return false;
        }
        if !self.at_sh(n - 9, 3i64) {
            return false;
        }
        if !self.at_le(n - 8) {
            return false;
        }
        if !self.at_sh(n - 7, (-2i64)) {
            return false;
        }
        if !self.at_cb(n - 6, 255) {
            return false;
        }
        if !self.at_le(n - 5) {
            return false;
        }
        if !self.at_sh(n - 4, (-1i64)) {
            return false;
        }
        if !self.at_zero(n - 3) {
            return false;
        }
        if !self.at_sh(n - 2, 2i64) {
            return false;
        }
        if !self.at_ma(n - 1, (-2i64)) {
            return false;
        }
        self.wtruncate(n - 26);
        self.wpush(CompoundOp::GreaterThanEqual);
        true
    }

    fn try_bit_and(&mut self) -> (r: bool)
        ensures
            r == pat_bit_and(old(self).wview()),
            r ==> final(self).wview() == rw_bit_and(old(self).wview()),
            !r ==> final(self).wview() == old(self).wview(),
    {
        let n = self.wlen();
        if n < 96 {
            return false;
        }
        if !self.at_zero(n - 96) {
            return false;
        }
        if !self.at_sh(n - 95, 2i64) {
            return false;
        }
        if !self.at_zr(n - 94, 1) {
            return false;
        }
        if !self.at_setv(n - 93, 248) {
            return false;
        }
        if !self.at_ls(n - 92) {
            return false;
        }
        if !self.at_cb(n - 91, 8) {
            return false;
        }
        if !self.at_sh(n - 90, (-2i64)) {
            return false;
        }
        if !self.at_zr(n - 89, 4) {
            return false;
        }
        if !self.at_setv(n - 88, 2) {
            return false;
        }
        if !self.at_sh(n - 87, (-2i64)) {
            return false;
        }
        if !self.at_ls(n - 86) {
            return false;
        }
        if !self.at_cb(n - 85, 255) {
            return false;
        }
        if !self.at_sh(n - 84, 2i64) {
            return false;
        }
        if !self.at_cb(n - 83, 255) {
            return false;
        }
        if !self.at_ma2(n - 82, 1i64, 3i64) {
            return false;
        }
        if !self.at_sh(n - 81, 1i64) {
            return false;
        }
        if !self.at_ma(n - 80, (-1i64)) {
            return false;
        }
        if !self.at_sh(n - 79, 4i64) {
            return false;
        }
        if !self.at_cb(n - 78, 1) {
            return false;
        }
        if !self.at_sh(n - 77, (-2i64)) {
            return false;
        }
        if !self.at_cb(n - 76, 255) {
            return false;
        }
        if !self.at_ls(n - 75) {
            return false;
        }
        if !self.at_sh(n - 74, (-1i64)) {
            return false;
        }
        if !self.at_cb(n - 73, 1) {
            return false;
        }
        if !self.at_sh(n - 72, (-2i64)) {
            return false;
        }
        if !self.at_cb(n - 71, 2) {
            return false;
        }
        if !self.at_sh(n - 70, 5i64) {
            return false;
        }
        if !self.at_cb(n - 69, 254) {
            return false;
        }
        if !self.at_sh(n - 68, (-2i64)) {
            return false;
        }
        if !self.at_cb(n - 67, 1) {
            return false;
        }
        if !self.at_le(n - 66) {
            return false;
        }
        if !self.at_sh(n - 65, (-5i64)) {
            return false;
        }
        if !self.at_le(n - 64) {
            return false;
        }
        if !self.at_sh(n - 63, 4i64) {
            return false;
        }
        if !self.at_ma(n - 62, (-4i64)) {
            return false;
        }
        if !self.at_sh(n - 61, (-2i64)) {
            return false;
        }
        if !self.at_setv(n - 60, 2) {
            return false;
        }
        if !self.at_sh(n - 59, (-1i64)) {
            return false;
        }
        if !self.at_ls(n - 58) {
            return false;
        }
        if !self.at_cb(n - 57, 255) {
            return false;
        }
        if !self.at_sh(n - 56, 1i64) {
            return false;
        }
        if !self.at_cb(n - 55, 255) {
            return false;
        }
        if !self.at_ma2(n - 54, 1i64, 3i64) {
            return false;
        }
        if !self.at_sh(n - 53, 1i64) {
            return false;
        }
        if !self.at_ma(n - 52, (-1i64)) {
            return false;
        }
        if !self.at_sh(n - 51, 3i64) {
            return false;
        }
        if !self.at_cb(n - 50, 1) {
            return false;
        }
        if !self.at_sh(n - 49, (-1i64)) {
            return false;
        }
        if !self.at_cb(n - 48, 255) {
            return false;
        }
        if !self.at_ls(n - 47) {
            return false;
        }
        if !self.at_sh(n - 46, 1i64) {
            return false;
        }
        if !self.at_cb(n - 45, 254) {
            return false;
        }
        if !self.at_sh(n - 44, (-2i64)) {
            return false;
        }
        if !self.at_cb(n - 43, 1) {
            return false;
        }
        if !self.at_sh(n - 42, (-2i64)) {
            return false;
        }
        if !self.at_cb(n - 41, 2) {
            return false;
        }
        if !self.at_sh(n - 40, 3i64) {
            return false;
        }
        if !self.at_cb(n - 39, 1) {
            return false;
        }
        if !self.at_le(n - 38) {
            return false;
        }
        if !self.at_sh(n - 37, (-4i64)) {
            return false;
        }
        if !self.at_le(n - 36) {
            return false;
        }
        if !self.at_sh(n - 35, 3i64) {
            return false;
        }
        if !self.at_ma(n - 34, (-3i64)) {
            return false;
        }
        if !self.at_sh(n - 33, 2i64) {
            return false;
        }
        if !self.at_ls(n - 32) {
            return false;
        }
        if !self.at_cb(n - 31, 255) {
            return false;
        }
        if !self.at_sh(n - 30, 1i64) {
            return false;
        }
        if !self.at_ma(n - 29, (-2i64)) {
            return false;
        }
        if !self.at_sh(n - 28, (-1i64)) {
            return false;
        }
        if !self.at_le(n - 27) {
            return false;
        }
        if !self.at_sh(n - 26, 1i64) {
            return false;
        }
        if !self.at_za(n - 25, 1) {
            return false;
        }
        if !self.at_ma2(n - 24, (-1i64), (-2i64)) {
            return false;
        }
        if !self.at_sh(n - 23, (-1i64)) {
            return false;
        }
        if !self.at_ma(n - 22, 1i64) {
            return false;
        }
        if !self.at_sh(n - 21, (-1i64)) {
            return false;
        }
        if !self.at_ls(n - 20) {
            return false;
        }
        if !self.at_sh(n - 19, (-1i64)) {
            return false;
        }
        if !self.at_ma(n - 18, (-1i64)) {
            return false;
        }
        if !self.at_sh(n - 17, (-1i64)) {
            return false;
        }
        if !self.at_ls(n - 16) {
            return false;
        }
        if !self.at_sh(n - 15, 1i64) {
            return false;
        }
        if !self.at_cb(n - 14, 2) {
            return false;
        }
        if !self.at_sh(n - 13, (-1i64)) {
            return false;
        }
        if !self.at_cb(n - 12, 255) {
            return false;
        }
        if !self.at_le(n - 11) {
            return false;
        }
        if !self.at_sh(n - 10, 2i64) {
            return false;
        }
        if !self.at_cb(n - 9, 255) {
            return false;
        }
        if !self.at_le(n - 8) {
            return false;
        }
        if !self.at_sh(n - 7, (-1i64)) {
            return false;
        }
        if !self.at_ma(n - 6, 4i64) {
            return false;
        }
        if !self.at_sh(n - 5, 3i64) {
            return false;
        }
        if !self.at_cb(n - 4, 249) {
            return false;
        }
        if !self.at_le(n - 3) {
            return false;
        }
        if !self.at_sh(n - 2, 1i64) {
            return false;
        }
        if !self.at_ma(n - 1, (-9i64)) {
            return false;
        }
        self.wtruncate(n - 96);
        self.wpush(CompoundOp::BitAnd);
        true
    }

    fn try_bit_neg(&mut self) -> (r: bool)
        ensures
            r == pat_bit_neg(old(self).wview()),
            r ==> final(self).wview() == rw_bit_neg(old(self).wview()),
            !r ==> final(self).wview() == old(self).wview(),
    {
        let n = self.wlen();
        if n < 9 {
            return false;
        }
        if !self.at_ma(n - 9, 1i64) {
            return false;
        }
        if !self.at_sh(n - 8, 1i64) {
            return false;
        }
        if !self.at_cb(n - 7, 1) {
            return false;
        }
        if !self.at_ls(n - 6) {
            return false;
        }
        if !self.at_sh(n - 5, (-1i64)) {
            return false;
        }
        if !self.at_cb(n - 4, 255) {
            return false;
        }
        if !self.at_sh(n - 3, 1i64) {
            return false;
        }
        if !self.at_cb(n - 2, 255) {
            return false;
        }
        if !self.at_le(n - 1) {
            return false;
        }
        self.wtruncate(n - 9);
        self.wpush(CompoundOp::BitNeg);
        true
    }

    fn try_less_than(&mut self) -> (r: bool)
        ensures
            r == pat_less_than(old(self).wview()),
            r ==> final(self).wview() == rw_less_than(old(self).wview()),
            !r ==> final(self).wview() == old(self).wview(),
    {
        let n = self.wlen();
        if n < 26 {
            return false;
        }
        if !self.at_zero(n - 25) {
            return false;
        }
        if !self.at_sh(n - 24, (-2i64)) {
            return false;
        }
        if !self.at_ls(n - 23) {
            return false;
        }
        if !self.at_sh(n - 22, 1i64) {
            return false;
        }
        if !self.at_zero(n - 21) {
            return false;
        }
        if !self.at_sh(n - 20, (-2i64)) {
            return false;
        }
        if !self.at_ma2(n - 19, 2i64, 3i64) {
            return false;
        }
        if !self.at_sh(n - 18, 2i64) {
            return false;
        }
        if !self.at_ma(n - 17, (-2i64)) {
            return false;
        }
        if !self.at_cb(n - 16, 1) {
            return false;
        }
        if !self.at_sh(n - 15, 1i64) {
            return false;
        }
        if !self.at_ls(n - 14) {
            return false;
        }
        if !self.at_zr(n - 13, 1) {
            return false;
        }
        if !self.at_cb(n - 12, 255) {
            return false;
        }
        if !self.at_sh(n - 11, (-2i64)) {
            return false;
        }
        if !self.at_cb(n - 10, 255) {
            return false;
        }
        if !self.at_sh(n - 9, 3i64) {
            return false;
        }
        if !self.at_le(n - 8) {
            return false;
        }
        if !self.at_sh(n - 7, (-2i64)) {
            return false;
        }
        if !self.at_cb(n - 6, 255) {
            return false;
        }
        if !self.at_le(n - 5) {
            return false;
        }
        if !self.at_sh(n - 4, (-1i64)) {
            return false;
        }
        if !self.at_zero(n - 3) {
            return false;
        }
        if !self.at_sh(n - 2, 2i64) {
            return false;
        }
        if !self.at_ma(n - 1, (-2i64)) {
            return false;
        }
        let k = match self.get_za(n - 26) {
            Option::Some(v) => v,
            Option::None => {
                return false;
            },
        };
        if !(k > 0) {
            return false;
        }
        self.wtruncate(n - 26);
        if k > 1 {
            self.wpush(CompoundOp::ZeroAdvance(k - 1));
        }
        self.wpush(CompoundOp::LessThan);
        true
    }

    fn try_greater_than(&mut self) -> (r: bool)
        ensures
            r == pat_greater_than(old(self).wview()),
            r ==> final(self).wview() == rw_greater_than(old(self).wview()),
            !r ==> final(self).wview() == old(self).wview(),
    {
        let n = self.wlen();
        if n < 23 {
            return false;
        }
        if !self.at_zero(n - 22) {
            return false;
        }
        if !self.at_sh(n - 21, (-3i64)) {
            return false;
        }
        if !self.at_ls(n - 20) {
            return false;
        }
        if !self.at_sh(n - 19, 2i64) {
            return false;
        }
        if !self.at_zr(n - 18, 1) {
            return false;
        }
        if !self.at_ma2(n - 17, 1i64, 2i64) {
            return false;
        }
        if !self.at_sh(n - 16, 1i64) {
            return false;
        }
        if !self.at_ma(n - 15, (-1i64)) {
            return false;
        }
        if !self.at_cb(n - 14, 1) {
            return false;
        }
        if !self.at_sh(n - 13, 1i64) {
            return false;
        }
        if !self.at_ls(n - 12) {
            return false;
        }
        if !self.at_zr(n - 11, 1) {
            return false;
        }
        if !self.at_cb(n - 10, 255) {
            return false;
        }
        if !self.at_sh(n - 9, (-1i64)) {
            return false;
        }
        if !self.at_cb(n - 8, 255) {
            return false;
        }
        if !self.at_sh(n - 7, 2i64) {
            return false;
        }
        if !self.at_le(n - 6) {
            return false;
        }
        if !self.at_sh(n - 5, (-3i64)) {
            return false;
        }
        if !self.at_cb(n - 4, 255) {
            return false;
        }
        if !self.at_le(n - 3) {
            return false;
        }
        if !self.at_sh(n - 2, 2i64) {
            return false;
        }
        if !self.at_ma(n - 1, (-2i64)) {
            return false;
        }
        let k = match self.get_za(n - 23) {
            Option::Some(v) => v,
            Option::None => {
                return false;
            },
        };
        if !(k > 0) {
            return false;
        }
        self.wtruncate(n - 23);
        if k > 1 {
            self.wpush(CompoundOp::ZeroAdvance(k - 1));
        }
        self.wpush(CompoundOp::GreaterThan);
        true
    }

    fn try_panic(&mut self) -> (r: bool)
        ensures
            r == pat_panic(old(self).wview()),
            r ==> final(self).wview() == rw_panic(old(self).wview()),
            !r ==> final(self).wview() == old(self).wview(),
    {
        let n = self.wlen();
        if n < 3 {
            return false;
        }
        if !self.at_ls(n - 2) {
            return false;
        }
        if !self.at_le(n - 1) {
            return false;
        }
        let v = match self.get_setv(n - 3) {
            Option::Some(v) => v,
            Option::None => {
                return false;
            },
        };
        if !(v != 0) {
            return false;
        }
        self.wtruncate(n - 3);
        self.wpush(CompoundOp::Panic(v));
        true
    }

    fn try_move_add2(&mut self) -> (r: bool)
        ensures
            r == pat_move_add2(old(self).wview()),
            r ==> final(self).wview() == rw_move_add2(old(self).wview()),
            !r ==> final(self).wview() == old(self).wview(),
    {
        let n = self.wlen();
        if n < 8 {
            return false;
        }
        if !self.at_ls(n - 8) {
            return false;
        }
        if !self.at_cb(n - 6, 1) {
            return false;
        }
        if !self.at_cb(n - 4, 1) {
            return false;
        }
        if !self.at_cb(n - 2, 255) {
            return false;
        }
        if !self.at_le(n - 1) {
            return false;
        }
        let t1 = match self.get_sh(n - 7) {
            Option::Some(v) => v,
            Option::None => {
                return false;
            },
        };
        let t2 = match self.get_sh(n - 5) {
            Option::Some(v) => v,
            Option::None => {
                return false;
            },
        };
        let b = match self.get_sh(n - 3) {
            Option::Some(v) => v,
            Option::None => {
                return false;
            },
        };
        if !((t1 as i128) + (t2 as i128) == -(b as i128)) {
            return false;
        }
        if !(b != i64::MIN) {
            return false;
        }
        self.wtruncate(n - 8);
        self.wpush(CompoundOp::MoveAdd2(t1, t1 + t2));
        true
    }

    fn try_div_mod(&mut self) -> (r: bool)
        ensures
            r == pat_div_mod(old(self).wview()),
            r ==> final(self).wview() == rw_div_mod(old(self).wview()),
            !r ==> final(self).wview() == old(self).wview(),
    {
        let n = self.wlen();
        if n < 36 {
            return false;
        }
        if !self.at_za(n - 36, 3) {
            return false;
        }
        if !self.at_zero(n - 35) {
            return false;
        }
        if !self.at_sh(n - 34, (-5i64)) {
            return false;
        }
        if !self.at_ls(n - 33) {
            return false;
        }
        if !self.at_cb(n - 32, 255) {
            return false;
        }
        if !self.at_sh(n - 31, 1i64) {
            return false;
        }
        if !self.at_ls(n - 30) {
            return false;
        }
        if !self.at_cb(n - 29, 255) {
            return false;
        }
        if !self.at_sh(n - 28, 1i64) {
            return false;
        }
        if !self.at_cb(n - 27, 1) {
            return false;
        }
        if !self.at_sh(n - 26, 2i64) {
            return false;
        }
        if !self.at_le(n - 25) {
            return false;
        }
        if !self.at_sh(n - 24, 1i64) {
            return false;
        }
        if !self.at_ls(n - 23) {
            return false;
        }
        if !self.at_sh(n - 22, (-2i64)) {
            return false;
        }
        if !self.at_cb(n - 21, 1) {
            return false;
        }
        if !self.at_sh(n - 20, 2i64) {
            return false;
        }
        if !self.at_ma(n - 19, (-1i64)) {
            return false;
        }
        if !self.at_sh(n - 18, 1i64) {
            return false;
        }
        if !self.at_cb(n - 17, 1) {
            return false;
        }
        if !self.at_sh(n - 16, 2i64) {
            return false;
        }
        if !self.at_le(n - 15) {
            return false;
        }
        if !self.at_sh(n - 14, (-5i64)) {
            return false;
        }
        if !self.at_le(n - 13) {
            return false;
        }
        if !self.at_sh(n - 12, 1i64) {
            return false;
        }
        if !self.at_ls(n - 11) {
            return false;
        }
        if !self.at_sh(n - 10, 3i64) {
            return false;
        }
        if !self.at_le(n - 9) {
            return false;
        }
        if !self.at_sh(n - 8, 1i64) {
            return false;
        }
        if !self.at_ls(n - 7) {
            return false;
        }
        if !self.at_ma(n - 6, (-1i64)) {
            return false;
        }
        if !self.at_sh(n - 5, 1i64) {
            return false;
        }
        if !self.at_cb(n - 4, 1) {
            return false;
        }
        if !self.at_sh(n - 3, 2i64) {
            return false;
        }
        if !self.at_le(n - 2) {
            return false;
        }
        let e = match self.get_sh(n - 1) {
            Option::Some(v) => v,
            Option::None => {
                return false;
            },
        };
        if !(e <= i64::MAX - 3) {
            return false;
        }
        self.wtruncate(n - 36);
        self.wpush(CompoundOp::WellBehavedDivMod(e + 3));
        true
    }

    fn try_move_cell_dynamic(&mut self) -> (r: bool)
        ensures
            r == pat_move_cell_dynamic(old(self).wview()),
            r ==> final(self).wview() == rw_move_cell_dynamic(old(self).wview()),
            !r ==> final(self).wview() == old(self).wview(),
    {
        let n = self.wlen();
        if n < 44 {
            return false;
        }
        if !self.at_za(n - 44, 2) {
            return false;
        }
        if !self.at_zero(n - 43) {
            return false;
        }
        if !self.at_sh(n - 42, (-3i64)) {
            return false;
        }
        if !self.at_ls(n - 41) {
            return false;
        }
        if !self.at_sh(n - 40, 1i64) {
            return false;
        }
        if !self.at_cb(n - 39, 1) {
            return false;
        }
        if !self.at_sh(n - 38, 1i64) {
            return false;
        }
        if !self.at_cb(n - 37, 1) {
            return false;
        }
        if !self.at_sh(n - 36, 1i64) {
            return false;
        }
        if !self.at_cb(n - 35, 1) {
            return false;
        }
        if !self.at_sh(n - 34, (-3i64)) {
            return false;
        }
        if !self.at_cb(n - 33, 255) {
            return false;
        }
        if !self.at_le(n - 32) {
            return false;
        }
        if !self.at_sh(n - 31, 3i64) {
            return false;
        }
        if !self.at_ma(n - 30, (-3i64)) {
            return false;
        }
        if !self.at_sh(n - 29, (-3i64)) {
            return false;
        }
        if !self.at_ls(n - 28) {
            return false;
        }
        if !self.at_cb(n - 27, 255) {
            return false;
        }
        if !self.at_sh(n - 26, 3i64) {
            return false;
        }
        if !self.at_zr(n - 25, 1) {
            return false;
        }
        if !self.at_ma(n - 24, 1i64) {
            return false;
        }
        if !self.at_sh(n - 23, (-1i64)) {
            return false;
        }
        if !self.at_ma(n - 22, 1i64) {
            return false;
        }
        if !self.at_sh(n - 21, (-1i64)) {
            return false;
        }
        if !self.at_ma(n - 20, 1i64) {
            return false;
        }
        if !self.at_sh(n - 19, (-1i64)) {
            return false;
        }
        if !self.at_ma(n - 18, 1i64) {
            return false;
        }
        if !self.at_sh(n - 17, 2i64) {
            return false;
        }
        if !self.at_le(n - 16) {
            return false;
        }
        if !self.at_sh(n - 15, (-1i64)) {
            return false;
        }
        if !self.at_sh(n - 13, 3i64) {
            return false;
        }
        if !self.at_ma(n - 12, (-2i64)) {
            return false;
        }
        if !self.at_sh(n - 11, (-2i64)) {
            return false;
        }
        if !self.at_ls(n - 10) {
            return false;
        }
        if !self.at_cb(n - 9, 255) {
            return false;
        }
        if !self.at_ma(n - 8, (-1i64)) {
            return false;
        }
        if !self.at_sh(n - 7, 1i64) {
            return false;
        }
        if !self.at_ma(n - 6, (-1i64)) {
            return false;
        }
        if !self.at_sh(n - 5, (-2i64)) {
            return false;
        }
        if !self.at_le(n - 4) {
            return false;
        }
        if !self.at_sh(n - 3, 1i64) {
            return false;
        }
        if !self.at_ma(n - 2, (-2i64)) {
            return false;
        }
        let no = match self.get_ms(n - 14) {
            Option::Some(v) => v,
            Option::None => {
                return false;
            },
        };
        let e = match self.get_sh(n - 1) {
            Option::Some(v) => v,
            Option::None => {
                return false;
            },
        };
        if !(e <= -2) {
            return false;
        }
        if !(no < 0) {
            return false;
        }
        self.wtruncate(n - 44);
        if e != -2 {
            self.wpush(CompoundOp::BasicOp(BasicOp::Shift(e + 2)));
        }
        let off128: i128 = -(no as i128) - 1;
        self.wpush(CompoundOp::MoveCellDynamicU8(off128 as u64));
        true
    }

    fn try_copy_cell_dynamic(&mut self) -> (r: bool)
        ensures
            r == pat_copy_cell_dynamic(old(self).wview()),
            r ==> final(self).wview() == rw_copy_cell_dynamic(old(self).wview()),
            !r ==> final(self).wview() == old(self).wview(),
    {
        let n = self.wlen();
        if n < 27 {
            return false;
        }
        if !self.at_ma(n - 27, (-1i64)) {
            return false;
        }
        if !self.at_dupe(n - 26, (-1i64)) {
            return false;
        }
        if !self.at_sh(n - 25, (-2i64)) {
            return false;
        }
        if !self.at_ls(n - 24) {
            return false;
        }
        if !self.at_cb(n - 23, 255) {
            return false;
        }
        if !self.at_sh(n - 22, 2i64) {
            return false;
        }
        if !self.at_zr(n - 21, 1) {
            return false;
        }
        if !self.at_ma(n - 20, 1i64) {
            return false;
        }
        if !self.at_sh(n - 19, (-1i64)) {
            return false;
        }
        if !self.at_ma(n - 18, 1i64) {
            return false;
        }
        if !self.at_sh(n - 17, 1i64) {
            return false;
        }
        if !self.at_le(n - 16) {
            return false;
        }
        if !self.at_zero(n - 15) {
            return false;
        }
        if !self.at_sh(n - 14, 2i64) {
            return false;
        }
        if !self.at_zero(n - 13) {
            return false;
        }
        if !self.at_sh(n - 8, (-1i64)) {
            return false;
        }
        if !self.at_ls(n - 7) {
            return false;
        }
        if !self.at_cb(n - 6, 255) {
            return false;
        }
        if !self.at_sh(n - 5, (-1i64)) {
            return false;
        }
        if !self.at_ma(n - 4, (-1i64)) {
            return false;
        }
        if !self.at_ma(n - 3, (-1i64)) {
            return false;
        }
        if !self.at_sh(n - 2, (-1i64)) {
            return false;
        }
        if !self.at_le(n - 1) {
            return false;
        }
        let n2no = match self.get_sh(n - 12) {
            Option::Some(v) => v,
            Option::None => {
                return false;
            },
        };
        let mo2 = match self.get_ma2(n - 11) {
            Option::Some(v) => v,
            Option::None => {
                return false;
            },
        };
        let sp2po = match self.get_sh(n - 10) {
            Option::Some(v) => v,
            Option::None => {
                return false;
            },
        };
        let mn2no = match self.get_ma(n - 9) {
            Option::Some(v) => v,
            Option::None => {
                return false;
            },
        };
        if !(n2no == mn2no) {
            return false;
        }
        if !(mo2.1 == sp2po) {
            return false;
        }
        if !(-(n2no as i128) == (mo2.1 as i128)) {
            return false;
        }
        if !((mo2.1 as i128) - 2 == (mo2.0 as i128)) {
            return false;
        }
        self.wtruncate(n - 27);
        #[verifier::truncate] let off: u64 = mo2.0 as u64;
        self.wpush(CompoundOp::CopyCellDynamicU8(off));
        true
    }

    fn try_move_set(&mut self) -> (r: bool)
        ensures
            r == pat_move_set(old(self).wview()),
            r ==> final(self).wview() == rw_move_set(old(self).wview()),
            !r ==> final(self).wview() == old(self).wview(),
    {
        let n = self.wlen();
        if n < 4 {
            return false;
        }
        if !self.at_zero(n - 3) {
            return false;
        }
        let t_amt = match self.get_sh(n - 4) {
            Option::Some(v) => v,
            Option::None => {
                return false;
            },
        };
        let b_amt = match self.get_sh(n - 2) {
            Option::Some(v) => v,
            Option::None => {
                return false;
            },
        };
        let m_off = match self.get_ma(n - 1) {
            Option::Some(v) => v,
            Option::None => {
                return false;
            },
        };
        if !(({ let ta: i128 = if t_amt < 0 { -(t_amt as i128) } else { t_amt as i128 }; let tb: i128 = if b_amt < 0 { -(b_amt as i128) } else { b_amt as i128 }; ta >= tb })) {
            return false;
        }
        if !(-(b_amt as i128) == m_off as i128) {
            return false;
        }
        if !(-(i64::MAX as i128) - 1 <= (t_amt as i128) + (b_amt as i128) && (t_amt as i128) + (b_amt as i128) <= i64::MAX as i128) {
            return false;
        }
        self.wtruncate(n - 4);
        let extra: i64 = t_amt + b_amt;
        if extra != 0 {
            self.wpush(CompoundOp::BasicOp(BasicOp::Shift(extra)));
        }
        self.wpush(CompoundOp::MoveSet(-b_amt));
        true
    }

    fn try_dupe(&mut self) -> (r: bool)
        ensures
            r == pat_dupe(old(self).wview()),
            r ==> final(self).wview() == rw_dupe(old(self).wview()),
            !r ==> final(self).wview() == old(self).wview(),
    {
        let n = self.wlen();
        if n < 6 {
            return false;
        }
        if !self.at_zero(n - 5) {
            return false;
        }
        let a = match self.get_za(n - 6) {
            Option::Some(v) => v,
            Option::None => {
                return false;
            },
        };
        let t_sh = match self.get_sh(n - 4) {
            Option::Some(v) => v,
            Option::None => {
                return false;
            },
        };
        let offs = match self.get_ma2(n - 3) {
            Option::Some(v) => v,
            Option::None => {
                return false;
            },
        };
        let b_sh2 = match self.get_sh(n - 2) {
            Option::Some(v) => v,
            Option::None => {
                return false;
            },
        };
        let r_sh = match self.get_ma(n - 1) {
            Option::Some(v) => v,
            Option::None => {
                return false;
            },
        };
        if !(a > 0) {
            return false;
        }
        if !(-(t_sh as i128) == offs.1 as i128) {
            return false;
        }
        if !((offs.0 as i128) + 1 == offs.1 as i128) {
            return false;
        }
        if !(-(t_sh as i128) == b_sh2 as i128) {
            return false;
        }
        if !(t_sh == r_sh) {
            return false;
        }
        if !(offs.0 != i64::MIN) {
            return false;
        }
        self.wtruncate(n - 6);
        if a > 1 {
            self.wpush(CompoundOp::ZeroAdvance(a - 1));
        }
        self.wpush(CompoundOp::Dupe(-offs.0));
        true
    }

    fn try_zero(&mut self) -> (r: bool)
        ensures
            r == pat_zero(old(self).wview()),
            r ==> final(self).wview() == rw_zero(old(self).wview()),
            !r ==> final(self).wview() == old(self).wview(),
    {
        let n = self.wlen();
        if n < 3 {
            return false;
        }
        if !self.at_ls(n - 3) {
            return false;
        }
        if !(self.at_cb(n - 2, 1) || self.at_cb(n - 2, 255)) {
            return false;
        }
        if !self.at_le(n - 1) {
            return false;
        }
        self.wtruncate(n - 3);
        let m = self.wlen();
        if m > 0 && self.at_zero(m - 1) {
            // A Zero is already at the back; another would be redundant.
        } else {
            self.wpush(CompoundOp::Zero);
        }
        true
    }

    fn try_zero_advance(&mut self) -> (r: bool)
        ensures
            r == pat_zero_advance(old(self).wview()),
            r ==> final(self).wview() == rw_zero_advance(old(self).wview()),
            !r ==> final(self).wview() == old(self).wview(),
    {
        let n = self.wlen();
        if n < 2 {
            return false;
        }
        if !self.at_zero(n - 2) {
            return false;
        }
        if !self.at_sh(n - 1, 1) {
            return false;
        }
        self.wtruncate(n - 2);
        let m = self.wlen();
        if m > 0 {
            let prior = self.get_za(m - 1);
            match prior {
                Option::Some(k) => {
                    if k < u64::MAX {
                        self.wpop_back();
                        self.wpush(CompoundOp::ZeroAdvance(k + 1));
                        return true;
                    }
                },
                Option::None => {},
            }
        }
        self.wpush(CompoundOp::ZeroAdvance(1));
        true
    }

    fn try_zero_retreat(&mut self) -> (r: bool)
        ensures
            r == pat_zero_retreat(old(self).wview()),
            r ==> final(self).wview() == rw_zero_retreat(old(self).wview()),
            !r ==> final(self).wview() == old(self).wview(),
    {
        let n = self.wlen();
        if n < 2 {
            return false;
        }
        if !self.at_zero(n - 2) {
            return false;
        }
        if !self.at_sh(n - 1, -1) {
            return false;
        }
        self.wtruncate(n - 2);
        let m = self.wlen();
        if m > 0 {
            let prior = self.get_zr(m - 1);
            match prior {
                Option::Some(k) => {
                    if k < u64::MAX {
                        self.wpop_back();
                        self.wpush(CompoundOp::ZeroRetreat(k + 1));
                        return true;
                    }
                },
                Option::None => {},
            }
        }
        self.wpush(CompoundOp::ZeroRetreat(1));
        true
    }

    fn try_set(&mut self) -> (r: bool)
        ensures
            r == pat_set(old(self).wview()),
            r ==> final(self).wview() == rw_set(old(self).wview()),
            !r ==> final(self).wview() == old(self).wview(),
    {
        let n = self.wlen();
        if n < 2 {
            return false;
        }
        if !self.at_zero(n - 2) {
            return false;
        }
        let v = match self.get_cb(n - 1) {
            Option::Some(v) => v,
            Option::None => {
                return false;
            },
        };
        self.wtruncate(n - 2);
        let ghost base = self.wview();
        loop
            invariant
                strip_sets(self.wview()) == strip_sets(base),
            ensures
                strip_sets(self.wview()) == strip_sets(base),
                self.wview().len() == 0 || !is_setv(self.wview().last()),
            decreases self.wview().len(),
        {
            let m = self.wlen();
            if m == 0 {
                break;
            }
            if !self.at_set_any(m - 1) {
                break;
            }
            self.wpop_back();
        }
        self.wpush(CompoundOp::SetCell(v));
        proof {
            assert(strip_sets(old(self).wview().take(n as int - 2)) == strip_sets(base));
        }
        true
    }

    fn try_print_static(&mut self) -> (r: bool)
        ensures
            r == pat_print_static(old(self).wview()),
            r ==> final(self).wview() == rw_print_static(old(self).wview()),
            !r ==> final(self).wview() == old(self).wview(),
    {
        let n = self.wlen();
        if n < 2 {
            return false;
        }
        let c = match self.get_setv(n - 2) {
            Option::Some(v) => v,
            Option::None => {
                return false;
            },
        };
        let k = match self.get_out(n - 1) {
            Option::Some(v) => v,
            Option::None => {
                return false;
            },
        };
        self.wtruncate(n - 2);
        let m = self.wlen();
        if m > 0 && self.at_print_any(m - 1) {
            let tail = self.wpop_back();
            match tail {
                Option::Some(CompoundOp::PrintStatic(s)) => {
                    let mut s2 = s;
                    push_repeat(&mut s2, c, k);
                    self.wpush(CompoundOp::PrintStatic(s2));
                },
                _ => {
                    proof {
                        assert(false);
                    }
                },
            }
        } else {
            let mut s: Vec<u8> = Vec::new();
            push_repeat(&mut s, c, k);
            proof {
                assert(s@ =~= repeat_byte(c, k));
            }
            self.wpush(CompoundOp::PrintStatic(s));
        }
        true
    }

    fn try_print_continue(&mut self) -> (r: bool)
        ensures
            r == pat_print_continue(old(self).wview()),
            r ==> final(self).wview() == rw_print_continue(old(self).wview()),
            !r ==> final(self).wview() == old(self).wview(),
    {
        let n = self.wlen();
        if n < 3 {
            return false;
        }
        if !self.at_print_filled(n - 3) {
            return false;
        }
        let d = match self.get_cb(n - 2) {
            Option::Some(v) => v,
            Option::None => {
                return false;
            },
        };
        let k = match self.get_out(n - 1) {
            Option::Some(v) => v,
            Option::None => {
                return false;
            },
        };
        self.wtruncate(n - 2);
        proof {
            assert(old(self).wview().take(n as int - 2).drop_last() =~= old(self).wview().take(
                n as int - 3,
            ));
        }
        let tail = self.wpop_back();
        match tail {
            Option::Some(CompoundOp::PrintStatic(s)) => {
                let mut s2 = s;
                let next = s2[s2.len() - 1].wrapping_add(d);
                push_repeat(&mut s2, next, k);
                self.wpush(CompoundOp::PrintStatic(s2));
            },
            _ => {
                proof {
                    assert(false);
                }
            },
        }
        true
    }

    #[verifier::rlimit(100)]
    fn try_move_add(&mut self) -> (r: bool)
        ensures
            r == pat_move_add(old(self).wview()),
            r ==> final(self).wview() == rw_move_add(old(self).wview()),
            !r ==> final(self).wview() == old(self).wview(),
    {
        let n = self.wlen();
        if n < 6 {
            return false;
        }
        if !self.at_ls(n - 6) {
            return false;
        }
        if !self.at_le(n - 1) {
            return false;
        }
        let offset: i64;
        if self.at_cb(n - 4, 1) && self.at_cb(n - 2, 255) {
            // First spelling: shift, add one, shift back, subtract one.
            let t = match self.get_sh(n - 5) {
                Option::Some(v) => v,
                Option::None => {
                    return false;
                },
            };
            let b = match self.get_sh(n - 3) {
                Option::Some(v) => v,
                Option::None => {
                    return false;
                },
            };
            if !((t as i128) == -(b as i128)) {
                return false;
            }
            offset = t;
        } else if self.at_cb(n - 5, 255) && self.at_cb(n - 3, 1) {
            // Second spelling: subtract one, shift, add one, shift back.
            let t = match self.get_sh(n - 4) {
                Option::Some(v) => v,
                Option::None => {
                    return false;
                },
            };
            let b = match self.get_sh(n - 2) {
                Option::Some(v) => v,
                Option::None => {
                    return false;
                },
            };
            if !((t as i128) == -(b as i128)) {
                return false;
            }
            offset = t;
        } else {
            return false;
        }
        self.wtruncate(n - 6);
        self.wpush(CompoundOp::MoveAdd(offset));
        // Only a fresh MoveAdd can complete these idioms.
        if self.try_move_set() {
        } else if self.try_dupe() {
        } else if self.try_less_than() {
        } else if self.try_greater_than() {
        } else if self.try_less_equal() {
        } else if self.try_greater_equal() {
        } else if self.try_bit_and() {
        }
        true
    }

    /// Push one basic op through the recognizer. The window's suffix is
    /// rewritten by the first matching idiom; if the window then exceeds
    /// `WINDOW_SIZE` ops, the front one falls out and is returned.
    pub fn feed(&mut self, basic_op: BasicOp) -> (r: Option<CompoundOp>)
        ensures
            ({
                let w1 = feed_result(old(self).wview(), basic_op);
                if w1.len() > WINDOW_SIZE {
                    &&& final(self).wview() == w1.drop_first()
                    &&& (r matches Option::Some(x) && x@ == w1[0])
                } else {
                    &&& final(self).wview() == w1
                    &&& r is None
                }
            }),
    {
        self.wpush(CompoundOp::BasicOp(basic_op));
        self.rewrite_window();
        if self.wlen() > WINDOW_SIZE {
            self.wpop_front()
        } else {
            Option::None
        }
    }

    fn rewrite_window(&mut self)
        ensures
            final(self).wview() == rewrite(old(self).wview()),
    {
        if self.try_panic() {
        } else if self.try_zero() {
        } else if self.try_zero_advance() {
        } else if self.try_zero_retreat() {
        } else if self.try_set() {
        } else if self.try_equals() {
        } else if self.try_not_equals() {
        } else if self.try_shift_left() {
        } else if self.try_shift_right() {
        } else if self.try_move_add() {
        } else if self.try_move_add2() {
        } else if self.try_bit_neg() {
        } else if self.try_div_mod() {
        } else if self.try_print_static() {
        } else if self.try_print_continue() {
        } else if self.try_move_cell_dynamic() {
        } else if self.try_copy_cell_dynamic() {
        }
    }

    /// Drain one op from the window's front at end of input.
    pub fn finalize(&mut self) -> (r: Option<CompoundOp>)
        ensures
            old(self).wview().len() > 0 ==> final(self).wview() == old(self).wview().drop_first()
                && (r matches Option::Some(x) && x@ == old(self).wview()[0]),
            old(self).wview().len() == 0 ==> r is None && final(self).wview() == old(
                self,
            ).wview(),
    {
        self.wpop_front()
    }
}

/// Append `k` copies of `c` to a byte vector.
fn push_repeat(s: &mut Vec<u8>, c: u8, k: u64)
    ensures
        final(s)@ == old(s)@ + repeat_byte(c, k),
{
    let mut i: u64 = 0;
    while i < k
        invariant
            i <= k,
            s@ == old(s)@ + repeat_byte(c, i),
        decreases k - i,
    {
        s.push(c);
        i = i + 1;
        proof {
            assert(s@ =~= old(s)@ + repeat_byte(c, i));
        }
    }
    proof {
        assert(s@ =~= old(s)@ + repeat_byte(c, k));
    }
}

} // verus!
