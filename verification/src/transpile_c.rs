use crate::basic_op::BasicOp;
use crate::compound_op::CompoundOp;
use crate::interpreter::CELL_COUNT;
use crate::interpreter_op::InterpreterOp;
use vstd::prelude::*;
use vstd::string::StringExecFns;

verus! {

/// Why a program cannot be lowered to C.
#[derive(Copy, Clone, Debug, PartialEq, Eq, Structural)]
pub enum TranspileError {
    /// A raw `[` or `]` token reached the transpiler: a construction bug.
    UnprocessedLoop,
    /// A `PrintStatic` with no bytes reached the transpiler.
    EmptyPrint,
}

/// The decimal digit characters of one digit value.
pub open spec fn digit_char(d: nat) -> Seq<char>
    recommends
        d < 10,
{
    if d == 0 {
        "0"@
    } else if d == 1 {
        "1"@
    } else if d == 2 {
        "2"@
    } else if d == 3 {
        "3"@
    } else if d == 4 {
        "4"@
    } else if d == 5 {
        "5"@
    } else if d == 6 {
        "6"@
    } else if d == 7 {
        "7"@
    } else if d == 8 {
        "8"@
    } else {
        "9"@
    }
}

/// The decimal text of a nonnegative number.
pub open spec fn dec_chars(n: nat) -> Seq<char>
    decreases n,
{
    if n < 10 {
        digit_char(n)
    } else {
        dec_chars(n / 10) + digit_char(n % 10)
    }
}

/// The decimal text of a signed number.
pub open spec fn sdec_chars(x: int) -> Seq<char> {
    if x < 0 {
        "-"@ + dec_chars((-x) as nat)
    } else {
        dec_chars(x as nat)
    }
}

/// `k` copies of one piece of text.
pub open spec fn repeat_text(t: Seq<char>, k: nat) -> Seq<char>
    decreases k,
{
    if k == 0 {
        Seq::empty()
    } else {
        t + repeat_text(t, (k - 1) as nat)
    }
}

/// One C `put` call per byte of a static print.
pub open spec fn puts_text(bytes: Seq<u8>) -> Seq<char>
    decreases bytes.len(),
{
    if bytes.len() == 0 {
        Seq::empty()
    } else {
        "put("@ + dec_chars(bytes[0] as nat) + ");\n"@ + puts_text(bytes.drop_first())
    }
}

/// Whether an instruction can be lowered to C at all.
pub open spec fn op_ok(op: InterpreterOp) -> bool {
    match op {
        InterpreterOp::CompoundOp(CompoundOp::BasicOp(BasicOp::LoopStart)) => false,
        InterpreterOp::CompoundOp(CompoundOp::BasicOp(BasicOp::LoopEnd)) => false,
        InterpreterOp::CompoundOp(CompoundOp::PrintStatic(bytes)) => bytes@.len() > 0,
        _ => true,
    }
}

/// The error an instruction that cannot be lowered is reported with.
pub open spec fn op_err(op: InterpreterOp) -> TranspileError
    recommends
        !op_ok(op),
{
    match op {
        InterpreterOp::CompoundOp(CompoundOp::PrintStatic(_)) => TranspileError::EmptyPrint,
        _ => TranspileError::UnprocessedLoop,
    }
}

/// The C statements one instruction lowers to.
pub open spec fn c_op(op: InterpreterOp) -> Seq<char>
    recommends
        op_ok(op),
{
    match op {
        InterpreterOp::LoopStart(_) => "while(m[i]){\n"@,
        InterpreterOp::LoopEnd(_) => "}\n"@,
        InterpreterOp::CompoundOp(CompoundOp::BasicOp(BasicOp::ChangeBy(a))) => "m[i] += "@ + dec_chars((a as nat) as nat) + ";\n"@,
        InterpreterOp::CompoundOp(CompoundOp::Panic(v)) => "m[i] = "@ + dec_chars((v as nat) as nat) + ";\n"@ + "exit(m[i]);\n"@,
        InterpreterOp::CompoundOp(CompoundOp::Zero) => "m[i] = 0;\n"@,
        InterpreterOp::CompoundOp(CompoundOp::ZeroAdvance(n)) => "memset(&m[i], 0, "@ + dec_chars((n as nat) as nat) + ");\n"@ + "i += "@ + dec_chars((n as nat) as nat) + ";\n"@,
        InterpreterOp::CompoundOp(CompoundOp::SetCell(v)) => "m[i] = "@ + dec_chars((v as nat) as nat) + ";\n"@,
        InterpreterOp::CompoundOp(CompoundOp::Dupe(o)) => "m[i] = m[i + "@ + sdec_chars((o as int) as int) + "];\n"@ + "m[++i] = 0;\n"@,
        InterpreterOp::CompoundOp(CompoundOp::BitAnd) => "m[i - 7] &= m[i - 6];\n"@ + "m[i - 6] = 0;\n"@ + "i += 2;\n"@,
        InterpreterOp::CompoundOp(CompoundOp::WellBehavedDivMod(sh)) => "if(m[i - 1] == 0){\n"@ + "m[i] = 0;\n"@ + "m[i + 1] = 0;\n"@ + "} else {\n"@ + "m[i] = m[i - 2] % m[i - 1];\n"@ + "m[i + 1] = m[i - 2] / m[i - 1];\n"@ + "}\n"@ + "m[i - 1] = m[i - 1] - m[i];\n"@ + "m[i - 2] = 0;\n"@ + "m[i + 2] = 0;\n"@ + "m[i + 3] = 0;\n"@ + "i += "@ + sdec_chars((sh as int) as int) + ";\n"@,
        InterpreterOp::CompoundOp(CompoundOp::BitNeg) => "m[i] = ~m[i];\n"@ + "m[++i] = 0;\n"@,
        InterpreterOp::CompoundOp(CompoundOp::Equals) => "m[i] = (m[i] == m[i + 1]);\n"@ + "m[++i] = 0;\n"@,
        InterpreterOp::CompoundOp(CompoundOp::NotEquals) => "m[i] = (m[i] != m[i + 1]);\n"@ + "m[++i] = 0;\n"@,
        InterpreterOp::CompoundOp(CompoundOp::ShiftLeftLogical) => "m[i - 2] = (m[i - 1] >= 8) ? 0 : m[i - 2] << m[i - 1];\n"@ + "m[i - 1] = 0;\n"@ + "m[i--] = 0;\n"@,
        InterpreterOp::CompoundOp(CompoundOp::ShiftRightLogical) => "m[i - 2] = (m[i - 1] >= 8) ? 0 : m[i - 2] >> m[i - 1];\n"@ + "memset(&m[--i], 0, 5);\n"@,
        InterpreterOp::CompoundOp(CompoundOp::LessThan) => "m[i - 2] = m[i - 2] < m[i - 1];\n"@ + "memset(&m[i - 1], 0, 3);\n"@,
        InterpreterOp::CompoundOp(CompoundOp::GreaterThan) => "m[i - 2] = m[i - 2] > m[i - 1];\n"@ + "memset(&m[i - 1], 0, 3);\n"@,
        InterpreterOp::CompoundOp(CompoundOp::LessThanEqual) => "m[i - 2] = m[i - 2] <= m[i - 1];\n"@ + "memset(&m[i - 1], 0, 3);\n"@,
        InterpreterOp::CompoundOp(CompoundOp::GreaterThanEqual) => "m[i - 2] = m[i - 2] >= m[i - 1];\n"@ + "memset(&m[i - 1], 0, 3);\n"@,
        InterpreterOp::CompoundOp(CompoundOp::MoveAdd(o)) => "m[i + "@ + sdec_chars((o as int) as int) + "] += m[i];\n"@ + "m[i] = 0;\n"@,
        InterpreterOp::CompoundOp(CompoundOp::MoveSet(o)) => "m[i + "@ + sdec_chars((o as int) as int) + "] = m[i];\n"@ + "m[i] = 0;\n"@,
        InterpreterOp::CompoundOp(CompoundOp::MoveAdd2(o1, o2)) => "m[i + "@ + sdec_chars((o1 as int) as int) + "] += m[i];\n"@ + "m[i + "@ + sdec_chars((o2 as int) as int) + "] += m[i];\n"@ + "m[i] = 0;\n"@,
        InterpreterOp::CompoundOp(CompoundOp::MoveCellDynamicU8(o)) => "m[i - "@ + dec_chars((3 + o) as nat) + " + m[i - 1]] = m[i - 2];\n"@ + "m[i - 2] = m[i - 1];\n"@ + "i -= 2;\n"@,
        InterpreterOp::CompoundOp(CompoundOp::MoveCellDynamicU16(o)) => "m[  i - "@ + dec_chars((o as nat) as nat) + " + (size_t) m[i - 2] | ((size_t) m[i - 1] << 8)  ] = m[i - 3];\n"@ + "m[i - 3] = m[i - 2];\n"@ + "m[i - 2] = m[i - 1];\n"@ + "i -= 3;\n"@,
        InterpreterOp::CompoundOp(CompoundOp::CopyCellDynamicU8(o)) => "m[i - 1] = m[  i - "@ + dec_chars((o + 1) as nat) + " + m[i - 1]  ];\n"@,
        InterpreterOp::CompoundOp(CompoundOp::MoveCellDynamicU32(o)) => "m[  i - "@ + dec_chars((o as nat) as nat) + " + (size_t) m[i - 4] | ((size_t) m[i - 3] << 8) | ((size_t) m[i - 2] << 16) | ((size_t) m[i - 1] << 24)  ] = m[i - 5];\n"@ + "m[i - 5] = m[i - 4];\n"@ + "m[i - 4] = m[i - 3];\n"@ + "m[i - 3] = m[i - 2];\n"@ + "m[i - 2] = m[i - 1];\n"@ + "i -= 5;\n"@,
        InterpreterOp::CompoundOp(CompoundOp::CopyCellDynamicU32(o)) => "m[i - 4] = m[  i - "@ + dec_chars((o as nat) as nat) + " + (size_t) m[i - 4] | ((size_t) m[i - 3] << 8) | ((size_t) m[i - 2] << 16) | ((size_t) m[i - 1] << 24)  ];\n"@ + "i -= 3;\n"@,
        InterpreterOp::CompoundOp(CompoundOp::BasicOp(BasicOp::Shift(a))) => {
            if a >= 0 {
                "i += "@ + dec_chars(a as nat) + ";\n"@
            } else {
                "i -= "@ + dec_chars((-(a as int)) as nat) + ";\n"@
            }
        },
        InterpreterOp::CompoundOp(CompoundOp::BasicOp(BasicOp::Input(k))) => repeat_text(
            "m[i] = get();\n"@,
            k as nat,
        ),
        InterpreterOp::CompoundOp(CompoundOp::BasicOp(BasicOp::Output(k))) => repeat_text(
            "put(m[i]);\n"@,
            k as nat,
        ) + "fflush(stdout);\n"@,
        InterpreterOp::CompoundOp(CompoundOp::BasicOp(BasicOp::LoopStart)) => Seq::empty(),
        InterpreterOp::CompoundOp(CompoundOp::BasicOp(BasicOp::LoopEnd)) => Seq::empty(),
        InterpreterOp::CompoundOp(CompoundOp::ZeroRetreat(n)) => {
            let back: nat = if n == 0 {
                0
            } else {
                (n - 1) as nat
            };
            "memset(&m[i - "@ + dec_chars(back) + "], 0, "@ + dec_chars(n as nat) + ");\n"@
                + "i -= "@ + dec_chars(n as nat) + ";\n"@
        },
        InterpreterOp::CompoundOp(CompoundOp::PrintStatic(bytes)) => {
            let last: nat = if bytes@.len() == 0 {
                0
            } else {
                bytes@.last() as nat
            };
            puts_text(bytes@) + "fflush(stdout);\n"@ + "m[i] = "@ + dec_chars(last) + ";\n"@
        },
        InterpreterOp::CompoundOp(CompoundOp::MoveCellsStaticReverse(o, n)) => {
            let back: nat = if n == 0 {
                0
            } else {
                (n - 1) as nat
            };
            "memmove(&m[i + "@ + sdec_chars(o - n + 1) + "], &m[i - "@ + dec_chars(back)
                + "], "@ + dec_chars(n as nat) + ");\n"@ + "i -= "@ + dec_chars(n as nat)
                + ";\n"@
        },
    }
}

/// The C statements of a whole instruction sequence, in order.
pub open spec fn c_ops_text(ops: Seq<InterpreterOp>) -> Seq<char>
    decreases ops.len(),
{
    if ops.len() == 0 {
        Seq::empty()
    } else {
        c_op(ops[0]) + c_ops_text(ops.drop_first())
    }
}

/// The fixed prologue of every emitted C program.
pub open spec fn c_header() -> Seq<char> {
    "#include <stdio.h>\n"@ + "#include <stdlib.h>\n"@ + "#include <string.h>\n"@
        + "static inline void put(unsigned char c){ putchar((char) c); }\n"@
        + "static inline unsigned char get(void){ char c = getc(stdin); return c != EOF ? (unsigned char) c : 0; }\n"@
        + "int main(){\n"@ + "unsigned char *m = malloc("@ + dec_chars(CELL_COUNT as nat)
        + ");\n"@ + "size_t i = 0;\n"@ + "memset(m, 0, "@ + dec_chars(CELL_COUNT as nat)
        + ");\n"@
}

/// The fixed epilogue of every emitted C program.
pub open spec fn c_footer() -> Seq<char> {
    "free(m);\n"@ + "return 0;\n"@ + "}\n"@
}

/// The whole C program a linearized instruction sequence lowers to.
pub open spec fn c_source(ops: Seq<InterpreterOp>) -> Seq<char>
    recommends
        forall|i: int| 0 <= i < ops.len() ==> op_ok(ops[i]),
{
    c_header() + c_ops_text(ops) + c_footer()
}

proof fn lemma_c_ops_text_snoc(ops: Seq<InterpreterOp>, n: int)
    requires
        0 <= n < ops.len(),
    ensures
        c_ops_text(ops.take(n + 1)) == c_ops_text(ops.take(n)) + c_op(ops[n]),
    decreases n,
{
    if n == 0 {
        assert(ops.take(1).drop_first() =~= Seq::<InterpreterOp>::empty());
        assert(ops.take(0) =~= Seq::<InterpreterOp>::empty());
        assert(c_ops_text(ops.take(1)) =~= c_ops_text(ops.take(0)) + c_op(ops[0]));
    } else {
        let rest = ops.drop_first();
        lemma_c_ops_text_snoc(rest, n - 1);
        assert(ops.take(n + 1).drop_first() =~= rest.take(n));
        assert(ops.take(n).drop_first() =~= rest.take(n - 1));
        assert(c_ops_text(ops.take(n + 1)) =~= c_ops_text(ops.take(n)) + c_op(ops[n]));
    }
}

/// Append the decimal text of `n`.
fn append_decimal(out: &mut String, n: u128)
    ensures
        final(out)@ == old(out)@ + dec_chars(n as nat),
    decreases n,
{
    if n >= 10 {
        append_decimal(out, n / 10);
    }
    let d = n % 10;
    if d == 0 {
        out.append("0");
    } else if d == 1 {
        out.append("1");
    } else if d == 2 {
        out.append("2");
    } else if d == 3 {
        out.append("3");
    } else if d == 4 {
        out.append("4");
    } else if d == 5 {
        out.append("5");
    } else if d == 6 {
        out.append("6");
    } else if d == 7 {
        out.append("7");
    } else if d == 8 {
        out.append("8");
    } else {
        out.append("9");
    }
    proof {
        assert(out@ =~= old(out)@ + dec_chars(n as nat));
    }
}

/// Append the decimal text of `x`, minus sign included.
fn append_signed_decimal(out: &mut String, x: i128)
    requires
        x > i128::MIN,
    ensures
        final(out)@ == old(out)@ + sdec_chars(x as int),
{
    if x < 0 {
        out.append("-");
        append_decimal(out, (-x) as u128);
        proof {
            assert(out@ =~= old(out)@ + sdec_chars(x as int));
        }
    } else {
        append_decimal(out, x as u128);
    }
}

fn emit_loopstart(out: &mut String)
    ensures
        final(out)@ == old(out)@ + ("while(m[i]){\n"@),
{
    out.append("while(m[i]){\n");
    proof {
        assert(out@ =~= old(out)@ + ("while(m[i]){\n"@));
    }
}

fn emit_loopend(out: &mut String)
    ensures
        final(out)@ == old(out)@ + ("}\n"@),
{
    out.append("}\n");
    proof {
        assert(out@ =~= old(out)@ + ("}\n"@));
    }
}

fn emit_changeby(out: &mut String, v0: u128)
    ensures
        final(out)@ == old(out)@ + ("m[i] += "@ + dec_chars(v0 as nat) + ";\n"@),
{
    out.append("m[i] += ");
    append_decimal(out, v0);
    out.append(";\n");
    proof {
        assert(out@ =~= old(out)@ + ("m[i] += "@ + dec_chars(v0 as nat) + ";\n"@));
    }
}

fn emit_panic(out: &mut String, v0: u128)
    ensures
        final(out)@ == old(out)@ + ("m[i] = "@ + dec_chars(v0 as nat) + ";\n"@ + "exit(m[i]);\n"@),
{
    out.append("m[i] = ");
    append_decimal(out, v0);
    out.append(";\n");
    out.append("exit(m[i]);\n");
    proof {
        assert(out@ =~= old(out)@ + ("m[i] = "@ + dec_chars(v0 as nat) + ";\n"@ + "exit(m[i]);\n"@));
    }
}

fn emit_zero(out: &mut String)
    ensures
        final(out)@ == old(out)@ + ("m[i] = 0;\n"@),
{
    out.append("m[i] = 0;\n");
    proof {
        assert(out@ =~= old(out)@ + ("m[i] = 0;\n"@));
    }
}

fn emit_zeroadvance(out: &mut String, v0: u128, v1: u128)
    ensures
        final(out)@ == old(out)@ + ("memset(&m[i], 0, "@ + dec_chars(v0 as nat) + ");\n"@ + "i += "@ + dec_chars(v1 as nat) + ";\n"@),
{
    out.append("memset(&m[i], 0, ");
    append_decimal(out, v0);
    out.append(");\n");
    out.append("i += ");
    append_decimal(out, v1);
    out.append(";\n");
    proof {
        assert(out@ =~= old(out)@ + ("memset(&m[i], 0, "@ + dec_chars(v0 as nat) + ");\n"@ + "i += "@ + dec_chars(v1 as nat) + ";\n"@));
    }
}

fn emit_setcell(out: &mut String, v0: u128)
    ensures
        final(out)@ == old(out)@ + ("m[i] = "@ + dec_chars(v0 as nat) + ";\n"@),
{
    out.append("m[i] = ");
    append_decimal(out, v0);
    out.append(";\n");
    proof {
        assert(out@ =~= old(out)@ + ("m[i] = "@ + dec_chars(v0 as nat) + ";\n"@));
    }
}

fn emit_dupe(out: &mut String, v0: i128)
    requires
        v0 > i128::MIN,
    ensures
        final(out)@ == old(out)@ + ("m[i] = m[i + "@ + sdec_chars(v0 as int) + "];\n"@ + "m[++i] = 0;\n"@),
{
    out.append("m[i] = m[i + ");
    append_signed_decimal(out, v0);
    out.append("];\n");
    out.append("m[++i] = 0;\n");
    proof {
        assert(out@ =~= old(out)@ + ("m[i] = m[i + "@ + sdec_chars(v0 as int) + "];\n"@ + "m[++i] = 0;\n"@));
    }
}

fn emit_bitand(out: &mut String)
    ensures
        final(out)@ == old(out)@ + ("m[i - 7] &= m[i - 6];\n"@ + "m[i - 6] = 0;\n"@ + "i += 2;\n"@),
{
    out.append("m[i - 7] &= m[i - 6];\n");
    out.append("m[i - 6] = 0;\n");
    out.append("i += 2;\n");
    proof {
        assert(out@ =~= old(out)@ + ("m[i - 7] &= m[i - 6];\n"@ + "m[i - 6] = 0;\n"@ + "i += 2;\n"@));
    }
}

fn emit_wellbehaveddivmod(out: &mut String, v0: i128)
    requires
        v0 > i128::MIN,
    ensures
        final(out)@ == old(out)@ + ("if(m[i - 1] == 0){\n"@ + "m[i] = 0;\n"@ + "m[i + 1] = 0;\n"@ + "} else {\n"@ + "m[i] = m[i - 2] % m[i - 1];\n"@ + "m[i + 1] = m[i - 2] / m[i - 1];\n"@ + "}\n"@ + "m[i - 1] = m[i - 1] - m[i];\n"@ + "m[i - 2] = 0;\n"@ + "m[i + 2] = 0;\n"@ + "m[i + 3] = 0;\n"@ + "i += "@ + sdec_chars(v0 as int) + ";\n"@),
{
    out.append("if(m[i - 1] == 0){\n");
    out.append("m[i] = 0;\n");
    out.append("m[i + 1] = 0;\n");
    out.append("} else {\n");
    out.append("m[i] = m[i - 2] % m[i - 1];\n");
    out.append("m[i + 1] = m[i - 2] / m[i - 1];\n");
    out.append("}\n");
    out.append("m[i - 1] = m[i - 1] - m[i];\n");
    out.append("m[i - 2] = 0;\n");
    out.append("m[i + 2] = 0;\n");
    out.append("m[i + 3] = 0;\n");
    out.append("i += ");
    append_signed_decimal(out, v0);
    out.append(";\n");
    proof {
        assert(out@ =~= old(out)@ + ("if(m[i - 1] == 0){\n"@ + "m[i] = 0;\n"@ + "m[i + 1] = 0;\n"@ + "} else {\n"@ + "m[i] = m[i - 2] % m[i - 1];\n"@ + "m[i + 1] = m[i - 2] / m[i - 1];\n"@ + "}\n"@ + "m[i - 1] = m[i - 1] - m[i];\n"@ + "m[i - 2] = 0;\n"@ + "m[i + 2] = 0;\n"@ + "m[i + 3] = 0;\n"@ + "i += "@ + sdec_chars(v0 as int) + ";\n"@));
    }
}

fn emit_bitneg(out: &mut String)
    ensures
        final(out)@ == old(out)@ + ("m[i] = ~m[i];\n"@ + "m[++i] = 0;\n"@),
{
    out.append("m[i] = ~m[i];\n");
    out.append("m[++i] = 0;\n");
    proof {
        assert(out@ =~= old(out)@ + ("m[i] = ~m[i];\n"@ + "m[++i] = 0;\n"@));
    }
}

fn emit_equals(out: &mut String)
    ensures
        final(out)@ == old(out)@ + ("m[i] = (m[i] == m[i + 1]);\n"@ + "m[++i] = 0;\n"@),
{
    out.append("m[i] = (m[i] == m[i + 1]);\n");
    out.append("m[++i] = 0;\n");
    proof {
        assert(out@ =~= old(out)@ + ("m[i] = (m[i] == m[i + 1]);\n"@ + "m[++i] = 0;\n"@));
    }
}

fn emit_notequals(out: &mut String)
    ensures
        final(out)@ == old(out)@ + ("m[i] = (m[i] != m[i + 1]);\n"@ + "m[++i] = 0;\n"@),
{
    out.append("m[i] = (m[i] != m[i + 1]);\n");
    out.append("m[++i] = 0;\n");
    proof {
        assert(out@ =~= old(out)@ + ("m[i] = (m[i] != m[i + 1]);\n"@ + "m[++i] = 0;\n"@));
    }
}

fn emit_shiftleftlogical(out: &mut String)
    ensures
        final(out)@ == old(out)@ + ("m[i - 2] = (m[i - 1] >= 8) ? 0 : m[i - 2] << m[i - 1];\n"@ + "m[i - 1] = 0;\n"@ + "m[i--] = 0;\n"@),
{
    out.append("m[i - 2] = (m[i - 1] >= 8) ? 0 : m[i - 2] << m[i - 1];\n");
    out.append("m[i - 1] = 0;\n");
    out.append("m[i--] = 0;\n");
    proof {
        assert(out@ =~= old(out)@ + ("m[i - 2] = (m[i - 1] >= 8) ? 0 : m[i - 2] << m[i - 1];\n"@ + "m[i - 1] = 0;\n"@ + "m[i--] = 0;\n"@));
    }
}

fn emit_shiftrightlogical(out: &mut String)
    ensures
        final(out)@ == old(out)@ + ("m[i - 2] = (m[i - 1] >= 8) ? 0 : m[i - 2] >> m[i - 1];\n"@ + "memset(&m[--i], 0, 5);\n"@),
{
    out.append("m[i - 2] = (m[i - 1] >= 8) ? 0 : m[i - 2] >> m[i - 1];\n");
    out.append("memset(&m[--i], 0, 5);\n");
    proof {
        assert(out@ =~= old(out)@ + ("m[i - 2] = (m[i - 1] >= 8) ? 0 : m[i - 2] >> m[i - 1];\n"@ + "memset(&m[--i], 0, 5);\n"@));
    }
}

fn emit_lessthan(out: &mut String)
    ensures
        final(out)@ == old(out)@ + ("m[i - 2] = m[i - 2] < m[i - 1];\n"@ + "memset(&m[i - 1], 0, 3);\n"@),
{
    out.append("m[i - 2] = m[i - 2] < m[i - 1];\n");
    out.append("memset(&m[i - 1], 0, 3);\n");
    proof {
        assert(out@ =~= old(out)@ + ("m[i - 2] = m[i - 2] < m[i - 1];\n"@ + "memset(&m[i - 1], 0, 3);\n"@));
    }
}

fn emit_greaterthan(out: &mut String)
    ensures
        final(out)@ == old(out)@ + ("m[i - 2] = m[i - 2] > m[i - 1];\n"@ + "memset(&m[i - 1], 0, 3);\n"@),
{
    out.append("m[i - 2] = m[i - 2] > m[i - 1];\n");
    out.append("memset(&m[i - 1], 0, 3);\n");
    proof {
        assert(out@ =~= old(out)@ + ("m[i - 2] = m[i - 2] > m[i - 1];\n"@ + "memset(&m[i - 1], 0, 3);\n"@));
    }
}

fn emit_lessthanequal(out: &mut String)
    ensures
        final(out)@ == old(out)@ + ("m[i - 2] = m[i - 2] <= m[i - 1];\n"@ + "memset(&m[i - 1], 0, 3);\n"@),
{
    out.append("m[i - 2] = m[i - 2] <= m[i - 1];\n");
    out.append("memset(&m[i - 1], 0, 3);\n");
    proof {
        assert(out@ =~= old(out)@ + ("m[i - 2] = m[i - 2] <= m[i - 1];\n"@ + "memset(&m[i - 1], 0, 3);\n"@));
    }
}

fn emit_greaterthanequal(out: &mut String)
    ensures
        final(out)@ == old(out)@ + ("m[i - 2] = m[i - 2] >= m[i - 1];\n"@ + "memset(&m[i - 1], 0, 3);\n"@),
{
    out.append("m[i - 2] = m[i - 2] >= m[i - 1];\n");
    out.append("memset(&m[i - 1], 0, 3);\n");
    proof {
        assert(out@ =~= old(out)@ + ("m[i - 2] = m[i - 2] >= m[i - 1];\n"@ + "memset(&m[i - 1], 0, 3);\n"@));
    }
}

fn emit_moveadd(out: &mut String, v0: i128)
    requires
        v0 > i128::MIN,
    ensures
        final(out)@ == old(out)@ + ("m[i + "@ + sdec_chars(v0 as int) + "] += m[i];\n"@ + "m[i] = 0;\n"@),
{
    out.append("m[i + ");
    append_signed_decimal(out, v0);
    out.append("] += m[i];\n");
    out.append("m[i] = 0;\n");
    proof {
        assert(out@ =~= old(out)@ + ("m[i + "@ + sdec_chars(v0 as int) + "] += m[i];\n"@ + "m[i] = 0;\n"@));
    }
}

fn emit_moveset(out: &mut String, v0: i128)
    requires
        v0 > i128::MIN,
    ensures
        final(out)@ == old(out)@ + ("m[i + "@ + sdec_chars(v0 as int) + "] = m[i];\n"@ + "m[i] = 0;\n"@),
{
    out.append("m[i + ");
    append_signed_decimal(out, v0);
    out.append("] = m[i];\n");
    out.append("m[i] = 0;\n");
    proof {
        assert(out@ =~= old(out)@ + ("m[i + "@ + sdec_chars(v0 as int) + "] = m[i];\n"@ + "m[i] = 0;\n"@));
    }
}

fn emit_moveadd2(out: &mut String, v0: i128, v1: i128)
    requires
        v0 > i128::MIN,
        v1 > i128::MIN,
    ensures
        final(out)@ == old(out)@ + ("m[i + "@ + sdec_chars(v0 as int) + "] += m[i];\n"@ + "m[i + "@ + sdec_chars(v1 as int) + "] += m[i];\n"@ + "m[i] = 0;\n"@),
{
    out.append("m[i + ");
    append_signed_decimal(out, v0);
    out.append("] += m[i];\n");
    out.append("m[i + ");
    append_signed_decimal(out, v1);
    out.append("] += m[i];\n");
    out.append("m[i] = 0;\n");
    proof {
        assert(out@ =~= old(out)@ + ("m[i + "@ + sdec_chars(v0 as int) + "] += m[i];\n"@ + "m[i + "@ + sdec_chars(v1 as int) + "] += m[i];\n"@ + "m[i] = 0;\n"@));
    }
}

fn emit_movecelldynamicu8(out: &mut String, v0: u128)
    ensures
        final(out)@ == old(out)@ + ("m[i - "@ + dec_chars(v0 as nat) + " + m[i - 1]] = m[i - 2];\n"@ + "m[i - 2] = m[i - 1];\n"@ + "i -= 2;\n"@),
{
    out.append("m[i - ");
    append_decimal(out, v0);
    out.append(" + m[i - 1]] = m[i - 2];\n");
    out.append("m[i - 2] = m[i - 1];\n");
    out.append("i -= 2;\n");
    proof {
        assert(out@ =~= old(out)@ + ("m[i - "@ + dec_chars(v0 as nat) + " + m[i - 1]] = m[i - 2];\n"@ + "m[i - 2] = m[i - 1];\n"@ + "i -= 2;\n"@));
    }
}

fn emit_movecelldynamicu16(out: &mut String, v0: u128)
    ensures
        final(out)@ == old(out)@ + ("m[  i - "@ + dec_chars(v0 as nat) + " + (size_t) m[i - 2] | ((size_t) m[i - 1] << 8)  ] = m[i - 3];\n"@ + "m[i - 3] = m[i - 2];\n"@ + "m[i - 2] = m[i - 1];\n"@ + "i -= 3;\n"@),
{
    out.append("m[  i - ");
    append_decimal(out, v0);
    out.append(" + (size_t) m[i - 2] | ((size_t) m[i - 1] << 8)  ] = m[i - 3];\n");
    out.append("m[i - 3] = m[i - 2];\n");
    out.append("m[i - 2] = m[i - 1];\n");
    out.append("i -= 3;\n");
    proof {
        assert(out@ =~= old(out)@ + ("m[  i - "@ + dec_chars(v0 as nat) + " + (size_t) m[i - 2] | ((size_t) m[i - 1] << 8)  ] = m[i - 3];\n"@ + "m[i - 3] = m[i - 2];\n"@ + "m[i - 2] = m[i - 1];\n"@ + "i -= 3;\n"@));
    }
}

fn emit_copycelldynamicu8(out: &mut String, v0: u128)
    ensures
        final(out)@ == old(out)@ + ("m[i - 1] = m[  i - "@ + dec_chars(v0 as nat) + " + m[i - 1]  ];\n"@),
{
    out.append("m[i - 1] = m[  i - ");
    append_decimal(out, v0);
    out.append(" + m[i - 1]  ];\n");
    proof {
        assert(out@ =~= old(out)@ + ("m[i - 1] = m[  i - "@ + dec_chars(v0 as nat) + " + m[i - 1]  ];\n"@));
    }
}

fn emit_movecelldynamicu32(out: &mut String, v0: u128)
    ensures
        final(out)@ == old(out)@ + ("m[  i - "@ + dec_chars(v0 as nat) + " + (size_t) m[i - 4] | ((size_t) m[i - 3] << 8) | ((size_t) m[i - 2] << 16) | ((size_t) m[i - 1] << 24)  ] = m[i - 5];\n"@ + "m[i - 5] = m[i - 4];\n"@ + "m[i - 4] = m[i - 3];\n"@ + "m[i - 3] = m[i - 2];\n"@ + "m[i - 2] = m[i - 1];\n"@ + "i -= 5;\n"@),
{
    out.append("m[  i - ");
    append_decimal(out, v0);
    out.append(" + (size_t) m[i - 4] | ((size_t) m[i - 3] << 8) | ((size_t) m[i - 2] << 16) | ((size_t) m[i - 1] << 24)  ] = m[i - 5];\n");
    out.append("m[i - 5] = m[i - 4];\n");
    out.append("m[i - 4] = m[i - 3];\n");
    out.append("m[i - 3] = m[i - 2];\n");
    out.append("m[i - 2] = m[i - 1];\n");
    out.append("i -= 5;\n");
    proof {
        assert(out@ =~= old(out)@ + ("m[  i - "@ + dec_chars(v0 as nat) + " + (size_t) m[i - 4] | ((size_t) m[i - 3] << 8) | ((size_t) m[i - 2] << 16) | ((size_t) m[i - 1] << 24)  ] = m[i - 5];\n"@ + "m[i - 5] = m[i - 4];\n"@ + "m[i - 4] = m[i - 3];\n"@ + "m[i - 3] = m[i - 2];\n"@ + "m[i - 2] = m[i - 1];\n"@ + "i -= 5;\n"@));
    }
}

fn emit_copycelldynamicu32(out: &mut String, v0: u128)
    ensures
        final(out)@ == old(out)@ + ("m[i - 4] = m[  i - "@ + dec_chars(v0 as nat) + " + (size_t) m[i - 4] | ((size_t) m[i - 3] << 8) | ((size_t) m[i - 2] << 16) | ((size_t) m[i - 1] << 24)  ];\n"@ + "i -= 3;\n"@),
{
    out.append("m[i - 4] = m[  i - ");
    append_decimal(out, v0);
    out.append(" + (size_t) m[i - 4] | ((size_t) m[i - 3] << 8) | ((size_t) m[i - 2] << 16) | ((size_t) m[i - 1] << 24)  ];\n");
    out.append("i -= 3;\n");
    proof {
        assert(out@ =~= old(out)@ + ("m[i - 4] = m[  i - "@ + dec_chars(v0 as nat) + " + (size_t) m[i - 4] | ((size_t) m[i - 3] << 8) | ((size_t) m[i - 2] << 16) | ((size_t) m[i - 1] << 24)  ];\n"@ + "i -= 3;\n"@));
    }
}

/// Append the C statements for one instruction, or report why it cannot be
/// lowered, leaving the text untouched.
#[verifier::rlimit(100)]
#[verifier::spinoff_prover]
fn emit_op(out: &mut String, op: &InterpreterOp) -> (r: Result<(), TranspileError>)
    ensures
        match r {
            Result::Ok(()) => op_ok(*op) && final(out)@ == old(out)@ + c_op(*op),
            Result::Err(e) => !op_ok(*op) && final(out)@ == old(out)@ && e == op_err(*op),
        },
{
    match op {
            InterpreterOp::LoopStart(_) => {
                emit_loopstart(out);
                proof {
                    assert(out@ =~= old(out)@ + c_op(*op));
                }
                Result::Ok(())
            },
            InterpreterOp::LoopEnd(_) => {
                emit_loopend(out);
                proof {
                    assert(out@ =~= old(out)@ + c_op(*op));
                }
                Result::Ok(())
            },
            InterpreterOp::CompoundOp(CompoundOp::BasicOp(BasicOp::ChangeBy(a))) => {
                emit_changeby(out, *a as u128);
                proof {
                    assert(out@ =~= old(out)@ + c_op(*op));
                }
                Result::Ok(())
            },
            InterpreterOp::CompoundOp(CompoundOp::Panic(v)) => {
                emit_panic(out, *v as u128);
                proof {
                    assert(out@ =~= old(out)@ + c_op(*op));
                }
                Result::Ok(())
            },
            InterpreterOp::CompoundOp(CompoundOp::Zero) => {
                emit_zero(out);
                proof {
                    assert(out@ =~= old(out)@ + c_op(*op));
                }
                Result::Ok(())
            },
            InterpreterOp::CompoundOp(CompoundOp::ZeroAdvance(n)) => {
                emit_zeroadvance(out, *n as u128, *n as u128);
                proof {
                    assert(out@ =~= old(out)@ + c_op(*op));
                }
                Result::Ok(())
            },
            InterpreterOp::CompoundOp(CompoundOp::SetCell(v)) => {
                emit_setcell(out, *v as u128);
                proof {
                    assert(out@ =~= old(out)@ + c_op(*op));
                }
                Result::Ok(())
            },
            InterpreterOp::CompoundOp(CompoundOp::Dupe(o)) => {
                emit_dupe(out, *o as i128);
                proof {
                    assert(out@ =~= old(out)@ + c_op(*op));
                }
                Result::Ok(())
            },
            InterpreterOp::CompoundOp(CompoundOp::BitAnd) => {
                emit_bitand(out);
                proof {
                    assert(out@ =~= old(out)@ + c_op(*op));
                }
                Result::Ok(())
            },
            InterpreterOp::CompoundOp(CompoundOp::WellBehavedDivMod(sh)) => {
                emit_wellbehaveddivmod(out, *sh as i128);
                proof {
                    assert(out@ =~= old(out)@ + c_op(*op));
                }
                Result::Ok(())
            },
            InterpreterOp::CompoundOp(CompoundOp::BitNeg) => {
                emit_bitneg(out);
                proof {
                    assert(out@ =~= old(out)@ + c_op(*op));
                }
                Result::Ok(())
            },
            InterpreterOp::CompoundOp(CompoundOp::Equals) => {
                emit_equals(out);
                proof {
                    assert(out@ =~= old(out)@ + c_op(*op));
                }
                Result::Ok(())
            },
            InterpreterOp::CompoundOp(CompoundOp::NotEquals) => {
                emit_notequals(out);
                proof {
                    assert(out@ =~= old(out)@ + c_op(*op));
                }
                Result::Ok(())
            },
            InterpreterOp::CompoundOp(CompoundOp::ShiftLeftLogical) => {
                emit_shiftleftlogical(out);
                proof {
                    assert(out@ =~= old(out)@ + c_op(*op));
                }
                Result::Ok(())
            },
            InterpreterOp::CompoundOp(CompoundOp::ShiftRightLogical) => {
                emit_shiftrightlogical(out);
                proof {
                    assert(out@ =~= old(out)@ + c_op(*op));
                }
                Result::Ok(())
            },
            InterpreterOp::CompoundOp(CompoundOp::LessThan) => {
                emit_lessthan(out);
                proof {
                    assert(out@ =~= old(out)@ + c_op(*op));
                }
                Result::Ok(())
            },
            InterpreterOp::CompoundOp(CompoundOp::GreaterThan) => {
                emit_greaterthan(out);
                proof {
                    assert(out@ =~= old(out)@ + c_op(*op));
                }
                Result::Ok(())
            },
            InterpreterOp::CompoundOp(CompoundOp::LessThanEqual) => {
                emit_lessthanequal(out);
                proof {
                    assert(out@ =~= old(out)@ + c_op(*op));
                }
                Result::Ok(())
            },
            InterpreterOp::CompoundOp(CompoundOp::GreaterThanEqual) => {
                emit_greaterthanequal(out);
                proof {
                    assert(out@ =~= old(out)@ + c_op(*op));
                }
                Result::Ok(())
            },
            InterpreterOp::CompoundOp(CompoundOp::MoveAdd(o)) => {
                emit_moveadd(out, *o as i128);
                proof {
                    assert(out@ =~= old(out)@ + c_op(*op));
                }
                Result::Ok(())
            },
            InterpreterOp::CompoundOp(CompoundOp::MoveSet(o)) => {
                emit_moveset(out, *o as i128);
                proof {
                    assert(out@ =~= old(out)@ + c_op(*op));
                }
                Result::Ok(())
            },
            InterpreterOp::CompoundOp(CompoundOp::MoveAdd2(o1, o2)) => {
                emit_moveadd2(out, *o1 as i128, *o2 as i128);
                proof {
                    assert(out@ =~= old(out)@ + c_op(*op));
                }
                Result::Ok(())
            },
            InterpreterOp::CompoundOp(CompoundOp::MoveCellDynamicU8(o)) => {
                emit_movecelldynamicu8(out, 3u128 + *o as u128);
                proof {
                    assert(out@ =~= old(out)@ + c_op(*op));
                }
                Result::Ok(())
            },
            InterpreterOp::CompoundOp(CompoundOp::MoveCellDynamicU16(o)) => {
                emit_movecelldynamicu16(out, *o as u128);
                proof {
                    assert(out@ =~= old(out)@ + c_op(*op));
                }
                Result::Ok(())
            },
            InterpreterOp::CompoundOp(CompoundOp::CopyCellDynamicU8(o)) => {
                emit_copycelldynamicu8(out, *o as u128 + 1);
                proof {
                    assert(out@ =~= old(out)@ + c_op(*op));
                }
                Result::Ok(())
            },
            InterpreterOp::CompoundOp(CompoundOp::MoveCellDynamicU32(o)) => {
                emit_movecelldynamicu32(out, *o as u128);
                proof {
                    assert(out@ =~= old(out)@ + c_op(*op));
                }
                Result::Ok(())
            },
            InterpreterOp::CompoundOp(CompoundOp::CopyCellDynamicU32(o)) => {
                emit_copycelldynamicu32(out, *o as u128);
                proof {
                    assert(out@ =~= old(out)@ + c_op(*op));
                }
                Result::Ok(())
            },
        InterpreterOp::CompoundOp(CompoundOp::BasicOp(BasicOp::Shift(a))) => {
            if *a >= 0 {
                out.append("i += ");
                append_decimal(out, *a as u128);
                out.append(";\n");
            } else {
                out.append("i -= ");
                append_decimal(out, (-(*a as i128)) as u128);
                out.append(";\n");
            }
            proof {
                assert(out@ =~= old(out)@ + c_op(*op));
            }
            Result::Ok(())
        },
        InterpreterOp::CompoundOp(CompoundOp::BasicOp(BasicOp::Input(k))) => {
            let mut j: u64 = 0;
            while j < *k
                invariant
                    j <= *k,
                    out@ == old(out)@ + repeat_text("m[i] = get();\n"@, j as nat),
                decreases *k - j,
            {
                out.append("m[i] = get();\n");
                j = j + 1;
                proof {
                    lemma_repeat_text_snoc("m[i] = get();\n"@, j as nat);
                    assert(out@ =~= old(out)@ + repeat_text("m[i] = get();\n"@, j as nat));
                }
            }
            Result::Ok(())
        },
        InterpreterOp::CompoundOp(CompoundOp::BasicOp(BasicOp::Output(k))) => {
            let mut j: u64 = 0;
            while j < *k
                invariant
                    j <= *k,
                    out@ == old(out)@ + repeat_text("put(m[i]);\n"@, j as nat),
                decreases *k - j,
            {
                out.append("put(m[i]);\n");
                j = j + 1;
                proof {
                    lemma_repeat_text_snoc("put(m[i]);\n"@, j as nat);
                    assert(out@ =~= old(out)@ + repeat_text("put(m[i]);\n"@, j as nat));
                }
            }
            out.append("fflush(stdout);\n");
            proof {
                assert(out@ =~= old(out)@ + c_op(*op));
            }
            Result::Ok(())
        },
        InterpreterOp::CompoundOp(CompoundOp::BasicOp(BasicOp::LoopStart)) => Result::Err(
            TranspileError::UnprocessedLoop,
        ),
        InterpreterOp::CompoundOp(CompoundOp::BasicOp(BasicOp::LoopEnd)) => Result::Err(
            TranspileError::UnprocessedLoop,
        ),
        InterpreterOp::CompoundOp(CompoundOp::ZeroRetreat(n)) => {
            let back: u128 = if *n == 0 {
                0
            } else {
                *n as u128 - 1
            };
            out.append("memset(&m[i - ");
            append_decimal(out, back);
            out.append("], 0, ");
            append_decimal(out, *n as u128);
            out.append(");\n");
            out.append("i -= ");
            append_decimal(out, *n as u128);
            out.append(";\n");
            proof {
                assert(out@ =~= old(out)@ + c_op(*op));
            }
            Result::Ok(())
        },
        InterpreterOp::CompoundOp(CompoundOp::PrintStatic(bytes)) => {
            if bytes.len() == 0 {
                return Result::Err(TranspileError::EmptyPrint);
            }
            let mut j: usize = 0;
            while j < bytes.len()
                invariant
                    j <= bytes@.len(),
                    out@ == old(out)@ + puts_text(bytes@.take(j as int)),
                decreases bytes@.len() - j,
            {
                out.append("put(");
                append_decimal(out, bytes[j] as u128);
                out.append(");\n");
                j = j + 1;
                proof {
                    lemma_puts_text_snoc(bytes@, j as int);
                    assert(out@ =~= old(out)@ + puts_text(bytes@.take(j as int)));
                }
            }
            proof {
                assert(bytes@.take(bytes@.len() as int) =~= bytes@);
            }
            out.append("fflush(stdout);\n");
            let last = bytes[bytes.len() - 1];
            out.append("m[i] = ");
            append_decimal(out, last as u128);
            out.append(";\n");
            proof {
                assert(out@ =~= old(out)@ + c_op(*op));
            }
            Result::Ok(())
        },
        InterpreterOp::CompoundOp(CompoundOp::MoveCellsStaticReverse(o, n)) => {
            let back: u128 = if *n == 0 {
                0
            } else {
                *n as u128 - 1
            };
            out.append("memmove(&m[i + ");
            append_signed_decimal(out, *o as i128 - *n as i128 + 1);
            out.append("], &m[i - ");
            append_decimal(out, back);
            out.append("], ");
            append_decimal(out, *n as u128);
            out.append(");\n");
            out.append("i -= ");
            append_decimal(out, *n as u128);
            out.append(";\n");
            proof {
                assert(out@ =~= old(out)@ + c_op(*op));
            }
            Result::Ok(())
        },
    }
}

proof fn lemma_repeat_text_snoc(t: Seq<char>, k: nat)
    requires
        k >= 1,
    ensures
        repeat_text(t, k) == repeat_text(t, (k - 1) as nat) + t,
    decreases k,
{
    if k == 1 {
        assert(repeat_text(t, 1) =~= repeat_text(t, 0) + t);
    } else {
        lemma_repeat_text_snoc(t, (k - 1) as nat);
        assert(repeat_text(t, k) =~= repeat_text(t, (k - 1) as nat) + t);
    }
}

proof fn lemma_puts_text_snoc(bytes: Seq<u8>, n: int)
    requires
        1 <= n <= bytes.len(),
    ensures
        puts_text(bytes.take(n)) == puts_text(bytes.take(n - 1)) + ("put("@ + dec_chars(
            bytes[n - 1] as nat,
        ) + ");\n"@),
    decreases n,
{
    if n == 1 {
        assert(bytes.take(1).drop_first() =~= Seq::<u8>::empty());
        assert(bytes.take(0) =~= Seq::<u8>::empty());
        assert(puts_text(bytes.take(1)) =~= puts_text(bytes.take(0)) + ("put("@ + dec_chars(
            bytes[0] as nat,
        ) + ");\n"@));
    } else {
        let rest = bytes.drop_first();
        lemma_puts_text_snoc(rest, n - 1);
        assert(bytes.take(n).drop_first() =~= rest.take(n - 1));
        assert(bytes.take(n - 1).drop_first() =~= rest.take(n - 2));
        assert(puts_text(bytes.take(n)) =~= puts_text(bytes.take(n - 1)) + ("put("@ + dec_chars(
            bytes[n - 1] as nat,
        ) + ");\n"@));
    }
}

/// Lower a linearized program to a self-contained C translation unit over an
/// identically sized tape. Each instruction becomes the statements `c_op`
/// gives it; a raw loop token or an empty static print is refused.
pub fn transpile_c(ops: &[InterpreterOp]) -> (r: Result<String, TranspileError>)
    ensures
        r matches Result::Ok(text) ==> (forall|i: int| 0 <= i < ops@.len() ==> op_ok(ops@[i]))
            && text@ == c_source(ops@),
        r matches Result::Err(e) ==> exists|i: int|
            0 <= i < ops@.len() && !op_ok(ops@[i]) && e == op_err(ops@[i]) && (forall|j: int|
                0 <= j < i ==> op_ok(ops@[j])),
{
    let mut out = String::new();
    out.append("#include <stdio.h>\n");
    out.append("#include <stdlib.h>\n");
    out.append("#include <string.h>\n");
    out.append("static inline void put(unsigned char c){ putchar((char) c); }\n");
    out.append(
        "static inline unsigned char get(void){ char c = getc(stdin); return c != EOF ? (unsigned char) c : 0; }\n",
    );
    out.append("int main(){\n");
    out.append("unsigned char *m = malloc(");
    append_decimal(&mut out, CELL_COUNT as u128);
    out.append(");\n");
    out.append("size_t i = 0;\n");
    out.append("memset(m, 0, ");
    append_decimal(&mut out, CELL_COUNT as u128);
    out.append(");\n");
    proof {
        assert(out@ =~= c_header());
    }
    let mut i: usize = 0;
    while i < ops.len()
        invariant
            i <= ops@.len(),
            out@ == c_header() + c_ops_text(ops@.take(i as int)),
            forall|j: int| 0 <= j < i ==> op_ok(ops@[j]),
        decreases ops@.len() - i,
    {
        let op = vstd::slice::slice_index_get(ops, i);
        let emitted = emit_op(&mut out, op);
        match emitted {
            Result::Ok(()) => {
                i = i + 1;
                proof {
                    lemma_c_ops_text_snoc(ops@, i as int - 1);
                    assert(out@ =~= c_header() + c_ops_text(ops@.take(i as int)));
                }
            },
            Result::Err(e) => {
                return Result::Err(e);
            },
        }
    }
    proof {
        assert(ops@.take(ops@.len() as int) =~= ops@);
    }
    out.append("free(m);\n");
    out.append("return 0;\n");
    out.append("}\n");
    proof {
        assert(out@ =~= c_source(ops@));
    }
    Result::Ok(out)
}

} // verus!
