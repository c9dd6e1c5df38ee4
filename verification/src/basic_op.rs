use vstd::prelude::*;

verus! {

/// A coalesced primitive operation of the tape language.
///
/// `ChangeBy` adds to the current cell (mod 256), `Shift` moves the head,
/// `Input`/`Output` read or write the current cell the given number of times,
/// and the loop tokens delimit `[` ... `]` loops.
#[derive(Copy, Clone, Debug, PartialEq, Eq, Structural)]
pub enum BasicOp {
    ChangeBy(u8),
    Shift(i64),
    LoopStart,
    LoopEnd,
    Input(u64),
    Output(u64),
}

/// A parse error: the input held a byte that is neither an operator,
/// a digit, nor accepted whitespace.
#[derive(Copy, Clone, Debug, PartialEq, Eq, Structural)]
pub enum ParseError {
    InvalidCharacter,
}

/// The streaming lexer-accumulator: it turns source bytes into `BasicOp`s,
/// applying run-length prefixes and coalescing adjacent ops of the same kind.
pub struct BasicOpAcc {
    /// The op being coalesced; emitted when an op of another kind arrives.
    pub building: Option<BasicOp>,
    /// Loop tokens still owed from a run-length prefix on `[` or `]`.
    pub trailing: Option<(BasicOp, u64)>,
    /// The pending run-length prefix accumulated from digits.
    pub number: Option<u64>,
}

pub open spec fn can_merge(a: BasicOp, b: BasicOp) -> bool {
    match (a, b) {
        (BasicOp::ChangeBy(_), BasicOp::ChangeBy(_)) => true,
        (BasicOp::Shift(_), BasicOp::Shift(_)) => true,
        (BasicOp::Input(_), BasicOp::Input(_)) => true,
        (BasicOp::Output(_), BasicOp::Output(_)) => true,
        _ => false,
    }
}

pub open spec fn sat_add_i64(a: i64, b: i64) -> i64 {
    if a + b > i64::MAX {
        i64::MAX
    } else if a + b < i64::MIN {
        i64::MIN
    } else {
        (a + b) as i64
    }
}

/// Coalescing two ops of the same kind: wrapping for `ChangeBy`,
/// saturating in the payload's domain for the others.
pub open spec fn merged(a: BasicOp, b: BasicOp) -> BasicOp {
    match (a, b) {
        (BasicOp::ChangeBy(x), BasicOp::ChangeBy(y)) => BasicOp::ChangeBy(x.wrapping_add(y)),
        (BasicOp::Shift(x), BasicOp::Shift(y)) => BasicOp::Shift(sat_add_i64(x, y)),
        (BasicOp::Input(x), BasicOp::Input(y)) => BasicOp::Input(x.saturating_add(y)),
        (BasicOp::Output(x), BasicOp::Output(y)) => BasicOp::Output(x.saturating_add(y)),
        _ => a,
    }
}

/// Coalesced ops that cancelled out are dropped before being emitted.
pub open spec fn spec_filter(op: BasicOp) -> Option<BasicOp> {
    match op {
        BasicOp::Shift(s) => if s == 0 { Option::None } else { Option::Some(op) },
        BasicOp::ChangeBy(c) => if c == 0 { Option::None } else { Option::Some(op) },
        _ => Option::Some(op),
    }
}

/// One step of the coalescer: the new in-progress op and the op emitted, if any.
pub open spec fn feed_step(building: Option<BasicOp>, op: BasicOp) -> (Option<BasicOp>, Option<
    BasicOp,
>) {
    match building {
        Option::None => (Option::Some(op), Option::None),
        Option::Some(cur) => if can_merge(cur, op) {
            (Option::Some(merged(cur, op)), Option::None)
        } else {
            (Option::Some(op), spec_filter(cur))
        },
    }
}

pub open spec fn is_whitespace_byte(b: u8) -> bool {
    b == 32 || b == 10
}

pub open spec fn is_digit_byte(b: u8) -> bool {
    48 <= b && b <= 57
}

pub open spec fn is_operator_byte(b: u8) -> bool {
    b == 43 || b == 45 || b == 60 || b == 62 || b == 91 || b == 93 || b == 44 || b == 46
}

/// A run-length count capped to the magnitude an `i64` shift can hold.
pub open spec fn shift_magnitude(k: u64) -> i64 {
    if k > i64::MAX as u64 {
        i64::MAX
    } else {
        k as i64
    }
}

/// The op synthesized for an operator byte with run-length `k`.
pub open spec fn synth_op(b: u8, k: u64) -> BasicOp
    recommends
        is_operator_byte(b),
{
    if b == 43 {
        BasicOp::ChangeBy(k as u8)
    } else if b == 45 {
        BasicOp::ChangeBy((0u8).wrapping_sub(k as u8))
    } else if b == 60 {
        BasicOp::Shift((0i64).wrapping_sub(shift_magnitude(k)))
    } else if b == 62 {
        BasicOp::Shift(shift_magnitude(k))
    } else if b == 91 {
        BasicOp::LoopStart
    } else if b == 93 {
        BasicOp::LoopEnd
    } else if b == 44 {
        BasicOp::Input(k)
    } else {
        BasicOp::Output(k)
    }
}

/// Accumulating one more decimal digit onto the pending run-length count,
/// saturating at the domain's top.
pub open spec fn grow_number(n: Option<u64>, digit: u64) -> u64 {
    let base: u64 = match n {
        Option::Some(c) => c,
        Option::None => 0,
    };
    if base > (u64::MAX - digit) / 10 {
        u64::MAX
    } else {
        (10 * base + digit) as u64
    }
}

impl BasicOpAcc {
    pub fn new() -> (r: Self)
        ensures
            r.building == Option::<BasicOp>::None,
            r.trailing == Option::<(BasicOp, u64)>::None,
            r.number == Option::<u64>::None,
    {
        Self { building: Option::None, trailing: Option::None, number: Option::None }
    }

    /// Feed one op into the coalescer; an op of another kind flushes the
    /// in-progress op (after filtering out cancelled ones).
    pub fn feed(&mut self, op: BasicOp) -> (r: Option<BasicOp>)
        ensures
            final(self).building == feed_step(old(self).building, op).0,
            r == feed_step(old(self).building, op).1,
            final(self).trailing == old(self).trailing,
            final(self).number == old(self).number,
    {
        match (self.building, op) {
            (Option::None, _) => {
                self.building = Option::Some(op);
                Option::None
            },
            (Option::Some(BasicOp::ChangeBy(current)), BasicOp::ChangeBy(new)) => {
                self.building = Option::Some(BasicOp::ChangeBy(current.wrapping_add(new)));
                Option::None
            },
            (Option::Some(BasicOp::Shift(current)), BasicOp::Shift(new)) => {
                let sum = match current.checked_add(new) {
                    Option::Some(s) => s,
                    Option::None => if new > 0 {
                        i64::MAX
                    } else {
                        i64::MIN
                    },
                };
                self.building = Option::Some(BasicOp::Shift(sum));
                Option::None
            },
            (Option::Some(BasicOp::Input(current)), BasicOp::Input(new)) => {
                self.building = Option::Some(BasicOp::Input(current.saturating_add(new)));
                Option::None
            },
            (Option::Some(BasicOp::Output(current)), BasicOp::Output(new)) => {
                self.building = Option::Some(BasicOp::Output(current.saturating_add(new)));
                Option::None
            },
            (Option::Some(cur), _) => {
                self.building = Option::Some(op);
                Self::filter(cur)
            },
        }
    }

    /// Feed one source byte: whitespace is skipped, digits build the pending
    /// count, operators synthesize an op, anything else is an error.
    pub fn feed_byte(&mut self, byte: u8) -> (r: Result<Option<BasicOp>, ParseError>)
        ensures
            r is Err <==> !(is_whitespace_byte(byte) || is_digit_byte(byte) || is_operator_byte(
                byte,
            )),
            is_whitespace_byte(byte) ==> *final(self) == *old(self) && r == Result::<
                Option<BasicOp>,
                ParseError,
            >::Ok(Option::None),
            r is Err ==> *final(self) == *old(self),
            is_digit_byte(byte) ==> *final(self) == (BasicOpAcc {
                number: Option::Some(grow_number(old(self).number, (byte - 48) as u64)),
                ..*old(self)
            }) && r == Result::<Option<BasicOp>, ParseError>::Ok(Option::None),
            is_operator_byte(byte) ==> ({
                let k = match old(self).number {
                    Option::Some(c) => c,
                    Option::None => 1u64,
                };
                let op = synth_op(byte, k);
                &&& final(self).number == Option::<u64>::None
                &&& final(self).building == feed_step(old(self).building, op).0
                &&& r == Result::<Option<BasicOp>, ParseError>::Ok(
                    feed_step(old(self).building, op).1,
                )
                &&& final(self).trailing == (if (byte == 91 || byte == 93) && k > 1 {
                    Option::Some((op, (k - 1) as u64))
                } else {
                    old(self).trailing
                })
            }),
    {
        match byte {
            32 | 10 => {
                return Result::Ok(Option::None);
            },
            _ => (),
        }
        let count: u64 = match self.number {
            Option::Some(c) => c,
            Option::None => 1,
        };
        let op: BasicOp = match byte {
            43 => BasicOp::ChangeBy(count as u8),
            45 => BasicOp::ChangeBy((0u8).wrapping_sub(count as u8)),
            91 => {
                let op = BasicOp::LoopStart;
                if count > 1 {
                    self.trailing = Option::Some((op, count - 1));
                }
                op
            },
            93 => {
                let op = BasicOp::LoopEnd;
                if count > 1 {
                    self.trailing = Option::Some((op, count - 1));
                }
                op
            },
            60 => {
                let magnitude: i64 = if count > i64::MAX as u64 {
                    i64::MAX
                } else {
                    count as i64
                };
                BasicOp::Shift((0i64).wrapping_sub(magnitude))
            },
            62 => {
                let magnitude: i64 = if count > i64::MAX as u64 {
                    i64::MAX
                } else {
                    count as i64
                };
                BasicOp::Shift(magnitude)
            },
            44 => BasicOp::Input(count),
            46 => BasicOp::Output(count),
            48..=57 => {
                let digit = (byte - 48) as u64;
                let base: u64 = match self.number {
                    Option::Some(c) => c,
                    Option::None => 0,
                };
                let grown: u64 = if base > (u64::MAX - digit) / 10 {
                    u64::MAX
                } else {
                    10 * base + digit
                };
                self.number = Option::Some(grown);
                return Result::Ok(Option::None);
            },
            _ => {
                return Result::Err(ParseError::InvalidCharacter);
            },
        };
        self.number = Option::None;
        Result::Ok(self.feed(op))
    }

    /// Drain one loop token still owed from a run-length prefix.
    pub fn continued(&mut self) -> (r: Option<BasicOp>)
        ensures
            final(self).building == old(self).building,
            final(self).number == old(self).number,
            match old(self).trailing {
                Option::None => r == Option::<BasicOp>::None && final(self).trailing == old(
                    self,
                ).trailing,
                Option::Some((op, count)) => {
                    if count == 0 {
                        r == Option::<BasicOp>::None && final(self).trailing == Option::<
                            (BasicOp, u64),
                        >::None
                    } else if count == 1 {
                        r == Option::Some(op) && final(self).trailing == Option::<
                            (BasicOp, u64),
                        >::None
                    } else {
                        r == Option::Some(op) && final(self).trailing == Option::Some(
                            (op, (count - 1) as u64),
                        )
                    }
                },
            },
    {
        match self.trailing {
            Option::Some((_, 0)) => {
                self.trailing = Option::None;
                Option::None
            },
            Option::Some((op, 1)) => {
                self.trailing = Option::None;
                Option::Some(op)
            },
            Option::Some((op, count)) => {
                self.trailing = Option::Some((op, count - 1));
                Option::Some(op)
            },
            Option::None => Option::None,
        }
    }

    /// Drop a coalesced op that cancelled out to nothing.
    pub fn filter(op: BasicOp) -> (r: Option<BasicOp>)
        ensures
            r == spec_filter(op),
    {
        match op {
            BasicOp::Shift(0i64) => Option::None,
            BasicOp::ChangeBy(0u8) => Option::None,
            _ => Option::Some(op),
        }
    }

    /// Flush one pending op at end of input: first the in-progress op,
    /// then any loop tokens still owed.
    pub fn finalize(&mut self) -> (r: Option<BasicOp>)
        ensures
            final(self).number == old(self).number,
            final(self).building == Option::<BasicOp>::None,
            match old(self).building {
                Option::Some(cur) => {
                    if spec_filter(cur) is Some {
                        r == spec_filter(cur) && final(self).trailing == old(self).trailing
                    } else {
                        continued_step(old(self).trailing, r, final(self).trailing)
                    }
                },
                Option::None => continued_step(old(self).trailing, r, final(self).trailing),
            },
    {
        let previous = self.building;
        self.building = Option::None;
        let built = match previous {
            Option::Some(cur) => Self::filter(cur),
            Option::None => Option::None,
        };
        match built {
            Option::Some(_) => built,
            Option::None => self.continued(),
        }
    }
}

/// What one `continued` call does: relates the old trailing state to the
/// returned op and the new trailing state.
pub open spec fn continued_step(
    trailing: Option<(BasicOp, u64)>,
    r: Option<BasicOp>,
    new_trailing: Option<(BasicOp, u64)>,
) -> bool {
    match trailing {
        Option::None => r == Option::<BasicOp>::None && new_trailing == trailing,
        Option::Some((op, count)) => {
            if count == 0 {
                r == Option::<BasicOp>::None && new_trailing == Option::<(BasicOp, u64)>::None
            } else if count == 1 {
                r == Option::Some(op) && new_trailing == Option::<(BasicOp, u64)>::None
            } else {
                r == Option::Some(op) && new_trailing == Option::Some((op, (count - 1) as u64))
            }
        },
    }
}


/// The ASCII decimal digits of `n`.
pub open spec fn dec_bytes(n: nat) -> Seq<u8>
    decreases n,
{
    if n < 10 {
        seq![(48 + n) as u8]
    } else {
        dec_bytes(n / 10).push((48 + n % 10) as u8)
    }
}

/// A run-length count and its operator symbol, with the count left off
/// when it is one.
pub open spec fn render_count(k: u64, sym: u8) -> Seq<u8> {
    if k == 1 {
        seq![sym]
    } else {
        dec_bytes(k as nat).push(sym)
    }
}

/// The textual form of one coalesced op, with minimal run-length: the form
/// the lexer parses back. Cancelled ops render as nothing.
pub open spec fn render_op(op: BasicOp) -> Seq<u8> {
    match op {
        BasicOp::ChangeBy(a) => if a > 128 {
            render_count((256 - a) as u64, 45)
        } else if a > 0 {
            render_count(a as u64, 43)
        } else {
            Seq::empty()
        },
        BasicOp::Shift(a) => if a > 0 {
            render_count(a as u64, 62)
        } else if a < 0 {
            render_count((-(a as int)) as u64, 60)
        } else {
            Seq::empty()
        },
        BasicOp::LoopStart => seq![91u8],
        BasicOp::LoopEnd => seq![93u8],
        BasicOp::Input(c) => render_count(c, 44),
        BasicOp::Output(c) => render_count(c, 46),
    }
}

/// The textual form of a whole op stream.
pub open spec fn render_ops(ops: Seq<BasicOp>) -> Seq<u8>
    decreases ops.len(),
{
    if ops.len() == 0 {
        Seq::empty()
    } else {
        render_op(ops[0]) + render_ops(ops.drop_first())
    }
}

/// Append the ASCII decimal digits of `n`.
fn push_dec_bytes(out: &mut Vec<u8>, n: u64)
    ensures
        final(out)@ == old(out)@ + dec_bytes(n as nat),
    decreases n,
{
    if n >= 10 {
        push_dec_bytes(out, n / 10);
    }
    out.push(48 + (n % 10) as u8);
    proof {
        assert(out@ =~= old(out)@ + dec_bytes(n as nat));
    }
}

fn push_count(out: &mut Vec<u8>, k: u64, sym: u8)
    ensures
        final(out)@ == old(out)@ + render_count(k, sym),
{
    if k != 1 {
        push_dec_bytes(out, k);
    }
    out.push(sym);
    proof {
        assert(out@ =~= old(out)@ + render_count(k, sym));
    }
}

/// The textual form of one op, as source bytes the lexer reads back.
pub fn render_basic_op(op: &BasicOp) -> (r: Vec<u8>)
    ensures
        r@ == render_op(*op),
{
    let mut out: Vec<u8> = Vec::new();
    match op {
        BasicOp::ChangeBy(a) => {
            if *a > 128 {
                push_count(&mut out, 256u64 - (*a as u64), 45);
            } else if *a > 0 {
                push_count(&mut out, *a as u64, 43);
            }
        },
        BasicOp::Shift(a) => {
            if *a > 0 {
                push_count(&mut out, *a as u64, 62);
            } else if *a < 0 {
                let magnitude = (-(*a as i128)) as u64;
                push_count(&mut out, magnitude, 60);
            }
        },
        BasicOp::LoopStart => {
            out.push(91);
        },
        BasicOp::LoopEnd => {
            out.push(93);
        },
        BasicOp::Input(c) => {
            push_count(&mut out, *c, 44);
        },
        BasicOp::Output(c) => {
            push_count(&mut out, *c, 46);
        },
    }
    proof {
        assert(out@ =~= render_op(*op));
    }
    out
}

} // verus!
