//! A model of the target machine, and proofs that the generated code is
//! correct against it.
//!
//! The model holds the four registers the generated code touches, the zero
//! flag and the machine stack. `run` executes an instruction sequence;
//! `run_until_ret` executes until the return instruction and yields the value
//! the function returns in the accumulator. `meval` is the value an
//! expression's generated code computes: thirty-two-bit wrapping arithmetic,
//! with division exactly as the divide instruction behaves on the
//! zero-extended dividend the generated code sets up. `aeval` is the
//! mathematical value of an expression over unbounded integers; the laws at
//! the end relate the two and give the process exit status, which is the low
//! byte of the returned accumulator.

use vstd::prelude::*;

use vstd::arithmetic::div_mod::{
    lemma_add_mod_noop, lemma_fundamental_div_mod, lemma_mod_add_multiples_vanish,
    lemma_mod_multiples_vanish, lemma_mul_mod_noop, lemma_small_mod, lemma_sub_mod_noop,
};

use crate::codegen::{binary_instrs, expr_instrs, statement_instrs, unary_instrs, Instr};
use crate::parser::{AstModel, BinaryOperator, UnaryOperator};

verus! {

/// The machine state the generated code can reach: the accumulator `eax`,
/// the secondary register `ecx`, the remainder register `edx`, the divisor
/// register `ebx`, the zero flag, and the stack of pushed words.
pub struct MachState {
    pub eax: u32,
    pub ecx: u32,
    pub edx: u32,
    pub ebx: u32,
    pub zf: bool,
    pub stack: Seq<u32>,
}

/// The thirty-two-bit two's-complement representative of an integer.
pub open spec fn wrap32(i: int) -> u32 {
    (i % 0x1_0000_0000) as u32
}

/// The signed value a register holds.
pub open spec fn to_i32(x: u32) -> int {
    if x < 0x8000_0000 {
        x as int
    } else {
        x as int - 0x1_0000_0000
    }
}

/// Integer division truncated toward zero, as the divide instruction rounds.
pub open spec fn trunc_div(a: int, b: int) -> int {
    if a >= 0 {
        if b > 0 {
            a / b
        } else {
            -(a / (-b))
        }
    } else {
        if b > 0 {
            -((-a) / b)
        } else {
            (-a) / (-b)
        }
    }
}

/// One instruction's effect, or nothing where the machine faults: a divide
/// by zero, a quotient outside the signed thirty-two-bit range, a pop from an
/// empty stack, or an immediate too wide for the thirty-two-bit move.
///
/// The zero flag is set by the compare, the negate, the add and the
/// subtract; the generated code reads it only immediately after the compare,
/// so the instructions whose real flag effects are partial or undefined
/// (`not`, the moves, `imul`, `idivl`) leave it unchanged here.
pub open spec fn step(s: MachState, i: Instr) -> Option<MachState> {
    match i {
        Instr::MovImmEax(n) => if n < 0x1_0000_0000 {
            Some(MachState { eax: n as u32, ..s })
        } else {
            None
        },
        Instr::NegEax => {
            let v = wrap32(-(s.eax as int));
            Some(MachState { eax: v, zf: v == 0, ..s })
        },
        Instr::NotEax => Some(MachState { eax: !s.eax, ..s }),
        Instr::CmpEaxZero => Some(MachState { zf: s.eax == 0, ..s }),
        Instr::SeteAl => Some(
            MachState {
                eax: (s.eax & 0xffff_ff00) | (if s.zf {
                    1u32
                } else {
                    0u32
                }),
                ..s
            },
        ),
        Instr::PushRax => Some(MachState { stack: s.stack.push(s.eax), ..s }),
        Instr::PopRcx => if s.stack.len() == 0 {
            None
        } else {
            Some(MachState { ecx: s.stack.last(), stack: s.stack.drop_last(), ..s })
        },
        Instr::AddEcxEax => {
            let v = wrap32(s.ecx + s.eax);
            Some(MachState { eax: v, zf: v == 0, ..s })
        },
        Instr::SubEaxEcx => {
            let v = wrap32(s.ecx - s.eax);
            Some(MachState { ecx: v, zf: v == 0, ..s })
        },
        Instr::MovEcxEax => Some(MachState { eax: s.ecx, ..s }),
        Instr::ImulEcxEax => Some(MachState { eax: wrap32(s.ecx * s.eax), ..s }),
        Instr::MovZeroEdx => Some(MachState { edx: 0, ..s }),
        Instr::MovEaxEbx => Some(MachState { ebx: s.eax, ..s }),
        Instr::IdivEbx => {
            let divisor = to_i32(s.ebx);
            let unsigned = (s.edx as int) * 0x1_0000_0000 + s.eax as int;
            let dividend = if unsigned >= 0x8000_0000_0000_0000 {
                unsigned - 0x1_0000_0000_0000_0000
            } else {
                unsigned
            };
            if divisor == 0 {
                None
            } else {
                let q = trunc_div(dividend, divisor);
                let r = dividend - q * divisor;
                if q < -0x8000_0000 || q > 0x7fff_ffff {
                    None
                } else {
                    Some(MachState { eax: wrap32(q), edx: wrap32(r), ..s })
                }
            }
        },
        Instr::Ret => Some(s),
    }
}

/// Run a whole instruction sequence; the return instruction moves no data.
pub open spec fn run(s: MachState, instrs: Seq<Instr>) -> Option<MachState>
    decreases instrs.len(),
{
    if instrs.len() == 0 {
        Some(s)
    } else {
        match step(s, instrs[0]) {
            Some(s1) => run(s1, instrs.skip(1)),
            None => None,
        }
    }
}

/// Run until the return instruction and yield the accumulator there: the
/// value the function hands back to its caller. Falling off the end of the
/// sequence, or faulting before the return, yields nothing.
pub open spec fn run_until_ret(s: MachState, instrs: Seq<Instr>) -> Option<u32>
    decreases instrs.len(),
{
    if instrs.len() == 0 {
        None
    } else if instrs[0] == Instr::Ret {
        Some(s.eax)
    } else {
        match step(s, instrs[0]) {
            Some(s1) => run_until_ret(s1, instrs.skip(1)),
            None => None,
        }
    }
}

/// The exit status of a process whose entry function returned `v`: its low
/// byte.
pub open spec fn exit_status(v: u32) -> int {
    (v as int) % 256
}

/// What a unary operator's instructions leave in the accumulator.
pub open spec fn unary_result(op: UnaryOperator, v: u32) -> u32 {
    match op {
        UnaryOperator::Minus => wrap32(-(v as int)),
        UnaryOperator::Tilde => !v,
        UnaryOperator::Bang => if v == 0 {
            1u32
        } else {
            0u32
        },
    }
}

/// What the divide sequence leaves in the accumulator for left value `a` and
/// right value `b`: the left value is zero-extended into the dividend while
/// the divisor is read signed, and the machine faults on a zero divisor or a
/// quotient outside the signed range.
pub open spec fn idiv_result(a: u32, b: u32) -> Option<u32> {
    let divisor = to_i32(b);
    if divisor == 0 {
        None
    } else {
        let q = trunc_div(a as int, divisor);
        if q < -0x8000_0000 || q > 0x7fff_ffff {
            None
        } else {
            Some(wrap32(q))
        }
    }
}

/// What a binary operator's combine step leaves in the accumulator, from the
/// left value `a` and the right value `b`.
pub open spec fn binary_result(op: BinaryOperator, a: u32, b: u32) -> Option<u32> {
    match op {
        BinaryOperator::Plus => Some(wrap32(a + b)),
        BinaryOperator::Minus => Some(wrap32(a - b)),
        BinaryOperator::Times => Some(wrap32(a * b)),
        BinaryOperator::Divide => idiv_result(a, b),
    }
}

/// The value an expression's generated code computes, or nothing where the
/// code would fault. A node that is no expression computes nothing.
pub open spec fn meval(e: AstModel) -> Option<u32>
    decreases e,
{
    match e {
        AstModel::IntConstant(n) => if n < 0x1_0000_0000 {
            Some(n as u32)
        } else {
            None
        },
        AstModel::UnaryOp(op, a) => match meval(*a) {
            Some(v) => Some(unary_result(op, v)),
            None => None,
        },
        AstModel::BinaryOp(op, l, r) => match (meval(*l), meval(*r)) {
            (Some(a), Some(b)) => binary_result(op, a, b),
            _ => None,
        },
        _ => None,
    }
}

/// The mathematical value of an expression over unbounded integers, with
/// truncating division; division by zero has none.
pub open spec fn aeval(e: AstModel) -> Option<int>
    decreases e,
{
    match e {
        AstModel::IntConstant(n) => Some(n as int),
        AstModel::UnaryOp(op, a) => match aeval(*a) {
            Some(v) => Some(
                match op {
                    UnaryOperator::Minus => -v,
                    UnaryOperator::Tilde => -v - 1,
                    UnaryOperator::Bang => if v == 0 {
                        1int
                    } else {
                        0int
                    },
                },
            ),
            None => None,
        },
        AstModel::BinaryOp(op, l, r) => match (aeval(*l), aeval(*r)) {
            (Some(a), Some(b)) => match op {
                BinaryOperator::Plus => Some(a + b),
                BinaryOperator::Minus => Some(a - b),
                BinaryOperator::Times => Some(a * b),
                BinaryOperator::Divide => if b == 0 {
                    None
                } else {
                    Some(trunc_div(a, b))
                },
            },
            _ => None,
        },
        _ => None,
    }
}

/// Running a concatenation runs the two parts in order.
pub proof fn lemma_run_append(s: MachState, a: Seq<Instr>, b: Seq<Instr>)
    ensures
        run(s, a + b) == (match run(s, a) {
            Some(s1) => run(s1, b),
            None => None::<MachState>,
        }),
    decreases a.len(),
{
    if a.len() == 0 {
        assert(a + b =~= b);
    } else {
        assert((a + b)[0] == a[0]);
        match step(s, a[0]) {
            Some(s1) => {
                assert((a + b).skip(1) =~= a.skip(1) + b);
                lemma_run_append(s1, a.skip(1), b);
            },
            None => {},
        }
    }
}

/// No instruction of the sequence is the return instruction.
pub open spec fn no_ret(instrs: Seq<Instr>) -> bool {
    forall|k: int| 0 <= k < instrs.len() ==> instrs[k] != Instr::Ret
}

/// An expression's code never returns early.
pub proof fn lemma_expr_instrs_no_ret(e: AstModel)
    ensures
        no_ret(expr_instrs(e)),
    decreases e,
{
    match e {
        AstModel::UnaryOp(op, a) => {
            lemma_expr_instrs_no_ret(*a);
        },
        AstModel::BinaryOp(op, l, r) => {
            lemma_expr_instrs_no_ret(*l);
            lemma_expr_instrs_no_ret(*r);
        },
        _ => {},
    }
}

/// Running to the return instruction first crosses a return-free prefix.
pub proof fn lemma_run_until_ret_chain(s: MachState, pre: Seq<Instr>, rest: Seq<Instr>)
    requires
        run(s, pre) is Some,
        no_ret(pre),
    ensures
        run_until_ret(s, pre + rest) == run_until_ret(run(s, pre).unwrap(), rest),
    decreases pre.len(),
{
    if pre.len() == 0 {
        assert(pre + rest =~= rest);
    } else {
        assert((pre + rest)[0] == pre[0]);
        let s1 = step(s, pre[0]).unwrap();
        assert((pre + rest).skip(1) =~= pre.skip(1) + rest);
        assert(no_ret(pre.skip(1)));
        lemma_run_until_ret_chain(s1, pre.skip(1), rest);
    }
}

/// A unary operator's instructions transform the accumulator in place.
proof fn lemma_run_unary(op: UnaryOperator, s: MachState)
    ensures
        ({
            let r = run(s, unary_instrs(op));
            &&& r is Some
            &&& r.unwrap().eax == unary_result(op, s.eax)
            &&& r.unwrap().stack == s.stack
        }),
{
    reveal_with_fuel(run, 5);
    match op {
        UnaryOperator::Minus => {
            assert(unary_instrs(op).skip(1) =~= Seq::<Instr>::empty());
        },
        UnaryOperator::Tilde => {
            assert(unary_instrs(op).skip(1) =~= Seq::<Instr>::empty());
        },
        UnaryOperator::Bang => {
            let t = unary_instrs(op);
            assert(t.skip(1) =~= seq![Instr::MovImmEax(0), Instr::SeteAl]);
            assert(t.skip(1).skip(1) =~= seq![Instr::SeteAl]);
            assert(seq![Instr::SeteAl].skip(1) =~= Seq::<Instr>::empty());
            assert((0u32 & 0xffff_ff00u32) | 1u32 == 1u32) by (bit_vector);
            assert((0u32 & 0xffff_ff00u32) | 0u32 == 0u32) by (bit_vector);
        },
    }
}

/// A binary operator's combine step reads the left value from the secondary
/// register and the right value from the accumulator, and leaves the result
/// in the accumulator — or faults exactly where `binary_result` has nothing.
/// The divide sequence alone: zero the remainder register, place divisor and
/// dividend, divide.
#[verifier::rlimit(100)]
proof fn lemma_run_divide(s: MachState, vl: u32, vr: u32)
    requires
        s.ecx == vl,
        s.eax == vr,
    ensures
        ({
            let r = run(s, binary_instrs(BinaryOperator::Divide));
            match idiv_result(vl, vr) {
                Some(v) => r is Some && r.unwrap().eax == v && r.unwrap().stack == s.stack,
                None => r is None,
            }
        }),
{
    reveal_with_fuel(run, 6);
    let t = binary_instrs(BinaryOperator::Divide);
    assert(t.skip(1) =~= seq![Instr::MovEaxEbx, Instr::MovEcxEax, Instr::IdivEbx]);
    assert(t.skip(1).skip(1) =~= seq![Instr::MovEcxEax, Instr::IdivEbx]);
    assert(t.skip(1).skip(1).skip(1) =~= seq![Instr::IdivEbx]);
    assert(seq![Instr::IdivEbx].skip(1) =~= Seq::<Instr>::empty());
    let s1 = step(s, Instr::MovZeroEdx).unwrap();
    let s2 = step(s1, Instr::MovEaxEbx).unwrap();
    let s3 = step(s2, Instr::MovEcxEax).unwrap();
    assert(s3.edx == 0 && s3.ebx == vr && s3.eax == vl && s3.stack == s.stack);
    assert((0int) * 0x1_0000_0000 + vl as int == vl as int);
}

#[verifier::rlimit(100)]
proof fn lemma_run_binary(op: BinaryOperator, s: MachState, vl: u32, vr: u32)
    requires
        s.ecx == vl,
        s.eax == vr,
    ensures
        ({
            let r = run(s, binary_instrs(op));
            match binary_result(op, vl, vr) {
                Some(v) => r is Some && r.unwrap().eax == v && r.unwrap().stack == s.stack,
                None => r is None,
            }
        }),
{
    reveal_with_fuel(run, 6);
    match op {
        BinaryOperator::Plus => {
            assert(binary_instrs(op).skip(1) =~= Seq::<Instr>::empty());
        },
        BinaryOperator::Minus => {
            let t = binary_instrs(op);
            assert(t.skip(1) =~= seq![Instr::MovEcxEax]);
            assert(seq![Instr::MovEcxEax].skip(1) =~= Seq::<Instr>::empty());
        },
        BinaryOperator::Times => {
            assert(binary_instrs(op).skip(1) =~= Seq::<Instr>::empty());
        },
        BinaryOperator::Divide => {
            lemma_run_divide(s, vl, vr);
        },
    }
}

/// Law: the generated evaluation sequence of an expression runs without a
/// fault whenever the expression's machine value is defined, leaves exactly
/// that value in the accumulator, and leaves the machine stack as it found
/// it — from any starting state.
#[verifier::rlimit(100)]
pub proof fn lemma_expr_instrs_run(e: AstModel, s: MachState)
    requires
        meval(e) is Some,
    ensures
        ({
            let r = run(s, expr_instrs(e));
            &&& r is Some
            &&& r.unwrap().eax == meval(e).unwrap()
            &&& r.unwrap().stack == s.stack
        }),
    decreases e,
{
    reveal_with_fuel(run, 3);
    match e {
        AstModel::IntConstant(n) => {
            assert(expr_instrs(e).skip(1) =~= Seq::<Instr>::empty());
        },
        AstModel::UnaryOp(op, a) => {
            lemma_expr_instrs_run(*a, s);
            let s1 = run(s, expr_instrs(*a)).unwrap();
            lemma_run_append(s, expr_instrs(*a), unary_instrs(op));
            lemma_run_unary(op, s1);
        },
        AstModel::BinaryOp(op, l, r) => {
            let li = expr_instrs(*l);
            let ri = expr_instrs(*r);
            let bi = binary_instrs(op);
            let rest1 = seq![Instr::PushRax] + (ri + (seq![Instr::PopRcx] + bi));
            assert(expr_instrs(e) =~= li + rest1);

            lemma_expr_instrs_run(*l, s);
            let s1 = run(s, li).unwrap();
            lemma_run_append(s, li, rest1);

            let s2 = step(s1, Instr::PushRax).unwrap();
            lemma_run_append(s1, seq![Instr::PushRax], ri + (seq![Instr::PopRcx] + bi));
            assert(seq![Instr::PushRax].skip(1) =~= Seq::<Instr>::empty());

            lemma_expr_instrs_run(*r, s2);
            let s3 = run(s2, ri).unwrap();
            lemma_run_append(s2, ri, seq![Instr::PopRcx] + bi);

            assert(s3.stack.len() > 0);
            let s4 = step(s3, Instr::PopRcx).unwrap();
            lemma_run_append(s3, seq![Instr::PopRcx], bi);
            assert(seq![Instr::PopRcx].skip(1) =~= Seq::<Instr>::empty());
            assert(s4.ecx == meval(*l).unwrap());
            assert(s4.stack =~= s.stack);

            lemma_run_binary(op, s4, meval(*l).unwrap(), meval(*r).unwrap());
        },
        _ => {},
    }
}

/// Law: the code generated for `return e;` runs to the return instruction
/// and hands back exactly the machine value of `e`, from any starting state.
pub proof fn lemma_statement_run(e: AstModel, s: MachState)
    requires
        meval(e) is Some,
    ensures
        run_until_ret(s, statement_instrs(AstModel::Return(Box::new(e)))) == Some(
            meval(e).unwrap(),
        ),
{
    lemma_expr_instrs_run(e, s);
    lemma_expr_instrs_no_ret(e);
    lemma_run_until_ret_chain(s, expr_instrs(e), seq![Instr::Ret]);
    assert(statement_instrs(AstModel::Return(Box::new(e))) == expr_instrs(e) + seq![Instr::Ret]);
}

/// An expression built only from literals that fit thirty-two bits, the
/// arithmetic operators `+`, `-` and `*`, and the unary operators `-` and
/// `~`: the fragment whose machine arithmetic agrees with the unbounded
/// integers modulo two to the thirty-second.
pub open spec fn plain_ops(e: AstModel) -> bool
    decreases e,
{
    match e {
        AstModel::IntConstant(n) => n < 0x1_0000_0000,
        AstModel::UnaryOp(op, a) => op != UnaryOperator::Bang && plain_ops(*a),
        AstModel::BinaryOp(op, l, r) => op != BinaryOperator::Divide && plain_ops(*l) && plain_ops(
            *r,
        ),
        _ => false,
    }
}

/// Law: on the `plain_ops` fragment the machine value is the mathematical
/// value reduced modulo two to the thirty-second.
pub proof fn lemma_meval_congruent(e: AstModel)
    requires
        plain_ops(e),
    ensures
        meval(e) is Some,
        aeval(e) is Some,
        meval(e).unwrap() as int == aeval(e).unwrap() % 0x1_0000_0000,
    decreases e,
{
    let m = 0x1_0000_0000int;
    match e {
        AstModel::IntConstant(n) => {
            lemma_small_mod(n as nat, 0x1_0000_0000nat);
        },
        AstModel::UnaryOp(op, a) => {
            lemma_meval_congruent(*a);
            let va = aeval(*a).unwrap();
            let wa = meval(*a).unwrap();
            match op {
                UnaryOperator::Minus => {
                    lemma_sub_mod_noop(0, va, m);
                    lemma_small_mod(0nat, 0x1_0000_0000nat);
                },
                UnaryOperator::Tilde => {
                    assert(!wa == 0xffff_ffffu32 - wa) by (bit_vector);
                    lemma_sub_mod_noop(m - 1, va, m);
                    lemma_small_mod((m - 1) as nat, 0x1_0000_0000nat);
                    lemma_mod_add_multiples_vanish(-va - 1, m);
                    lemma_small_mod((m - 1 - wa as int) as nat, 0x1_0000_0000nat);
                },
                UnaryOperator::Bang => {},
            }
        },
        AstModel::BinaryOp(op, l, r) => {
            lemma_meval_congruent(*l);
            lemma_meval_congruent(*r);
            let vl = aeval(*l).unwrap();
            let vr = aeval(*r).unwrap();
            match op {
                BinaryOperator::Plus => {
                    lemma_add_mod_noop(vl, vr, m);
                },
                BinaryOperator::Minus => {
                    lemma_sub_mod_noop(vl, vr, m);
                },
                BinaryOperator::Times => {
                    lemma_mul_mod_noop(vl, vr, m);
                },
                BinaryOperator::Divide => {},
            }
        },
        _ => {},
    }
}

/// An expression whose every subexpression has a mathematical value within
/// `[0, 2^31)`: the fragment on which the machine computes the mathematical
/// value exactly, division included.
pub open spec fn small_values(e: AstModel) -> bool
    decreases e,
{
    &&& aeval(e) is Some
    &&& 0 <= aeval(e).unwrap() < 0x8000_0000
    &&& match e {
        AstModel::IntConstant(_) => true,
        AstModel::UnaryOp(_, a) => small_values(*a),
        AstModel::BinaryOp(_, l, r) => small_values(*l) && small_values(*r),
        _ => false,
    }
}

/// Law: on the `small_values` fragment the machine value equals the
/// mathematical value.
pub proof fn lemma_meval_exact(e: AstModel)
    requires
        small_values(e),
    ensures
        meval(e) == Some(aeval(e).unwrap() as u32),
    decreases e,
{
    reveal_with_fuel(small_values, 2);
    match e {
        AstModel::IntConstant(n) => {},
        AstModel::UnaryOp(op, a) => {
            lemma_meval_exact(*a);
            let v = aeval(*a).unwrap();
            match op {
                UnaryOperator::Minus => {
                    // the negation of a value in range is in range only at zero
                    assert(v == 0);
                    lemma_small_mod(0nat, 0x1_0000_0000nat);
                },
                UnaryOperator::Tilde => {
                    // the complement of a non-negative value is negative
                    assert(false);
                },
                UnaryOperator::Bang => {},
            }
        },
        AstModel::BinaryOp(op, l, r) => {
            lemma_meval_exact(*l);
            lemma_meval_exact(*r);
            let a = aeval(*l).unwrap();
            let b = aeval(*r).unwrap();
            match op {
                BinaryOperator::Plus => {
                    lemma_small_mod((a + b) as nat, 0x1_0000_0000nat);
                },
                BinaryOperator::Minus => {
                    lemma_small_mod((a - b) as nat, 0x1_0000_0000nat);
                },
                BinaryOperator::Times => {
                    lemma_small_mod((a * b) as nat, 0x1_0000_0000nat);
                },
                BinaryOperator::Divide => {
                    assert(b != 0);
                    assert(to_i32(b as u32) == b);
                    let q = trunc_div(a, b);
                    assert(q == aeval(e).unwrap());
                    lemma_small_mod(q as nat, 0x1_0000_0000nat);
                },
            }
        },
        _ => {},
    }
}

/// Reducing modulo two to the thirty-second and then modulo 256 is reducing
/// modulo 256: the exit status only sees the low byte.
proof fn lemma_wrap_mod256(v: int)
    ensures
        (v % 0x1_0000_0000) % 256 == v % 256,
{
    let k = v / 0x1_0000_0000;
    lemma_fundamental_div_mod(v, 0x1_0000_0000);
    assert(0x1_0000_0000 * k == 256 * (0x100_0000 * k));
    lemma_mod_multiples_vanish(-(0x100_0000 * k), v, 256);
}

/// Law: for a program `int <name>(){ return e; }` over literals, `+`, `-`,
/// `*` and the unary `-` and `~`, the generated code returns, and the
/// process exit status is the expression's mathematical value modulo 256 —
/// negative values wrap as the low byte does.
pub proof fn lemma_exit_status_congruent(e: AstModel, s: MachState)
    requires
        plain_ops(e),
    ensures
        aeval(e) is Some,
        run_until_ret(s, statement_instrs(AstModel::Return(Box::new(e)))) is Some,
        exit_status(run_until_ret(s, statement_instrs(AstModel::Return(Box::new(e)))).unwrap())
            == aeval(e).unwrap() % 256,
{
    lemma_meval_congruent(e);
    lemma_statement_run(e, s);
    lemma_wrap_mod256(aeval(e).unwrap());
}

/// Law: for a program `int <name>(){ return e; }` whose every subexpression
/// evaluates within `[0, 2^31)` — division and logical not included — the
/// generated code returns the exact value, and the process exit status is
/// that value modulo 256.
pub proof fn lemma_exit_status_exact(e: AstModel, s: MachState)
    requires
        small_values(e),
    ensures
        run_until_ret(s, statement_instrs(AstModel::Return(Box::new(e)))) == Some(
            aeval(e).unwrap() as u32,
        ),
        exit_status((aeval(e).unwrap() as u32)) == aeval(e).unwrap() % 256,
{
    lemma_meval_exact(e);
    lemma_statement_run(e, s);
    lemma_small_mod((aeval(e).unwrap() % 256) as nat, 256nat);
    lemma_wrap_mod256(aeval(e).unwrap());
    lemma_small_mod(aeval(e).unwrap() as nat, 0x1_0000_0000nat);
}

} // verus!
