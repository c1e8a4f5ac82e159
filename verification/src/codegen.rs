//! Code generation: a pure walk of the syntax tree that emits the
//! instruction sequence `expr_instrs` describes and renders it as assembly
//! text lines.
//!
//! Expression evaluation keeps its running value in the accumulator
//! register; a binary node evaluates its left operand, parks it on the
//! machine stack, evaluates the right operand, pops the left value back into
//! a secondary register and combines the two into the accumulator. The
//! machine model in `machine` proves this discipline correct.

use vstd::prelude::*;
use vstd::string::*;

use crate::chars::digit_val;
use crate::lexer::digits_val;
use crate::parser::{AstModel, BinaryOperator, UnaryOperator, AST};

verus! {

/// One emitted instruction. `MovImmEax` carries the literal to load; all
/// other instructions are fixed. The directive and label lines of a function
/// are not instructions and are emitted separately.
#[derive(Debug, Clone, Copy)]
pub enum Instr {
    /// `movl $n, %eax`
    MovImmEax(u64),
    /// `neg %eax`
    NegEax,
    /// `not %eax`
    NotEax,
    /// `cmpl $0, %eax`
    CmpEaxZero,
    /// `sete %al`
    SeteAl,
    /// `pushq %rax`
    PushRax,
    /// `popq %rcx`
    PopRcx,
    /// `addl %ecx, %eax`
    AddEcxEax,
    /// `subl %eax, %ecx`
    SubEaxEcx,
    /// `movl %ecx, %eax`
    MovEcxEax,
    /// `imul %ecx, %eax`
    ImulEcxEax,
    /// `movl $0, %edx`
    MovZeroEdx,
    /// `movl %eax, %ebx`
    MovEaxEbx,
    /// `idivl %ebx`
    IdivEbx,
    /// `ret`
    Ret,
}

/// The in-place transform of the accumulator for a unary operator; logical
/// not compares against zero, clears the accumulator and sets its low byte.
pub open spec fn unary_instrs(op: UnaryOperator) -> Seq<Instr> {
    match op {
        UnaryOperator::Minus => seq![Instr::NegEax],
        UnaryOperator::Tilde => seq![Instr::NotEax],
        UnaryOperator::Bang => seq![Instr::CmpEaxZero, Instr::MovImmEax(0), Instr::SeteAl],
    }
}

/// The combine step for a binary operator, run with the left value in the
/// secondary register and the right value in the accumulator. Subtraction
/// computes right from left in the secondary register and moves it over;
/// division zeroes the remainder register and puts dividend and divisor into
/// their fixed roles before dividing.
pub open spec fn binary_instrs(op: BinaryOperator) -> Seq<Instr> {
    match op {
        BinaryOperator::Plus => seq![Instr::AddEcxEax],
        BinaryOperator::Minus => seq![Instr::SubEaxEcx, Instr::MovEcxEax],
        BinaryOperator::Times => seq![Instr::ImulEcxEax],
        BinaryOperator::Divide => seq![
            Instr::MovZeroEdx,
            Instr::MovEaxEbx,
            Instr::MovEcxEax,
            Instr::IdivEbx,
        ],
    }
}

/// The evaluation sequence of an expression: its result lands in the
/// accumulator and the machine stack is left as it was. A node that is no
/// expression yields nothing.
pub open spec fn expr_instrs(e: AstModel) -> Seq<Instr>
    decreases e,
{
    match e {
        AstModel::IntConstant(n) => seq![Instr::MovImmEax(n)],
        AstModel::UnaryOp(op, a) => expr_instrs(*a) + unary_instrs(op),
        AstModel::BinaryOp(op, l, r) => expr_instrs(*l) + seq![Instr::PushRax] + expr_instrs(*r)
            + seq![Instr::PopRcx] + binary_instrs(op),
        _ => Seq::empty(),
    }
}

/// A return statement evaluates its expression and returns; anything else
/// yields nothing.
pub open spec fn statement_instrs(s: AstModel) -> Seq<Instr> {
    match s {
        AstModel::Return(e) => expr_instrs(*e) + seq![Instr::Ret],
        _ => Seq::empty(),
    }
}

/// The decimal digits of `n`, most significant first.
pub open spec fn decimal(n: nat) -> Seq<char>
    decreases n,
{
    if n < 10 {
        seq![decimal_digit(n)]
    } else {
        decimal(n / 10) + seq![decimal_digit(n % 10)]
    }
}

/// The character for one decimal digit.
pub open spec fn decimal_digit(d: nat) -> char {
    if d == 0 {
        '0'
    } else if d == 1 {
        '1'
    } else if d == 2 {
        '2'
    } else if d == 3 {
        '3'
    } else if d == 4 {
        '4'
    } else if d == 5 {
        '5'
    } else if d == 6 {
        '6'
    } else if d == 7 {
        '7'
    } else if d == 8 {
        '8'
    } else {
        '9'
    }
}

/// The text of one instruction: a tab, the mnemonic, `$` before immediates
/// and `%` before register names.
pub open spec fn render(i: Instr) -> Seq<char> {
    match i {
        Instr::MovImmEax(n) => "\tmovl $"@ + decimal(n as nat) + ", %eax"@,
        Instr::NegEax => "\tneg %eax"@,
        Instr::NotEax => "\tnot %eax"@,
        Instr::CmpEaxZero => "\tcmpl $0, %eax"@,
        Instr::SeteAl => "\tsete %al"@,
        Instr::PushRax => "\tpushq %rax"@,
        Instr::PopRcx => "\tpopq %rcx"@,
        Instr::AddEcxEax => "\taddl %ecx, %eax"@,
        Instr::SubEaxEcx => "\tsubl %eax, %ecx"@,
        Instr::MovEcxEax => "\tmovl %ecx, %eax"@,
        Instr::ImulEcxEax => "\timul %ecx, %eax"@,
        Instr::MovZeroEdx => "\tmovl $0, %edx"@,
        Instr::MovEaxEbx => "\tmovl %eax, %ebx"@,
        Instr::IdivEbx => "\tidivl %ebx"@,
        Instr::Ret => "\tret"@,
    }
}

/// The texts of an instruction sequence, one line each.
pub open spec fn render_all(instrs: Seq<Instr>) -> Seq<Seq<char>> {
    instrs.map_values(|i: Instr| render(i))
}

/// The lines of a return statement: the expression's evaluation followed by
/// the return instruction.
pub open spec fn statement_lines(s: AstModel) -> Seq<Seq<char>> {
    render_all(statement_instrs(s))
}

/// The lines of a function: a global-visibility directive and a label for
/// the external symbol (the name prefixed with an underscore), then the body.
pub open spec fn function_lines(f: AstModel) -> Seq<Seq<char>> {
    match f {
        AstModel::Function(name, body) => seq!["\t.globl _"@ + name, "_"@ + name + ":"@]
            + statement_lines(*body),
        _ => Seq::empty(),
    }
}

/// The lines of a whole program.
pub open spec fn program_lines(a: AstModel) -> Seq<Seq<char>> {
    match a {
        AstModel::Program(f) => function_lines(*f),
        _ => Seq::empty(),
    }
}

/// The character sequences of the produced lines.
pub open spec fn lines_view(lines: Seq<String>) -> Seq<Seq<char>> {
    lines.map_values(|s: String| s@)
}

/// Law: rendering a value in decimal and reading the digits back in base ten
/// round-trips — the immediate printed into a move instruction names exactly
/// the value the lexer would read from it.
pub proof fn lemma_decimal_round_trip(n: nat)
    ensures
        digits_val(decimal(n)) == n,
    decreases n,
{
    if n < 10 {
        assert(seq![decimal_digit(n)].drop_last() =~= Seq::<char>::empty());
        assert(digits_val(Seq::<char>::empty()) == 0);
        assert(seq![decimal_digit(n)].last() == decimal_digit(n));
        assert(digit_val(decimal_digit(n)) == n);
    } else {
        lemma_decimal_round_trip(n / 10);
        let head = decimal(n / 10);
        let tail = decimal_digit(n % 10);
        assert((head + seq![tail]).drop_last() =~= head);
        assert((head + seq![tail]).last() == tail);
        assert(digit_val(tail) == n % 10);
    }
}

/// Law: the lines of `int <name>(){ return e; }` are the visibility
/// directive and the label, followed by the renderings of exactly the
/// instruction sequence whose behaviour the machine laws describe.
pub proof fn lemma_program_lines(name: Seq<char>, e: AstModel)
    ensures
        program_lines(
            AstModel::Program(
                Box::new(
                    AstModel::Function(name, Box::new(AstModel::Return(Box::new(e)))),
                ),
            ),
        ) == seq!["\t.globl _"@ + name, "_"@ + name + ":"@] + render_all(
            statement_instrs(AstModel::Return(Box::new(e))),
        ),
{
}

/// The string literal for one decimal digit.
fn digit_str(d: u64) -> (s: &'static str)
    requires
        d < 10,
    ensures
        s@ == seq![decimal_digit(d as nat)],
{
    let s: &'static str = if d == 0 {
        "0"
    } else if d == 1 {
        "1"
    } else if d == 2 {
        "2"
    } else if d == 3 {
        "3"
    } else if d == 4 {
        "4"
    } else if d == 5 {
        "5"
    } else if d == 6 {
        "6"
    } else if d == 7 {
        "7"
    } else if d == 8 {
        "8"
    } else {
        "9"
    };
    proof {
        reveal_strlit("0");
        reveal_strlit("1");
        reveal_strlit("2");
        reveal_strlit("3");
        reveal_strlit("4");
        reveal_strlit("5");
        reveal_strlit("6");
        reveal_strlit("7");
        reveal_strlit("8");
        reveal_strlit("9");
        assert(s@ =~= seq![decimal_digit(d as nat)]);
    }
    s
}

/// Render a literal in decimal.
fn u64_to_string(n: u64) -> (s: String)
    ensures
        s@ == decimal(n as nat),
    decreases n,
{
    if n < 10 {
        String::from_str(digit_str(n))
    } else {
        let mut s = u64_to_string(n / 10);
        s.append(digit_str(n % 10));
        s
    }
}

/// The text line of one instruction.
fn render_instr(i: &Instr) -> (line: String)
    ensures
        line@ == render(*i),
{
    match i {
        Instr::MovImmEax(n) => {
            let mut line = String::from_str("\tmovl $");
            let num = u64_to_string(*n);
            line.append(num.as_str());
            line.append(", %eax");
            line
        },
        Instr::NegEax => String::from_str("\tneg %eax"),
        Instr::NotEax => String::from_str("\tnot %eax"),
        Instr::CmpEaxZero => String::from_str("\tcmpl $0, %eax"),
        Instr::SeteAl => String::from_str("\tsete %al"),
        Instr::PushRax => String::from_str("\tpushq %rax"),
        Instr::PopRcx => String::from_str("\tpopq %rcx"),
        Instr::AddEcxEax => String::from_str("\taddl %ecx, %eax"),
        Instr::SubEaxEcx => String::from_str("\tsubl %eax, %ecx"),
        Instr::MovEcxEax => String::from_str("\tmovl %ecx, %eax"),
        Instr::ImulEcxEax => String::from_str("\timul %ecx, %eax"),
        Instr::MovZeroEdx => String::from_str("\tmovl $0, %edx"),
        Instr::MovEaxEbx => String::from_str("\tmovl %eax, %ebx"),
        Instr::IdivEbx => String::from_str("\tidivl %ebx"),
        Instr::Ret => String::from_str("\tret"),
    }
}

/// The text lines of an instruction sequence.
fn render_lines(instrs: &Vec<Instr>) -> (lines: Vec<String>)
    ensures
        lines_view(lines@) == render_all(instrs@),
{
    let mut lines: Vec<String> = Vec::new();
    let mut k: usize = 0;
    proof {
        assert(lines_view(lines@) =~= render_all(instrs@.subrange(0, 0)));
    }
    while k < instrs.len()
        invariant
            k <= instrs@.len(),
            lines_view(lines@) == render_all(instrs@.subrange(0, k as int)),
        decreases instrs@.len() - k,
    {
        let ghost before = lines@;
        let line = render_instr(&instrs[k]);
        lines.push(line);
        proof {
            assert(instrs@.subrange(0, k + 1) =~= instrs@.subrange(0, k as int).push(
                instrs@[k as int],
            ));
            assert(lines_view(before.push(line)) =~= lines_view(before) + seq![line@]);
            assert(render_all(instrs@.subrange(0, k as int).push(instrs@[k as int]))
                =~= render_all(instrs@.subrange(0, k as int)) + seq![render(instrs@[k as int])]);
        }
        k = k + 1;
    }
    proof {
        assert(instrs@.subrange(0, instrs@.len() as int) =~= instrs@);
    }
    lines
}

/// The evaluation sequence of an expression, as `expr_instrs` describes it.
fn generate_expr(expr: &AST) -> (v: Vec<Instr>)
    ensures
        v@ == expr_instrs(expr@),
    decreases expr,
{
    match expr {
        AST::IntConstant(n) => {
            let mut v: Vec<Instr> = Vec::new();
            v.push(Instr::MovImmEax(*n));
            proof {
                assert(v@ =~= seq![Instr::MovImmEax(*n)]);
            }
            v
        },
        AST::UnaryOp(operator, operand) => {
            let mut v = generate_expr(operand);
            let mut tail = generate_unary_op(operator);
            v.append(&mut tail);
            v
        },
        AST::BinaryOp(operator, expr1, expr2) => {
            let mut v = generate_expr(expr1);
            v.push(Instr::PushRax);
            let mut right = generate_expr(expr2);
            v.append(&mut right);
            v.push(Instr::PopRcx);
            let mut tail = generate_binary_op(operator);
            v.append(&mut tail);
            proof {
                assert(v@ =~= expr_instrs((**expr1)@) + seq![Instr::PushRax] + expr_instrs(
                    (**expr2)@,
                ) + seq![Instr::PopRcx] + binary_instrs(*operator));
            }
            v
        },
        _ => {
            let v: Vec<Instr> = Vec::new();
            proof {
                assert(v@ =~= Seq::<Instr>::empty());
            }
            v
        },
    }
}

/// The accumulator transform of a unary operator.
fn generate_unary_op(operator: &UnaryOperator) -> (v: Vec<Instr>)
    ensures
        v@ == unary_instrs(*operator),
{
    let mut v: Vec<Instr> = Vec::new();
    match operator {
        UnaryOperator::Minus => {
            v.push(Instr::NegEax);
            proof {
                assert(v@ =~= seq![Instr::NegEax]);
            }
        },
        UnaryOperator::Tilde => {
            v.push(Instr::NotEax);
            proof {
                assert(v@ =~= seq![Instr::NotEax]);
            }
        },
        UnaryOperator::Bang => {
            v.push(Instr::CmpEaxZero);
            v.push(Instr::MovImmEax(0));
            v.push(Instr::SeteAl);
            proof {
                assert(v@ =~= seq![Instr::CmpEaxZero, Instr::MovImmEax(0), Instr::SeteAl]);
            }
        },
    }
    v
}

/// The combine step of a binary operator.
fn generate_binary_op(operator: &BinaryOperator) -> (v: Vec<Instr>)
    ensures
        v@ == binary_instrs(*operator),
{
    let mut v: Vec<Instr> = Vec::new();
    match operator {
        BinaryOperator::Plus => {
            v.push(Instr::AddEcxEax);
            proof {
                assert(v@ =~= seq![Instr::AddEcxEax]);
            }
        },
        BinaryOperator::Minus => {
            // subl stores the result in the secondary register, so an
            // explicit move lands left minus right in the accumulator.
            v.push(Instr::SubEaxEcx);
            v.push(Instr::MovEcxEax);
            proof {
                assert(v@ =~= seq![Instr::SubEaxEcx, Instr::MovEcxEax]);
            }
        },
        BinaryOperator::Times => {
            v.push(Instr::ImulEcxEax);
            proof {
                assert(v@ =~= seq![Instr::ImulEcxEax]);
            }
        },
        BinaryOperator::Divide => {
            // Zero the remainder register, move dividend and divisor into
            // their fixed roles; the quotient lands in the accumulator.
            v.push(Instr::MovZeroEdx);
            v.push(Instr::MovEaxEbx);
            v.push(Instr::MovEcxEax);
            v.push(Instr::IdivEbx);
            proof {
                assert(v@ =~= seq![
                    Instr::MovZeroEdx,
                    Instr::MovEaxEbx,
                    Instr::MovEcxEax,
                    Instr::IdivEbx,
                ]);
            }
        },
    }
    v
}

/// The lines of a return statement: the expression's evaluation followed by
/// the return instruction.
fn generate_statement(stmt: &AST) -> (lines: Vec<String>)
    ensures
        lines_view(lines@) == statement_lines(stmt@),
{
    match stmt {
        AST::Return(expr) => {
            let mut instrs = generate_expr(expr);
            instrs.push(Instr::Ret);
            proof {
                assert(instrs@ =~= statement_instrs(stmt@));
            }
            render_lines(&instrs)
        },
        _ => {
            let lines: Vec<String> = Vec::new();
            proof {
                assert(lines_view(lines@) =~= Seq::<Seq<char>>::empty());
                assert(render_all(Seq::<Instr>::empty()) =~= Seq::<Seq<char>>::empty());
            }
            lines
        },
    }
}

/// The lines of a function: directive, label, body.
fn generate_function(func: &AST) -> (lines: Vec<String>)
    ensures
        lines_view(lines@) == function_lines(func@),
{
    match func {
        AST::Function(name, body) => {
            let mut globl = String::from_str("\t.globl _");
            globl.append(name.as_str());
            let mut label = String::from_str("_");
            label.append(name.as_str());
            label.append(":");
            let mut lines: Vec<String> = Vec::new();
            lines.push(globl);
            lines.push(label);
            let ghost head = lines@;
            let mut body_lines = generate_statement(body);
            let ghost tail = body_lines@;
            lines.append(&mut body_lines);
            proof {
                assert(lines_view(head + tail) =~= lines_view(head) + lines_view(tail));
                assert(lines_view(head) =~= seq!["\t.globl _"@ + name@, "_"@ + name@ + ":"@]);
            }
            lines
        },
        _ => {
            let lines: Vec<String> = Vec::new();
            proof {
                assert(lines_view(lines@) =~= Seq::<Seq<char>>::empty());
            }
            lines
        },
    }
}

/// The lines of a program.
fn generate_program(ast: &AST) -> (lines: Vec<String>)
    ensures
        lines_view(lines@) == program_lines(ast@),
{
    match ast {
        AST::Program(func) => generate_function(func),
        _ => {
            let lines: Vec<String> = Vec::new();
            proof {
                assert(lines_view(lines@) =~= Seq::<Seq<char>>::empty());
            }
            lines
        },
    }
}

/// Generate the assembly lines of a whole program: exactly the lines
/// `program_lines` describes for its tree.
pub fn generate(ast: AST) -> (lines: Vec<String>)
    ensures
        lines_view(lines@) == program_lines(ast@),
{
    generate_program(&ast)
}

} // verus!
