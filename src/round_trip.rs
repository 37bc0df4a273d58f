use crate::grammar::{
    digit_run, digit_value, digits_value, is_digit, is_space, lemma_digit_run, parse_arithmetic,
    parse_instruction, parse_instructions, parse_int, parse_jump, parse_operand,
    parse_program, parse_register, parse_uint, skip_space,
};
use crate::instructions::{Instruction, Operand, Operator, Register, Relation};
use crate::text::{
    digit_char, instruction_text, int_text, nat_text, operand_text, operator_text, program_text,
    register_text, relation_text,
};
use vstd::prelude::*;

verus! {

proof fn lemma_digit_char(d: nat)
    requires
        d < 10,
    ensures
        is_digit(digit_char(d)),
        digit_value(digit_char(d)) == d,
{
}

proof fn lemma_nat_text(n: nat)
    ensures
        nat_text(n).len() >= 1,
        forall|k: int| 0 <= k < nat_text(n).len() ==> is_digit(#[trigger] nat_text(n)[k]),
        digits_value(nat_text(n)) == n,
    decreases n,
{
    let d = nat_text(n);
    if n < 10 {
        lemma_digit_char(n);
        assert(d.drop_last() =~= Seq::<char>::empty());
        assert(digits_value(d) == digits_value(d.drop_last()) * 10 + digit_value(d.last()));
    } else {
        lemma_nat_text(n / 10);
        lemma_digit_char(n % 10);
        assert(d.drop_last() =~= nat_text(n / 10));
        assert(d.last() == digit_char(n % 10));
        assert((n / 10) * 10 + n % 10 == n);
        assert(digits_value(d) == digits_value(d.drop_last()) * 10 + digit_value(d.last()));
    }
}

proof fn lemma_skip_spaces(w: Seq<char>, t: Seq<char>)
    requires
        forall|k: int| 0 <= k < w.len() ==> is_space(#[trigger] w[k]),
        t.len() == 0 || !is_space(t[0]),
    ensures
        skip_space(w + t) == t,
    decreases w.len(),
{
    if w.len() == 0 {
        assert(w + t =~= t);
    } else {
        assert((w + t).skip(1) =~= w.skip(1) + t);
        lemma_skip_spaces(w.skip(1), t);
    }
}

proof fn lemma_uint_round(n: nat, t: Seq<char>)
    requires
        n <= u32::MAX,
        t.len() == 0 || !is_digit(t[0]),
    ensures
        parse_uint(nat_text(n) + t) == Some((n as u32, t)),
{
    let d = nat_text(n);
    lemma_nat_text(n);
    let s = d + t;
    assert forall|m: int| 0 <= m < d.len() implies is_digit(#[trigger] s[m]) by {
        assert(s[m] == d[m]);
    }
    lemma_digit_run(s, d.len());
    assert(s.take(d.len() as int) =~= d);
    assert(s.skip(d.len() as int) =~= t);
}

proof fn lemma_int_round(v: int, t: Seq<char>)
    requires
        i32::MIN <= v <= i32::MAX,
        t.len() == 0 || !is_digit(t[0]),
    ensures
        parse_int(int_text(v) + t) == Some((v as i32, t)),
        int_text(v).len() > 0,
        int_text(v)[0] == '-' || is_digit(int_text(v)[0]),
{
    let s = int_text(v) + t;
    if v < 0 {
        lemma_nat_text((-v) as nat);
        assert(s.skip(1) =~= nat_text((-v) as nat) + t);
        lemma_uint_round((-v) as nat, t);
    } else {
        lemma_nat_text(v as nat);
        lemma_uint_round(v as nat, t);
    }
}

proof fn lemma_register_round(r: Register, t: Seq<char>)
    ensures
        parse_register(register_text(r) + t) == Some((r, t)),
        register_text(r).len() > 0,
        register_text(r)[0] == 'R',
    decreases r,
{
    let s = register_text(r) + t;
    let close = seq![']'] + t;
    assert(close.skip(1) =~= t);
    match r {
        Register::Address(a) => {
            assert(s.skip(2) =~= nat_text(a as nat) + close);
            lemma_uint_round(a as nat, close);
        },
        Register::Register(g) => {
            assert(s.skip(2) =~= register_text(*g) + close);
            lemma_register_round(*g, close);
        },
    }
}

proof fn lemma_operand_round(o: Operand, t: Seq<char>)
    requires
        t.len() > 0,
        !is_digit(t[0]),
    ensures
        parse_operand(operand_text(o) + t) == Some((o, t)),
        operand_text(o).len() > 0,
        !is_space(operand_text(o)[0]),
{
    match o {
        Operand::Integer(v) => {
            lemma_int_round(v as int, t);
        },
        Operand::Data(g) => {
            lemma_register_round(g, t);
            let s = operand_text(o) + t;
            assert(digit_run(s) == 0);
        },
    }
}

proof fn lemma_arithmetic_round(
    target_register: Register,
    left_operand: Operand,
    operator: Operator,
    right_operand: Operand,
    end: Seq<char>,
)
    requires
        end.len() > 0,
        end[0] == ';',
    ensures
        parse_arithmetic(
            register_text(target_register) + seq![' ', ':', '=', ' '] + operand_text(left_operand)
                + seq![' '] + operator_text(operator) + seq![' '] + operand_text(right_operand)
                + end,
        ) == Some(
            (
                Instruction::Arithmetic {
                    target_register,
                    left_operand: Box::new(left_operand),
                    operator,
                    right_operand: Box::new(right_operand),
                },
                end,
            ),
        ),
{
    let s = register_text(target_register) + seq![' ', ':', '=', ' '] + operand_text(left_operand)
        + seq![' '] + operator_text(operator) + seq![' '] + operand_text(right_operand) + end;
    let r4 = operand_text(right_operand) + end;
    let r3 = seq![' '] + r4;
    let r_op = operator_text(operator) + r3;
    let r2 = seq![' '] + r_op;
    let r1b = operand_text(left_operand) + r2;
    let c1 = seq![':', '='] + (seq![' '] + r1b);
    let r1 = seq![' '] + c1;
    assert(s =~= register_text(target_register) + r1);
    lemma_register_round(target_register, r1);
    lemma_operand_round(left_operand, r2);
    lemma_operand_round(right_operand, end);
    lemma_skip_spaces(seq![' '], c1);
    assert(c1.skip(2) =~= seq![' '] + r1b);
    lemma_skip_spaces(seq![' '], r1b);
    lemma_skip_spaces(seq![' '], r_op);
    assert(r_op.skip(1) =~= r3);
    lemma_skip_spaces(seq![' '], r4);
}

proof fn lemma_jump_round(
    left_operand: Operand,
    relation: Relation,
    right_operand: Operand,
    target: u32,
    end: Seq<char>,
)
    requires
        end.len() > 0,
        end[0] == ';',
    ensures
        parse_jump(
            seq!['i', 'f', ' '] + operand_text(left_operand) + seq![' '] + relation_text(relation)
                + seq![' '] + operand_text(right_operand) + seq![' ', 'g', 'o', 't', 'o', ' ']
                + nat_text(target as nat) + end,
        ) == Some(
            (
                Instruction::ConditionalJump {
                    left_operand: Box::new(left_operand),
                    relation,
                    right_operand: Box::new(right_operand),
                    target,
                },
                end,
            ),
        ),
{
    let s = seq!['i', 'f', ' '] + operand_text(left_operand) + seq![' '] + relation_text(relation)
        + seq![' '] + operand_text(right_operand) + seq![' ', 'g', 'o', 't', 'o', ' '] + nat_text(
        target as nat,
    ) + end;
    let j9 = nat_text(target as nat) + end;
    let j8 = seq![' '] + j9;
    let j7 = seq!['g', 'o', 't', 'o'] + j8;
    let j6 = seq![' '] + j7;
    let j5 = operand_text(right_operand) + j6;
    let j4 = seq![' '] + j5;
    let j3 = relation_text(relation) + j4;
    let j2 = seq![' '] + j3;
    let j1 = operand_text(left_operand) + j2;
    assert(s =~= seq!['i', 'f'] + (seq![' '] + j1));
    assert(s.skip(2) =~= seq![' '] + j1);
    lemma_operand_round(left_operand, j2);
    lemma_operand_round(right_operand, j6);
    lemma_skip_spaces(seq![' '], j1);
    lemma_skip_spaces(seq![' '], j3);
    assert(j3.skip(relation_text(relation).len() as int) =~= j4);
    lemma_skip_spaces(seq![' '], j5);
    lemma_skip_spaces(seq![' '], j7);
    assert(j7.skip(4) =~= j8);
    lemma_nat_text(target as nat);
    lemma_skip_spaces(seq![' '], j9);
    lemma_uint_round(target as nat, end);
}

proof fn lemma_instruction_round(i: Instruction, t: Seq<char>)
    requires
        t.len() == 0 || !is_space(t[0]),
    ensures
        parse_instruction(instruction_text(i) + seq!['\n'] + t) == Some((i, t)),
        instruction_text(i).len() > 0,
        !is_space(instruction_text(i)[0]),
{
    let newline = seq!['\n'] + t;
    let end = seq![';'] + newline;
    assert(end.skip(1) =~= newline);
    lemma_skip_spaces(seq!['\n'], t);
    match i {
        Instruction::Arithmetic { target_register, left_operand, operator, right_operand } => {
            let body = register_text(target_register) + seq![' ', ':', '=', ' '] + operand_text(
                *left_operand,
            ) + seq![' '] + operator_text(operator) + seq![' '] + operand_text(*right_operand);
            assert(instruction_text(i) + seq!['\n'] + t =~= body + end);
            lemma_arithmetic_round(target_register, *left_operand, operator, *right_operand, end);
            lemma_register_round(target_register, seq![]);
            assert(instruction_text(i)[0] == register_text(target_register)[0]);
        },
        Instruction::ConditionalJump { left_operand, relation, right_operand, target } => {
            let body = seq!['i', 'f', ' '] + operand_text(*left_operand) + seq![' '] + relation_text(
                relation,
            ) + seq![' '] + operand_text(*right_operand) + seq![' ', 'g', 'o', 't', 'o', ' ']
                + nat_text(target as nat);
            assert(instruction_text(i) + seq!['\n'] + t =~= body + end);
            lemma_jump_round(*left_operand, relation, *right_operand, target, end);
            assert((body + end)[0] == 'i');
        },
    }
}

proof fn lemma_instructions_round(p: Seq<Instruction>)
    ensures
        parse_instructions(program_text(p)) == Some(p),
        program_text(p).len() == 0 || !is_space(program_text(p)[0]),
    decreases p.len(),
{
    if p.len() > 0 {
        let t = program_text(p.skip(1));
        lemma_instructions_round(p.skip(1));
        lemma_instruction_round(p[0], t);
        assert(seq![p[0]] + p.skip(1) =~= p);
    }
}

/// Rendering any instruction list to its canonical text and parsing that
/// text gives back the same list.
pub proof fn lemma_parse_renders(p: Seq<Instruction>)
    ensures
        parse_program(program_text(p)) == Some(p),
{
    lemma_instructions_round(p);
}

} // verus!
