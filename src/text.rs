use crate::instructions::{Instruction, Operand, Operator, Register, Relation};
use vstd::prelude::*;
use vstd::string::StringExecFns;

verus! {

// The canonical text of instructions: `R[addr] := L op R;` and
// `if L rel R goto N;`, one instruction per line.

pub open spec fn digit_char(d: nat) -> char {
    if d == 0 {
        '0'
    } else if d == 1 {
        '1'
    } else if d == 2 {
        '2'
    } else if d == 3 {
        '3'
    } else if d == 4 {
        '4'
    } else if d == 5 {
        '5'
    } else if d == 6 {
        '6'
    } else if d == 7 {
        '7'
    } else if d == 8 {
        '8'
    } else {
        '9'
    }
}

/// Decimal digits of `n`, without leading zeros.
pub open spec fn nat_text(n: nat) -> Seq<char>
    decreases n,
{
    if n < 10 {
        seq![digit_char(n)]
    } else {
        nat_text(n / 10).push(digit_char(n % 10))
    }
}

pub open spec fn int_text(v: int) -> Seq<char> {
    if v < 0 {
        seq!['-'] + nat_text((-v) as nat)
    } else {
        nat_text(v as nat)
    }
}

pub open spec fn register_text(r: Register) -> Seq<char>
    decreases r,
{
    let inner = match r {
        Register::Address(a) => nat_text(a as nat),
        Register::Register(g) => register_text(*g),
    };
    seq!['R', '['] + inner + seq![']']
}

pub open spec fn operand_text(o: Operand) -> Seq<char> {
    match o {
        Operand::Integer(v) => int_text(v as int),
        Operand::Data(g) => register_text(g),
    }
}

pub open spec fn operator_text(op: Operator) -> Seq<char> {
    match op {
        Operator::Plus => seq!['+'],
        Operator::Minus => seq!['-'],
        Operator::Times => seq!['*'],
        Operator::Divide => seq!['/'],
    }
}

pub open spec fn relation_text(rel: Relation) -> Seq<char> {
    match rel {
        Relation::Lt => seq!['<'],
        Relation::Leq => seq!['<', '='],
        Relation::Gt => seq!['>'],
        Relation::Geq => seq!['>', '='],
        Relation::Eq => seq!['=', '='],
        Relation::Neq => seq!['!', '='],
    }
}

pub open spec fn instruction_text(i: Instruction) -> Seq<char> {
    match i {
        Instruction::Arithmetic { target_register, left_operand, operator, right_operand } => {
            register_text(target_register) + seq![' ', ':', '=', ' '] + operand_text(*left_operand)
                + seq![' '] + operator_text(operator) + seq![' '] + operand_text(*right_operand)
                + seq![';']
        },
        Instruction::ConditionalJump { left_operand, relation, right_operand, target } => {
            seq!['i', 'f', ' '] + operand_text(*left_operand) + seq![' '] + relation_text(relation)
                + seq![' '] + operand_text(*right_operand) + seq![' ', 'g', 'o', 't', 'o', ' ']
                + nat_text(target as nat) + seq![';']
        },
    }
}

/// Each instruction's text followed by a line break.
pub open spec fn program_text(p: Seq<Instruction>) -> Seq<char>
    decreases p.len(),
{
    if p.len() == 0 {
        Seq::empty()
    } else {
        instruction_text(p[0]) + seq!['\n'] + program_text(p.skip(1))
    }
}

fn digit_str(d: u32) -> (r: &'static str)
    requires
        d < 10,
    ensures
        r@ == seq![digit_char(d as nat)],
{
    proof {
        reveal_strlit("0");
        reveal_strlit("1");
        reveal_strlit("2");
        reveal_strlit("3");
        reveal_strlit("4");
        reveal_strlit("5");
        reveal_strlit("6");
        reveal_strlit("7");
        reveal_strlit("8");
        reveal_strlit("9");
    }
    let r = match d {
        0 => "0",
        1 => "1",
        2 => "2",
        3 => "3",
        4 => "4",
        5 => "5",
        6 => "6",
        7 => "7",
        8 => "8",
        _ => "9",
    };
    assert(r@ =~= seq![digit_char(d as nat)]);
    r
}

fn append_nat(out: &mut String, n: u32)
    ensures
        final(out)@ == old(out)@ + nat_text(n as nat),
    decreases n,
{
    if n >= 10 {
        append_nat(out, n / 10);
    }
    out.append(digit_str(n % 10));
    assert(out@ =~= old(out)@ + nat_text(n as nat));
}

fn append_int(out: &mut String, v: i32)
    ensures
        final(out)@ == old(out)@ + int_text(v as int),
{
    if v < 0 {
        out.append("-");
        proof {
            reveal_strlit("-");
        }
        append_nat(out, (-(v as i64)) as u32);
        assert(out@ =~= old(out)@ + int_text(v as int));
    } else {
        append_nat(out, v as u32);
    }
}

fn append_register(out: &mut String, r: &Register)
    ensures
        final(out)@ == old(out)@ + register_text(*r),
    decreases r,
{
    out.append("R[");
    match r {
        Register::Address(a) => append_nat(out, *a),
        Register::Register(g) => append_register(out, g),
    }
    out.append("]");
    proof {
        reveal_strlit("R[");
        reveal_strlit("]");
    }
    assert(out@ =~= old(out)@ + register_text(*r));
}

fn append_operand(out: &mut String, o: &Operand)
    ensures
        final(out)@ == old(out)@ + operand_text(*o),
{
    match o {
        Operand::Integer(v) => append_int(out, *v),
        Operand::Data(g) => append_register(out, g),
    }
}

impl Operator {
    pub fn symbol(&self) -> (r: &'static str)
        ensures
            r@ == operator_text(*self),
    {
        proof {
            reveal_strlit("+");
            reveal_strlit("-");
            reveal_strlit("*");
            reveal_strlit("/");
        }
        let r = match self {
            Operator::Plus => "+",
            Operator::Minus => "-",
            Operator::Times => "*",
            Operator::Divide => "/",
        };
        assert(r@ =~= operator_text(*self));
        r
    }
}

impl Relation {
    pub fn symbol(&self) -> (r: &'static str)
        ensures
            r@ == relation_text(*self),
    {
        proof {
            reveal_strlit("<");
            reveal_strlit("<=");
            reveal_strlit(">");
            reveal_strlit(">=");
            reveal_strlit("==");
            reveal_strlit("!=");
        }
        let r = match self {
            Relation::Lt => "<",
            Relation::Leq => "<=",
            Relation::Gt => ">",
            Relation::Geq => ">=",
            Relation::Eq => "==",
            Relation::Neq => "!=",
        };
        assert(r@ =~= relation_text(*self));
        r
    }
}

impl Instruction {
    /// The instruction's canonical text, which parses back to it.
    pub fn render(&self) -> (r: String)
        ensures
            r@ == instruction_text(*self),
    {
        let mut out = String::new();
        proof {
            reveal_strlit(" := ");
            reveal_strlit(" ");
            reveal_strlit(";");
            reveal_strlit("if ");
            reveal_strlit(" goto ");
        }
        match self {
            Instruction::Arithmetic { target_register, left_operand, operator, right_operand } => {
                append_register(&mut out, target_register);
                out.append(" := ");
                append_operand(&mut out, left_operand);
                out.append(" ");
                out.append(operator.symbol());
                out.append(" ");
                append_operand(&mut out, right_operand);
                out.append(";");
            },
            Instruction::ConditionalJump { left_operand, relation, right_operand, target } => {
                out.append("if ");
                append_operand(&mut out, left_operand);
                out.append(" ");
                out.append(relation.symbol());
                out.append(" ");
                append_operand(&mut out, right_operand);
                out.append(" goto ");
                append_nat(&mut out, *target);
                out.append(";");
            },
        }
        assert(out@ =~= instruction_text(*self));
        out
    }
}

/// The canonical text of a whole program, one instruction per line.
pub fn render_program(program: &Vec<Instruction>) -> (r: String)
    ensures
        r@ == program_text(program@),
{
    let mut out = String::new();
    let mut i: usize = 0;
    proof {
        assert(program@.skip(0) =~= program@);
        assert(out@ + program_text(program@) =~= program_text(program@));
    }
    while i < program.len()
        invariant
            i <= program.len(),
            out@ + program_text(program@.skip(i as int)) == program_text(program@),
        decreases program.len() - i,
    {
        let ghost prev = out@;
        let line = program[i].render();
        out.append(line.as_str());
        out.append("\n");
        proof {
            reveal_strlit("\n");
            let rest = program@.skip(i as int);
            assert(rest[0] == program@[i as int]);
            assert(rest.skip(1) =~= program@.skip(i + 1));
            assert(out@ + program_text(program@.skip(i + 1)) =~= prev + program_text(rest));
        }
        i = i + 1;
    }
    proof {
        assert(program@.skip(i as int) =~= Seq::<Instruction>::empty());
        assert(out@ + Seq::<char>::empty() =~= out@);
    }
    out
}

} // verus!
