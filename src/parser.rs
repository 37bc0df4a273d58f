use crate::grammar::{
    digits_value, lemma_digit_run, is_digit, is_space, parse_int, parse_operand, parse_operator,
    parse_register, parse_relation, parse_uint, skip_space, parse_arithmetic, parse_jump,
    parse_instruction, parse_instructions, parse_program,
};
use crate::instructions::{Instruction, Operand, Operator, Register, Relation};
use vstd::prelude::*;

verus! {

/// `r`, read from position `i` of `s`, agrees with the grammar's result
/// `expected`: the same value, and the rest of the text after it.
pub(crate) open spec fn found<T>(
    s: Seq<char>,
    i: usize,
    r: Option<(T, usize)>,
    expected: Option<(T, Seq<char>)>,
) -> bool {
    match r {
        Some((v, j)) => i < j <= s.len() && expected == Some((v, s.skip(j as int))),
        None => expected is None,
    }
}

pub(crate) proof fn lemma_skip_skip(s: Seq<char>, a: int, b: int)
    requires
        0 <= a,
        0 <= b,
        a + b <= s.len(),
    ensures
        s.skip(a).skip(b) == s.skip(a + b),
{
    assert(s.skip(a).skip(b) =~= s.skip(a + b));
}

fn is_space_char(c: char) -> (r: bool)
    ensures
        r == is_space(c),
{
    c == ' ' || c == '\t' || c == '\r' || c == '\n'
}

fn is_digit_char(c: char) -> (r: bool)
    ensures
        r == is_digit(c),
{
    '0' <= c && c <= '9'
}

pub(crate) fn char_at(s: &Vec<char>, i: usize, c: char) -> (r: bool)
    ensures
        r == (i < s.len() && s@[i as int] == c),
{
    i < s.len() && s[i] == c
}

pub(crate) fn skip_space_at(s: &Vec<char>, i: usize) -> (j: usize)
    requires
        i <= s.len(),
    ensures
        i <= j <= s.len(),
        skip_space(s@.skip(i as int)) == s@.skip(j as int),
{
    let mut j = i;
    while j < s.len() && is_space_char(s[j])
        invariant
            i <= j <= s.len(),
            skip_space(s@.skip(i as int)) == skip_space(s@.skip(j as int)),
        decreases s.len() - j,
    {
        proof {
            lemma_skip_skip(s@, j as int, 1);
        }
        j = j + 1;
    }
    j
}

pub(crate) fn uint_at(s: &Vec<char>, i: usize) -> (r: Option<(u32, usize)>)
    requires
        i <= s.len(),
    ensures
        found(s@, i, r, parse_uint(s@.skip(i as int))),
{
    let mut j = i;
    let mut v: u64 = 0;
    let mut too_large = false;
    while j < s.len() && is_digit_char(s[j])
        invariant
            i <= j <= s.len(),
            v <= u32::MAX,
            forall|m: int| i <= m < j ==> is_digit(#[trigger] s@[m]),
            too_large ==> digits_value(s@.subrange(i as int, j as int)) > u32::MAX,
            !too_large ==> v == digits_value(s@.subrange(i as int, j as int)),
        decreases s.len() - j,
    {
        let d = (s[j] as u32 - '0' as u32) as u64;
        proof {
            let next = s@.subrange(i as int, j + 1);
            assert(next.drop_last() =~= s@.subrange(i as int, j as int));
            assert(next.last() == s@[j as int]);
        }
        if !too_large {
            let w = v * 10 + d;
            if w > u32::MAX as u64 {
                too_large = true;
            } else {
                v = w;
            }
        }
        j = j + 1;
    }
    proof {
        let t = s@.skip(i as int);
        assert forall|m: int| 0 <= m < j - i implies is_digit(#[trigger] t[m]) by {
            assert(t[m] == s@[i + m]);
        }
        lemma_digit_run(t, (j - i) as nat);
        assert(t.take((j - i) as int) =~= s@.subrange(i as int, j as int));
        lemma_skip_skip(s@, i as int, (j - i) as int);
    }
    if j == i || too_large {
        None
    } else {
        Some((v as u32, j))
    }
}

pub(crate) fn int_at(s: &Vec<char>, i: usize) -> (r: Option<(i32, usize)>)
    requires
        i <= s.len(),
    ensures
        found(s@, i, r, parse_int(s@.skip(i as int))),
{
    if char_at(s, i, '-') {
        proof {
            lemma_skip_skip(s@, i as int, 1);
        }
        match uint_at(s, i + 1) {
            Some((n, j)) => if n <= 0x8000_0000u32 {
                Some(((-(n as i64)) as i32, j))
            } else {
                None
            },
            None => None,
        }
    } else {
        match uint_at(s, i) {
            Some((n, j)) => if n <= i32::MAX as u32 {
                Some((n as i32, j))
            } else {
                None
            },
            None => None,
        }
    }
}

fn register_at(s: &Vec<char>, i: usize) -> (r: Option<(Register, usize)>)
    requires
        i <= s.len(),
    ensures
        found(s@, i, r, parse_register(s@.skip(i as int))),
    decreases s.len() - i,
{
    if !(char_at(s, i, 'R') && char_at(s, i + 1, '[')) {
        return None;
    }
    proof {
        lemma_skip_skip(s@, i as int, 2);
    }
    let (address, j) = match uint_at(s, i + 2) {
        Some((a, j)) => (Register::Address(a), j),
        None => match register_at(s, i + 2) {
            Some((g, j)) => (Register::Register(Box::new(g)), j),
            None => return None,
        },
    };
    if char_at(s, j, ']') {
        proof {
            lemma_skip_skip(s@, j as int, 1);
        }
        Some((address, j + 1))
    } else {
        None
    }
}

fn operand_at(s: &Vec<char>, i: usize) -> (r: Option<(Operand, usize)>)
    requires
        i <= s.len(),
    ensures
        found(s@, i, r, parse_operand(s@.skip(i as int))),
{
    match int_at(s, i) {
        Some((v, j)) => Some((Operand::Integer(v), j)),
        None => match register_at(s, i) {
            Some((g, j)) => Some((Operand::Data(g), j)),
            None => None,
        },
    }
}

fn operator_at(s: &Vec<char>, i: usize) -> (r: Option<(Operator, usize)>)
    requires
        i <= s.len(),
    ensures
        found(s@, i, r, parse_operator(s@.skip(i as int))),
{
    proof {
        if i + 1 <= s.len() {
            lemma_skip_skip(s@, i as int, 1);
        }
        if i + 3 <= s.len() {
            lemma_skip_skip(s@, i as int, 3);
        }
    }
    if char_at(s, i, '+') {
        Some((Operator::Plus, i + 1))
    } else if char_at(s, i, '-') {
        Some((Operator::Minus, i + 1))
    } else if char_at(s, i, '*') {
        Some((Operator::Times, i + 1))
    } else if char_at(s, i, '/') {
        Some((Operator::Divide, i + 1))
    } else if char_at(s, i, 'd') && char_at(s, i + 1, 'i') && char_at(s, i + 2, 'v') {
        Some((Operator::Divide, i + 3))
    } else {
        None
    }
}

fn relation_at(s: &Vec<char>, i: usize) -> (r: Option<(Relation, usize)>)
    requires
        i <= s.len(),
    ensures
        found(s@, i, r, parse_relation(s@.skip(i as int))),
{
    proof {
        if i + 1 <= s.len() {
            lemma_skip_skip(s@, i as int, 1);
        }
        if i + 2 <= s.len() {
            lemma_skip_skip(s@, i as int, 2);
        }
    }
    if char_at(s, i, '<') && char_at(s, i + 1, '=') {
        Some((Relation::Leq, i + 2))
    } else if char_at(s, i, '<') {
        Some((Relation::Lt, i + 1))
    } else if char_at(s, i, '>') && char_at(s, i + 1, '=') {
        Some((Relation::Geq, i + 2))
    } else if char_at(s, i, '>') {
        Some((Relation::Gt, i + 1))
    } else if char_at(s, i, '=') && char_at(s, i + 1, '=') {
        Some((Relation::Eq, i + 2))
    } else if char_at(s, i, '!') && char_at(s, i + 1, '=') {
        Some((Relation::Neq, i + 2))
    } else {
        None
    }
}

fn arithmetic_at(s: &Vec<char>, i: usize) -> (r: Option<(Instruction, usize)>)
    requires
        i <= s.len(),
    ensures
        found(s@, i, r, parse_arithmetic(s@.skip(i as int))),
{
    let (target, j) = match register_at(s, i) {
        Some(x) => x,
        None => return None,
    };
    let j = skip_space_at(s, j);
    if !(char_at(s, j, ':') && char_at(s, j + 1, '=')) {
        return None;
    }
    proof {
        lemma_skip_skip(s@, j as int, 2);
    }
    let j = skip_space_at(s, j + 2);
    let (left, j) = match operand_at(s, j) {
        Some(x) => x,
        None => return None,
    };
    let j = skip_space_at(s, j);
    let (operator, j) = match operator_at(s, j) {
        Some(x) => x,
        None => return None,
    };
    let j = skip_space_at(s, j);
    let (right, j) = match operand_at(s, j) {
        Some(x) => x,
        None => return None,
    };
    Some(
        (
            Instruction::Arithmetic {
                target_register: target,
                left_operand: Box::new(left),
                operator,
                right_operand: Box::new(right),
            },
            j,
        ),
    )
}

fn jump_at(s: &Vec<char>, i: usize) -> (r: Option<(Instruction, usize)>)
    requires
        i <= s.len(),
    ensures
        found(s@, i, r, parse_jump(s@.skip(i as int))),
{
    if !(char_at(s, i, 'i') && char_at(s, i + 1, 'f') && i + 2 < s.len() && is_space_char(
        s[i + 2],
    )) {
        return None;
    }
    proof {
        lemma_skip_skip(s@, i as int, 2);
    }
    let j = skip_space_at(s, i + 2);
    let (left, j) = match operand_at(s, j) {
        Some(x) => x,
        None => return None,
    };
    let j = skip_space_at(s, j);
    let (relation, j) = match relation_at(s, j) {
        Some(x) => x,
        None => return None,
    };
    let j = skip_space_at(s, j);
    let (right, j) = match operand_at(s, j) {
        Some(x) => x,
        None => return None,
    };
    let j = skip_space_at(s, j);
    if !(char_at(s, j, 'g') && char_at(s, j + 1, 'o') && char_at(s, j + 2, 't') && char_at(
        s,
        j + 3,
        'o',
    )) {
        return None;
    }
    proof {
        lemma_skip_skip(s@, j as int, 4);
    }
    let j = skip_space_at(s, j + 4);
    let (target, j) = match uint_at(s, j) {
        Some(x) => x,
        None => return None,
    };
    Some(
        (
            Instruction::ConditionalJump {
                left_operand: Box::new(left),
                relation,
                right_operand: Box::new(right),
                target,
            },
            j,
        ),
    )
}

fn instruction_at(s: &Vec<char>, i: usize) -> (r: Option<(Instruction, usize)>)
    requires
        i <= s.len(),
    ensures
        found(s@, i, r, parse_instruction(s@.skip(i as int))),
{
    let (instruction, j) = match arithmetic_at(s, i) {
        Some(x) => x,
        None => match jump_at(s, i) {
            Some(x) => x,
            None => return None,
        },
    };
    let j = if char_at(s, j, ';') {
        proof {
            lemma_skip_skip(s@, j as int, 1);
        }
        j + 1
    } else {
        j
    };
    let j = skip_space_at(s, j);
    Some((instruction, j))
}

pub(crate) fn chars_of(text: &str) -> (r: Vec<char>)
    ensures
        r@ == text@,
{
    let mut chars: Vec<char> = Vec::new();
    let n = text.unicode_len();
    let mut i: usize = 0;
    while i < n
        invariant
            n == text@.len(),
            i <= n,
            chars@ == text@.take(i as int),
        decreases n - i,
    {
        chars.push(text.get_char(i));
        proof {
            assert(text@.take(i + 1) =~= text@.take(i as int).push(text@[i as int]));
        }
        i = i + 1;
    }
    proof {
        assert(text@.take(n as int) =~= text@);
    }
    chars
}

/// Parses a whole program text into its instructions, in order; `None` when
/// the text is not, up to trailing whitespace, a sequence of instructions.
pub fn program(text: &str) -> (r: Option<Vec<Instruction>>)
    ensures
        match parse_program(text@) {
            Some(p) => r is Some && r->0@ == p,
            None => r is None,
        },
{
    let s = chars_of(text);
    let mut i = skip_space_at(&s, 0);
    let mut instructions: Vec<Instruction> = Vec::new();
    proof {
        assert(s@.skip(0) =~= s@);
    }
    while i < s.len()
        invariant
            i <= s.len(),
            s@ == text@,
            parse_program(s@) == match parse_instructions(s@.skip(i as int)) {
                Some(rest) => Some(instructions@ + rest),
                None => None::<Seq<Instruction>>,
            },
        decreases s.len() - i,
    {
        match instruction_at(&s, i) {
            Some((instruction, j)) => {
                proof {
                    let rest = s@.skip(i as int);
                    assert(rest.len() > 0);
                    match parse_instructions(s@.skip(j as int)) {
                        Some(tail) => {
                            assert(instructions@.push(instruction) + tail =~= instructions@ + (
                            seq![instruction] + tail));
                        },
                        None => {},
                    }
                }
                instructions.push(instruction);
                i = j;
            },
            None => {
                proof {
                    assert(s@.skip(i as int).len() > 0);
                    assert(parse_instructions(s@.skip(i as int)) is None);
                }
                return None;
            },
        }
    }
    proof {
        assert(s@.skip(i as int) =~= Seq::<char>::empty());
        assert(instructions@ + Seq::<Instruction>::empty() =~= instructions@);
    }
    Some(instructions)
}

} // verus!
