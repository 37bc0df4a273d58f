use crate::instructions::{Instruction, Operand, Operator, Register, Relation};
use vstd::prelude::*;

verus! {

// The program grammar as functions from the text still to read to the value
// read and the text after it. Alternatives are tried in order and the first
// that matches wins.

pub open spec fn is_space(c: char) -> bool {
    c == ' ' || c == '\t' || c == '\r' || c == '\n'
}

pub open spec fn is_digit(c: char) -> bool {
    '0' <= c && c <= '9'
}

pub open spec fn digit_value(c: char) -> nat {
    (c as u32 - '0' as u32) as nat
}

/// The text after any leading whitespace.
pub open spec fn skip_space(s: Seq<char>) -> Seq<char>
    decreases s.len(),
{
    if s.len() > 0 && is_space(s[0]) {
        skip_space(s.skip(1))
    } else {
        s
    }
}

/// How many digits the text starts with.
pub open spec fn digit_run(s: Seq<char>) -> nat
    decreases s.len(),
{
    if s.len() > 0 && is_digit(s[0]) {
        1 + digit_run(s.skip(1))
    } else {
        0
    }
}

/// The number that a string of decimal digits denotes.
pub open spec fn digits_value(d: Seq<char>) -> nat
    decreases d.len(),
{
    if d.len() == 0 {
        0
    } else {
        digits_value(d.drop_last()) * 10 + digit_value(d.last())
    }
}

/// `uint := digit+`, all of the digits, with a value that fits in 32 bits.
pub open spec fn parse_uint(s: Seq<char>) -> Option<(u32, Seq<char>)> {
    let k = digit_run(s) as int;
    let v = digits_value(s.take(k));
    if k == 0 || v > u32::MAX {
        None
    } else {
        Some((v as u32, s.skip(k)))
    }
}

/// `int := "-"? uint`, with a value that fits in a signed 32-bit integer.
pub open spec fn parse_int(s: Seq<char>) -> Option<(i32, Seq<char>)> {
    if s.len() > 0 && s[0] == '-' {
        match parse_uint(s.skip(1)) {
            Some((n, r)) => if n <= 0x8000_0000 {
                Some(((-n) as i32, r))
            } else {
                None
            },
            None => None,
        }
    } else {
        match parse_uint(s) {
            Some((n, r)) => if n <= i32::MAX {
                Some((n as i32, r))
            } else {
                None
            },
            None => None,
        }
    }
}

/// `register := "R[" (uint | register) "]"`
pub open spec fn parse_register(s: Seq<char>) -> Option<(Register, Seq<char>)>
    decreases s.len(),
{
    if s.len() >= 2 && s[0] == 'R' && s[1] == '[' {
        let t = s.skip(2);
        let address = match parse_uint(t) {
            Some((a, r)) => Some((Register::Address(a), r)),
            None => match parse_register(t) {
                Some((g, r)) => Some((Register::Register(Box::new(g)), r)),
                None => None,
            },
        };
        match address {
            Some((g, r)) => if r.len() > 0 && r[0] == ']' {
                Some((g, r.skip(1)))
            } else {
                None
            },
            None => None,
        }
    } else {
        None
    }
}

/// `operand := int | register`
pub open spec fn parse_operand(s: Seq<char>) -> Option<(Operand, Seq<char>)> {
    match parse_int(s) {
        Some((v, r)) => Some((Operand::Integer(v), r)),
        None => match parse_register(s) {
            Some((g, r)) => Some((Operand::Data(g), r)),
            None => None,
        },
    }
}

/// `operator := "+" | "-" | "*" | "/" | "div"`
pub open spec fn parse_operator(s: Seq<char>) -> Option<(Operator, Seq<char>)> {
    if s.len() >= 1 && s[0] == '+' {
        Some((Operator::Plus, s.skip(1)))
    } else if s.len() >= 1 && s[0] == '-' {
        Some((Operator::Minus, s.skip(1)))
    } else if s.len() >= 1 && s[0] == '*' {
        Some((Operator::Times, s.skip(1)))
    } else if s.len() >= 1 && s[0] == '/' {
        Some((Operator::Divide, s.skip(1)))
    } else if s.len() >= 3 && s[0] == 'd' && s[1] == 'i' && s[2] == 'v' {
        Some((Operator::Divide, s.skip(3)))
    } else {
        None
    }
}

/// `relation := "<=" | "<" | ">=" | ">" | "==" | "!="`, the two-character
/// forms first so that `<=` is never read as `<`.
pub open spec fn parse_relation(s: Seq<char>) -> Option<(Relation, Seq<char>)> {
    if s.len() >= 2 && s[0] == '<' && s[1] == '=' {
        Some((Relation::Leq, s.skip(2)))
    } else if s.len() >= 1 && s[0] == '<' {
        Some((Relation::Lt, s.skip(1)))
    } else if s.len() >= 2 && s[0] == '>' && s[1] == '=' {
        Some((Relation::Geq, s.skip(2)))
    } else if s.len() >= 1 && s[0] == '>' {
        Some((Relation::Gt, s.skip(1)))
    } else if s.len() >= 2 && s[0] == '=' && s[1] == '=' {
        Some((Relation::Eq, s.skip(2)))
    } else if s.len() >= 2 && s[0] == '!' && s[1] == '=' {
        Some((Relation::Neq, s.skip(2)))
    } else {
        None
    }
}

/// `arithmetic := register ws* ":=" ws* operand ws* operator ws* operand`
pub open spec fn parse_arithmetic(s: Seq<char>) -> Option<(Instruction, Seq<char>)> {
    match parse_register(s) {
        Some((target, r1)) => {
            let r2 = skip_space(r1);
            if r2.len() >= 2 && r2[0] == ':' && r2[1] == '=' {
                match parse_operand(skip_space(r2.skip(2))) {
                    Some((left, r3)) => match parse_operator(skip_space(r3)) {
                        Some((op, r4)) => match parse_operand(skip_space(r4)) {
                            Some((right, r5)) => Some(
                                (
                                    Instruction::Arithmetic {
                                        target_register: target,
                                        left_operand: Box::new(left),
                                        operator: op,
                                        right_operand: Box::new(right),
                                    },
                                    r5,
                                ),
                            ),
                            None => None,
                        },
                        None => None,
                    },
                    None => None,
                }
            } else {
                None
            }
        },
        None => None,
    }
}

/// `conditional := "if" ws+ operand ws* relation ws* operand ws* "goto" ws* uint`
pub open spec fn parse_jump(s: Seq<char>) -> Option<(Instruction, Seq<char>)> {
    if s.len() >= 3 && s[0] == 'i' && s[1] == 'f' && is_space(s[2]) {
        match parse_operand(skip_space(s.skip(2))) {
            Some((left, r1)) => match parse_relation(skip_space(r1)) {
                Some((rel, r2)) => match parse_operand(skip_space(r2)) {
                    Some((right, r3)) => {
                        let r4 = skip_space(r3);
                        if r4.len() >= 4 && r4[0] == 'g' && r4[1] == 'o' && r4[2] == 't' && r4[3]
                            == 'o' {
                            match parse_uint(skip_space(r4.skip(4))) {
                                Some((target, r5)) => Some(
                                    (
                                        Instruction::ConditionalJump {
                                            left_operand: Box::new(left),
                                            relation: rel,
                                            right_operand: Box::new(right),
                                            target: target,
                                        },
                                        r5,
                                    ),
                                ),
                                None => None,
                            }
                        } else {
                            None
                        }
                    },
                    None => None,
                },
                None => None,
            },
            None => None,
        }
    } else {
        None
    }
}

/// `instruction := (arithmetic | conditional) ";"? ws*`
pub open spec fn parse_instruction(s: Seq<char>) -> Option<(Instruction, Seq<char>)> {
    let body = match parse_arithmetic(s) {
        Some(x) => Some(x),
        None => parse_jump(s),
    };
    match body {
        Some((i, r)) => {
            let r2 = if r.len() > 0 && r[0] == ';' {
                r.skip(1)
            } else {
                r
            };
            Some((i, skip_space(r2)))
        },
        None => None,
    }
}

/// `instruction*` up to the end of the text.
pub open spec fn parse_instructions(s: Seq<char>) -> Option<Seq<Instruction>>
    decreases s.len(),
{
    if s.len() == 0 {
        Some(Seq::empty())
    } else {
        match parse_instruction(s) {
            Some((i, r)) => if r.len() < s.len() {
                match parse_instructions(r) {
                    Some(rest) => Some(seq![i] + rest),
                    None => None,
                }
            } else {
                None
            },
            None => None,
        }
    }
}

/// `program := ws* instruction*`, which must take the whole text.
pub open spec fn parse_program(s: Seq<char>) -> Option<Seq<Instruction>> {
    parse_instructions(skip_space(s))
}

pub(crate) proof fn lemma_digit_run(s: Seq<char>, k: nat)
    requires
        k <= s.len(),
        forall|m: int| 0 <= m < k ==> is_digit(#[trigger] s[m]),
        k == s.len() || !is_digit(s[k as int]),
    ensures
        digit_run(s) == k,
    decreases k,
{
    if k > 0 {
        assert forall|m: int| 0 <= m < k - 1 implies is_digit(#[trigger] s.skip(1)[m]) by {
            assert(s.skip(1)[m] == s[m + 1]);
        }
        lemma_digit_run(s.skip(1), (k - 1) as nat);
    }
}

} // verus!
