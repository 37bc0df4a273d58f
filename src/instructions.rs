use crate::machine::{read, Fault, Memory};
use vstd::prelude::*;

verus! {

/// A memory reference: a literal address, or the cell whose address is held
/// in another register.
#[derive(Debug, PartialEq, Eq)]
pub enum Register {
    Address(u32),
    Register(Box<Register>),
}

/// An operand: an integer literal or the contents of a register.
#[derive(Debug, PartialEq, Eq)]
pub enum Operand {
    Integer(i32),
    Data(Register),
}

#[derive(Debug, PartialEq, Eq)]
pub enum Operator {
    Plus,
    Minus,
    Times,
    Divide,
}

#[derive(Debug, PartialEq, Eq)]
pub enum Relation {
    Lt,
    Leq,
    Gt,
    Geq,
    Eq,
    Neq,
}

#[derive(Debug, PartialEq, Eq)]
pub enum Instruction {
    /// `target_register := left_operand operator right_operand`
    Arithmetic {
        target_register: Register,
        left_operand: Box<Operand>,
        operator: Operator,
        right_operand: Box<Operand>,
    },
    /// `if left_operand relation right_operand goto target`, with a 1-based target.
    ConditionalJump {
        left_operand: Box<Operand>,
        relation: Relation,
        right_operand: Box<Operand>,
        target: u32,
    },
}

/// Quotient of integer division rounded toward zero.
pub open spec fn truncated_quotient(a: int, b: int) -> int {
    let q = (if a < 0 {
        -a
    } else {
        a
    }) / (if b < 0 {
        -b
    } else {
        b
    });
    if (a < 0) == (b < 0) {
        q
    } else {
        -q
    }
}

/// Something that has a signed 32-bit value in a given memory.
pub trait Evaluable {
    spec fn value_in(&self, m: Map<u32, i32>) -> Result<i32, Fault>;

    fn evaluate(&self, memory: &Memory) -> (r: Result<i32, Fault>)
        ensures
            r == self.value_in(memory@),
    ;
}

impl Register {
    /// The concrete address this register denotes in memory `m`; an inner
    /// register's stored value is taken as an address bit for bit.
    pub open spec fn resolved(self, m: Map<u32, i32>) -> Result<u32, Fault>
        decreases self,
    {
        match self {
            Register::Address(a) => Ok(a),
            Register::Register(inner) => match inner.resolved(m) {
                Ok(a) => match read(m, a) {
                    Ok(v) => Ok(v as u32),
                    Err(e) => Err(e),
                },
                Err(e) => Err(e),
            },
        }
    }

    pub fn resolve_address(&self, memory: &Memory) -> (r: Result<u32, Fault>)
        ensures
            r == self.resolved(memory@),
        decreases self,
    {
        match self {
            Register::Address(a) => Ok(*a),
            Register::Register(inner) => match inner.resolve_address(memory) {
                Ok(a) => match memory.get(a) {
                    Ok(v) => Ok(v as u32),
                    Err(e) => Err(e),
                },
                Err(e) => Err(e),
            },
        }
    }
}

impl Evaluable for Register {
    open spec fn value_in(&self, m: Map<u32, i32>) -> Result<i32, Fault> {
        match self.resolved(m) {
            Ok(a) => read(m, a),
            Err(e) => Err(e),
        }
    }

    fn evaluate(&self, memory: &Memory) -> (r: Result<i32, Fault>) {
        match self.resolve_address(memory) {
            Ok(a) => memory.get(a),
            Err(e) => Err(e),
        }
    }
}

impl Evaluable for Operand {
    open spec fn value_in(&self, m: Map<u32, i32>) -> Result<i32, Fault> {
        match self {
            Operand::Integer(v) => Ok(*v),
            Operand::Data(register) => register.value_in(m),
        }
    }

    fn evaluate(&self, memory: &Memory) -> (r: Result<i32, Fault>) {
        match self {
            Operand::Integer(v) => Ok(*v),
            Operand::Data(register) => register.evaluate(memory),
        }
    }
}

/// A raw address resolves to itself, whatever memory holds.
pub proof fn lemma_resolve_raw(a: u32, m: Map<u32, i32>)
    ensures
        Register::Address(a).resolved(m) == Ok::<u32, Fault>(a),
{
}

/// A register whose address is given by register `r` resolves to the
/// non-negative value stored at `r`'s address.
pub proof fn lemma_resolve_indirect(r: Register, m: Map<u32, i32>, v: i32)
    requires
        r.resolved(m) is Ok,
        m.contains_key(r.resolved(m)->Ok_0),
        m[r.resolved(m)->Ok_0] == v,
        v >= 0,
    ensures
        Register::Register(Box::new(r)).resolved(m) == Ok::<u32, Fault>(v as u32),
        v as u32 == v as int,
{
}

impl Operator {
    /// The exact result of the operation over the integers.
    pub open spec fn exact(self, a: int, b: int) -> int {
        match self {
            Operator::Plus => a + b,
            Operator::Minus => a - b,
            Operator::Times => a * b,
            Operator::Divide => truncated_quotient(a, b),
        }
    }

    /// The exact result when it is defined and fits in 32 bits, else a fault.
    pub open spec fn result(self, a: i32, b: i32) -> Result<i32, Fault> {
        let v = self.exact(a as int, b as int);
        if (self is Divide && b == 0) || v < i32::MIN || v > i32::MAX {
            Err(Fault::ArithmeticFault)
        } else {
            Ok(v as i32)
        }
    }

    pub fn apply(&self, a: i32, b: i32) -> (r: Result<i32, Fault>)
        ensures
            r == self.result(a, b),
    {
        let v = match self {
            Operator::Plus => a.checked_add(b),
            Operator::Minus => a.checked_sub(b),
            Operator::Times => a.checked_mul(b),
            Operator::Divide => a.checked_div(b),
        };
        match v {
            Some(x) => Ok(x),
            None => Err(Fault::ArithmeticFault),
        }
    }
}

impl Relation {
    pub open spec fn relates(self, a: i32, b: i32) -> bool {
        match self {
            Relation::Lt => a < b,
            Relation::Leq => a <= b,
            Relation::Gt => a > b,
            Relation::Geq => a >= b,
            Relation::Eq => a == b,
            Relation::Neq => a != b,
        }
    }

    pub fn holds(&self, a: i32, b: i32) -> (r: bool)
        ensures
            r == self.relates(a, b),
    {
        match self {
            Relation::Lt => a < b,
            Relation::Leq => a <= b,
            Relation::Gt => a > b,
            Relation::Geq => a >= b,
            Relation::Eq => a == b,
            Relation::Neq => a != b,
        }
    }
}

impl Instruction {
    /// Whether a jump's relation holds; an assignment never jumps.
    pub open spec fn condition_in(self, m: Map<u32, i32>) -> Result<bool, Fault> {
        match self {
            Instruction::ConditionalJump { left_operand, relation, right_operand, .. } => {
                match left_operand.value_in(m) {
                    Ok(a) => match right_operand.value_in(m) {
                        Ok(b) => Ok(relation.relates(a, b)),
                        Err(e) => Err(e),
                    },
                    Err(e) => Err(e),
                }
            },
            Instruction::Arithmetic { .. } => Ok(false),
        }
    }

    /// The value an assignment computes; a jump computes 0.
    pub open spec fn arithmetic_value_in(self, m: Map<u32, i32>) -> Result<i32, Fault> {
        match self {
            Instruction::Arithmetic { left_operand, operator, right_operand, .. } => {
                match left_operand.value_in(m) {
                    Ok(a) => match right_operand.value_in(m) {
                        Ok(b) => operator.result(a, b),
                        Err(e) => Err(e),
                    },
                    Err(e) => Err(e),
                }
            },
            Instruction::ConditionalJump { .. } => Ok(0),
        }
    }

    /// The memory after the instruction and the jump target it takes, if any.
    /// An assignment resolves its target first, then evaluates its operands,
    /// and writes only when all of that succeeded.
    pub open spec fn outcome(self, m: Map<u32, i32>) -> Result<(Map<u32, i32>, Option<u32>), Fault> {
        match self {
            Instruction::ConditionalJump { target, .. } => match self.condition_in(m) {
                Ok(c) => Ok((m, if c { Some(target) } else { None })),
                Err(e) => Err(e),
            },
            Instruction::Arithmetic { target_register, .. } => match target_register.resolved(m) {
                Ok(a) => match self.arithmetic_value_in(m) {
                    Ok(v) => Ok((m.insert(a, v), None)),
                    Err(e) => Err(e),
                },
                Err(e) => Err(e),
            },
        }
    }

    pub fn condition_holds(&self, memory: &Memory) -> (r: Result<bool, Fault>)
        ensures
            r == self.condition_in(memory@),
    {
        match self {
            Instruction::ConditionalJump { left_operand, relation, right_operand, .. } => {
                let a = match left_operand.evaluate(memory) {
                    Ok(a) => a,
                    Err(e) => return Err(e),
                };
                let b = match right_operand.evaluate(memory) {
                    Ok(b) => b,
                    Err(e) => return Err(e),
                };
                Ok(relation.holds(a, b))
            },
            Instruction::Arithmetic { .. } => Ok(false),
        }
    }

    pub fn evaluate_arithmetic_value(&self, memory: &Memory) -> (r: Result<i32, Fault>)
        ensures
            r == self.arithmetic_value_in(memory@),
    {
        match self {
            Instruction::Arithmetic { left_operand, operator, right_operand, .. } => {
                let a = match left_operand.evaluate(memory) {
                    Ok(a) => a,
                    Err(e) => return Err(e),
                };
                let b = match right_operand.evaluate(memory) {
                    Ok(b) => b,
                    Err(e) => return Err(e),
                };
                operator.apply(a, b)
            },
            Instruction::ConditionalJump { .. } => Ok(0),
        }
    }

    /// Runs the instruction against `memory`: returns the jump target taken,
    /// if any. On a fault memory is left as it was.
    pub fn execute(&self, memory: &mut Memory) -> (r: Result<Option<u32>, Fault>)
        ensures
            match self.outcome(old(memory)@) {
                Ok((m, jump)) => r == Ok::<Option<u32>, Fault>(jump) && final(memory)@ == m,
                Err(e) => r == Err::<Option<u32>, Fault>(e) && final(memory)@ == old(memory)@,
            },
    {
        match self {
            Instruction::ConditionalJump { target, .. } => match self.condition_holds(memory) {
                Ok(true) => Ok(Some(*target)),
                Ok(false) => Ok(None),
                Err(e) => Err(e),
            },
            Instruction::Arithmetic { target_register, .. } => {
                let address = match target_register.resolve_address(memory) {
                    Ok(a) => a,
                    Err(e) => return Err(e),
                };
                let value = match self.evaluate_arithmetic_value(memory) {
                    Ok(v) => v,
                    Err(e) => return Err(e),
                };
                memory.set(address, value);
                Ok(None)
            },
        }
    }
}

} // verus!
