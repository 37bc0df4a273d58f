use register_machine::instructions::{Evaluable, Instruction, Operand, Operator, Register, Relation};
use register_machine::machine::{Fault, Memory};

fn memory_with(cells: &[(u32, i32)]) -> Memory {
    let mut memory = Memory::new();
    for (a, v) in cells {
        memory.set(*a, *v);
    }
    memory
}

fn reg(a: u32) -> Register {
    Register::Address(a)
}

fn via(r: Register) -> Register {
    Register::Register(Box::new(r))
}

#[test]
fn raw_address_resolves_to_itself() {
    let memory = Memory::new();
    for a in [0u32, 1, 5, 4096, u32::MAX] {
        assert_eq!(reg(a).resolve_address(&memory), Ok(a));
    }
}

#[test]
fn indirect_address_resolves_to_stored_value() {
    let memory = memory_with(&[(3, 9), (9, 11)]);
    assert_eq!(via(reg(3)).resolve_address(&memory), Ok(9));
    assert_eq!(via(via(reg(3))).resolve_address(&memory), Ok(11));
}

#[test]
fn negative_stored_address_is_reinterpreted() {
    let memory = memory_with(&[(3, -1)]);
    assert_eq!(via(reg(3)).resolve_address(&memory), Ok(u32::MAX));
}

#[test]
fn indirect_address_through_unwritten_cell_faults() {
    let memory = memory_with(&[(3, 9)]);
    assert_eq!(via(reg(4)).resolve_address(&memory), Err(Fault::UninitializedRead(4)));
    assert_eq!(via(via(reg(3))).resolve_address(&memory), Err(Fault::UninitializedRead(9)));
}

#[test]
fn reading_unwritten_cell_faults() {
    let mut memory = Memory::new();
    assert_eq!(memory.get(5), Err(Fault::UninitializedRead(5)));
    memory.set(5, -8);
    assert_eq!(memory.get(5), Ok(-8));
    memory.set(5, 3);
    assert_eq!(memory.get(5), Ok(3));
}

#[test]
fn operands_evaluate() {
    let memory = memory_with(&[(1, 2), (2, 42)]);
    assert_eq!(Operand::Integer(-6).evaluate(&memory), Ok(-6));
    assert_eq!(Operand::Data(reg(2)).evaluate(&memory), Ok(42));
    assert_eq!(Operand::Data(via(reg(1))).evaluate(&memory), Ok(42));
    assert_eq!(reg(1).evaluate(&memory), Ok(2));
    assert_eq!(Operand::Data(reg(7)).evaluate(&memory), Err(Fault::UninitializedRead(7)));
}

#[test]
fn operators_apply() {
    assert_eq!(Operator::Plus.apply(40, 2), Ok(42));
    assert_eq!(Operator::Minus.apply(40, 42), Ok(-2));
    assert_eq!(Operator::Times.apply(-6, 7), Ok(-42));
    assert_eq!(Operator::Divide.apply(7, 2), Ok(3));
}

#[test]
fn division_truncates_toward_zero() {
    assert_eq!(Operator::Divide.apply(-7, 2), Ok(-3));
    assert_eq!(Operator::Divide.apply(7, -2), Ok(-3));
    assert_eq!(Operator::Divide.apply(-7, -2), Ok(3));
    assert_eq!(Operator::Divide.apply(0, -5), Ok(0));
}

#[test]
fn arithmetic_faults() {
    assert_eq!(Operator::Divide.apply(1, 0), Err(Fault::ArithmeticFault));
    assert_eq!(Operator::Divide.apply(i32::MIN, -1), Err(Fault::ArithmeticFault));
    assert_eq!(Operator::Plus.apply(i32::MAX, 1), Err(Fault::ArithmeticFault));
    assert_eq!(Operator::Minus.apply(i32::MIN, 1), Err(Fault::ArithmeticFault));
    assert_eq!(Operator::Times.apply(65536, 65536), Err(Fault::ArithmeticFault));
    assert_eq!(Operator::Plus.apply(i32::MAX, 0), Ok(i32::MAX));
}

#[test]
fn relations_hold() {
    let cases = [
        (Relation::Lt, [false, false, true]),
        (Relation::Leq, [false, true, true]),
        (Relation::Gt, [true, false, false]),
        (Relation::Geq, [true, true, false]),
        (Relation::Eq, [false, true, false]),
        (Relation::Neq, [true, false, true]),
    ];
    for (relation, expected) in cases {
        assert_eq!(relation.holds(2, 1), expected[0]);
        assert_eq!(relation.holds(2, 2), expected[1]);
        assert_eq!(relation.holds(2, 3), expected[2]);
    }
}

fn assign(target: Register, left: Operand, operator: Operator, right: Operand) -> Instruction {
    Instruction::Arithmetic {
        target_register: target,
        left_operand: Box::new(left),
        operator,
        right_operand: Box::new(right),
    }
}

fn jump(left: Operand, relation: Relation, right: Operand, target: u32) -> Instruction {
    Instruction::ConditionalJump {
        left_operand: Box::new(left),
        relation,
        right_operand: Box::new(right),
        target,
    }
}

#[test]
fn arithmetic_instruction_writes_target() {
    let mut memory = memory_with(&[(1, 2), (2, 42)]);
    let i = assign(via(reg(1)), Operand::Data(reg(2)), Operator::Minus, Operand::Integer(2));
    assert_eq!(i.evaluate_arithmetic_value(&memory), Ok(40));
    assert_eq!(i.condition_holds(&memory), Ok(false));
    assert_eq!(i.execute(&mut memory), Ok(None));
    assert_eq!(memory.get(2), Ok(40));
    assert_eq!(memory.get(1), Ok(2));
}

#[test]
fn jump_instruction_reports_target() {
    let mut memory = memory_with(&[(1, 5)]);
    let taken = jump(Operand::Data(reg(1)), Relation::Geq, Operand::Integer(5), 9);
    let not_taken = jump(Operand::Data(reg(1)), Relation::Lt, Operand::Integer(5), 9);
    assert_eq!(taken.condition_holds(&memory), Ok(true));
    assert_eq!(taken.evaluate_arithmetic_value(&memory), Ok(0));
    assert_eq!(taken.execute(&mut memory), Ok(Some(9)));
    assert_eq!(not_taken.execute(&mut memory), Ok(None));
    assert_eq!(memory.get(1), Ok(5));
}

#[test]
fn faulting_instruction_writes_nothing() {
    let mut memory = memory_with(&[(1, 5)]);
    let by_zero = assign(reg(1), Operand::Integer(1), Operator::Divide, Operand::Integer(0));
    assert_eq!(by_zero.execute(&mut memory), Err(Fault::ArithmeticFault));
    assert_eq!(memory.get(1), Ok(5));
    let unread = assign(reg(1), Operand::Integer(1), Operator::Plus, Operand::Data(reg(8)));
    assert_eq!(unread.execute(&mut memory), Err(Fault::UninitializedRead(8)));
    assert_eq!(memory.get(1), Ok(5));
    let bad_target = assign(via(reg(6)), Operand::Integer(1), Operator::Plus, Operand::Integer(1));
    assert_eq!(bad_target.execute(&mut memory), Err(Fault::UninitializedRead(6)));
    assert_eq!(memory.get(1), Ok(5));
}
