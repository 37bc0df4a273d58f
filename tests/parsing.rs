use register_machine::instructions::{Instruction, Operand, Operator, Register, Relation};
use register_machine::parser::program;
use register_machine::text::render_program;

fn reg(a: u32) -> Register {
    Register::Address(a)
}

fn via(r: Register) -> Register {
    Register::Register(Box::new(r))
}

fn assign(target: Register, left: Operand, operator: Operator, right: Operand) -> Instruction {
    Instruction::Arithmetic {
        target_register: target,
        left_operand: Box::new(left),
        operator,
        right_operand: Box::new(right),
    }
}

fn jump(left: Operand, relation: Relation, right: Operand, target: u32) -> Instruction {
    Instruction::ConditionalJump {
        left_operand: Box::new(left),
        relation,
        right_operand: Box::new(right),
        target,
    }
}

fn sample() -> Vec<Instruction> {
    vec![
        assign(reg(1), Operand::Integer(42), Operator::Plus, Operand::Integer(0)),
        assign(via(via(reg(0))), Operand::Integer(-7), Operator::Divide, Operand::Data(reg(2))),
        assign(reg(u32::MAX), Operand::Integer(i32::MIN), Operator::Minus, Operand::Integer(i32::MAX)),
        assign(reg(3), Operand::Data(via(reg(4))), Operator::Times, Operand::Integer(-1)),
        jump(Operand::Integer(1), Relation::Lt, Operand::Integer(2), 1),
        jump(Operand::Data(reg(1)), Relation::Leq, Operand::Integer(-2), 0),
        jump(Operand::Integer(-3), Relation::Gt, Operand::Data(reg(9)), 10),
        jump(Operand::Data(via(reg(5))), Relation::Geq, Operand::Integer(0), u32::MAX),
        jump(Operand::Integer(0), Relation::Eq, Operand::Integer(0), 3),
        jump(Operand::Integer(5), Relation::Neq, Operand::Data(reg(6)), 4),
    ]
}

#[test]
fn rendered_program_parses_back() {
    let p = sample();
    let text = render_program(&p);
    assert_eq!(program(&text), Some(p));
    assert_eq!(program(&render_program(&vec![])), Some(vec![]));
}

#[test]
fn rendered_text_is_canonical() {
    let p = sample();
    assert_eq!(p[0].render(), "R[1] := 42 + 0;");
    assert_eq!(p[1].render(), "R[R[R[0]]] := -7 / R[2];");
    assert_eq!(p[2].render(), "R[4294967295] := -2147483648 - 2147483647;");
    assert_eq!(p[5].render(), "if R[1] <= -2 goto 0;");
    assert_eq!(p[7].render(), "if R[R[5]] >= 0 goto 4294967295;");
    let tail: Vec<Instruction> = p.into_iter().skip(8).collect();
    assert_eq!(render_program(&tail), "if 0 == 0 goto 3;\nif 5 != R[6] goto 4;\n");
}

#[test]
fn missing_operand_is_rejected() {
    assert_eq!(program("R[1]:=;"), None);
    assert_eq!(program("R[1]:=1+;"), None);
    assert_eq!(program("R[1]:=1+2; R[2]:=;"), None);
}

#[test]
fn compact_and_spaced_forms_agree() {
    let compact = program("R[1]:=42+0;").unwrap();
    let spaced = program("  \n\tR[1]  :=\r\n 42 \t+ 0;\n\n").unwrap();
    assert_eq!(compact, spaced);
    assert_eq!(compact, vec![assign(reg(1), Operand::Integer(42), Operator::Plus, Operand::Integer(0))]);
}

#[test]
fn semicolon_is_optional() {
    let p = program("R[1]:=1+2\nif R[1]==3 goto 1").unwrap();
    assert_eq!(
        p,
        vec![
            assign(reg(1), Operand::Integer(1), Operator::Plus, Operand::Integer(2)),
            jump(Operand::Data(reg(1)), Relation::Eq, Operand::Integer(3), 1),
        ]
    );
}

#[test]
fn div_keyword_and_slash_agree() {
    assert_eq!(program("R[1]:=7 div 2;"), program("R[1]:=7/2;"));
    assert_eq!(
        program("R[1]:=7/2;"),
        Some(vec![assign(reg(1), Operand::Integer(7), Operator::Divide, Operand::Integer(2))])
    );
}

#[test]
fn two_character_relations_parse() {
    let p = program("if 1<=2 goto 1; if 1 >= 2 goto 1; if 1<2 goto 1; if 1!=2 goto 1;").unwrap();
    let relations: Vec<&Relation> = p
        .iter()
        .map(|i| match i {
            Instruction::ConditionalJump { relation, .. } => relation,
            _ => panic!("expected a jump"),
        })
        .collect();
    assert_eq!(relations, vec![&Relation::Leq, &Relation::Geq, &Relation::Lt, &Relation::Neq]);
}

#[test]
fn minus_between_operands() {
    assert_eq!(
        program("R[1]:=1-2;"),
        Some(vec![assign(reg(1), Operand::Integer(1), Operator::Minus, Operand::Integer(2))])
    );
    assert_eq!(
        program("R[1]:=1 - -2;"),
        Some(vec![assign(reg(1), Operand::Integer(1), Operator::Minus, Operand::Integer(-2))])
    );
}

#[test]
fn empty_and_blank_programs() {
    assert_eq!(program(""), Some(vec![]));
    assert_eq!(program(" \n\t\r\n"), Some(vec![]));
}

#[test]
fn trailing_text_is_rejected() {
    assert_eq!(program("R[1]:=1+2; garbage"), None);
    assert_eq!(program("R[1]:=1+2;;"), None);
    assert_eq!(program("R[1]:=1+2 ;"), None);
    assert_eq!(program("x"), None);
}

#[test]
fn keyword_spacing_rules() {
    assert_eq!(program("ifR[1]==1 goto 1;"), None);
    assert!(program("if R[1]==1goto1;").is_some());
    assert_eq!(program("r[1]:=1+1;"), None);
    assert_eq!(program("R [1]:=1+1;"), None);
}

#[test]
fn number_ranges() {
    assert!(program("R[4294967295]:=2147483647+-2147483648;").is_some());
    assert_eq!(program("R[4294967296]:=1+1;"), None);
    assert_eq!(program("R[1]:=2147483648+1;"), None);
    assert_eq!(program("R[1]:=-2147483649+1;"), None);
    assert_eq!(program("if 1==1 goto 4294967296;"), None);
    assert_eq!(
        program("R[007]:=-0+00;"),
        Some(vec![assign(reg(7), Operand::Integer(0), Operator::Plus, Operand::Integer(0))])
    );
}

#[test]
fn nested_registers_parse() {
    assert_eq!(
        program("R[R[R[2]]]:=R[R[1]]*R[3];"),
        Some(vec![assign(
            via(via(reg(2))),
            Operand::Data(via(reg(1))),
            Operator::Times,
            Operand::Data(reg(3))
        )])
    );
    assert_eq!(program("R[R[1]:=1+1;"), None);
}
