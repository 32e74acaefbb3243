use bytecode_vm::arith::{ArithOp, FloatRequest};
use bytecode_vm::{Action, Frame, Instruction, Machine, Value, VmError};

fn names(list: &[&str]) -> Vec<String> {
    list.iter().map(|s| String::from(*s)).collect()
}

fn text(s: &str) -> Value {
    Value::Str(String::from(s))
}

fn program(instructions: Vec<Instruction>, constants: Vec<Value>, plain: &[&str], fast: &[&str]) -> Frame {
    Frame::new(instructions, constants, names(plain), names(fast))
}

fn compute(request: FloatRequest) -> u32 {
    let a = f32::from_bits(request.lhs);
    let b = f32::from_bits(request.rhs);
    let r = match request.op {
        ArithOp::Add => a + b,
        ArithOp::Sub => a - b,
        ArithOp::Mul => a * b,
        ArithOp::Div => a / b,
    };
    r.to_bits()
}

fn show(value: &Value) -> String {
    match value.text() {
        Some(t) => t,
        None => match value {
            Value::Float(bits) => format!("{}", f32::from_bits(*bits)),
            other => format!("{:#?}", other),
        },
    }
}

fn drive(machine: &mut Machine) -> Result<Vec<String>, VmError> {
    let mut lines = Vec::new();
    loop {
        match machine.run(100000)? {
            Action::Halt => return Ok(lines),
            Action::Continue => panic!("the program did not end"),
            Action::Print(value) => lines.push(show(&value)),
            Action::Float(request) => assert!(machine.deliver(compute(request))),
        }
    }
}

fn run_program(root: Frame) -> (Machine, Result<Vec<String>, VmError>) {
    let mut machine = Machine::boot(root).unwrap();
    let lines = drive(&mut machine);
    (machine, lines)
}

fn stack_of(machine: &Machine) -> Vec<String> {
    machine.root().stack.iter().map(|v| format!("{:?}", v)).collect()
}

fn shown(values: &[Value]) -> Vec<String> {
    values.iter().map(|v| format!("{:?}", v)).collect()
}

#[test]
fn adds_five_and_three_and_prints_eight() {
    let root = program(
        vec![
            Instruction::LoadName(0),
            Instruction::LoadConst(0),
            Instruction::LoadConst(1),
            Instruction::BinaryAdd,
            Instruction::CallFunction(1),
            Instruction::PopTop,
        ],
        vec![Value::Int(5), Value::Int(3)],
        &["print"],
        &[],
    );
    let (machine, lines) = run_program(root);
    assert_eq!(lines, Ok(vec![String::from("8")]));
    assert_eq!(machine.height(), 1);
    assert!(machine.root().stack.is_empty());
}

#[test]
fn print_returns_no_value() {
    let root = program(
        vec![Instruction::LoadName(0), Instruction::LoadConst(0), Instruction::CallFunction(1)],
        vec![text("hi")],
        &["print"],
        &[],
    );
    let (machine, lines) = run_program(root);
    assert_eq!(lines, Ok(vec![String::from("hi")]));
    assert_eq!(stack_of(&machine), shown(&[Value::Unit]));
}

#[test]
fn prints_every_kind_of_value_in_order() {
    let root = program(
        vec![
            Instruction::LoadConst(0),
            Instruction::Print,
            Instruction::LoadConst(1),
            Instruction::Print,
            Instruction::LoadConst(2),
            Instruction::Print,
            Instruction::LoadConst(3),
            Instruction::Print,
            Instruction::LoadConst(4),
            Instruction::Print,
        ],
        vec![Value::Int(-12), Value::Bool(true), Value::Float(1.5f32.to_bits()), text("a b"), Value::Unit],
        &[],
        &[],
    );
    let (_, lines) = run_program(root);
    assert_eq!(
        lines,
        Ok(vec![
            String::from("-12"),
            String::from("true"),
            String::from("1.5"),
            String::from("a b"),
            String::from("None"),
        ])
    );
}

#[test]
fn floor_division_truncates_toward_zero() {
    let root = program(
        vec![Instruction::LoadConst(0), Instruction::LoadConst(1), Instruction::BinaryFloorDivide],
        vec![Value::Int(-7), Value::Int(2)],
        &[],
        &[],
    );
    let (machine, lines) = run_program(root);
    assert_eq!(lines, Ok(vec![]));
    assert_eq!(stack_of(&machine), shown(&[Value::Int(-3)]));
}

#[test]
fn floor_division_in_place_truncates_too() {
    let root = program(
        vec![Instruction::LoadConst(0), Instruction::LoadConst(1), Instruction::InplaceFloorDivide],
        vec![Value::Int(7), Value::Int(2)],
        &[],
        &[],
    );
    let (machine, _) = run_program(root);
    assert_eq!(stack_of(&machine), shown(&[Value::Int(3)]));
}

#[test]
fn floor_division_by_zero_saturates() {
    let root = program(
        vec![
            Instruction::LoadConst(0),
            Instruction::LoadConst(1),
            Instruction::BinaryFloorDivide,
            Instruction::LoadConst(1),
            Instruction::LoadConst(1),
            Instruction::BinaryFloorDivide,
        ],
        vec![Value::Int(-1), Value::Int(0)],
        &[],
        &[],
    );
    let (machine, _) = run_program(root);
    assert_eq!(stack_of(&machine), shown(&[Value::Int(i32::MIN), Value::Int(0)]));
}

#[test]
fn true_division_gives_a_single_precision_number() {
    let root = program(
        vec![Instruction::LoadConst(0), Instruction::LoadConst(1), Instruction::BinaryTrueDivide],
        vec![Value::Int(7), Value::Int(2)],
        &[],
        &[],
    );
    let (machine, _) = run_program(root);
    assert_eq!(stack_of(&machine), shown(&[Value::Float(3.5f32.to_bits())]));
}

#[test]
fn a_request_leaves_the_machine_as_it_is_until_delivery() {
    let root = program(
        vec![Instruction::LoadConst(0), Instruction::LoadConst(1), Instruction::BinaryAdd],
        vec![Value::Float(1.5f32.to_bits()), Value::Int(2)],
        &[],
        &[],
    );
    let mut machine = Machine::new(root).unwrap();
    assert!(machine.awaits().is_none());
    assert!(!machine.deliver(0));
    let expected = FloatRequest { op: ArithOp::Add, lhs: 1.5f32.to_bits(), rhs: 2.0f32.to_bits() };
    assert!(matches!(machine.run(10), Ok(Action::Float(r)) if r == expected));
    assert_eq!(machine.active().ip, 2);
    assert_eq!(machine.active().stack.len(), 2);
    assert_eq!(machine.awaits(), Some(expected));
    assert!(matches!(machine.step(), Ok(Action::Float(r)) if r == expected));
    assert_eq!(machine.active().ip, 2);
    assert!(machine.deliver(3.5f32.to_bits()));
    assert_eq!(machine.active().ip, 3);
    assert_eq!(stack_of(&machine), shown(&[Value::Float(3.5f32.to_bits())]));
    assert!(!machine.deliver(0));
    assert!(matches!(machine.run(10), Ok(Action::Halt)));
}

#[test]
fn unary_negative_subtracts_from_zero() {
    let root = program(
        vec![
            Instruction::LoadConst(0),
            Instruction::UnaryNegative,
            Instruction::LoadConst(1),
            Instruction::UnaryNegative,
            Instruction::LoadConst(2),
            Instruction::UnaryNegative,
            Instruction::LoadConst(0),
            Instruction::UnaryPositive,
        ],
        vec![Value::Int(5), Value::Bool(true), Value::Float(2.5f32.to_bits())],
        &[],
        &[],
    );
    let (machine, _) = run_program(root);
    assert_eq!(
        stack_of(&machine),
        shown(&[Value::Int(-5), Value::Int(-1), Value::Float((-2.5f32).to_bits()), Value::Int(5)])
    );
}

#[test]
fn a_call_from_depth_zero_hands_over_the_locals() {
    let callee = program(
        vec![Instruction::LoadGlobal(0), Instruction::ReturnValue],
        vec![],
        &["x"],
        &[],
    );
    let root = program(
        vec![
            Instruction::LoadConst(0),
            Instruction::StoreName(0),
            Instruction::LoadConst(1),
            Instruction::StoreGlobal(0),
            Instruction::LoadConst(2),
            Instruction::CallFunction(0),
        ],
        vec![Value::Int(1), Value::Int(2), Value::Callable(callee)],
        &["x"],
        &[],
    );
    let (machine, lines) = run_program(root);
    assert_eq!(lines, Ok(vec![]));
    assert_eq!(stack_of(&machine), shown(&[Value::Int(1)]));
}

#[test]
fn a_call_from_deeper_hands_over_the_globals() {
    let inner = program(
        vec![Instruction::LoadGlobal(0), Instruction::ReturnValue],
        vec![],
        &["x"],
        &[],
    );
    let outer = program(
        vec![
            Instruction::LoadConst(0),
            Instruction::StoreName(0),
            Instruction::LoadConst(1),
            Instruction::CallFunction(0),
            Instruction::ReturnValue,
        ],
        vec![Value::Int(10), Value::Callable(inner)],
        &["x"],
        &[],
    );
    let root = program(
        vec![
            Instruction::LoadConst(0),
            Instruction::StoreName(0),
            Instruction::LoadConst(1),
            Instruction::StoreGlobal(0),
            Instruction::LoadConst(2),
            Instruction::CallFunction(0),
        ],
        vec![Value::Int(1), Value::Int(2), Value::Callable(outer)],
        &["x"],
        &[],
    );
    let (machine, lines) = run_program(root);
    assert_eq!(lines, Ok(vec![]));
    assert_eq!(stack_of(&machine), shown(&[Value::Int(1)]));
}

#[test]
fn depth_grows_by_one_with_each_call() {
    let inner = program(vec![Instruction::Nop], vec![], &[], &[]);
    let outer = program(
        vec![Instruction::LoadConst(0), Instruction::CallFunction(0), Instruction::ReturnValue],
        vec![Value::Callable(inner)],
        &[],
        &[],
    );
    let root = program(
        vec![Instruction::LoadConst(0), Instruction::CallFunction(0)],
        vec![Value::Callable(outer)],
        &[],
        &[],
    );
    let mut machine = Machine::new(root).unwrap();
    assert_eq!(machine.active().depth, 0);
    assert!(matches!(machine.step(), Ok(Action::Continue)));
    assert!(matches!(machine.step(), Ok(Action::Continue)));
    assert_eq!(machine.height(), 2);
    assert_eq!(machine.active().depth, 1);
    assert_eq!(machine.root().ip, 1);
    assert!(matches!(machine.step(), Ok(Action::Continue)));
    assert!(matches!(machine.step(), Ok(Action::Continue)));
    assert_eq!(machine.height(), 3);
    assert_eq!(machine.active().depth, 2);
    assert!(matches!(machine.run(100), Ok(Action::Halt)));
    assert_eq!(machine.height(), 1);
    assert_eq!(machine.root().ip, 2);
    assert_eq!(stack_of(&machine), shown(&[Value::Unit]));
}

#[test]
fn a_callee_does_not_change_the_scopes_of_its_caller() {
    let callee = program(
        vec![
            Instruction::LoadConst(0),
            Instruction::StoreGlobal(0),
            Instruction::LoadConst(0),
            Instruction::StoreName(0),
            Instruction::DeleteGlobal(1),
        ],
        vec![Value::Int(99)],
        &["x", "y"],
        &[],
    );
    let root = program(
        vec![
            Instruction::LoadConst(0),
            Instruction::StoreName(0),
            Instruction::LoadConst(0),
            Instruction::StoreName(1),
            Instruction::LoadConst(1),
            Instruction::CallFunction(0),
            Instruction::LoadName(0),
            Instruction::LoadName(1),
        ],
        vec![Value::Int(1), Value::Callable(callee)],
        &["x", "y"],
        &[],
    );
    let (machine, lines) = run_program(root);
    assert_eq!(lines, Ok(vec![]));
    assert_eq!(stack_of(&machine), shown(&[Value::Unit, Value::Int(1), Value::Int(1)]));
    assert!(machine.root().globals.is_empty());
}

#[test]
fn arguments_are_bound_from_the_last_name_backward() {
    let callee = program(
        vec![Instruction::LoadFast(0), Instruction::Print, Instruction::LoadFast(1), Instruction::Print],
        vec![],
        &[],
        &["a", "b"],
    );
    let root = program(
        vec![
            Instruction::LoadConst(0),
            Instruction::LoadConst(1),
            Instruction::LoadConst(2),
            Instruction::CallFunction(2),
        ],
        vec![Value::Callable(callee), Value::Int(1), Value::Int(2)],
        &[],
        &[],
    );
    let (_, lines) = run_program(root);
    assert_eq!(lines, Ok(vec![String::from("1"), String::from("2")]));
}

#[test]
fn fewer_arguments_than_names_bind_the_last_names() {
    let callee = program(
        vec![Instruction::LoadFast(1), Instruction::Print, Instruction::LoadFast(0), Instruction::Print],
        vec![],
        &[],
        &["a", "b"],
    );
    let root = program(
        vec![Instruction::LoadConst(0), Instruction::LoadConst(1), Instruction::CallFunction(1)],
        vec![Value::Callable(callee), Value::Int(7)],
        &[],
        &[],
    );
    let (machine, lines) = run_program(root);
    assert_eq!(lines, Err(VmError::NameError));
    assert_eq!(machine.height(), 2);
    assert_eq!(machine.active().ip, 2);
}

#[test]
fn more_arguments_than_names_are_an_arity_mismatch() {
    let callee = program(vec![Instruction::Nop], vec![], &[], &["a"]);
    let root = program(
        vec![
            Instruction::LoadConst(0),
            Instruction::LoadConst(1),
            Instruction::LoadConst(1),
            Instruction::CallFunction(2),
        ],
        vec![Value::Callable(callee), Value::Int(7)],
        &[],
        &[],
    );
    let (machine, lines) = run_program(root);
    assert_eq!(lines, Err(VmError::ArityMismatch));
    assert_eq!(machine.height(), 1);
    assert_eq!(machine.root().ip, 3);
    assert_eq!(machine.root().stack.len(), 3);
}

#[test]
fn calling_what_is_no_function_is_a_type_mismatch() {
    let root = program(
        vec![Instruction::LoadConst(0), Instruction::LoadConst(0), Instruction::CallFunction(1)],
        vec![Value::Int(7)],
        &[],
        &[],
    );
    let (_, lines) = run_program(root);
    assert_eq!(lines, Err(VmError::TypeMismatch));
}

#[test]
fn calling_with_too_short_a_stack_is_an_underflow() {
    let root = program(
        vec![Instruction::LoadConst(0), Instruction::CallFunction(1)],
        vec![Value::Int(7)],
        &[],
        &[],
    );
    let (_, lines) = run_program(root);
    assert_eq!(lines, Err(VmError::StackUnderflow));
}

#[test]
fn a_call_at_the_greatest_depth_overflows() {
    let callee = program(vec![Instruction::Nop], vec![], &[], &[]);
    let mut root = program(
        vec![Instruction::LoadConst(0), Instruction::CallFunction(0)],
        vec![Value::Callable(callee)],
        &[],
        &[],
    );
    root.depth = usize::MAX;
    let (_, lines) = run_program(root);
    assert_eq!(lines, Err(VmError::DepthOverflow));
}

#[test]
fn a_callee_that_starts_beyond_its_program_is_refused() {
    let mut callee = program(vec![Instruction::Nop], vec![], &[], &[]);
    callee.ip = 2;
    let root = program(
        vec![Instruction::LoadConst(0), Instruction::CallFunction(0)],
        vec![Value::Callable(callee)],
        &[],
        &[],
    );
    let (_, lines) = run_program(root);
    assert_eq!(lines, Err(VmError::InvalidOperand));
}

#[test]
fn a_callee_that_starts_at_its_end_returns_at_once() {
    let mut callee = program(vec![Instruction::Nop], vec![], &[], &[]);
    callee.ip = 1;
    callee.return_value = Box::new(Value::Int(4));
    let root = program(
        vec![Instruction::LoadConst(0), Instruction::CallFunction(0)],
        vec![Value::Callable(callee)],
        &[],
        &[],
    );
    let (machine, lines) = run_program(root);
    assert_eq!(lines, Ok(vec![]));
    assert_eq!(stack_of(&machine), shown(&[Value::Int(4)]));
}

#[test]
fn a_root_that_starts_beyond_its_program_is_refused() {
    let mut root = program(vec![Instruction::Nop], vec![], &[], &[]);
    root.ip = 2;
    assert!(matches!(Machine::new(root.clone()), Err(VmError::InvalidOperand)));
    assert!(matches!(Machine::boot(root), Err(VmError::InvalidOperand)));
}

#[test]
fn return_ends_a_frame_at_once() {
    let callee = program(
        vec![
            Instruction::LoadConst(0),
            Instruction::ReturnValue,
            Instruction::LoadConst(1),
            Instruction::Print,
        ],
        vec![Value::Int(1), Value::Int(2)],
        &[],
        &[],
    );
    let root = program(
        vec![Instruction::LoadConst(0), Instruction::CallFunction(0)],
        vec![Value::Callable(callee)],
        &[],
        &[],
    );
    let (machine, lines) = run_program(root);
    assert_eq!(lines, Ok(vec![]));
    assert_eq!(stack_of(&machine), shown(&[Value::Int(1)]));
}

#[test]
fn a_loop_counts_down_and_prints() {
    let root = program(
        vec![
            Instruction::LoadConst(0),
            Instruction::StoreName(0),
            Instruction::LoadName(0),
            Instruction::Print,
            Instruction::LoadName(0),
            Instruction::LoadConst(1),
            Instruction::InplaceSubtract,
            Instruction::StoreName(0),
            Instruction::LoadName(0),
            Instruction::LoadConst(2),
            Instruction::CompareOp(4),
            Instruction::PopJumpIfTrue(4),
        ],
        vec![Value::Int(3), Value::Int(1), Value::Int(0)],
        &["n"],
        &[],
    );
    let (_, lines) = run_program(root);
    assert_eq!(lines, Ok(vec![String::from("3"), String::from("2"), String::from("1")]));
}

#[test]
fn fuel_bounds_a_run() {
    let root = program(vec![Instruction::JumpAbsolute(0)], vec![], &[], &[]);
    let mut machine = Machine::new(root).unwrap();
    assert!(matches!(machine.run(10), Ok(Action::Continue)));
    assert_eq!(machine.active().ip, 0);
    assert!(matches!(machine.run(0), Ok(Action::Continue)));
}

#[test]
fn a_halted_machine_stays_halted() {
    let root = program(vec![Instruction::Nop], vec![], &[], &[]);
    let mut machine = Machine::new(root).unwrap();
    assert!(matches!(machine.step(), Ok(Action::Continue)));
    assert!(matches!(machine.step(), Ok(Action::Halt)));
    assert!(matches!(machine.step(), Ok(Action::Halt)));
    assert!(matches!(machine.run(5), Ok(Action::Halt)));
    assert_eq!(machine.root().ip, 1);
}

#[test]
fn a_failed_step_leaves_the_machine_as_it_was() {
    let root = program(
        vec![Instruction::LoadConst(0), Instruction::LoadConst(1), Instruction::BinarySubtract],
        vec![text("a"), Value::Int(1)],
        &[],
        &[],
    );
    let mut machine = Machine::new(root).unwrap();
    assert!(matches!(machine.run(10), Err(VmError::TypeMismatch)));
    assert_eq!(machine.active().ip, 2);
    assert_eq!(stack_of(&machine), shown(&[text("a"), Value::Int(1)]));
    assert!(matches!(machine.step(), Err(VmError::TypeMismatch)));
}

#[test]
fn boot_binds_print_in_the_local_scope() {
    let root = program(vec![Instruction::LoadName(0)], vec![], &["print"], &[]);
    let mut machine = Machine::boot(root).unwrap();
    assert!(matches!(machine.run(10), Ok(Action::Halt)));
    match &machine.root().stack[0] {
        Value::Callable(frame) => {
            assert_eq!(frame.instructions, vec![Instruction::LoadFast(0), Instruction::Print]);
            assert_eq!(frame.fast_names, vec![String::from("to_print")]);
            assert!(frame.names.is_empty());
            assert_eq!(frame.ip, 0);
            assert_eq!(frame.depth, 0);
        },
        other => panic!("expected a function, got {:?}", other),
    }
    let plain = program(vec![Instruction::LoadName(0)], vec![], &["print"], &[]);
    let mut bare = Machine::new(plain).unwrap();
    assert!(matches!(bare.run(10), Err(VmError::NameError)));
}

#[test]
fn string_programs_join_and_repeat() {
    let root = program(
        vec![
            Instruction::LoadConst(0),
            Instruction::LoadConst(1),
            Instruction::BinaryAdd,
            Instruction::LoadConst(2),
            Instruction::BinaryMultiply,
            Instruction::Print,
        ],
        vec![text("ab"), text("c"), Value::Int(2)],
        &[],
        &[],
    );
    let (_, lines) = run_program(root);
    assert_eq!(lines, Ok(vec![String::from("abcabc")]));
}

#[test]
fn a_machine_made_by_new_is_in_order_and_stays_so() {
    let callee = program(vec![Instruction::Nop], vec![], &[], &[]);
    let root = program(
        vec![Instruction::LoadConst(0), Instruction::CallFunction(0)],
        vec![Value::Callable(callee)],
        &[],
        &[],
    );
    let mut machine = Machine::new(root).unwrap();
    assert!(machine.is_well_formed());
    for _ in 0..6 {
        assert!(machine.step().is_ok());
        assert!(machine.is_well_formed());
    }
}

#[test]
fn a_function_calls_itself_through_the_globals() {
    let factorial = program(
        vec![
            Instruction::LoadFast(0),
            Instruction::LoadConst(0),
            Instruction::CompareOp(1),
            Instruction::PopJumpIfFalse(12),
            Instruction::LoadConst(0),
            Instruction::ReturnValue,
            Instruction::LoadFast(0),
            Instruction::LoadGlobal(0),
            Instruction::LoadFast(0),
            Instruction::LoadConst(0),
            Instruction::BinarySubtract,
            Instruction::CallFunction(1),
            Instruction::BinaryMultiply,
            Instruction::ReturnValue,
        ],
        vec![Value::Int(1)],
        &["factorial"],
        &["n"],
    );
    let root = program(
        vec![
            Instruction::LoadConst(0),
            Instruction::LoadConst(1),
            Instruction::MakeFunction(0),
            Instruction::StoreName(0),
            Instruction::LoadName(1),
            Instruction::LoadName(0),
            Instruction::LoadConst(2),
            Instruction::CallFunction(1),
            Instruction::CallFunction(1),
            Instruction::PopTop,
        ],
        vec![text("factorial"), Value::Callable(factorial), Value::Int(5)],
        &["factorial", "print"],
        &[],
    );
    let (machine, lines) = run_program(root);
    assert_eq!(lines, Ok(vec![String::from("120")]));
    assert_eq!(machine.height(), 1);
    assert!(machine.root().stack.is_empty());
}

#[test]
fn mixed_arithmetic_runs_through_deliveries() {
    let root = program(
        vec![
            Instruction::LoadConst(0),
            Instruction::LoadConst(1),
            Instruction::BinaryTrueDivide,
            Instruction::LoadConst(2),
            Instruction::BinaryAdd,
            Instruction::LoadConst(3),
            Instruction::InplaceMultiply,
            Instruction::DupTop,
            Instruction::Print,
            Instruction::LoadConst(1),
            Instruction::CompareOp(4),
            Instruction::Print,
        ],
        vec![Value::Int(1), Value::Int(4), Value::Bool(true), Value::Float(2.0f32.to_bits())],
        &[],
        &[],
    );
    let (_, lines) = run_program(root);
    assert_eq!(lines, Ok(vec![String::from("2.5"), String::from("false")]));
}
