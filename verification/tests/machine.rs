//! Single operations, errors and limits, from hand-written instructions.

use std::rc::Rc;

use monkey_vm::ast::{Infix, Prefix};
use monkey_vm::code::{read_uint16, Bytecode, OpCode};
use monkey_vm::object::{CompiledFunction, EvalError, HashKey, HashPairs, Object};
use monkey_vm::text::decimal_text;
use monkey_vm::vm::checked::Ending;
use monkey_vm::vm::{new_globals, Vm, VmError, GLOBAL_SIZE, STACK_SIZE};

fn machine(code: Vec<u8>, constants: Vec<Object>) -> Vm {
    Vm::new(Bytecode {
        instructions: code,
        constants: constants.into_iter().map(Rc::new).collect(),
    })
}

fn constant(index: u8) -> Vec<u8> {
    vec![OpCode::Constant.to_byte(), 0, index]
}

fn code(parts: Vec<Vec<u8>>) -> Vec<u8> {
    parts.concat()
}

fn op(op_code: OpCode) -> Vec<u8> {
    vec![op_code.to_byte()]
}

fn binary(op_code: OpCode, left: Object, right: Object) -> Result<Object, VmError> {
    let program = code(vec![constant(0), constant(1), op(op_code), op(OpCode::Pop)]);
    let mut vm = machine(program, vec![left, right]);
    vm.run()?;
    Ok((*vm.last_popped_stack_elem().unwrap()).clone())
}

fn text(value: &str) -> Object {
    Object::String(value.to_string())
}

#[test]
fn op_codes_round_trip() {
    let mut known: usize = 0;
    for byte in 0..=255u8 {
        if let Some(op_code) = OpCode::from_byte(byte) {
            assert_eq!(op_code.to_byte(), byte);
            known += 1;
        }
    }
    assert_eq!(known, 26);
    assert_eq!(OpCode::from_byte(0), Some(OpCode::Constant));
    assert_eq!(OpCode::from_byte(26), None);
}

#[test]
fn operands_are_big_endian() {
    assert_eq!(read_uint16(&vec![9, 1, 2], 1), 258);
    assert_eq!(read_uint16(&vec![255, 255], 0), 65535);
}

#[test]
fn numbers_in_decimal() {
    assert_eq!(decimal_text(0), "0");
    assert_eq!(decimal_text(9), "9");
    assert_eq!(decimal_text(10), "10");
    assert_eq!(decimal_text(65536), "65536");
}

#[test]
fn empty_globals_have_room() {
    let globals = new_globals();
    assert_eq!(globals.len(), 0);
    assert!(globals.capacity() >= GLOBAL_SIZE);
}

#[test]
fn empty_program_changes_nothing() {
    let mut vm = machine(vec![], vec![]);
    assert!(vm.run().is_ok());
    assert!(matches!(*vm.last_popped_stack_elem().unwrap(), Object::Null));
    assert_eq!(vm.globals.len(), 0);
}

#[test]
fn unknown_op_code() {
    let mut vm = machine(vec![200], vec![]);
    match vm.run() {
        Err(VmError::UnknownOpCode(byte)) => assert_eq!(byte, 200),
        other => panic!("got {:?}", other),
    }
    assert_eq!(vm.run().unwrap_err().to_string(), "unknown op code: 200");
}

#[test]
fn invalid_const_index() {
    let mut vm = machine(vec![OpCode::Constant.to_byte(), 1, 2], vec![Object::Null]);
    let error = vm.run().unwrap_err();
    assert!(matches!(error, VmError::InvalidConstIndex(258, 1)));
    assert_eq!(error.to_string(), "invalid const index: 258 / 1");
}

#[test]
fn stack_overflow() {
    let mut vm = machine(vec![OpCode::True.to_byte(); STACK_SIZE], vec![]);
    assert!(vm.run().is_ok());
    assert!(vm.last_popped_stack_elem().is_none());
    let mut vm = machine(vec![OpCode::True.to_byte(); STACK_SIZE + 1], vec![]);
    let error = vm.run().unwrap_err();
    assert!(matches!(error, VmError::StackOverflow));
    assert_eq!(error.to_string(), "stack overflow");
}

#[test]
fn stack_empty() {
    let mut vm = machine(op(OpCode::Pop), vec![]);
    let error = vm.run().unwrap_err();
    assert!(matches!(error, VmError::StackEmpty));
    assert_eq!(error.to_string(), "stack empty");
    assert!(vm.last_popped_stack_elem().is_none());
    let mut vm = machine(code(vec![op(OpCode::True), op(OpCode::Equal)]), vec![]);
    assert!(matches!(vm.run(), Err(VmError::StackEmpty)));
}

#[test]
fn pop_beyond_the_end_of_the_stack() {
    let function = CompiledFunction { instructions: op(OpCode::Pop), num_locals: 255 };
    let mut program = vec![OpCode::True.to_byte(); STACK_SIZE - 1];
    program.extend(constant(0));
    program.extend(op(OpCode::Call));
    let mut vm = machine(program, vec![Object::CompiledFunction(function)]);
    assert!(matches!(vm.run(), Err(VmError::StackEmpty)));
}

#[test]
fn type_mismatch() {
    match binary(OpCode::Add, Object::Integer(1), Object::Boolean(true)) {
        Err(VmError::Eval(EvalError::TypeMismatch(infix, left, right))) => {
            assert_eq!(infix, Infix::Plus);
            assert!(matches!(left, Object::Integer(1)));
            assert!(matches!(right, Object::Boolean(true)));
        }
        other => panic!("got {:?}", other),
    }
    let error = binary(OpCode::Equal, Object::Null, Object::Null).unwrap_err();
    assert_eq!(error.to_string(), "type mismatch: NULL == NULL");
    let error = binary(OpCode::NotEqual, text("a"), text("a")).unwrap_err();
    assert_eq!(error.to_string(), "type mismatch: STRING != STRING");
}

#[test]
fn unknown_infix_operator() {
    match binary(OpCode::Sub, text("a"), text("b")) {
        Err(VmError::Eval(EvalError::UnknownInfixOperator(infix, left, right))) => {
            assert_eq!(infix, Infix::Minus);
            assert!(matches!(left, Object::String(value) if value == "a"));
            assert!(matches!(right, Object::String(value) if value == "b"));
        }
        other => panic!("got {:?}", other),
    }
    let error = binary(OpCode::Mul, text("a"), text("b")).unwrap_err();
    assert_eq!(error.to_string(), "unknown operator: STRING * STRING");
    let error = binary(OpCode::Div, text("a"), text("b")).unwrap_err();
    assert_eq!(error.to_string(), "unknown operator: STRING / STRING");
    let error =
        binary(OpCode::GreaterThan, Object::Boolean(true), Object::Boolean(false)).unwrap_err();
    assert_eq!(error.to_string(), "unknown operator: BOOLEAN > BOOLEAN");
}

#[test]
fn unknown_prefix_operator() {
    let mut vm = machine(code(vec![op(OpCode::True), op(OpCode::Minus)]), vec![]);
    match vm.run() {
        Err(VmError::Eval(EvalError::UnknownPrefixOperator(prefix, right))) => {
            assert_eq!(prefix, Prefix::Minus);
            assert!(matches!(right, Object::Boolean(true)));
        }
        other => panic!("got {:?}", other),
    }
    let error = EvalError::UnknownPrefixOperator(Prefix::Bang, Object::Null);
    assert_eq!(error.to_string(), "unknown operator: !NULL");
}

#[test]
fn unknown_index_operator() {
    let error = binary(OpCode::Index, Object::Integer(1), Object::Integer(2)).unwrap_err();
    assert_eq!(error.to_string(), "unknown operator: INTEGER[INTEGER]");
    let error = binary(OpCode::Index, Object::Array(vec![]), Object::Boolean(true)).unwrap_err();
    assert_eq!(error.to_string(), "unknown operator: ARRAY[BOOLEAN]");
    let error = binary(OpCode::Index, Object::Hash(HashPairs::new()), Object::Null).unwrap_err();
    assert_eq!(error.to_string(), "unknown operator: HASH[NULL]");
}

#[test]
fn unsupported_hash_key() {
    let program = code(vec![
        op(OpCode::Null),
        op(OpCode::True),
        vec![OpCode::Hash.to_byte(), 0, 1],
    ]);
    let error = machine(program, vec![]).run().unwrap_err();
    assert_eq!(error.to_string(), "unsupported hash key: NULL");
}

#[test]
fn not_a_function() {
    let mut vm = machine(code(vec![op(OpCode::True), op(OpCode::Call)]), vec![]);
    let error = vm.run().unwrap_err();
    assert!(matches!(
        error,
        VmError::Eval(EvalError::NotFunction(Object::Boolean(true)))
    ));
    assert_eq!(error.to_string(), "not a function: BOOLEAN");
}

#[test]
fn strings_join_the_same_way_from_both_sides() {
    let join = |left, right| binary(OpCode::Add, left, right).unwrap();
    let left = join(join(text("a"), text("b")), text("c"));
    let right = join(text("a"), join(text("b"), text("c")));
    assert!(matches!(left, Object::String(value) if value == "abc"));
    assert!(matches!(right, Object::String(value) if value == "abc"));
}

#[test]
fn array_items_by_position() {
    for (position, expected) in vec![(0, Some(5)), (1, Some(6)), (2, None), (-1, None)] {
        let array = Object::Array(vec![Object::Integer(5), Object::Integer(6)]);
        let item = binary(OpCode::Index, array, Object::Integer(position)).unwrap();
        match expected {
            Some(number) => assert!(matches!(item, Object::Integer(value) if value == number)),
            None => assert!(matches!(item, Object::Null)),
        }
    }
}

#[test]
fn hash_pairs_keep_each_key_once() {
    let mut pairs = HashPairs::new();
    pairs.insert(HashKey::Integer(1), Object::Integer(10));
    pairs.insert(HashKey::String("1".to_string()), Object::Integer(11));
    pairs.insert(HashKey::Integer(1), Object::Integer(12));
    assert_eq!(pairs.entries().len(), 2);
    assert!(matches!(pairs.get(&HashKey::Integer(1)), Some(Object::Integer(12))));
    assert!(matches!(
        pairs.get(&HashKey::String("1".to_string())),
        Some(Object::Integer(11))
    ));
    assert!(pairs.get(&HashKey::Boolean(true)).is_none());
    let copy = pairs.clone();
    assert!(matches!(copy.get(&HashKey::Integer(1)), Some(Object::Integer(12))));
}

#[test]
fn run_ends_behind_the_last_instruction_of_a_function() {
    let function = CompiledFunction { instructions: op(OpCode::True), num_locals: 0 };
    let program = code(vec![constant(0), op(OpCode::Call), op(OpCode::Pop)]);
    let mut vm = machine(program, vec![Object::CompiledFunction(function)]);
    assert!(vm.run().is_ok());
    assert!(matches!(*vm.last_popped_stack_elem().unwrap(), Object::Null));
}

#[test]
fn error_stops_the_run_where_it_is() {
    let program = code(vec![
        op(OpCode::True),
        vec![OpCode::SetGlobal.to_byte(), 0, 0],
        vec![200],
        op(OpCode::False),
        vec![OpCode::SetGlobal.to_byte(), 0, 0],
    ]);
    let mut vm = machine(program, vec![]);
    assert!(matches!(vm.run(), Err(VmError::UnknownOpCode(200))));
    assert!(matches!(*vm.globals[0], Object::Boolean(true)));
}

#[test]
fn constants_stay_as_they_are() {
    let program = code(vec![constant(0), op(OpCode::Minus), constant(1), op(OpCode::Add)]);
    let mut vm = machine(program, vec![Object::Integer(4), Object::Integer(6)]);
    assert!(vm.run().is_ok());
    assert_eq!(vm.constants.len(), 2);
    assert!(matches!(*vm.constants[0], Object::Integer(4)));
    assert!(matches!(*vm.constants[1], Object::Integer(6)));
    let constants = vm.into_constants();
    assert_eq!(constants.len(), 2);
    assert!(matches!(*constants[1], Object::Integer(6)));
}

#[test]
fn objects_are_handed_on_and_not_copied() {
    let program = code(vec![
        constant(0),
        vec![OpCode::SetGlobal.to_byte(), 0, 0],
        vec![OpCode::GetGlobal.to_byte(), 0, 0],
        op(OpCode::Pop),
    ]);
    let mut vm = machine(program, vec![text("shared")]);
    let object = Rc::clone(&vm.constants[0]);
    assert!(vm.run().is_ok());
    assert!(Rc::ptr_eq(&object, &vm.last_popped_stack_elem().unwrap()));
    assert!(Rc::ptr_eq(&object, &vm.into_globals()[0]));
}

#[test]
fn sum_and_product_in_either_order() {
    for op_code in vec![OpCode::Add, OpCode::Mul] {
        let one = binary(op_code, Object::Integer(-7), Object::Integer(12)).unwrap();
        let other = binary(op_code, Object::Integer(12), Object::Integer(-7)).unwrap();
        match (one, other) {
            (Object::Integer(left), Object::Integer(right)) => assert_eq!(left, right),
            other => panic!("got {:?}", other),
        }
    }
}

#[test]
fn subtraction_undoes_addition() {
    let sum = binary(OpCode::Add, Object::Integer(i64::MIN), Object::Integer(5)).unwrap();
    let back = binary(OpCode::Sub, sum, Object::Integer(5)).unwrap();
    assert!(matches!(back, Object::Integer(i64::MIN)));
}

#[test]
fn comparisons_exclude_each_other() {
    for (left, right) in vec![(1, 2), (2, 1), (3, 3)] {
        let holds = |op_code, left, right| {
            match binary(op_code, Object::Integer(left), Object::Integer(right)) {
                Ok(Object::Boolean(truth)) => truth,
                other => panic!("got {:?}", other),
            }
        };
        let greater = holds(OpCode::GreaterThan, left, right);
        let smaller = holds(OpCode::GreaterThan, right, left);
        let equal = holds(OpCode::Equal, left, right);
        assert_eq!((greater, smaller, equal), (left > right, right > left, left == right));
        assert_eq!(holds(OpCode::NotEqual, left, right), !equal);
    }
}

#[test]
fn call_leaves_what_lies_below_the_function() {
    let function = CompiledFunction {
        instructions: code(vec![
            op(OpCode::False),
            vec![OpCode::SetLocal.to_byte(), 0],
            vec![OpCode::GetLocal.to_byte(), 0],
            op(OpCode::ReturnValue),
        ]),
        num_locals: 1,
    };
    let program = code(vec![
        constant(0),
        constant(1),
        op(OpCode::Call),
        vec![OpCode::Array.to_byte(), 0, 2],
        op(OpCode::Pop),
    ]);
    let constants = vec![Object::Integer(9), Object::CompiledFunction(function)];
    let mut vm = machine(program, constants);
    assert!(vm.run().is_ok());
    match &*vm.last_popped_stack_elem().unwrap() {
        Object::Array(items) => {
            assert!(matches!(items[0], Object::Integer(9)));
            assert!(matches!(items[1], Object::Boolean(false)));
        }
        other => panic!("got {:?}", other),
    }
}

#[test]
fn bounded_run_finishes() {
    let program = code(vec![constant(0), constant(0), op(OpCode::Add), op(OpCode::Pop)]);
    let mut vm = machine(program, vec![Object::Integer(4)]);
    assert!(matches!(vm.run_within(3), Ending::OutOfSteps));
    assert!(matches!(vm.run_within(10), Ending::Finished(Ok(()))));
    assert!(matches!(*vm.last_popped_stack_elem().unwrap(), Object::Integer(8)));
    let mut vm = machine(vec![200], vec![]);
    assert!(matches!(
        vm.run_within(1),
        Ending::Finished(Err(VmError::UnknownOpCode(200)))
    ));
}

#[test]
fn bounded_run_of_an_endless_loop() {
    let program = vec![OpCode::True.to_byte(), OpCode::Pop.to_byte(), OpCode::Jump.to_byte(), 0, 1];
    let program = code(vec![op(OpCode::True), program]);
    let mut vm = machine(program, vec![]);
    assert!(matches!(vm.run_within(100000), Ending::OutOfSteps));
}

fn faults(program: Vec<u8>, constants: Vec<Object>) -> bool {
    let mut vm = machine(program, constants);
    matches!(vm.run_within(1000), Ending::Faulted)
}

#[test]
fn bounded_run_stops_before_a_fault() {
    let max = vec![Object::Integer(i64::MAX), Object::Integer(1)];
    assert!(faults(code(vec![constant(0), constant(1), op(OpCode::Add)]), max));
    let min = vec![Object::Integer(i64::MIN), Object::Integer(-1)];
    assert!(faults(code(vec![constant(0), constant(1), op(OpCode::Div)]), min));
    let zero = vec![Object::Integer(1), Object::Integer(0)];
    assert!(faults(code(vec![constant(0), constant(1), op(OpCode::Div)]), zero));
    let min = vec![Object::Integer(i64::MIN)];
    assert!(faults(code(vec![constant(0), op(OpCode::Minus)]), min));
    assert!(faults(vec![OpCode::Constant.to_byte(), 0], vec![Object::Null]));
    assert!(faults(vec![OpCode::Jump.to_byte(), 0, 0], vec![]));
    assert!(faults(vec![OpCode::GetGlobal.to_byte(), 0, 0], vec![]));
    assert!(faults(code(vec![op(OpCode::True), vec![OpCode::SetGlobal.to_byte(), 0, 1]]), vec![]));
    assert!(faults(vec![OpCode::Array.to_byte(), 0, 1], vec![]));
    assert!(faults(code(vec![op(OpCode::True), vec![OpCode::Hash.to_byte(), 0, 1]]), vec![]));
    assert!(faults(op(OpCode::Call), vec![]));
    assert!(faults(op(OpCode::Return), vec![]));
    assert!(faults(code(vec![op(OpCode::True), op(OpCode::ReturnValue)]), vec![]));
    assert!(!faults(code(vec![op(OpCode::True), op(OpCode::Pop)]), vec![]));
    assert!(!faults(vec![OpCode::GetLocal.to_byte(), 255], vec![]));
}
