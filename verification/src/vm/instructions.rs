//! What each instruction does, slot by slot: from the bytes at the instruction pointer and the
//! values on the stack to the whole state after one step.

use vstd::prelude::*;

use crate::ast::{Infix, Prefix};
use crate::code::OpCode;
use crate::object::{EvalErrorView, FunctionView, Key, Value};
use crate::vm::error::VmErrorView;
use crate::vm::frame::FrameView;
use crate::vm::machine::{Machine, Outcome};
use crate::vm::STACK_SIZE;

verus! {

// Where a machine stands and where it goes.

/// The innermost call stands at this op code, with at least `width` more bytes behind it.
pub open spec fn stands_at(machine: Machine, op_code: OpCode, width: nat) -> bool {
    let frame = machine.frames.last();
    &&& machine.frames.len() >= 1
    &&& machine.stack.len() == STACK_SIZE
    &&& frame.ip + width < frame.function.instructions.len()
    &&& frame.function.instructions[frame.ip as int] == op_code.spec_to_byte()
}

/// A byte behind the op code of the current instruction.
pub open spec fn byte_behind(machine: Machine, distance: int) -> int {
    machine.frames.last().function.instructions[machine.frames.last().ip + distance] as int
}

/// The number in the two bytes behind the op code, the high byte first.
pub open spec fn wide(machine: Machine) -> int {
    byte_behind(machine, 1) * 256 + byte_behind(machine, 2)
}

/// The calls, with the innermost one at another instruction.
pub open spec fn moved_to(machine: Machine, ip: int) -> Seq<FrameView> {
    let frame = machine.frames.last();
    machine.frames.update(
        machine.frames.len() - 1,
        FrameView {
            function: frame.function,
            ip: ip as nat,
            base_pointer: frame.base_pointer,
        },
    )
}

/// The calls, with the innermost one some bytes further on.
pub open spec fn moved_by(machine: Machine, bytes: int) -> Seq<FrameView> {
    moved_to(machine, machine.frames.last().ip + bytes)
}

/// The state after an instruction of `bytes` bytes that takes `taken` values off the stack and
/// puts one there.
pub open spec fn replaced(machine: Machine, taken: int, value: Value, bytes: int) -> Machine {
    Machine {
        constants: machine.constants,
        stack: machine.stack.update(machine.sp - taken, value),
        sp: (machine.sp - taken + 1) as nat,
        globals: machine.globals,
        frames: moved_by(machine, bytes),
    }
}

/// The state in which an instruction gave up that had read `bytes` operand bytes and taken
/// `taken` values off the stack.
pub open spec fn given_up(machine: Machine, taken: int, bytes: int) -> Machine {
    Machine {
        constants: machine.constants,
        stack: machine.stack,
        sp: if machine.sp >= taken {
            (machine.sp - taken) as nat
        } else {
            usize::MAX as nat
        },
        globals: machine.globals,
        frames: moved_by(machine, bytes),
    }
}

/// An op code without operand.
pub open spec fn is_bare(op_code: OpCode) -> bool {
    match op_code {
        OpCode::Constant
        | OpCode::JumpIfNotTruthy
        | OpCode::Jump
        | OpCode::GetGlobal
        | OpCode::SetGlobal
        | OpCode::Array
        | OpCode::Hash
        | OpCode::GetLocal
        | OpCode::SetLocal => false,
        _ => true,
    }
}

/// The run stops in order behind the last instruction, and only there.
pub proof fn lemma_step_at_end(machine: Machine)
    requires
        machine.frames.len() >= 1,
    ensures
        machine.frames.last().ip >= machine.frames.last().function.instructions.len()
            ==> machine.step() == Outcome::Halted(machine),
        machine.step() is Halted ==> machine.frames.last().ip
            >= machine.frames.last().function.instructions.len(),
{
}

/// A byte that encodes no op code stops the run, with nothing changed.
pub proof fn lemma_step_unknown(machine: Machine)
    requires
        machine.frames.len() >= 1,
        machine.frames.last().ip < machine.frames.last().function.instructions.len(),
        forall|op_code: OpCode| #[trigger]
            op_code.spec_to_byte() != machine.frames.last().function.instructions[
                machine.frames.last().ip as int],
    ensures
        machine.step() == Outcome::Failed(
            VmErrorView::UnknownOpCode(
                machine.frames.last().function.instructions[machine.frames.last().ip as int],
            ),
            machine,
        ),
{
    let byte = machine.frames.last().function.instructions[machine.frames.last().ip as int];
    if let Some(op_code) = OpCode::spec_from_byte(byte) {
        assert(op_code.spec_to_byte() == byte);
    }
}

/// An instruction whose operand is cut off has no result.
pub proof fn lemma_step_cut_off(machine: Machine, op_code: OpCode)
    requires
        stands_at(machine, op_code, 0),
        !is_bare(op_code),
        machine.frames.last().ip + (if op_code == OpCode::GetLocal || op_code == OpCode::SetLocal {
            1int
        } else {
            2int
        }) >= machine.frames.last().function.instructions.len(),
    ensures
        machine.step() is Fault,
{
}

// Pushing and popping.

/// The value that an op code pushes by itself, if it does.
pub open spec fn literal(op_code: OpCode) -> Option<Value> {
    match op_code {
        OpCode::True => Some(Value::Boolean(true)),
        OpCode::False => Some(Value::Boolean(false)),
        OpCode::Null => Some(Value::Null),
        _ => None,
    }
}

/// `True`, `False` and `Null` push their value, unless the stack is full.
pub proof fn lemma_step_literal(machine: Machine, op_code: OpCode)
    requires
        stands_at(machine, op_code, 0),
        literal(op_code) is Some,
    ensures
        machine.step() == if machine.sp < STACK_SIZE {
            Outcome::Running(replaced(machine, 0, literal(op_code).unwrap(), 1))
        } else {
            Outcome::Failed(VmErrorView::StackOverflow, machine)
        },
{
    assert(moved_by(machine, 0) =~= machine.frames);
}

/// `Constant` pushes the constant that its operand points to, unless there is none or the stack
/// is full.
pub proof fn lemma_step_constant(machine: Machine)
    requires
        stands_at(machine, OpCode::Constant, 2),
    ensures
        machine.step() == if wide(machine) >= machine.constants.len() {
            Outcome::Failed(
                VmErrorView::InvalidConstIndex(wide(machine) as nat, machine.constants.len()),
                given_up(machine, 0, 2),
            )
        } else if machine.sp >= STACK_SIZE {
            Outcome::Failed(VmErrorView::StackOverflow, given_up(machine, 0, 2))
        } else {
            Outcome::Running(replaced(machine, 0, machine.constants[wide(machine)], 3))
        },
{
}

/// `Pop` lowers the stack by one and leaves every slot as it is.
pub proof fn lemma_step_pop(machine: Machine)
    requires
        stands_at(machine, OpCode::Pop, 0),
    ensures
        machine.step() == if 1 <= machine.sp <= STACK_SIZE {
            Outcome::Running(given_up(machine, 1, 1))
        } else {
            Outcome::Failed(VmErrorView::StackEmpty, given_up(machine, 1, 0))
        },
{
    assert(moved_by(machine, 0) =~= machine.frames);
}

/// What takes values off the stack fails where there are too few, and leaves the stack pointer
/// where the failed pop put it. A call has no result there.
pub proof fn lemma_step_without_operands(machine: Machine, op_code: OpCode)
    requires
        stands_at(
            machine,
            op_code,
            if is_bare(op_code) {
                0
            } else if op_code == OpCode::SetLocal {
                1
            } else {
                2
            },
        ),
    ensures
        ({
            let bytes = if is_bare(op_code) {
                0int
            } else if op_code == OpCode::SetLocal {
                1int
            } else {
                2int
            };
            let first = machine.sp == 0 || machine.sp > STACK_SIZE;
            match op_code {
                OpCode::Add
                | OpCode::Sub
                | OpCode::Mul
                | OpCode::Div
                | OpCode::Equal
                | OpCode::NotEqual
                | OpCode::GreaterThan
                | OpCode::Index => {
                    &&& first ==> machine.step() == Outcome::Failed(
                        VmErrorView::StackEmpty,
                        given_up(machine, 1, bytes),
                    )
                    &&& machine.sp == 1 ==> machine.step() == Outcome::Failed(
                        VmErrorView::StackEmpty,
                        given_up(machine, 2, bytes),
                    )
                },
                OpCode::Minus
                | OpCode::Bang
                | OpCode::ReturnValue
                | OpCode::JumpIfNotTruthy
                | OpCode::SetGlobal
                | OpCode::SetLocal => first ==> machine.step() == Outcome::Failed(
                    VmErrorView::StackEmpty,
                    given_up(machine, 1, bytes),
                ),
                OpCode::Call => first ==> machine.step() is Fault,
                _ => true,
            }
        }),
{
    assert(moved_by(machine, 0) =~= machine.frames);
}

// Operators.

/// The stack holds these two operands on top, the left one below.
pub open spec fn two_on_top(machine: Machine, left: Value, right: Value) -> bool {
    &&& 2 <= machine.sp <= STACK_SIZE
    &&& machine.stack[machine.sp - 2] == left
    &&& machine.stack[machine.sp - 1] == right
}

/// The stack holds this value on top.
pub open spec fn on_top(machine: Machine, value: Value) -> bool {
    1 <= machine.sp <= STACK_SIZE && machine.stack[machine.sp - 1] == value
}

/// An operation with an integer result replaces its operands by it where it fits, and has no
/// result elsewhere.
pub open spec fn yields_integer(machine: Machine, taken: int, result: int) -> bool {
    if i64::MIN <= result <= i64::MAX {
        machine.step() =~= Outcome::Running(
            replaced(machine, taken, Value::Integer(result as i64), 1),
        )
    } else {
        machine.step() is Fault
    }
}

/// `Add` gives the sum of two integers.
pub proof fn lemma_step_add(machine: Machine, left: i64, right: i64)
    requires
        stands_at(machine, OpCode::Add, 0),
        two_on_top(machine, Value::Integer(left), Value::Integer(right)),
    ensures
        yields_integer(machine, 2, left + right),
{
}

/// `Sub` gives the difference of two integers, the right one taken from the left one.
pub proof fn lemma_step_sub(machine: Machine, left: i64, right: i64)
    requires
        stands_at(machine, OpCode::Sub, 0),
        two_on_top(machine, Value::Integer(left), Value::Integer(right)),
    ensures
        yields_integer(machine, 2, left - right),
{
}

/// `Mul` gives the product of two integers.
pub proof fn lemma_step_mul(machine: Machine, left: i64, right: i64)
    requires
        stands_at(machine, OpCode::Mul, 0),
        two_on_top(machine, Value::Integer(left), Value::Integer(right)),
    ensures
        yields_integer(machine, 2, left * right),
{
}

/// `Div` gives the number whose product with the divisor misses the dividend by less than the
/// divisor, and not beyond it; by zero it has no result.
pub proof fn lemma_step_div(machine: Machine, left: i64, right: i64, result: int)
    requires
        stands_at(machine, OpCode::Div, 0),
        two_on_top(machine, Value::Integer(left), Value::Integer(right)),
        right != 0 ==> {
            let missed = left - result * right;
            &&& left >= 0 ==> 0 <= missed
            &&& left <= 0 ==> missed <= 0
            &&& -right < missed < right || right < missed < -right
        },
    ensures
        right == 0 ==> machine.step() is Fault,
        right != 0 ==> yields_integer(machine, 2, result),
{
    if right != 0 {
        let q = crate::vm::machine::quotient(left as int, right as int);
        crate::vm::laws::lemma_quotient_rounds_toward_zero(left as int, right as int);
        let (l, r) = (left as int, right as int);
        let (m, n) = (l - result * r, l - q * r);
        assert((q - result) * r == m - n) by (nonlinear_arith)
            requires
                m == l - result * r,
                n == l - q * r,
        ;
        assert(q == result) by (nonlinear_arith)
            requires
                (q - result) * r == m - n,
                r != 0,
                -r < m - n < r || r < m - n < -r,
        ;
    }
}

/// `Add` joins two strings: first the left one, then the right one.
pub proof fn lemma_step_join(machine: Machine, left: Seq<char>, right: Seq<char>, whole: Seq<char>)
    requires
        stands_at(machine, OpCode::Add, 0),
        two_on_top(machine, Value::String(left), Value::String(right)),
        whole.len() == left.len() + right.len(),
        forall|i: int| 0 <= i < left.len() ==> #[trigger] whole[i] == left[i],
        forall|i: int| left.len() <= i < whole.len() ==> #[trigger] whole[i] == right[i
            - left.len()],
    ensures
        machine.step() == Outcome::Running(replaced(machine, 2, Value::String(whole), 1)),
{
    assert(whole =~= left + right);
}

/// The operator that an op code stands for.
pub open spec fn operator(op_code: OpCode) -> Infix {
    match op_code {
        OpCode::Add => Infix::Plus,
        OpCode::Sub => Infix::Minus,
        OpCode::Mul => Infix::Asterisk,
        OpCode::Div => Infix::Slash,
        OpCode::Equal => Infix::Eq,
        OpCode::NotEqual => Infix::NotEq,
        _ => Infix::Gt,
    }
}

/// Strings have no other arithmetic than joining.
pub proof fn lemma_step_string_error(
    machine: Machine,
    op_code: OpCode,
    left: Seq<char>,
    right: Seq<char>,
)
    requires
        op_code == OpCode::Sub || op_code == OpCode::Mul || op_code == OpCode::Div,
        stands_at(machine, op_code, 0),
        two_on_top(machine, Value::String(left), Value::String(right)),
    ensures
        machine.step() == Outcome::Failed(
            VmErrorView::Eval(
                EvalErrorView::UnknownInfixOperator(
                    operator(op_code),
                    Value::String(left),
                    Value::String(right),
                ),
            ),
            given_up(machine, 2, 0),
        ),
{
    assert(moved_by(machine, 0) =~= machine.frames);
}

/// Operands that do not go together are reported with the operator, the left one first.
pub proof fn lemma_step_mismatch(machine: Machine, op_code: OpCode, left: Value, right: Value)
    requires
        stands_at(machine, op_code, 0),
        two_on_top(machine, left, right),
        !(left is Integer && right is Integer),
        match op_code {
            OpCode::Add | OpCode::Sub | OpCode::Mul | OpCode::Div => !(left is String
                && right is String),
            OpCode::Equal | OpCode::NotEqual | OpCode::GreaterThan => !(left is Boolean
                && right is Boolean),
            _ => false,
        },
    ensures
        machine.step() == Outcome::Failed(
            VmErrorView::Eval(EvalErrorView::TypeMismatch(operator(op_code), left, right)),
            given_up(machine, 2, 0),
        ),
{
    assert(moved_by(machine, 0) =~= machine.frames);
}

/// The comparisons of integers give what the order of the integers says.
pub proof fn lemma_step_compare_integers(machine: Machine, op_code: OpCode, left: i64, right: i64)
    requires
        stands_at(machine, op_code, 0),
        two_on_top(machine, Value::Integer(left), Value::Integer(right)),
    ensures
        op_code == OpCode::Equal ==> machine.step() == Outcome::Running(
            replaced(machine, 2, Value::Boolean(left == right), 1),
        ),
        op_code == OpCode::NotEqual ==> machine.step() == Outcome::Running(
            replaced(machine, 2, Value::Boolean(left != right), 1),
        ),
        op_code == OpCode::GreaterThan ==> machine.step() == Outcome::Running(
            replaced(machine, 2, Value::Boolean(left > right), 1),
        ),
{
}

/// Booleans are compared for equality, and have no order.
pub proof fn lemma_step_compare_booleans(
    machine: Machine,
    op_code: OpCode,
    left: bool,
    right: bool,
)
    requires
        stands_at(machine, op_code, 0),
        two_on_top(machine, Value::Boolean(left), Value::Boolean(right)),
    ensures
        op_code == OpCode::Equal ==> machine.step() == Outcome::Running(
            replaced(machine, 2, Value::Boolean(left == right), 1),
        ),
        op_code == OpCode::NotEqual ==> machine.step() == Outcome::Running(
            replaced(machine, 2, Value::Boolean(left != right), 1),
        ),
        op_code == OpCode::GreaterThan ==> machine.step() == Outcome::Failed(
            VmErrorView::Eval(
                EvalErrorView::UnknownInfixOperator(
                    Infix::Gt,
                    Value::Boolean(left),
                    Value::Boolean(right),
                ),
            ),
            given_up(machine, 2, 0),
        ),
{
    assert(moved_by(machine, 0) =~= machine.frames);
}

/// `Minus` gives the integer that adds up to zero with its operand.
pub proof fn lemma_step_minus(machine: Machine, value: i64, result: int)
    requires
        stands_at(machine, OpCode::Minus, 0),
        on_top(machine, Value::Integer(value)),
        value + result == 0,
    ensures
        yields_integer(machine, 1, result),
{
}

/// Only integers can be negated.
pub proof fn lemma_step_minus_error(machine: Machine, value: Value)
    requires
        stands_at(machine, OpCode::Minus, 0),
        on_top(machine, value),
        value !is Integer,
    ensures
        machine.step() == Outcome::Failed(
            VmErrorView::Eval(EvalErrorView::UnknownPrefixOperator(Prefix::Minus, value)),
            given_up(machine, 1, 0),
        ),
{
    assert(moved_by(machine, 0) =~= machine.frames);
}

/// The values that count as false.
pub open spec fn counts_as_false(value: Value) -> bool {
    match value {
        Value::Null => true,
        Value::Boolean(truth) => !truth,
        _ => false,
    }
}

/// `Bang` gives whether its operand counts as false.
pub proof fn lemma_step_bang(machine: Machine, value: Value)
    requires
        stands_at(machine, OpCode::Bang, 0),
        on_top(machine, value),
    ensures
        machine.step() == Outcome::Running(
            replaced(machine, 1, Value::Boolean(counts_as_false(value)), 1),
        ),
{
}

// Jumps.

/// `Jump` goes to its operand, whatever the distance, and changes nothing else.
pub proof fn lemma_step_jump(machine: Machine)
    requires
        stands_at(machine, OpCode::Jump, 2),
    ensures
        wide(machine) > 0 ==> machine.step() == Outcome::Running(
            Machine {
                constants: machine.constants,
                stack: machine.stack,
                sp: machine.sp,
                globals: machine.globals,
                frames: moved_to(machine, wide(machine)),
            },
        ),
        wide(machine) == 0 ==> machine.step() is Fault,
{
}

/// `JumpIfNotTruthy` takes the condition off the stack, and goes to its operand if the condition
/// counts as false and behind itself if not.
pub proof fn lemma_step_jump_if_not_truthy(machine: Machine, condition: Value)
    requires
        stands_at(machine, OpCode::JumpIfNotTruthy, 2),
        on_top(machine, condition),
    ensures
        !counts_as_false(condition) ==> machine.step() == Outcome::Running(
            given_up(machine, 1, 3),
        ),
        counts_as_false(condition) && wide(machine) > 0 ==> machine.step() == Outcome::Running(
            Machine {
                constants: machine.constants,
                stack: machine.stack,
                sp: (machine.sp - 1) as nat,
                globals: machine.globals,
                frames: moved_to(machine, wide(machine)),
            },
        ),
        counts_as_false(condition) && wide(machine) == 0 ==> machine.step() is Fault,
{
}

// Bindings.

/// `GetGlobal` pushes the binding that its operand points to.
pub proof fn lemma_step_get_global(machine: Machine)
    requires
        stands_at(machine, OpCode::GetGlobal, 2),
    ensures
        wide(machine) < machine.globals.len() ==> machine.step() == if machine.sp < STACK_SIZE {
            Outcome::Running(replaced(machine, 0, machine.globals[wide(machine)], 3))
        } else {
            Outcome::Failed(VmErrorView::StackOverflow, given_up(machine, 0, 2))
        },
        wide(machine) >= machine.globals.len() ==> machine.step() is Fault,
{
}

/// `SetGlobal` moves the top of the stack into the binding that its operand points to, or into a
/// new one right behind the last.
pub proof fn lemma_step_set_global(machine: Machine, value: Value, globals: Seq<Value>)
    requires
        stands_at(machine, OpCode::SetGlobal, 2),
        on_top(machine, value),
        wide(machine) <= machine.globals.len() ==> {
            &&& globals.len() == if wide(machine) == machine.globals.len() {
                machine.globals.len() + 1
            } else {
                machine.globals.len()
            }
            &&& globals[wide(machine)] == value
            &&& forall|i: int|
                0 <= i < machine.globals.len() && i != wide(machine) ==> #[trigger] globals[i]
                    == machine.globals[i]
        },
    ensures
        wide(machine) <= machine.globals.len() ==> machine.step() == Outcome::Running(
            Machine {
                constants: machine.constants,
                stack: machine.stack,
                sp: (machine.sp - 1) as nat,
                globals,
                frames: moved_by(machine, 3),
            },
        ),
        wide(machine) > machine.globals.len() ==> machine.step() is Fault,
{
    if wide(machine) == machine.globals.len() {
        assert(globals =~= machine.globals.push(value));
    } else if wide(machine) < machine.globals.len() {
        assert(globals =~= machine.globals.update(wide(machine), value));
    }
}

/// `GetLocal` pushes the slot that lies its operand above the base of the innermost call.
pub proof fn lemma_step_get_local(machine: Machine)
    requires
        stands_at(machine, OpCode::GetLocal, 1),
    ensures
        ({
            let slot = machine.frames.last().base_pointer + byte_behind(machine, 1);
            if slot >= STACK_SIZE {
                machine.step() is Fault
            } else if machine.sp >= STACK_SIZE {
                machine.step() == Outcome::Failed(
                    VmErrorView::StackOverflow,
                    given_up(machine, 0, 1),
                )
            } else {
                machine.step() == Outcome::Running(replaced(machine, 0, machine.stack[slot], 2))
            }
        }),
{
}

/// `SetLocal` moves the top of the stack into the slot that lies its operand above the base of
/// the innermost call.
pub proof fn lemma_step_set_local(machine: Machine, value: Value)
    requires
        stands_at(machine, OpCode::SetLocal, 1),
        on_top(machine, value),
    ensures
        ({
            let slot = machine.frames.last().base_pointer + byte_behind(machine, 1);
            if slot >= STACK_SIZE {
                machine.step() is Fault
            } else {
                machine.step() == Outcome::Running(
                    Machine {
                        constants: machine.constants,
                        stack: machine.stack.update(slot, value),
                        sp: (machine.sp - 1) as nat,
                        globals: machine.globals,
                        frames: moved_by(machine, 2),
                    },
                )
            }
        }),
{
}

// Calls.

/// `Call` starts the function on top of the stack at its first instruction, with its base just
/// above it and room for each of its local bindings, and leaves the caller at the call.
pub proof fn lemma_step_call(machine: Machine, function: FunctionView)
    requires
        stands_at(machine, OpCode::Call, 0),
        on_top(machine, Value::CompiledFunction(function)),
        machine.frames.len() < usize::MAX,
    ensures
        machine.step() == Outcome::Running(
            Machine {
                constants: machine.constants,
                stack: machine.stack,
                sp: (machine.sp + function.num_locals) as nat,
                globals: machine.globals,
                frames: machine.frames.push(
                    FrameView { function, ip: 0, base_pointer: machine.sp },
                ),
            },
        ),
{
}

/// Nothing but a function can be called.
pub proof fn lemma_step_call_error(machine: Machine, value: Value)
    requires
        stands_at(machine, OpCode::Call, 0),
        on_top(machine, value),
        value !is CompiledFunction,
    ensures
        machine.step() == Outcome::Failed(
            VmErrorView::Eval(EvalErrorView::NotFunction(value)),
            machine,
        ),
{
}

/// The state after a return: the result lies where the function lay, as the top of the stack, and
/// the caller stands behind its call.
pub open spec fn returned(machine: Machine, result: Value) -> Machine {
    let base = machine.frames.last().base_pointer;
    let caller = machine.frames[machine.frames.len() - 2];
    Machine {
        constants: machine.constants,
        stack: machine.stack.update(base - 1, result),
        sp: base,
        globals: machine.globals,
        frames: machine.frames.drop_last().update(
            machine.frames.len() - 2,
            FrameView {
                function: caller.function,
                ip: caller.ip + 1,
                base_pointer: caller.base_pointer,
            },
        ),
    }
}

/// `ReturnValue` ends the innermost call with the top of the stack as its result.
pub proof fn lemma_step_return_value(machine: Machine, result: Value)
    requires
        stands_at(machine, OpCode::ReturnValue, 0),
        on_top(machine, result),
    ensures
        machine.frames.len() >= 2 && 1 <= machine.frames.last().base_pointer <= STACK_SIZE
            ==> machine.step() == Outcome::Running(returned(machine, result)),
        machine.frames.len() == 1 ==> machine.step() is Fault,
{
}

/// `Return` ends the innermost call with `null` as its result.
pub proof fn lemma_step_return(machine: Machine)
    requires
        stands_at(machine, OpCode::Return, 0),
    ensures
        machine.frames.len() >= 2 && 1 <= machine.frames.last().base_pointer <= STACK_SIZE
            ==> machine.step() == Outcome::Running(returned(machine, Value::Null)),
        machine.frames.len() == 1 ==> machine.step() is Fault,
{
}

// Arrays and hashes.

/// `Array` replaces as many values as its operand says by an array that holds them in the order in
/// which they were pushed.
pub proof fn lemma_step_array(machine: Machine, items: Seq<Value>)
    requires
        stands_at(machine, OpCode::Array, 2),
        items.len() == wide(machine),
        items.len() <= machine.sp,
        forall|i: int|
            0 <= i < items.len() ==> #[trigger] items[i] == machine.stack[machine.sp - items.len()
                + i],
    ensures
        items.len() > 0 && machine.sp > STACK_SIZE ==> machine.step() is Fault,
        items.len() == 0 && machine.sp >= STACK_SIZE ==> machine.step() == Outcome::Failed(
            VmErrorView::StackOverflow,
            given_up(machine, 0, 2),
        ),
        machine.sp < STACK_SIZE || items.len() > 0 && machine.sp == STACK_SIZE ==> machine.step()
            == Outcome::Running(replaced(machine, items.len() as int, Value::Array(items), 3)),
{
    if items.len() == 0 {
        assert(items =~= Seq::empty());
    } else if machine.sp <= STACK_SIZE {
        assert(items =~= machine.stack.subrange(
            machine.sp - items.len(),
            machine.sp as int,
        ));
    }
}

/// An array or a hash of more values than the stack holds has no result.
pub proof fn lemma_step_too_few(machine: Machine)
    ensures
        stands_at(machine, OpCode::Array, 2) && wide(machine) > machine.sp
            ==> machine.step() is Fault,
        stands_at(machine, OpCode::Hash, 2) && 2 * wide(machine) > machine.sp
            ==> machine.step() is Fault,
{
}

/// A value serves as this hash key.
pub open spec fn serves_as(value: Value, key: Key) -> bool {
    match key {
        Key::Integer(number) => value == Value::Integer(number),
        Key::String(text) => value == Value::String(text),
        Key::Boolean(truth) => value == Value::Boolean(truth),
    }
}

/// The values that can be hash keys.
pub open spec fn can_be_key(value: Value) -> bool {
    value is Integer || value is String || value is Boolean
}

/// The slot of the key of a pair, counted from the lowest of the pairs on top of the stack.
pub open spec fn key_slot(machine: Machine, pair: int) -> int {
    machine.sp - 2 * wide(machine) + 2 * pair
}

proof fn lemma_hash_done(slots: Seq<Value>, from: int, size: nat)
    requires
        0 <= from,
        size > 0 ==> from + 2 * size <= slots.len(),
        forall|i: int| 0 <= i < size ==> can_be_key(#[trigger] slots[from + 2 * i]),
    ensures
        crate::vm::machine::hash_of_slots(slots, from, size) matches
            crate::vm::machine::Computed::Done(Value::Hash(_)),
    decreases size,
{
    if size > 0 {
        lemma_hash_done(slots, from, (size - 1) as nat);
        assert(can_be_key(slots[from + 2 * (size - 1)]));
    }
}

/// `Hash` replaces as many pairs as its operand says by a hash on top of the stack. It has exactly
/// the keys of the pairs, and at each key the value of the last pair with that key.
pub proof fn lemma_step_hash(machine: Machine, pairs: Map<Key, Value>)
    requires
        stands_at(machine, OpCode::Hash, 2),
        2 * wide(machine) <= machine.sp <= STACK_SIZE,
        wide(machine) > 0 || machine.sp < STACK_SIZE,
        forall|i: int|
            0 <= i < wide(machine) ==> can_be_key(#[trigger] machine.stack[key_slot(machine, i)]),
        forall|key: Key| #[trigger]
            pairs.contains_key(key) <==> exists|i: int|
                0 <= i < wide(machine) && serves_as(
                    #[trigger] machine.stack[key_slot(machine, i)],
                    key,
                ),
        forall|key: Key, i: int|
            0 <= i < wide(machine) && serves_as(
                #[trigger] machine.stack[key_slot(machine, i)],
                key,
            ) && (forall|j: int|
                i < j < wide(machine) ==> !serves_as(
                    #[trigger] machine.stack[key_slot(machine, j)],
                    key,
                )) ==> #[trigger] pairs[key] == machine.stack[key_slot(machine, i) + 1],
    ensures
        machine.step() == Outcome::Running(
            replaced(machine, 2 * wide(machine), Value::Hash(pairs), 3),
        ),
{
    let from = machine.sp - 2 * wide(machine);
    let size = wide(machine) as nat;
    let slots = machine.stack;
    assert forall|i: int| 0 <= i < size implies can_be_key(#[trigger] slots[from + 2 * i]) by {
        assert(can_be_key(slots[key_slot(machine, i)]));
    }
    lemma_hash_done(slots, from, size);
    let made = crate::vm::machine::hash_of_slots(slots, from, size)->Done_0->Hash_0;
    assert forall|value: Value, key: Key| #[trigger]
        serves_as(value, key) <==> value.key() == Some(key) by {}
    assert forall|key: Key| #[trigger]
        made.contains_key(key) == pairs.contains_key(key) && (made.contains_key(key)
            ==> made[key] == pairs[key]) by {
        crate::vm::laws::lemma_hash_keys(slots, from, size, key);
        if made.contains_key(key) {
            let some = choose|i: int|
                0 <= i < size && (#[trigger] slots[from + 2 * i]).key() == Some(key);
            assert(serves_as(slots[key_slot(machine, some)], key));
            let last = lemma_last_pair(machine, key, some);
            assert(serves_as(slots[key_slot(machine, last)], key));
            assert forall|i: int| last < i < size implies (
            #[trigger] slots[from + 2 * i]).key() != Some(key) by {
                assert(!serves_as(slots[key_slot(machine, i)], key));
            }
            crate::vm::laws::lemma_hash_value(slots, from, size, key, last);
        }
        if pairs.contains_key(key) {
            let some = choose|i: int|
                0 <= i < size && serves_as(#[trigger] slots[key_slot(machine, i)], key);
            assert(slots[from + 2 * some].key() == Some(key));
        }
    }
    assert(made =~= pairs);
}

proof fn lemma_last_pair(machine: Machine, key: Key, some: int) -> (last: int)
    requires
        0 <= some < wide(machine),
        serves_as(machine.stack[key_slot(machine, some)], key),
    ensures
        some <= last < wide(machine),
        serves_as(machine.stack[key_slot(machine, last)], key),
        forall|j: int|
            last < j < wide(machine) ==> !serves_as(
                #[trigger] machine.stack[key_slot(machine, j)],
                key,
            ),
    decreases wide(machine) - some,
{
    if exists|j: int|
        some < j < wide(machine) && serves_as(#[trigger] machine.stack[key_slot(machine, j)], key) {
        let next = choose|j: int|
            some < j < wide(machine) && serves_as(
                #[trigger] machine.stack[key_slot(machine, j)],
                key,
            );
        lemma_last_pair(machine, key, next)
    } else {
        some
    }
}

/// The first key of a hash that cannot be one is reported, and the stack stays as it is.
pub proof fn lemma_step_hash_error(machine: Machine, bad: int)
    requires
        stands_at(machine, OpCode::Hash, 2),
        2 * wide(machine) <= machine.sp,
        0 <= bad < wide(machine),
        key_slot(machine, bad) < STACK_SIZE,
        !can_be_key(machine.stack[key_slot(machine, bad)]),
        forall|i: int|
            0 <= i < bad ==> can_be_key(#[trigger] machine.stack[key_slot(machine, i)]),
    ensures
        machine.step() == Outcome::Failed(
            VmErrorView::Eval(
                EvalErrorView::UnsupportedHashKey(machine.stack[key_slot(machine, bad)]),
            ),
            given_up(machine, 0, 2),
        ),
{
    let from = machine.sp - 2 * wide(machine);
    let size = wide(machine) as nat;
    let slots = machine.stack;
    assert forall|i: int| 0 <= i < bad implies can_be_key(#[trigger] slots[from + 2 * i]) by {
        assert(can_be_key(slots[key_slot(machine, i)]));
    }
    lemma_hash_done(slots, from, bad as nat);
    crate::vm::lemma_hash_of_slots(slots, from, (bad + 1) as nat, size);
}

/// A hash of no pairs does not fit on a full stack, and one of pairs that lie beyond the end of the
/// stack has no result.
pub proof fn lemma_step_hash_beyond_end(machine: Machine)
    requires
        stands_at(machine, OpCode::Hash, 2),
        2 * wide(machine) <= machine.sp,
        forall|i: int|
            0 <= i < wide(machine) && key_slot(machine, i) < STACK_SIZE ==> can_be_key(
                #[trigger] machine.stack[key_slot(machine, i)],
            ),
    ensures
        wide(machine) == 0 && machine.sp >= STACK_SIZE ==> machine.step() == Outcome::Failed(
            VmErrorView::StackOverflow,
            given_up(machine, 0, 2),
        ),
        wide(machine) > 0 && machine.sp > STACK_SIZE ==> machine.step() is Fault,
{
    let from = machine.sp - 2 * wide(machine);
    let size = wide(machine) as nat;
    let slots = machine.stack;
    if size > 0 && machine.sp > STACK_SIZE {
        let fitting: int = if from >= STACK_SIZE {
            0
        } else {
            (STACK_SIZE - from) / 2
        };
        assert forall|i: int| 0 <= i < fitting implies can_be_key(#[trigger] slots[from + 2 * i]) by {
            assert(can_be_key(slots[key_slot(machine, i)]));
        }
        lemma_hash_done(slots, from, fitting as nat);
        if key_slot(machine, fitting) < STACK_SIZE {
            assert(can_be_key(slots[key_slot(machine, fitting)]));
        }
        crate::vm::lemma_hash_of_slots(slots, from, (fitting + 1) as nat, size);
    }
}

/// `Index` finds the item of an array at a position, and `null` where there is none.
pub proof fn lemma_step_index_array(machine: Machine, items: Seq<Value>, position: i64)
    requires
        stands_at(machine, OpCode::Index, 0),
        two_on_top(machine, Value::Array(items), Value::Integer(position)),
    ensures
        0 <= position < items.len() ==> machine.step() == Outcome::Running(
            replaced(machine, 2, items[position as int], 1),
        ),
        position < 0 || position >= items.len() ==> machine.step() == Outcome::Running(
            replaced(machine, 2, Value::Null, 1),
        ),
{
}

/// `Index` finds the value of a hash at a key, and `null` where there is none.
pub proof fn lemma_step_index_hash(
    machine: Machine,
    pairs: Map<Key, Value>,
    index: Value,
    key: Key,
)
    requires
        stands_at(machine, OpCode::Index, 0),
        two_on_top(machine, Value::Hash(pairs), index),
        serves_as(index, key),
    ensures
        pairs.contains_key(key) ==> machine.step() == Outcome::Running(
            replaced(machine, 2, pairs[key], 1),
        ),
        !pairs.contains_key(key) ==> machine.step() == Outcome::Running(
            replaced(machine, 2, Value::Null, 1),
        ),
{
}

/// Nothing but arrays and hashes has an index, an array only an integer and a hash only a key.
pub proof fn lemma_step_index_error(machine: Machine, object: Value, index: Value)
    requires
        stands_at(machine, OpCode::Index, 0),
        two_on_top(machine, object, index),
        !(object is Array && index is Integer),
        !(object is Hash && can_be_key(index)),
    ensures
        machine.step() == Outcome::Failed(
            VmErrorView::Eval(EvalErrorView::UnknownIndexOperator(object, index)),
            given_up(machine, 2, 0),
        ),
{
    assert(moved_by(machine, 0) =~= machine.frames);
}

// Local bindings.

/// The number of values that the current instruction takes off the stack.
pub open spec fn taken(machine: Machine) -> int {
    match crate::vm::laws::current_op_code(machine) {
        Some(OpCode::Add)
        | Some(OpCode::Sub)
        | Some(OpCode::Mul)
        | Some(OpCode::Div)
        | Some(OpCode::Equal)
        | Some(OpCode::NotEqual)
        | Some(OpCode::GreaterThan)
        | Some(OpCode::Index) => 2,
        Some(OpCode::Pop)
        | Some(OpCode::Minus)
        | Some(OpCode::Bang)
        | Some(OpCode::JumpIfNotTruthy)
        | Some(OpCode::SetGlobal)
        | Some(OpCode::SetLocal)
        | Some(OpCode::Call)
        | Some(OpCode::ReturnValue) => 1,
        Some(OpCode::Array) => wide(machine),
        Some(OpCode::Hash) => 2 * wide(machine),
        _ => 0,
    }
}

/// In a run of `fuel` steps the call at `depth` does not return, nothing below `height` is taken
/// off the stack, and that call does not assign to the local binding in this slot.
pub open spec fn spares(machine: Machine, depth: nat, height: int, slot: int, fuel: nat) -> bool
    decreases fuel,
{
    &&& machine.frames.len() > depth
    &&& fuel > 0 ==> match machine.step() {
        Outcome::Running(next) => {
            &&& machine.sp - taken(machine) >= height
            &&& !(machine.frames.len() == depth + 1 && stands_at(machine, OpCode::SetLocal, 1)
                && machine.frames.last().base_pointer + byte_behind(machine, 1) == slot)
            &&& spares(next, depth, height, slot, (fuel - 1) as nat)
        },
        _ => false,
    }
}

/// A slot of the stack below the temporaries of a call stays as it is while the call pushes and
/// pops, calls other functions and assigns to its other local bindings.
pub proof fn lemma_slot_is_spared(
    machine: Machine,
    depth: nat,
    height: int,
    slot: int,
    fuel: nat,
)
    requires
        machine.wf(),
        spares(machine, depth, height, slot, fuel),
        0 <= slot < height,
        slot < STACK_SIZE,
        forall|i: int|
            depth < i < machine.frames.len() ==> (#[trigger] machine.frames[i]).base_pointer
                > height,
    ensures
        machine.run(fuel) is Running,
        machine.run(fuel)->Running_0.wf(),
        machine.run(fuel)->Running_0.stack[slot] == machine.stack[slot],
        machine.run(fuel)->Running_0.frames.len() > depth,
        machine.run(fuel)->Running_0.frames[depth as int].base_pointer
            == machine.frames[depth as int].base_pointer,
    decreases fuel,
{
    if fuel > 0 {
        let next = machine.step()->Running_0;
        crate::vm::laws::lemma_step_keeps_wf(machine);
        crate::vm::laws::lemma_step_frames(machine);
        crate::vm::laws::lemma_step_writes_one_slot(machine);
        assert(spares(next, depth, height, slot, (fuel - 1) as nat));
        assert(next.frames.len() > depth);
        assert forall|i: int| depth <= i < next.frames.len() implies (i > depth ==> (
        #[trigger] next.frames[i]).base_pointer > height) && (i == depth
            ==> next.frames[i].base_pointer == machine.frames[i].base_pointer) by {
            if i < next.frames.len() - 1 {
                assert(next.frames[i] == next.frames.drop_last()[i]);
            }
        }
        assert(crate::vm::laws::written_slot(machine) != Some(slot));
        lemma_slot_is_spared(next, depth, height, slot, (fuel - 1) as nat);
    }
}

/// A call makes room for the local bindings of the function above it, and from there on a local
/// binding that was assigned reads as what was assigned to it, whatever is pushed and popped
/// above the room in between.
pub proof fn lemma_local_reads_back(
    caller: Machine,
    function: FunctionView,
    before: nat,
    value: Value,
    between: nat,
)
    requires
        caller.wf(),
        stands_at(caller, OpCode::Call, 0),
        on_top(caller, Value::CompiledFunction(function)),
        caller.frames.len() < usize::MAX,
        ({
            let inside = caller.step()->Running_0;
            let setting = inside.run(before)->Running_0;
            let index = byte_behind(setting, 1);
            let set = setting.step()->Running_0;
            let reading = set.run(between)->Running_0;
            &&& crate::vm::laws::stays_above(inside, caller.frames.len(), before)
            &&& setting.frames.len() == caller.frames.len() + 1
            &&& stands_at(setting, OpCode::SetLocal, 1)
            &&& on_top(setting, value)
            &&& index < function.num_locals
            &&& caller.sp + index < STACK_SIZE
            &&& spares(
                set,
                caller.frames.len(),
                caller.sp + function.num_locals,
                caller.sp + index,
                between,
            )
            &&& reading.frames.len() == caller.frames.len() + 1
            &&& stands_at(reading, OpCode::GetLocal, 1)
            &&& byte_behind(reading, 1) == index
            &&& reading.sp < STACK_SIZE
        }),
    ensures
        ({
            let inside = caller.step()->Running_0;
            let set = inside.run(before)->Running_0.step()->Running_0;
            let reading = set.run(between)->Running_0;
            &&& inside.sp == caller.sp + function.num_locals
            &&& reading.step() == Outcome::Running(replaced(reading, 0, value, 2))
        }),
{
    lemma_step_call(caller, function);
    crate::vm::laws::lemma_step_keeps_wf(caller);
    let inside = caller.step()->Running_0;
    let depth = caller.frames.len();
    crate::vm::laws::lemma_callers_wait(inside, depth, before);
    let setting = inside.run(before)->Running_0;
    lemma_step_set_local(setting, value);
    crate::vm::laws::lemma_step_keeps_wf(setting);
    let set = setting.step()->Running_0;
    let index = byte_behind(setting, 1);
    lemma_slot_is_spared(
        set,
        depth,
        caller.sp + function.num_locals,
        caller.sp + index,
        between,
    );
    lemma_step_get_local(set.run(between)->Running_0);
}

} // verus!
