//! The machine, mathematically: its state and what each operation does to it.

use vstd::prelude::*;

use crate::ast::{Infix, Prefix};
use crate::code::OpCode;
use crate::object::{EvalErrorView, FunctionView, Value};
use crate::vm::error::VmErrorView;
use crate::vm::frame::FrameView;
use crate::vm::STACK_SIZE;

verus! {

/// The state of the machine.
#[verifier::ext_equal]
pub struct Machine {
    /// The constant pool.
    pub constants: Seq<Value>,
    /// The whole stack area, with what lies above the stack pointer.
    pub stack: Seq<Value>,
    /// The index of the first free slot: the top of the stack is just below it.
    pub sp: nat,
    /// The global bindings.
    pub globals: Seq<Value>,
    /// The active calls, the main program first.
    pub frames: Seq<FrameView>,
}

/// What comes of running the machine.
#[verifier::ext_equal]
pub enum Outcome {
    /// It goes on from this state.
    Running(Machine),
    /// It came to the end of the instructions in this state.
    Halted(Machine),
    /// It stopped with an error in this state.
    Failed(VmErrorView, Machine),
    /// It has no result: the instructions are malformed (an operand is cut off, a jump goes to
    /// the very start, an index leaves the stack or the globals, a return leaves the main
    /// program), or an integer overflows or is divided by zero.
    Fault,
}

/// What comes of an operation on values.
pub enum Computed {
    Done(Value),
    Error(EvalErrorView),
    /// No result: see [`Outcome::Fault`].
    Fault,
}

impl Outcome {
    /// The run is over, in order or with an error.
    pub open spec fn finished(self) -> bool {
        self is Halted || self is Failed
    }

    /// Goes on to the next instruction.
    pub open spec fn next(self) -> Outcome {
        match self {
            Outcome::Running(machine) => Outcome::Running(machine.advance(1)),
            _ => self,
        }
    }
}

/// The infix operator that an op code stands for, if any.
pub open spec fn infix_of(op_code: OpCode) -> Option<Infix> {
    match op_code {
        OpCode::Add => Some(Infix::Plus),
        OpCode::Sub => Some(Infix::Minus),
        OpCode::Mul => Some(Infix::Asterisk),
        OpCode::Div => Some(Infix::Slash),
        OpCode::Equal => Some(Infix::Eq),
        OpCode::NotEqual => Some(Infix::NotEq),
        OpCode::GreaterThan => Some(Infix::Gt),
        _ => None,
    }
}

/// The op codes of arithmetic.
pub open spec fn is_arithmetic(op_code: OpCode) -> bool {
    op_code == OpCode::Add || op_code == OpCode::Sub || op_code == OpCode::Mul || op_code
        == OpCode::Div
}

/// The op codes of comparison.
pub open spec fn is_comparison(op_code: OpCode) -> bool {
    op_code == OpCode::Equal || op_code == OpCode::NotEqual || op_code == OpCode::GreaterThan
}

/// An integer as a value, if it fits.
pub open spec fn integer(value: int) -> Computed {
    if i64::MIN <= value <= i64::MAX {
        Computed::Done(Value::Integer(value as i64))
    } else {
        Computed::Fault
    }
}

/// The quotient rounded toward zero.
pub open spec fn quotient(left: int, right: int) -> int
    recommends
        right != 0,
{
    let magnitude = vstd::math::abs(left) / vstd::math::abs(right);
    if (left < 0) == (right < 0) {
        magnitude as int
    } else {
        -(magnitude as int)
    }
}

/// What an arithmetic op code makes of two integers.
pub open spec fn integer_arithmetic(op_code: OpCode, left: int, right: int) -> Computed {
    match op_code {
        OpCode::Add => integer(left + right),
        OpCode::Sub => integer(left - right),
        OpCode::Mul => integer(left * right),
        OpCode::Div => if right == 0 {
            Computed::Fault
        } else {
            integer(quotient(left, right))
        },
        _ => Computed::Fault,
    }
}

/// What an arithmetic op code makes of two strings: only addition is known, and joins them.
pub open spec fn string_arithmetic(
    op_code: OpCode,
    left: Seq<char>,
    right: Seq<char>,
) -> Computed {
    match op_code {
        OpCode::Add => Computed::Done(Value::String(left + right)),
        OpCode::Sub | OpCode::Mul | OpCode::Div => Computed::Error(
            EvalErrorView::UnknownInfixOperator(
                infix_of(op_code).unwrap(),
                Value::String(left),
                Value::String(right),
            ),
        ),
        _ => Computed::Fault,
    }
}

/// What an arithmetic op code makes of two values.
pub open spec fn arithmetic(op_code: OpCode, left: Value, right: Value) -> Computed {
    match (left, right) {
        (Value::Integer(l), Value::Integer(r)) => integer_arithmetic(op_code, l as int, r as int),
        (Value::String(l), Value::String(r)) => string_arithmetic(op_code, l, r),
        _ => match infix_of(op_code) {
            Some(infix) => Computed::Error(EvalErrorView::TypeMismatch(infix, left, right)),
            None => Computed::Fault,
        },
    }
}

/// What a comparison makes of two values: integers have all three, booleans only equality.
pub open spec fn comparison(op_code: OpCode, left: Value, right: Value) -> Computed {
    match (left, right) {
        (Value::Integer(l), Value::Integer(r)) => match op_code {
            OpCode::Equal => Computed::Done(Value::Boolean(l == r)),
            OpCode::NotEqual => Computed::Done(Value::Boolean(l != r)),
            OpCode::GreaterThan => Computed::Done(Value::Boolean(l > r)),
            _ => Computed::Fault,
        },
        (Value::Boolean(l), Value::Boolean(r)) => match op_code {
            OpCode::Equal => Computed::Done(Value::Boolean(l == r)),
            OpCode::NotEqual => Computed::Done(Value::Boolean(l != r)),
            OpCode::GreaterThan => Computed::Error(
                EvalErrorView::UnknownInfixOperator(Infix::Gt, left, right),
            ),
            _ => Computed::Fault,
        },
        _ => match infix_of(op_code) {
            Some(infix) => Computed::Error(EvalErrorView::TypeMismatch(infix, left, right)),
            None => Computed::Fault,
        },
    }
}

/// The negation of a value: only integers have one.
pub open spec fn negation(value: Value) -> Computed {
    match value {
        Value::Integer(number) => integer(-number),
        _ => Computed::Error(EvalErrorView::UnknownPrefixOperator(Prefix::Minus, value)),
    }
}

/// What an index finds: an array's item by position or a hash's value by key, and `null` where
/// there is none.
pub open spec fn indexed(object: Value, index: Value) -> Computed {
    match object {
        Value::Array(items) => match index {
            Value::Integer(i) => Computed::Done(
                if 0 <= i < items.len() {
                    items[i as int]
                } else {
                    Value::Null
                },
            ),
            _ => Computed::Error(EvalErrorView::UnknownIndexOperator(object, index)),
        },
        Value::Hash(pairs) => match index.key() {
            Some(key) => Computed::Done(
                if pairs.contains_key(key) {
                    pairs[key]
                } else {
                    Value::Null
                },
            ),
            None => Computed::Error(EvalErrorView::UnknownIndexOperator(object, index)),
        },
        _ => Computed::Error(EvalErrorView::UnknownIndexOperator(object, index)),
    }
}

/// The hash of the `size` pairs in `slots` from `from` on, a key before its value; the first key
/// that cannot be one is an error.
pub open spec fn hash_of_slots(slots: Seq<Value>, from: int, size: nat) -> Computed
    decreases size,
{
    if size == 0 {
        Computed::Done(Value::Hash(Map::empty()))
    } else {
        let at = from + 2 * (size - 1);
        match hash_of_slots(slots, from, (size - 1) as nat) {
            Computed::Done(Value::Hash(pairs)) => if !(0 <= at < slots.len()) {
                Computed::Fault
            } else {
                match slots[at].key() {
                    None => Computed::Error(EvalErrorView::UnsupportedHashKey(slots[at])),
                    Some(key) => if at + 1 < slots.len() {
                        Computed::Done(Value::Hash(pairs.insert(key, slots[at + 1])))
                    } else {
                        Computed::Fault
                    },
                }
            },
            other => other,
        }
    }
}

impl Machine {
    /// A machine at the start of a program.
    pub open spec fn start(
        instructions: Seq<u8>,
        constants: Seq<Value>,
        globals: Seq<Value>,
    ) -> Machine {
        Machine {
            constants,
            stack: Seq::new(STACK_SIZE as nat, |i: int| Value::Null),
            sp: 0,
            globals,
            frames: seq![
                FrameView {
                    function: FunctionView { instructions, num_locals: 0 },
                    ip: 0,
                    base_pointer: 0,
                },
            ],
        }
    }

    /// What holds of every state that a machine comes to.
    pub open spec fn wf(self) -> bool {
        &&& self.stack.len() == STACK_SIZE
        &&& self.sp <= usize::MAX
        &&& 1 <= self.frames.len() <= usize::MAX
        // Only the main program has its local bindings at the bottom of the stack: a function is
        // called from a stack that holds at least the function.
        &&& forall|i: int|
            0 <= i < self.frames.len() ==> {
                &&& (#[trigger] self.frames[i]).base_pointer <= STACK_SIZE
                &&& self.frames[i].base_pointer == 0 <==> i == 0
            }
        // Every call but the innermost stands at the call instruction of the next.
        &&& forall|i: int|
            0 <= i < self.frames.len() - 1 ==> (#[trigger] self.frames[i]).ip
                < self.frames[i].function.instructions.len()
    }

    /// The innermost call.
    pub open spec fn frame(self) -> FrameView {
        self.frames.last()
    }

    /// The instructions of the innermost call.
    pub open spec fn code(self) -> Seq<u8> {
        self.frame().function.instructions
    }

    /// The innermost call stands behind its last instruction.
    pub open spec fn at_end(self) -> bool {
        self.frame().ip >= self.code().len()
    }

    /// The machine with the innermost call at another instruction.
    pub open spec fn with_ip(self, ip: nat) -> Machine {
        Machine {
            frames: self.frames.update(
                self.frames.len() - 1,
                FrameView { ip, ..self.frame() },
            ),
            ..self
        }
    }

    /// The machine with the innermost call some bytes further on.
    pub open spec fn advance(self, count: nat) -> Machine {
        self.with_ip(self.frame().ip + count)
    }

    /// The machine with another stack pointer.
    pub open spec fn with_sp(self, sp: nat) -> Machine {
        Machine { sp, ..self }
    }

    /// Pushes a value, unless the stack is full.
    pub open spec fn push(self, value: Value) -> Outcome {
        if self.sp >= STACK_SIZE {
            Outcome::Failed(VmErrorView::StackOverflow, self)
        } else {
            Outcome::Running(
                Machine {
                    stack: self.stack.update(self.sp as int, value),
                    sp: self.sp + 1,
                    ..self
                },
            )
        }
    }

    /// The value on top of the stack, if there is one: none below an empty stack, none in the
    /// room for local bindings that a call took beyond the stack's end.
    pub open spec fn top(self) -> Option<Value> {
        if 1 <= self.sp <= STACK_SIZE {
            Some(self.stack[self.sp - 1])
        } else {
            None
        }
    }

    /// The machine without the top of its stack. The slot keeps its value. Below an empty stack
    /// the pointer wraps around, and stands beyond the stack's end.
    pub open spec fn drop_top(self) -> Machine {
        self.with_sp(
            if self.sp == 0 {
                usize::MAX as nat
            } else {
                (self.sp - 1) as nat
            },
        )
    }

    /// Fails for want of an element.
    pub open spec fn stack_empty(self) -> Outcome {
        Outcome::Failed(VmErrorView::StackEmpty, self)
    }

    /// Pushes what an operation computed, or fails with its error.
    pub open spec fn settle(self, computed: Computed) -> Outcome {
        match computed {
            Computed::Done(value) => self.push(value),
            Computed::Error(error) => Outcome::Failed(VmErrorView::Eval(error), self),
            Computed::Fault => Outcome::Fault,
        }
    }

    /// The operand of the current instruction.
    pub open spec fn operand(self, width: nat) -> nat {
        let at = self.frame().ip + 1;
        if width == 2 {
            crate::code::uint16_at(self.code(), at as int)
        } else if width == 1 {
            self.code()[at as int] as nat
        } else {
            0
        }
    }

    /// Pushes the constant at an index of the pool.
    pub open spec fn constant(self, index: nat) -> Outcome {
        if index < self.constants.len() {
            self.push(self.constants[index as int])
        } else {
            Outcome::Failed(
                VmErrorView::InvalidConstIndex(index, self.constants.len()),
                self,
            )
        }
    }

    /// Takes the top off the stack.
    pub open spec fn pop(self) -> Outcome {
        match self.top() {
            Some(_) => Outcome::Running(self.drop_top()),
            None => self.drop_top().stack_empty(),
        }
    }

    /// Replaces the two topmost values, the left one below the right one, by a result.
    pub open spec fn binary(self, op_code: OpCode) -> Outcome {
        let one = self.drop_top();
        let two = one.drop_top();
        match (self.top(), one.top()) {
            (None, _) => one.stack_empty(),
            (_, None) => two.stack_empty(),
            (Some(right), Some(left)) => two.settle(
                if is_arithmetic(op_code) {
                    arithmetic(op_code, left, right)
                } else {
                    comparison(op_code, left, right)
                },
            ),
        }
    }

    /// Replaces the topmost value by its negation.
    pub open spec fn minus(self) -> Outcome {
        match self.top() {
            Some(value) => self.drop_top().settle(negation(value)),
            None => self.drop_top().stack_empty(),
        }
    }

    /// Replaces the topmost value by whether it counts as false.
    pub open spec fn bang(self) -> Outcome {
        match self.top() {
            Some(value) => self.drop_top().push(Value::Boolean(!value.truthy())),
            None => self.drop_top().stack_empty(),
        }
    }

    /// Goes to an instruction.
    pub open spec fn jump(self, position: nat) -> Outcome {
        if position == 0 {
            Outcome::Fault
        } else {
            Outcome::Running(self.with_ip(position))
        }
    }

    /// Takes the condition off the stack and goes to an instruction if it counts as false.
    pub open spec fn jump_if_not_truthy(self, position: nat) -> Outcome {
        let behind = self.advance(2).drop_top();
        match self.top() {
            Some(value) => if value.truthy() {
                Outcome::Running(behind.advance(1))
            } else {
                behind.jump(position)
            },
            None => behind.stack_empty(),
        }
    }

    /// Pushes a global binding.
    pub open spec fn get_global(self, index: nat) -> Outcome {
        if index < self.globals.len() {
            self.push(self.globals[index as int])
        } else {
            Outcome::Fault
        }
    }

    /// Moves the topmost value into a global binding: one that exists, or the next new one.
    pub open spec fn set_global(self, index: nat) -> Outcome {
        match self.top() {
            None => self.drop_top().stack_empty(),
            Some(value) => if index == self.globals.len() {
                Outcome::Running(
                    Machine { globals: self.globals.push(value), ..self.drop_top() },
                )
            } else if index < self.globals.len() {
                Outcome::Running(
                    Machine {
                        globals: self.globals.update(index as int, value),
                        ..self.drop_top()
                    },
                )
            } else {
                Outcome::Fault
            },
        }
    }

    /// Replaces the topmost values by an array of them.
    pub open spec fn array(self, size: nat) -> Outcome {
        if size == 0 {
            self.push(Value::Array(Seq::empty()))
        } else if size <= self.sp <= STACK_SIZE {
            self.with_sp((self.sp - size) as nat).push(
                Value::Array(self.stack.subrange(self.sp - size, self.sp as int)),
            )
        } else {
            Outcome::Fault
        }
    }

    /// Replaces the topmost pairs of key and value by a hash of them.
    pub open spec fn hash(self, size: nat) -> Outcome {
        if 2 * size <= self.sp {
            match hash_of_slots(self.stack, self.sp - 2 * size, size) {
                Computed::Done(value) => self.with_sp((self.sp - 2 * size) as nat).push(value),
                other => self.settle(other),
            }
        } else {
            Outcome::Fault
        }
    }

    /// Replaces an object and the index above it by what the index finds.
    pub open spec fn index(self) -> Outcome {
        let one = self.drop_top();
        let two = one.drop_top();
        match (self.top(), one.top()) {
            (None, _) => one.stack_empty(),
            (_, None) => two.stack_empty(),
            (Some(index), Some(object)) => two.settle(indexed(object, index)),
        }
    }

    /// The machine with one more call.
    pub open spec fn enter(self, frame: FrameView) -> Machine {
        Machine { frames: self.frames.push(frame), ..self }
    }

    /// The machine without its innermost call.
    pub open spec fn exit(self) -> Machine {
        Machine { frames: self.frames.drop_last(), ..self }
    }

    /// Calls the function on top of the stack, which stays there; its local bindings come above.
    pub open spec fn call(self) -> Outcome {
        match self.top() {
            None => Outcome::Fault,
            Some(Value::CompiledFunction(function)) => if self.frames.len() < usize::MAX {
                Outcome::Running(
                    self.enter(FrameView { function, ip: 0, base_pointer: self.sp }).with_sp(
                        (self.sp + function.num_locals) as nat,
                    ),
                )
            } else {
                Outcome::Fault
            },
            Some(value) => Outcome::Failed(
                VmErrorView::Eval(EvalErrorView::NotFunction(value)),
                self,
            ),
        }
    }

    /// Leaves the innermost call: the result takes the place of the function on the stack.
    pub open spec fn leave(self, result: Value) -> Outcome {
        if self.frames.len() == 1 {
            Outcome::Fault
        } else {
            self.exit().with_sp((self.frame().base_pointer - 1) as nat).push(result)
        }
    }

    /// Returns the topmost value.
    pub open spec fn return_value(self) -> Outcome {
        match self.top() {
            Some(value) => self.drop_top().leave(value),
            None => self.drop_top().stack_empty(),
        }
    }

    /// The stack index of a local binding of the innermost call.
    pub open spec fn local(self, index: nat) -> int {
        (self.frame().base_pointer + index) as int
    }

    /// Moves the topmost value into a local binding.
    pub open spec fn set_local(self, index: nat) -> Outcome {
        match self.top() {
            None => self.drop_top().stack_empty(),
            Some(value) => if self.local(index) < STACK_SIZE {
                Outcome::Running(
                    Machine {
                        stack: self.stack.update(self.local(index), value),
                        ..self.drop_top()
                    },
                )
            } else {
                Outcome::Fault
            },
        }
    }

    /// Pushes a local binding.
    pub open spec fn get_local(self, index: nat) -> Outcome {
        if self.local(index) < STACK_SIZE {
            self.push(self.stack[self.local(index)])
        } else {
            Outcome::Fault
        }
    }

    /// What an operation does that neither jumps nor calls, once its operand is read.
    pub open spec fn execute(self, op_code: OpCode, operand: nat) -> Outcome {
        match op_code {
            OpCode::Constant => self.constant(operand),
            OpCode::Pop => self.pop(),
            OpCode::Add | OpCode::Sub | OpCode::Mul | OpCode::Div => self.binary(op_code),
            OpCode::True => self.push(Value::Boolean(true)),
            OpCode::False => self.push(Value::Boolean(false)),
            OpCode::Equal | OpCode::NotEqual | OpCode::GreaterThan => self.binary(op_code),
            OpCode::Minus => self.minus(),
            OpCode::Bang => self.bang(),
            OpCode::Null => self.push(Value::Null),
            OpCode::GetGlobal => self.get_global(operand),
            OpCode::SetGlobal => self.set_global(operand),
            OpCode::Array => self.array(operand),
            OpCode::Hash => self.hash(operand),
            OpCode::Index => self.index(),
            OpCode::ReturnValue => self.return_value(),
            OpCode::Return => self.leave(Value::Null),
            OpCode::GetLocal => self.get_local(operand),
            OpCode::SetLocal => self.set_local(operand),
            OpCode::JumpIfNotTruthy | OpCode::Jump | OpCode::Call => Outcome::Fault,
        }
    }

    /// What the current instruction does.
    pub open spec fn perform(self, op_code: OpCode) -> Outcome {
        let width = op_code.operand_width();
        let operand = self.operand(width);
        if self.frame().ip + width >= self.code().len() {
            Outcome::Fault
        } else {
            match op_code {
                OpCode::Call => self.call(),
                OpCode::Jump => self.jump(operand),
                OpCode::JumpIfNotTruthy => self.jump_if_not_truthy(operand),
                _ => self.advance(width).execute(op_code, operand).next(),
            }
        }
    }

    /// One step: the current instruction, or the end.
    pub open spec fn step(self) -> Outcome {
        if self.at_end() {
            Outcome::Halted(self)
        } else {
            let byte = self.code()[self.frame().ip as int];
            match OpCode::spec_from_byte(byte) {
                None => Outcome::Failed(VmErrorView::UnknownOpCode(byte), self),
                Some(op_code) => self.perform(op_code),
            }
        }
    }

    /// At most `fuel` steps.
    pub open spec fn run(self, fuel: nat) -> Outcome
        decreases fuel,
    {
        if fuel == 0 {
            Outcome::Running(self)
        } else {
            match self.step() {
                Outcome::Running(machine) => machine.run((fuel - 1) as nat),
                outcome => outcome,
            }
        }
    }

    /// The machine comes to an end, and to no fault before.
    pub open spec fn finishes(self) -> bool {
        exists|fuel: nat| (#[trigger] self.run(fuel)).finished()
    }
}

} // verus!
