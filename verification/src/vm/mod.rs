//! The virtual machine.

pub mod checked;
pub mod error;
pub mod frame;
pub mod instructions;
pub mod laws;
pub mod machine;

use std::rc::Rc;

use vstd::prelude::*;
use vstd::string::StringExecFns;

use crate::ast::{Infix, Prefix};
use crate::code::{read_uint16, Bytecode, Instructions, OpCode};
use crate::object::{CompiledFunction, EvalError, HashKey, HashPairs, Object, Value};
pub use crate::vm::error::VmError;
pub use crate::vm::frame::Frame;
use crate::vm::machine::{Computed, Machine, Outcome};

verus! {

/// The number of stack slots.
pub const STACK_SIZE: usize = 2048;

/// The number of global bindings that there is room for at the start.
pub const GLOBAL_SIZE: usize = 65536;

/// The number of calls that there is room for at the start.
pub const MAX_FRAMES: usize = 1024;

/// The value of what has none.
pub const NULL: Object = Object::Null;

/// The machine that runs bytecode.
#[derive(Debug)]
pub struct Vm {
    /// The constant pool.
    pub constants: Vec<Rc<Object>>,
    stack: Vec<Rc<Object>>,
    /// Always points to the next free slot: the top of the stack is `stack[sp - 1]`.
    sp: usize,
    /// The global bindings. Another machine can go on with them.
    pub globals: Vec<Rc<Object>>,
    frames: Vec<Frame>,
    frames_index: usize,
}

/// The values of a list of shared objects.
pub open spec fn values_of(objects: Seq<Rc<Object>>) -> Seq<Value> {
    objects.map_values(|object: Rc<Object>| object@)
}

/// What has come of a machine that did something with this result and is now in this state.
pub open spec fn outcome_of(result: Result<(), VmError>, machine: Machine) -> Outcome {
    match result {
        Ok(_) => Outcome::Running(machine),
        Err(error) => Outcome::Failed(error@, machine),
    }
}

/// What has come of a machine whose run ended with this result in this state.
pub open spec fn finish_of(result: Result<(), VmError>, machine: Machine) -> Outcome {
    match result {
        Ok(_) => Outcome::Halted(machine),
        Err(error) => Outcome::Failed(error@, machine),
    }
}

/// No global bindings, with room for many.
pub fn new_globals() -> (globals: Vec<Rc<Object>>)
    ensures
        globals@ == Seq::<Rc<Object>>::empty(),
{
    Vec::with_capacity(GLOBAL_SIZE)
}

/// The frame of the main program.
pub(crate) fn new_frames(instructions: Instructions) -> (frames: Vec<Frame>)
    ensures
        frames@.len() == 1,
        frames@[0]@ == Machine::start(instructions@, Seq::empty(), Seq::empty()).frame(),
{
    let main_frame = Frame::new(CompiledFunction { instructions, num_locals: 0 }, 0);
    let mut frames = Vec::with_capacity(MAX_FRAMES);
    frames.push(main_frame);
    frames
}

impl View for Vm {
    type V = Machine;

    closed spec fn view(&self) -> Machine {
        Machine {
            constants: values_of(self.constants@),
            stack: values_of(self.stack@),
            sp: self.sp as nat,
            globals: values_of(self.globals@),
            frames: self.frames@.map_values(|frame: Frame| frame@),
        }
    }
}

impl Vm {
    /// The objects in the stack area.
    pub closed spec fn slots(self) -> Seq<Rc<Object>> {
        self.stack@
    }

    /// The objects in the constant pool.
    pub closed spec fn pool(self) -> Seq<Rc<Object>> {
        self.constants@
    }

    /// The objects in the global bindings.
    pub closed spec fn bindings(self) -> Seq<Rc<Object>> {
        self.globals@
    }

    /// The frames of the active calls.
    pub closed spec fn calls(self) -> Seq<Frame> {
        self.frames@
    }

    /// The index of the frames counts them.
    pub closed spec fn indexed(self) -> bool {
        self.frames_index == self.frames@.len()
    }

    /// What holds of every machine between calls of its methods.
    pub closed spec fn wf(self) -> bool {
        &&& self.indexed()
        &&& self@.wf()
    }

    /// The invariant of the machine: its state keeps the invariant of the mathematical one, and
    /// its frames are counted.
    pub proof fn lemma_wf(self)
        ensures
            self.wf() <==> self.indexed() && self@.wf(),
    {
    }

    /// The state holds the values of the objects and the views of the frames.
    pub proof fn lemma_view(self)
        ensures
            self@.constants == values_of(self.pool()),
            self@.globals == values_of(self.bindings()),
            self@.stack == values_of(self.slots()),
            self@.frames == self.calls().map_values(|frame: Frame| frame@),
    {
    }

    /// The instruction pointer leaves room for a move to the next instruction where it is inside
    /// the instructions or came from a jump.
    proof fn lemma_ip_below_max(self)
        requires
            self.wf(),
            self@.frame().ip < self@.code().len() || self@.frame().ip <= u16::MAX,
        ensures
            self@.frame().ip < usize::MAX,
    {
        let frame = self.frames@[self.frames_index - 1];
        assert(frame.function.instructions.len() == frame.function.instructions@.len());
    }

    /// A machine at the start of a program, without global bindings.
    pub fn new(bytecode: Bytecode) -> (vm: Self)
        ensures
            vm.wf(),
            vm@ == Machine::start(
                bytecode.instructions@,
                values_of(bytecode.constants@),
                Seq::empty(),
            ),
            vm.pool() == bytecode.constants@,
            vm.bindings() == Seq::<Rc<Object>>::empty(),
    {
        let vm = Vm::new_with_globals_store(bytecode, new_globals());
        assert(values_of(Seq::<Rc<Object>>::empty()) =~= Seq::empty());
        vm
    }

    /// A machine at the start of a program that goes on with the global bindings of another.
    pub fn new_with_globals_store(bytecode: Bytecode, globals: Vec<Rc<Object>>) -> (vm: Self)
        ensures
            vm.wf(),
            vm@ == Machine::start(
                bytecode.instructions@,
                values_of(bytecode.constants@),
                values_of(globals@),
            ),
            vm.pool() == bytecode.constants@,
            vm.bindings() == globals@,
    {
        let mut stack: Vec<Rc<Object>> = Vec::with_capacity(STACK_SIZE);
        // Pre-fill the stack so that values can be put at the stack pointer.
        for i in 0..STACK_SIZE
            invariant
                stack@.len() == i,
                forall|j: int| 0 <= j < i ==> (#[trigger] stack@[j])@ == Value::Null,
        {
            stack.push(Rc::new(NULL));
        }
        let vm = Vm {
            constants: bytecode.constants,
            stack,
            sp: 0,
            globals,
            frames: new_frames(bytecode.instructions),
            frames_index: 1,
        };
        proof {
            let start = Machine::start(
                bytecode.instructions@,
                values_of(bytecode.constants@),
                values_of(globals@),
            );
            assert(vm@.stack =~= start.stack);
            assert(vm@.frames =~= start.frames);
        }
        vm
    }

    /// Runs the program to its end or to the first error, which leaves the machine where it came
    /// up.
    ///
    /// The program must come to one of the two: it must not run forever, and must not come to an
    /// instruction that has no result (see [`Outcome::Fault`]). [`Vm::run_within`] asks for
    /// neither.
    pub fn run(&mut self) -> (result: Result<(), VmError>)
        requires
            old(self).wf(),
            old(self)@.finishes(),
        ensures
            final(self).wf(),
            final(self).pool() == old(self).pool(),
            forall|fuel: nat|
                (#[trigger] old(self)@.run(fuel)).finished() ==> old(self)@.run(fuel)
                    == finish_of(result, final(self)@),
    {
        let ghost start = self@;
        let ghost end = choose|fuel: nat| (#[trigger] start.run(fuel)).finished();
        let ghost mut left: nat = end;
        proof {
            assert forall|fuel: nat| (#[trigger] start.run(fuel)).finished() implies start.run(fuel)
                == start.run(end) by {
                laws::lemma_run_agrees(start, fuel, end);
            }
        }
        while !self.at_end()
            invariant
                self.wf(),
                self.pool() == old(self).pool(),
                start == old(self)@,
                forall|fuel: nat|
                    (#[trigger] start.run(fuel)).finished() ==> start.run(fuel) == start.run(end),
                start.run(end).finished(),
                self@.run(left) == start.run(end),
            decreases left,
        {
            self.step()?;
            proof {
                left = (left - 1) as nat;
            }
        }
        Ok(())
    }

    /// Whether the innermost call stands behind its last instruction.
    fn at_end(&self) -> (at_end: bool)
        requires
            self.wf(),
        ensures
            at_end == self@.at_end(),
    {
        let frame = &self.frames[self.frames_index - 1];
        frame.ip >= frame.instructions().len()
    }

    /// Performs the current instruction.
    fn step(&mut self) -> (result: Result<(), VmError>)
        requires
            old(self).wf(),
            !old(self)@.at_end(),
            old(self)@.step() !is Fault,
        ensures
            final(self).wf(),
            final(self).pool() == old(self).pool(),
            outcome_of(result, final(self)@) == old(self)@.step(),
    {
        let frame = &self.frames[self.frames_index - 1];
        let op_code_byte: u8 = frame.instructions()[frame.ip];
        match OpCode::from_byte(op_code_byte) {
            None => {
                return Err(VmError::UnknownOpCode(op_code_byte));
            },
            Some(OpCode::Call) => {
                // A call goes on with the first instruction of the function.
                return self.execute_call();
            },
            Some(OpCode::JumpIfNotTruthy) => {
                let pos: usize = self.read_wide_operand();
                let condition = self.pop()?;
                if !condition.is_truthy() {
                    // `pos - 1` because `ip` will be incremented later.
                    self.current_frame().ip = pos - 1;
                }
            },
            Some(OpCode::Jump) => {
                let pos: usize = self.read_wide_operand();
                // `pos - 1` because `ip` will be incremented later.
                self.current_frame().ip = pos - 1;
            },
            Some(op_code) => {
                let operand: usize = match op_code {
                    OpCode::Constant
                    | OpCode::GetGlobal
                    | OpCode::SetGlobal
                    | OpCode::Array
                    | OpCode::Hash => self.read_wide_operand(),
                    OpCode::GetLocal | OpCode::SetLocal => self.read_narrow_operand(),
                    _ => 0,
                };
                assert(self@ == old(self)@.advance(op_code.operand_width()));
                self.execute(op_code, operand)?;
            },
        }
        proof {
            self.lemma_ip_below_max();
        }
        self.current_frame().ip += 1;
        Ok(())
    }

    /// Reads the two-byte operand of the current instruction and moves on to its last byte.
    fn read_wide_operand(&mut self) -> (operand: usize)
        requires
            old(self).wf(),
            old(self)@.frame().ip + 2 < old(self)@.code().len(),
        ensures
            final(self).wf(),
            final(self).pool() == old(self).pool(),
            operand == old(self)@.operand(2),
            operand <= u16::MAX,
            final(self)@ == old(self)@.advance(2),
    {
        let frame = &self.frames[self.frames_index - 1];
        let ip: usize = frame.ip;
        let ins = frame.instructions();
        assert(ins.len() == ins@.len());
        let operand: usize = read_uint16(ins, ip + 1) as usize;
        self.current_frame().ip = ip + 2;
        operand
    }

    /// Reads the one-byte operand of the current instruction and moves on to it.
    fn read_narrow_operand(&mut self) -> (operand: usize)
        requires
            old(self).wf(),
            old(self)@.frame().ip + 1 < old(self)@.code().len(),
        ensures
            final(self).wf(),
            final(self).pool() == old(self).pool(),
            operand == old(self)@.operand(1),
            operand <= u8::MAX,
            final(self)@ == old(self)@.advance(1),
    {
        let frame = &self.frames[self.frames_index - 1];
        let ip: usize = frame.ip;
        let ins = frame.instructions();
        assert(ins.len() == ins@.len());
        let operand: usize = ins[ip + 1] as usize;
        self.current_frame().ip = ip + 1;
        operand
    }

    /// Performs an operation that neither jumps nor calls, once its operand is read.
    fn execute(&mut self, op_code: OpCode, operand: usize) -> (result: Result<(), VmError>)
        requires
            old(self).wf(),
            operand <= u16::MAX,
            old(self)@.execute(op_code, operand as nat) !is Fault,
        ensures
            final(self).wf(),
            final(self).pool() == old(self).pool(),
            outcome_of(result, final(self)@) == old(self)@.execute(op_code, operand as nat),
    {
        match op_code {
            OpCode::Constant => self.execute_constant(operand),
            OpCode::Pop => {
                self.pop()?;
                Ok(())
            },
            OpCode::Add | OpCode::Sub | OpCode::Mul | OpCode::Div => {
                self.execute_binary_operation(op_code)
            },
            OpCode::True => self.push(Rc::new(Object::Boolean(true))),
            OpCode::False => self.push(Rc::new(Object::Boolean(false))),
            OpCode::Equal | OpCode::NotEqual | OpCode::GreaterThan => {
                self.execute_comparison(op_code)
            },
            OpCode::Minus => self.execute_minus(),
            OpCode::Bang => {
                let right = self.pop()?;
                self.push(Rc::new(Object::Boolean(!right.is_truthy())))
            },
            OpCode::Null => self.push(Rc::new(NULL)),
            OpCode::GetGlobal => {
                let global = Rc::clone(&self.globals[operand]);
                self.push(global)
            },
            OpCode::SetGlobal => self.execute_set_global(operand),
            OpCode::Array => self.execute_array(operand),
            OpCode::Hash => self.execute_hash(operand),
            OpCode::Index => self.execute_index(),
            OpCode::ReturnValue => {
                let returned = self.pop()?;
                self.execute_return(returned)
            },
            OpCode::Return => self.execute_return(Rc::new(NULL)),
            OpCode::SetLocal => self.execute_set_local(operand),
            OpCode::GetLocal => {
                let base_pointer: usize = self.frames[self.frames_index - 1].base_pointer;
                let local = Rc::clone(&self.stack[base_pointer + operand]);
                self.push(local)
            },
            // Jumps and calls move the instruction pointer themselves: see `step`.
            OpCode::JumpIfNotTruthy | OpCode::Jump | OpCode::Call => Ok(()),
        }
    }

    /// Pushes the constant at an index of the pool.
    pub(crate) fn execute_constant(&mut self, const_index: usize) -> (result: Result<(), VmError>)
        requires
            old(self).wf(),
        ensures
            final(self).wf(),
            final(self).pool() == old(self).pool(),
            outcome_of(result, final(self)@) == old(self)@.constant(const_index as nat),
            final(self).bindings() == old(self).bindings(),
            final(self).slots() == if result is Ok {
                old(self).slots().update(
                    old(self)@.sp as int,
                    old(self).pool()[const_index as int],
                )
            } else {
                old(self).slots()
            },
    {
        let len: usize = self.constants.len();
        if const_index < len {
            let constant = Rc::clone(&self.constants[const_index]);
            self.push(constant)
        } else {
            Err(VmError::InvalidConstIndex(const_index, len))
        }
    }

    /// Replaces the topmost value by its negation.
    pub(crate) fn execute_minus(&mut self) -> (result: Result<(), VmError>)
        requires
            old(self).wf(),
            old(self)@.minus() !is Fault,
        ensures
            final(self).wf(),
            final(self).pool() == old(self).pool(),
            outcome_of(result, final(self)@) == old(self)@.minus(),
    {
        let right = self.pop()?;
        match &*right {
            Object::Integer(value) => self.push(Rc::new(Object::Integer(-*value))),
            obj => Err(
                VmError::Eval(EvalError::UnknownPrefixOperator(Prefix::Minus, obj.clone())),
            ),
        }
    }

    /// Moves the topmost value into a global binding.
    pub(crate) fn execute_set_global(&mut self, global_index: usize) -> (result: Result<(), VmError>)
        requires
            old(self).wf(),
            old(self)@.set_global(global_index as nat) !is Fault,
        ensures
            final(self).wf(),
            final(self).pool() == old(self).pool(),
            outcome_of(result, final(self)@) == old(self)@.set_global(global_index as nat),
            final(self).slots() == old(self).slots(),
            final(self).bindings() == ({
                let popped = old(self).slots()[old(self)@.sp - 1];
                if result is Err {
                    old(self).bindings()
                } else if global_index == old(self).bindings().len() {
                    old(self).bindings().push(popped)
                } else {
                    old(self).bindings().update(global_index as int, popped)
                }
            }),
    {
        let popped = self.pop()?;
        if global_index == self.globals.len() {
            self.globals.push(popped);
        } else {
            self.globals[global_index] = popped;
        }
        Ok(())
    }

    /// Moves the topmost value into a local binding.
    pub(crate) fn execute_set_local(&mut self, local_index: usize) -> (result: Result<(), VmError>)
        requires
            old(self).wf(),
            local_index <= u16::MAX,
            old(self)@.set_local(local_index as nat) !is Fault,
        ensures
            final(self).wf(),
            final(self).pool() == old(self).pool(),
            outcome_of(result, final(self)@) == old(self)@.set_local(local_index as nat),
            final(self).bindings() == old(self).bindings(),
            final(self).slots() == if result is Ok {
                old(self).slots().update(
                    old(self)@.local(local_index as nat),
                    old(self).slots()[old(self)@.sp - 1],
                )
            } else {
                old(self).slots()
            },
    {
        let popped = self.pop()?;
        let base_pointer: usize = self.frames[self.frames_index - 1].base_pointer;
        self.stack[base_pointer + local_index] = popped;
        Ok(())
    }

    /// Hands the global bindings on, for another machine to go on with.
    pub fn into_globals(self) -> (globals: Vec<Rc<Object>>)
        ensures
            globals@ == self.bindings(),
            values_of(globals@) == self@.globals,
    {
        self.globals
    }

    /// Hands the constant pool on.
    pub fn into_constants(self) -> (constants: Vec<Rc<Object>>)
        ensures
            constants@ == self.pool(),
            values_of(constants@) == self@.constants,
    {
        self.constants
    }

    /// The element that was popped last: the one just above the stack.
    pub fn last_popped_stack_elem(&self) -> (object: Option<Rc<Object>>)
        ensures
            match object {
                Some(elem) => {
                    &&& self@.sp < self@.stack.len()
                    &&& elem == self.slots()[self@.sp as int]
                    &&& elem@ == self@.stack[self@.sp as int]
                },
                None => self@.sp >= self@.stack.len(),
            },
    {
        if self.sp < self.stack.len() {
            Some(Rc::clone(&self.stack[self.sp]))
        } else {
            None
        }
    }

    /// Replaces the topmost `size` values by an array of them.
    pub(crate) fn execute_array(&mut self, size: usize) -> (result: Result<(), VmError>)
        requires
            old(self).wf(),
            old(self)@.array(size as nat) !is Fault,
        ensures
            final(self).wf(),
            final(self).pool() == old(self).pool(),
            outcome_of(result, final(self)@) == old(self)@.array(size as nat),
    {
        let mut items: Vec<Object> = Vec::with_capacity(size);
        for i in 0..size
            invariant
                self.wf(),
                size == 0 || size <= self.sp <= STACK_SIZE,
                items@.len() == i,
                forall|j: int|
                    0 <= j < i ==> (#[trigger] items@[j])@ == self@.stack[self.sp - size + j],
        {
            items.push((*self.stack[self.sp - size + i]).clone());
        }
        self.sp -= size;
        let array = Object::Array(items);
        proof {
            reveal_with_fuel(<Object as View>::view, 2);
            if size > 0 {
                assert(array@->Array_0 =~= old(self)@.stack.subrange(
                    old(self)@.sp - size,
                    old(self)@.sp as int,
                ));
            } else {
                assert(array@->Array_0 =~= Seq::empty());
            }
        }
        self.push(Rc::new(array))
    }

    /// Replaces the topmost `size` pairs of key and value by a hash of them.
    pub(crate) fn execute_hash(&mut self, size: usize) -> (result: Result<(), VmError>)
        requires
            old(self).wf(),
            size <= u16::MAX,
            old(self)@.hash(size as nat) !is Fault,
        ensures
            final(self).wf(),
            final(self).pool() == old(self).pool(),
            outcome_of(result, final(self)@) == old(self)@.hash(size as nat),
    {
        let mut items = HashPairs::new();
        let from: usize = self.sp - size * 2;
        for i in 0..size
            invariant
                *self == *old(self),
                self.wf(),
                size <= u16::MAX,
                from == self.sp - size * 2,
                self@.hash(size as nat) !is Fault,
                machine::hash_of_slots(self@.stack, from as int, i as nat) == Computed::Done(
                    Value::Hash(items@),
                ),
        {
            proof {
                if machine::hash_of_slots(self@.stack, from as int, (i + 1) as nat) !is Done {
                    lemma_hash_of_slots(self@.stack, from as int, (i + 1) as nat, size as nat);
                }
            }
            let index: usize = from + i * 2;
            let key = match HashKey::from_object(&self.stack[index]) {
                Ok(key) => key,
                Err(error) => {
                    return Err(VmError::Eval(error));
                },
            };
            let value = (*self.stack[index + 1]).clone();
            items.insert(key, value);
        }
        self.sp = from;
        self.push(Rc::new(Object::Hash(items)))
    }

    /// Replaces an object and the index above it by what the index finds.
    pub(crate) fn execute_index(&mut self) -> (result: Result<(), VmError>)
        requires
            old(self).wf(),
        ensures
            final(self).wf(),
            final(self).pool() == old(self).pool(),
            outcome_of(result, final(self)@) == old(self)@.index(),
    {
        let index = self.pop()?;
        let obj = self.pop()?;
        match &*obj {
            Object::Array(values) => {
                if let Object::Integer(i) = &*index {
                    let item = if 0 <= *i && (*i as u64) < values.len() as u64 {
                        values[*i as usize].clone()
                    } else {
                        Object::Null
                    };
                    reveal_with_fuel(<Object as View>::view, 2);
                    self.push(Rc::new(item))
                } else {
                    Err(
                        VmError::Eval(
                            EvalError::UnknownIndexOperator((*obj).clone(), (*index).clone()),
                        ),
                    )
                }
            },
            Object::Hash(hash) => match HashKey::from_object(&index) {
                Ok(key) => {
                    let value = match hash.get(&key) {
                        Some(value) => value.clone(),
                        None => Object::Null,
                    };
                    self.push(Rc::new(value))
                },
                Err(_) => Err(
                    VmError::Eval(
                        EvalError::UnknownIndexOperator((*obj).clone(), (*index).clone()),
                    ),
                ),
            },
            _ => Err(
                VmError::Eval(EvalError::UnknownIndexOperator((*obj).clone(), (*index).clone())),
            ),
        }
    }

    /// Calls the function on top of the stack.
    pub(crate) fn execute_call(&mut self) -> (result: Result<(), VmError>)
        requires
            old(self).wf(),
            !old(self)@.at_end(),
            old(self)@.call() !is Fault,
        ensures
            final(self).wf(),
            final(self).pool() == old(self).pool(),
            outcome_of(result, final(self)@) == old(self)@.call(),
    {
        match (*self.stack[self.sp - 1]).clone() {
            Object::CompiledFunction(func) => {
                let num_locals = func.num_locals;
                // Keep the stack pointer to come back to after the call.
                self.push_frame(Frame::new(func, self.sp));
                // Reserve space for local bindings.
                self.sp += num_locals as usize;
                Ok(())
            },
            obj => Err(VmError::Eval(EvalError::NotFunction(obj))),
        }
    }

    /// Leaves the innermost call with a result.
    pub(crate) fn execute_return(&mut self, returned: Rc<Object>) -> (result: Result<(), VmError>)
        requires
            old(self).wf(),
            old(self)@.leave(returned@) !is Fault,
        ensures
            final(self).wf(),
            final(self).pool() == old(self).pool(),
            outcome_of(result, final(self)@) == old(self)@.leave(returned@),
            final(self).bindings() == old(self).bindings(),
            result is Ok,
            final(self).slots() == old(self).slots().update(
                old(self)@.frame().base_pointer - 1,
                returned,
            ),
    {
        let base_pointer = self.pop_frame().base_pointer;
        // Remove local bindings and the executed function.
        self.sp = base_pointer - 1;
        self.push(returned)
    }

    /// Pushes an object, unless the stack is full.
    pub(crate) fn push(&mut self, obj: Rc<Object>) -> (result: Result<(), VmError>)
        requires
            old(self).wf(),
        ensures
            final(self).wf(),
            final(self).pool() == old(self).pool(),
            outcome_of(result, final(self)@) == old(self)@.push(obj@),
            final(self).calls() == old(self).calls(),
            final(self).bindings() == old(self).bindings(),
            final(self).slots() == if result is Ok {
                old(self).slots().update(old(self)@.sp as int, obj)
            } else {
                old(self).slots()
            },
    {
        if self.sp >= STACK_SIZE {
            return Err(VmError::StackOverflow);
        }
        self.stack[self.sp] = obj;
        self.sp += 1;
        assert(self@.stack =~= old(self)@.stack.update(old(self)@.sp as int, obj@));
        Ok(())
    }

    /// Takes the top off the stack. With no element there, the stack pointer is left beyond the
    /// stack's end, so that no element counts as popped last.
    pub(crate) fn pop(&mut self) -> (result: Result<Rc<Object>, VmError>)
        requires
            old(self).wf(),
        ensures
            final(self).wf(),
            final(self).pool() == old(self).pool(),
            final(self)@ == old(self)@.drop_top(),
            final(self).calls() == old(self).calls(),
            final(self).bindings() == old(self).bindings(),
            final(self).slots() == old(self).slots(),
            match result {
                Ok(obj) => old(self)@.top() == Some(obj@) && obj == old(self).slots()[old(self)@.sp
                    - 1],
                Err(error) => old(self)@.top() is None && error == VmError::StackEmpty,
            },
    {
        self.sp = self.sp.wrapping_sub(1);
        if self.sp < self.stack.len() {
            Ok(Rc::clone(&self.stack[self.sp]))
        } else {
            Err(VmError::StackEmpty)
        }
    }

    /// The innermost call.
    pub(crate) fn current_frame(&mut self) -> (frame: &mut Frame)
        requires
            old(self).indexed(),
            old(self)@.frames.len() >= 1,
        ensures
            *frame == old(self).calls().last(),
            frame@ == old(self)@.frame(),
            final(self).indexed(),
            final(self).pool() == old(self).pool(),
            final(self).bindings() == old(self).bindings(),
            final(self).calls() == old(self).calls().update(
                old(self).calls().len() - 1,
                *final(frame),
            ),
            final(self).slots() == old(self).slots(),
            final(self)@ == (Machine {
                frames: old(self)@.frames.update(
                    old(self)@.frames.len() - 1,
                    final(frame)@,
                ),
                ..old(self)@
            }),
    {
        assert(self.frames@.len() == self@.frames.len());
        &mut self.frames[self.frames_index - 1]
    }

    /// Enters a call.
    pub(crate) fn push_frame(&mut self, frame: Frame)
        requires
            old(self).indexed(),
            old(self)@.frames.len() < usize::MAX,
        ensures
            final(self).indexed(),
            final(self).pool() == old(self).pool(),
            final(self).bindings() == old(self).bindings(),
            final(self).calls() == old(self).calls().push(frame),
            final(self).slots() == old(self).slots(),
            final(self)@ == old(self)@.enter(frame@),
    {
        assert(self.frames@.len() == self@.frames.len());
        self.frames.push(frame);
        self.frames_index += 1;
    }

    /// Leaves the innermost call.
    pub(crate) fn pop_frame(&mut self) -> (frame: Frame)
        requires
            old(self).indexed(),
            old(self)@.frames.len() >= 1,
        ensures
            frame == old(self).calls().last(),
            frame@ == old(self)@.frame(),
            final(self).indexed(),
            final(self).pool() == old(self).pool(),
            final(self).bindings() == old(self).bindings(),
            final(self).calls() == old(self).calls().drop_last(),
            final(self).slots() == old(self).slots(),
            final(self)@ == old(self)@.exit(),
    {
        assert(self.frames@.len() == self@.frames.len());
        self.frames_index -= 1;
        self.frames.pop().unwrap()
    }

    /// Pushes what an arithmetic op code makes of two integers.
    pub(crate) fn execute_integer_binary_operation(
        &mut self,
        op_code: OpCode,
        left: &i64,
        right: &i64,
    ) -> (result: Result<(), VmError>)
        requires
            old(self).wf(),
            machine::integer_arithmetic(op_code, *left as int, *right as int) !is Fault,
        ensures
            final(self).wf(),
            final(self).pool() == old(self).pool(),
            outcome_of(result, final(self)@) == old(self)@.settle(
                machine::integer_arithmetic(op_code, *left as int, *right as int),
            ),
    {
        let result: i64 = match op_code {
            OpCode::Add => *left + *right,
            OpCode::Sub => *left - *right,
            OpCode::Mul => *left * *right,
            _ => {
                proof {
                    lemma_quotient(*left as int, *right as int);
                }
                *left / *right
            },
        };
        self.push(Rc::new(Object::Integer(result)))
    }

    /// Pushes what an arithmetic op code makes of two strings.
    pub(crate) fn execute_string_binary_operation(
        &mut self,
        op_code: OpCode,
        left: &str,
        right: &str,
    ) -> (result: Result<(), VmError>)
        requires
            old(self).wf(),
            machine::is_arithmetic(op_code),
        ensures
            final(self).wf(),
            final(self).pool() == old(self).pool(),
            outcome_of(result, final(self)@) == old(self)@.settle(
                machine::string_arithmetic(op_code, left@, right@),
            ),
    {
        match op_code {
            OpCode::Add => {
                let result = left.to_string().concat(right);
                self.push(Rc::new(Object::String(result)))
            },
            _ => {
                Err(
                    VmError::Eval(
                        EvalError::UnknownInfixOperator(
                            infix_from_op_code(op_code).unwrap(),
                            Object::String(left.to_string()),
                            Object::String(right.to_string()),
                        ),
                    ),
                )
            },
        }
    }

    /// Replaces the two topmost values by what an arithmetic op code makes of them.
    pub(crate) fn execute_binary_operation(&mut self, op_code: OpCode) -> (result: Result<(), VmError>)
        requires
            old(self).wf(),
            machine::is_arithmetic(op_code),
            old(self)@.binary(op_code) !is Fault,
        ensures
            final(self).wf(),
            final(self).pool() == old(self).pool(),
            outcome_of(result, final(self)@) == old(self)@.binary(op_code),
    {
        let right = self.pop()?;
        let left = self.pop()?;
        match (&*left, &*right) {
            (Object::Integer(l), Object::Integer(r)) => {
                self.execute_integer_binary_operation(op_code, l, r)
            },
            (Object::String(l), Object::String(r)) => {
                self.execute_string_binary_operation(op_code, l, r)
            },
            (l, r) => {
                let infix = infix_from_op_code(op_code).unwrap();
                Err(VmError::Eval(EvalError::TypeMismatch(infix, l.clone(), r.clone())))
            },
        }
    }

    /// Replaces the two topmost values by what a comparison makes of them.
    pub(crate) fn execute_comparison(&mut self, op_code: OpCode) -> (result: Result<(), VmError>)
        requires
            old(self).wf(),
            machine::is_comparison(op_code),
        ensures
            final(self).wf(),
            final(self).pool() == old(self).pool(),
            outcome_of(result, final(self)@) == old(self)@.binary(op_code),
    {
        let right = self.pop()?;
        let left = self.pop()?;
        match (&*left, &*right) {
            (Object::Integer(l), Object::Integer(r)) => match op_code {
                OpCode::Equal => self.push(Rc::new(Object::Boolean(*l == *r))),
                OpCode::NotEqual => self.push(Rc::new(Object::Boolean(*l != *r))),
                _ => self.push(Rc::new(Object::Boolean(*l > *r))),
            },
            (Object::Boolean(l), Object::Boolean(r)) => match op_code {
                OpCode::Equal => self.push(Rc::new(Object::Boolean(*l == *r))),
                OpCode::NotEqual => self.push(Rc::new(Object::Boolean(*l != *r))),
                _ => Err(
                    VmError::Eval(
                        EvalError::UnknownInfixOperator(
                            Infix::Gt,
                            Object::Boolean(*l),
                            Object::Boolean(*r),
                        ),
                    ),
                ),
            },
            (l, r) => {
                let infix = infix_from_op_code(op_code).unwrap();
                Err(VmError::Eval(EvalError::TypeMismatch(infix, l.clone(), r.clone())))
            },
        }
    }
}

/// What keeps a hash of the first pairs from being made keeps a hash of more pairs from being
/// made.
proof fn lemma_hash_of_slots(slots: Seq<Value>, from: int, fewer: nat, more: nat)
    requires
        fewer <= more,
        machine::hash_of_slots(slots, from, fewer) !is Done,
    ensures
        machine::hash_of_slots(slots, from, more) == machine::hash_of_slots(slots, from, fewer),
    decreases more,
{
    if fewer < more {
        lemma_hash_of_slots(slots, from, fewer, (more - 1) as nat);
    }
}

/// The quotient rounded toward zero, in terms of the one with a nonnegative remainder.
proof fn lemma_quotient(left: int, right: int)
    requires
        right != 0,
    ensures
        machine::quotient(left, right) == if left >= 0 {
            left / right
        } else {
            -((-left) / right)
        },
{
    let a = if left >= 0 { left } else { -left };
    let b = if right > 0 { right } else { -right };
    assert(a / (-b) == -(a / b)) by (nonlinear_arith)
        requires
            a >= 0,
            b > 0,
    ;
}

/// The infix operator that an op code stands for, if any.
pub(crate) fn infix_from_op_code(op_code: OpCode) -> (infix: Option<Infix>)
    ensures
        infix == machine::infix_of(op_code),
{
    match op_code {
        OpCode::Add => Some(Infix::Plus),
        OpCode::Sub => Some(Infix::Minus),
        OpCode::Mul => Some(Infix::Asterisk),
        OpCode::Div => Some(Infix::Slash),
        OpCode::Equal => Some(Infix::Eq),
        OpCode::NotEqual => Some(Infix::NotEq),
        OpCode::GreaterThan => Some(Infix::Gt),
        _ => None,
    }
}

} // verus!
