//! Running programs of which nothing is known.

use vstd::prelude::*;

use crate::code::{read_uint16, OpCode};
use crate::object::{HashKey, Object};
use crate::vm::machine::{Machine, Outcome};
use crate::vm::{Vm, VmError, STACK_SIZE};

verus! {

/// How a bounded run ended.
#[derive(Debug)]
pub enum Ending {
    /// The run is over, in order or with an error.
    Finished(Result<(), VmError>),
    /// The steps that were allowed are used up.
    OutOfSteps,
    /// The current instruction has no result, and was not performed.
    Faulted,
}

impl Vm {
    /// Runs the program for at most `limit` steps, and stops before an instruction that has no
    /// result. Unlike [`Vm::run`] it can be called on every program.
    pub fn run_within(&mut self, limit: u64) -> (ending: Ending)
        requires
            old(self).wf(),
        ensures
            final(self).wf(),
            final(self).pool() == old(self).pool(),
            match ending {
                Ending::Finished(result) => old(self)@.run(limit as nat) == crate::vm::finish_of(
                    result,
                    final(self)@,
                ),
                Ending::OutOfSteps => old(self)@.run(limit as nat) == Outcome::Running(
                    final(self)@,
                ),
                Ending::Faulted => {
                    &&& old(self)@.run(limit as nat) == Outcome::Fault
                    &&& final(self)@.step() == Outcome::Fault
                    &&& exists|steps: nat|
                        steps < limit && #[trigger] old(self)@.run(steps) == Outcome::Running(
                            final(self)@,
                        )
                },
            },
    {
        let ghost start = self@;
        let mut left: u64 = limit;
        while left > 0
            invariant
                self.wf(),
                self.pool() == old(self).pool(),
                start == old(self)@,
                left <= limit,
                start.run((limit - left) as nat) == Outcome::Running(self@),
                self@.run(left as nat) == start.run(limit as nat),
            decreases left,
        {
            proof {
                crate::vm::laws::lemma_run_continues(start, (limit - left) as nat, 1);
                reveal_with_fuel(Machine::run, 2);
            }
            if self.at_end() {
                return Ending::Finished(Ok(()));
            }
            if self.faults() {
                return Ending::Faulted;
            }
            match self.step() {
                Ok(_) => {},
                Err(error) => {
                    return Ending::Finished(Err(error));
                },
            }
            left -= 1;
        }
        Ending::OutOfSteps
    }

    /// The value some places below the top of the stack, if it is there.
    fn peek(&self, depth: usize) -> (object: Option<&Object>)
        requires
            self.wf(),
            depth <= 1,
        ensures
            match object {
                Some(found) => depth + 1 <= self@.sp <= STACK_SIZE + depth && found@
                    == self@.stack[self@.sp - 1 - depth],
                None => !(depth + 1 <= self@.sp <= STACK_SIZE + depth),
            },
    {
        if depth < self.sp && self.sp - 1 - depth < STACK_SIZE {
            Some(&self.stack[self.sp - 1 - depth])
        } else {
            None
        }
    }

    /// Whether the current instruction has no result.
    fn faults(&self) -> (faults: bool)
        requires
            self.wf(),
            !self@.at_end(),
        ensures
            faults == (self@.step() is Fault),
    {
        let frame = &self.frames[self.frames_index - 1];
        let ip: usize = frame.ip;
        let ins = frame.instructions();
        assert(ins.len() == ins@.len());
        let left: usize = ins.len() - ip - 1;
        match OpCode::from_byte(ins[ip]) {
            None => false,
            Some(OpCode::Constant) => left < 2,
            Some(OpCode::Call) => self.call_faults(),
            Some(OpCode::Jump) => left < 2 || read_uint16(ins, ip + 1) == 0,
            Some(OpCode::JumpIfNotTruthy) => {
                left < 2 || (read_uint16(ins, ip + 1) == 0 && match self.peek(0) {
                    Some(condition) => !condition.is_truthy(),
                    None => false,
                })
            },
            Some(OpCode::Minus) => match self.peek(0) {
                Some(Object::Integer(value)) => *value == i64::MIN,
                _ => false,
            },
            Some(OpCode::GetGlobal) => {
                left < 2 || read_uint16(ins, ip + 1) as usize >= self.globals.len()
            },
            Some(OpCode::SetGlobal) => {
                left < 2 || (read_uint16(ins, ip + 1) as usize > self.globals.len() && self.peek(
                    0,
                ).is_some())
            },
            Some(OpCode::Array) => {
                left < 2 || {
                    let size: usize = read_uint16(ins, ip + 1) as usize;
                    size > 0 && (size > self.sp || self.sp > STACK_SIZE)
                }
            },
            Some(OpCode::Hash) => {
                left < 2 || self.hash_faults(read_uint16(ins, ip + 1) as usize)
            },
            Some(OpCode::ReturnValue) => self.frames_index == 1 && self.peek(0).is_some(),
            Some(OpCode::Return) => self.frames_index == 1,
            Some(OpCode::GetLocal) => {
                left < 1 || frame.base_pointer + ins[ip + 1] as usize >= STACK_SIZE
            },
            Some(OpCode::SetLocal) => {
                left < 1 || (frame.base_pointer + ins[ip + 1] as usize >= STACK_SIZE && self.peek(
                    0,
                ).is_some())
            },
            Some(op_code) => self.arithmetic_faults(op_code),
        }
    }

    /// Whether a call has no result.
    fn call_faults(&self) -> (faults: bool)
        requires
            self.wf(),
        ensures
            faults == (self@.call() is Fault),
    {
        match self.peek(0) {
            Some(Object::CompiledFunction(_)) => self.frames_index == usize::MAX,
            Some(_) => false,
            None => true,
        }
    }

    /// Whether arithmetic on the two topmost values has no result.
    fn arithmetic_faults(&self, op_code: OpCode) -> (faults: bool)
        requires
            self.wf(),
        ensures
            crate::vm::machine::is_arithmetic(op_code) ==> faults == (self@.binary(
                op_code,
            ) is Fault),
            !crate::vm::machine::is_arithmetic(op_code) ==> !faults,
    {
        match (self.peek(1), self.peek(0)) {
            (Some(Object::Integer(left)), Some(Object::Integer(right))) => match op_code {
                OpCode::Add => left.checked_add(*right).is_none(),
                OpCode::Sub => left.checked_sub(*right).is_none(),
                OpCode::Mul => left.checked_mul(*right).is_none(),
                OpCode::Div => left.checked_div(*right).is_none(),
                _ => false,
            },
            _ => false,
        }
    }

    /// Whether a hash of the topmost `size` pairs has no result.
    fn hash_faults(&self, size: usize) -> (faults: bool)
        requires
            self.wf(),
            size <= u16::MAX,
        ensures
            faults == (self@.hash(size as nat) is Fault),
    {
        if size * 2 > self.sp {
            return true;
        }
        let from: usize = self.sp - size * 2;
        for i in 0..size
            invariant
                self.wf(),
                size <= u16::MAX,
                from == self.sp - size * 2,
                crate::vm::machine::hash_of_slots(self@.stack, from as int, i as nat) is Done,
                crate::vm::machine::hash_of_slots(
                    self@.stack,
                    from as int,
                    i as nat,
                )->Done_0 is Hash,
        {
            proof {
                if crate::vm::machine::hash_of_slots(
                    self@.stack,
                    from as int,
                    (i + 1) as nat,
                ) !is Done {
                    crate::vm::lemma_hash_of_slots(
                        self@.stack,
                        from as int,
                        (i + 1) as nat,
                        size as nat,
                    );
                }
            }
            let index: usize = from + i * 2;
            if index >= STACK_SIZE {
                return true;
            }
            if HashKey::from_object(&self.stack[index]).is_err() {
                return false;
            }
            if index + 1 >= STACK_SIZE {
                return true;
            }
        }
        false
    }
}

} // verus!
