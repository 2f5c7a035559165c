//! What holds of the machine as a whole.

use std::rc::Rc;

use vstd::prelude::*;

use crate::code::OpCode;
use crate::object::{Key, Object, Value};
use crate::vm::error::{VmError, VmErrorView};
use crate::vm::frame::FrameView;
use crate::vm::machine::{Computed, Machine, Outcome};
use crate::vm::STACK_SIZE;

verus! {

// Running.

/// Runs that are over agree, however many steps were allowed.
pub proof fn lemma_run_agrees(machine: Machine, one: nat, other: nat)
    requires
        machine.run(one).finished(),
        machine.run(other).finished(),
    ensures
        machine.run(one) == machine.run(other),
    decreases one,
{
    if let Outcome::Running(next) = machine.step() {
        lemma_run_agrees(next, (one - 1) as nat, (other - 1) as nat);
    }
}

/// A run of `first + second` steps is a run of `first` steps, continued from where it came to.
pub proof fn lemma_run_continues(machine: Machine, first: nat, second: nat)
    ensures
        machine.run(first + second) == match machine.run(first) {
            Outcome::Running(next) => next.run(second),
            outcome => outcome,
        },
    decreases first,
{
    if first > 0 {
        if let Outcome::Running(next) = machine.step() {
            lemma_run_continues(next, (first - 1) as nat, second);
        }
    }
}

/// A run that is over stays as it is when more steps are allowed.
pub proof fn lemma_finished_run_is_final(machine: Machine, fuel: nat, more: nat)
    requires
        machine.run(fuel).finished(),
        fuel <= more,
    ensures
        machine.run(more) == machine.run(fuel),
{
    lemma_run_continues(machine, fuel, (more - fuel) as nat);
}

/// A run comes to its end in order only behind the last instruction of the innermost call.
pub proof fn lemma_halted_at_end(machine: Machine, fuel: nat)
    requires
        machine.run(fuel) is Halted,
    ensures
        machine.run(fuel)->Halted_0.at_end(),
    decreases fuel,
{
    if let Outcome::Running(next) = machine.step() {
        lemma_halted_at_end(next, (fuel - 1) as nat);
    }
}

/// A machine at the end of its instructions finishes as it is.
pub proof fn lemma_nothing_left_to_run(machine: Machine)
    requires
        machine.at_end(),
    ensures
        machine.finishes(),
        forall|fuel: nat| fuel > 0 ==> #[trigger] machine.run(fuel) == Outcome::Halted(machine),
{
    assert(machine.run(1).finished());
}

/// A step on the way neither makes nor breaks the promise that the run comes to an end.
pub proof fn lemma_step_keeps_finishing(machine: Machine)
    requires
        machine.step() is Running,
    ensures
        machine.finishes() <==> machine.step()->Running_0.finishes(),
{
    let next = machine.step()->Running_0;
    if machine.finishes() {
        let fuel = choose|fuel: nat| (#[trigger] machine.run(fuel)).finished();
        assert(next.run((fuel - 1) as nat).finished());
    }
    if next.finishes() {
        let fuel = choose|fuel: nat| (#[trigger] next.run(fuel)).finished();
        assert(machine.run(fuel + 1).finished());
    }
}

/// A run of no steps leaves the machine as it is, and a run of one step is that step.
pub proof fn lemma_run_by_steps(machine: Machine)
    ensures
        machine.run(0) == Outcome::Running(machine),
        machine.run(1) == machine.step(),
{
    reveal_with_fuel(Machine::run, 2);
}

/// A run is over when it came behind the last instruction or to an error, and a machine finishes
/// when some number of steps brings it there.
pub proof fn lemma_finishes(machine: Machine, fuel: nat)
    ensures
        machine.run(fuel).finished() <==> machine.run(fuel) is Halted || machine.run(
            fuel,
        ) is Failed,
        machine.run(fuel) is Halted || machine.run(fuel) is Failed ==> machine.finishes(),
        machine.finishes() ==> exists|enough: nat|
            #[trigger] machine.run(enough) is Halted || machine.run(enough) is Failed,
{
    if machine.finishes() {
        let enough = choose|enough: nat| (#[trigger] machine.run(enough)).finished();
        assert(machine.run(enough) is Halted || machine.run(enough) is Failed);
    }
}

/// A run that succeeded came to the end of the program, and one that gave an error stopped with
/// that error.
pub proof fn lemma_result_of_run(result: Result<(), VmError>, machine: Machine)
    ensures
        result is Ok ==> crate::vm::finish_of(result, machine) == Outcome::Halted(machine)
            && crate::vm::outcome_of(result, machine) == Outcome::Running(machine),
        result matches Err(error) ==> crate::vm::finish_of(result, machine) == Outcome::Failed(
            error@,
            machine,
        ) && crate::vm::outcome_of(result, machine) == Outcome::Failed(error@, machine),
{
}

/// The values of a list of objects are as many, in the same order.
pub proof fn lemma_values_of(objects: Seq<Rc<Object>>)
    ensures
        crate::vm::values_of(objects).len() == objects.len(),
        forall|i: int|
            0 <= i < objects.len() ==> #[trigger] crate::vm::values_of(objects)[i] == objects[i]@,
{
}

/// There is room for this many values on the stack.
pub proof fn lemma_stack_size()
    ensures
        STACK_SIZE == 2048,
{
}

/// A machine starts at the first instruction of the program, with an empty stack in an area of
/// `null` values, and with the constants and the global bindings that it was given.
pub proof fn lemma_start_state(
    instructions: Seq<u8>,
    constants: Seq<Value>,
    globals: Seq<Value>,
)
    ensures
        ({
            let start = Machine::start(instructions, constants, globals);
            &&& start.constants == constants
            &&& start.globals == globals
            &&& start.sp == 0
            &&& start.stack.len() == STACK_SIZE
            &&& forall|slot: int| 0 <= slot < STACK_SIZE ==> #[trigger] start.stack[slot] is Null
            &&& start.frames.len() == 1
            &&& start.frames[0].function.instructions == instructions
            &&& start.frames[0].ip == 0
            &&& start.frames[0].base_pointer == 0
        }),
{
}

// What no run changes.

/// The state that an outcome leaves the machine in, if any.
pub open spec fn state_of(outcome: Outcome) -> Option<Machine> {
    match outcome {
        Outcome::Running(machine) => Some(machine),
        Outcome::Halted(machine) => Some(machine),
        Outcome::Failed(_, machine) => Some(machine),
        Outcome::Fault => None,
    }
}

/// A step keeps the invariant of the machine.
pub proof fn lemma_step_keeps_wf(machine: Machine)
    requires
        machine.wf(),
    ensures
        state_of(machine.step()) matches Some(next) ==> next.wf(),
{
}

/// A run keeps the invariant of the machine.
pub proof fn lemma_run_keeps_wf(machine: Machine, fuel: nat)
    requires
        machine.wf(),
    ensures
        state_of(machine.run(fuel)) matches Some(next) ==> next.wf(),
    decreases fuel,
{
    if fuel > 0 {
        lemma_step_keeps_wf(machine);
        if let Outcome::Running(next) = machine.step() {
            lemma_run_keeps_wf(next, (fuel - 1) as nat);
        }
    }
}

/// A machine starts with its invariant and with its stack pointer in bounds.
pub proof fn lemma_start_wf(
    instructions: Seq<u8>,
    constants: Seq<Value>,
    globals: Seq<Value>,
)
    ensures
        Machine::start(instructions, constants, globals).wf(),
        stack_in_bounds(Machine::start(instructions, constants, globals)),
{
}

/// No step changes the constant pool.
pub proof fn lemma_step_keeps_constants(machine: Machine)
    ensures
        state_of(machine.step()) matches Some(next) ==> next.constants == machine.constants,
{
}

/// No run changes the constant pool.
pub proof fn lemma_run_keeps_constants(machine: Machine, fuel: nat)
    ensures
        state_of(machine.run(fuel)) matches Some(next) ==> next.constants == machine.constants,
    decreases fuel,
{
    if fuel > 0 {
        lemma_step_keeps_constants(machine);
        if let Outcome::Running(next) = machine.step() {
            lemma_run_keeps_constants(next, (fuel - 1) as nat);
        }
    }
}

/// The op code of the current instruction, if there is one.
pub open spec fn current_op_code(machine: Machine) -> Option<OpCode> {
    if machine.at_end() {
        None
    } else {
        OpCode::spec_from_byte(machine.code()[machine.frame().ip as int])
    }
}

/// Only an assignment to a global binding changes the global bindings.
pub proof fn lemma_step_keeps_globals(machine: Machine)
    requires
        current_op_code(machine) != Some(OpCode::SetGlobal),
    ensures
        state_of(machine.step()) matches Some(next) ==> next.globals == machine.globals,
{
}

/// Global bindings are never lost.
pub proof fn lemma_run_keeps_global_count(machine: Machine, fuel: nat)
    ensures
        state_of(machine.run(fuel)) matches Some(next) ==> next.globals.len()
            >= machine.globals.len(),
    decreases fuel,
{
    if fuel > 0 {
        if let Outcome::Running(next) = machine.step() {
            lemma_run_keeps_global_count(next, (fuel - 1) as nat);
        }
    }
}

/// The stack pointer stays on the stack or in the room for the local bindings of one call above
/// it.
pub open spec fn stack_in_bounds(machine: Machine) -> bool {
    machine.sp <= STACK_SIZE + u8::MAX
}

/// The stack pointer stays in its bounds, unless a pop of an empty stack ended the run.
pub proof fn lemma_run_keeps_stack_in_bounds(machine: Machine, fuel: nat)
    requires
        machine.wf(),
        stack_in_bounds(machine),
    ensures
        state_of(machine.run(fuel)) matches Some(next) ==> stack_in_bounds(next) || (machine.run(
            fuel,
        ) == Outcome::Failed(VmErrorView::StackEmpty, next) && next.sp == usize::MAX),
    decreases fuel,
{
    if fuel > 0 {
        lemma_step_keeps_wf(machine);
        if let Outcome::Running(next) = machine.step() {
            assert(stack_in_bounds(next));
            lemma_run_keeps_stack_in_bounds(next, (fuel - 1) as nat);
        }
    }
}

// The stack.

/// A pop gives back what was pushed, leaves the stack as it was before the push, and keeps the
/// value just above it, as the element popped last.
pub proof fn lemma_push_then_pop(machine: Machine, value: Value)
    requires
        machine.wf(),
        machine.sp < STACK_SIZE,
    ensures
        machine.push(value) is Running,
        machine.push(value)->Running_0.top() == Some(value),
        machine.push(value)->Running_0.pop() == Outcome::Running(
            Machine { stack: machine.stack.update(machine.sp as int, value), ..machine },
        ),
{
    let stack = machine.stack.update(machine.sp as int, value);
    assert(stack[machine.sp as int] == value);
}

/// The slot of the stack that the current instruction writes when it goes through, if any: the
/// new top, or the local binding that it assigns.
pub open spec fn written_slot(machine: Machine) -> Option<int> {
    match current_op_code(machine) {
        Some(OpCode::Pop)
        | Some(OpCode::SetGlobal)
        | Some(OpCode::Jump)
        | Some(OpCode::JumpIfNotTruthy)
        | Some(OpCode::Call)
        | None => None,
        Some(OpCode::SetLocal) => Some(machine.local(machine.operand(1))),
        Some(_) => Some(machine.step()->Running_0.sp - 1),
    }
}

/// A step writes at most one slot of the stack.
pub proof fn lemma_step_writes_one_slot(machine: Machine)
    requires
        machine.wf(),
        machine.step() is Running,
    ensures
        forall|slot: int|
            0 <= slot < STACK_SIZE && Some(slot) != written_slot(machine)
                ==> #[trigger] machine.step()->Running_0.stack[slot] == machine.stack[slot],
{
}

/// A run of `fuel` steps goes on to its last step and writes no slot of the stack below `low`.
pub open spec fn writes_from(machine: Machine, low: int, fuel: nat) -> bool
    decreases fuel,
{
    fuel > 0 ==> match machine.step() {
        Outcome::Running(next) => {
            &&& written_slot(machine) matches Some(slot) ==> slot >= low
            &&& writes_from(next, low, (fuel - 1) as nat)
        },
        _ => false,
    }
}

/// The slots below those that a run writes stay as they are.
pub proof fn lemma_slots_below_stay(machine: Machine, low: int, fuel: nat)
    requires
        machine.wf(),
        writes_from(machine, low, fuel),
    ensures
        machine.run(fuel) is Running,
        forall|slot: int|
            0 <= slot < low && slot < STACK_SIZE ==> #[trigger] machine.run(
                fuel,
            )->Running_0.stack[slot] == machine.stack[slot],
    decreases fuel,
{
    if fuel > 0 {
        lemma_step_keeps_wf(machine);
        lemma_step_writes_one_slot(machine);
        lemma_slots_below_stay(machine.step()->Running_0, low, (fuel - 1) as nat);
    }
}

/// What a pop takes off the stack lies just above it afterwards.
pub proof fn lemma_popped_element_lies_above(machine: Machine)
    requires
        machine.wf(),
        machine.pop() is Running,
    ensures
        machine.pop()->Running_0.sp < STACK_SIZE,
        machine.top() == Some(
            machine.pop()->Running_0.stack[machine.pop()->Running_0.sp as int],
        ),
{
}

/// A program that ends by popping a value ends with that value as the element popped last.
pub proof fn lemma_result_of_program(machine: Machine)
    requires
        machine.wf(),
        current_op_code(machine) == Some(OpCode::Pop),
        machine.frame().ip + 1 == machine.code().len(),
        machine.top() is Some,
    ensures
        machine.run(2) is Halted,
        machine.run(2)->Halted_0.sp < STACK_SIZE,
        Some(machine.run(2)->Halted_0.stack[machine.run(2)->Halted_0.sp as int]) == machine.top(),
{
    reveal_with_fuel(Machine::run, 3);
}

// Bindings.

/// A global binding reads as what was assigned to it, and the others as before.
pub proof fn lemma_set_then_get_global(machine: Machine, index: nat)
    requires
        machine.set_global(index) is Running,
    ensures
        ({
            let after = machine.set_global(index)->Running_0;
            &&& after.get_global(index) == after.push(machine.top().unwrap())
            &&& forall|other: nat|
                other < machine.globals.len() && other != index ==> #[trigger] after.get_global(
                    other,
                ) == after.push(machine.globals[other as int])
        }),
{
}

/// The current instruction assigns to this global binding.
pub open spec fn assigns_global(machine: Machine, index: nat) -> bool {
    current_op_code(machine) == Some(OpCode::SetGlobal) && machine.operand(2) == index
}

/// No step of a run of at most `fuel` steps assigns to this global binding.
pub open spec fn never_assigns_global(machine: Machine, index: nat, fuel: nat) -> bool
    decreases fuel,
{
    fuel > 0 ==> {
        &&& !assigns_global(machine, index)
        &&& machine.step() matches Outcome::Running(next) ==> never_assigns_global(
            next,
            index,
            (fuel - 1) as nat,
        )
    }
}

/// A global binding that a run does not assign to keeps its value.
pub proof fn lemma_global_stays(machine: Machine, index: nat, fuel: nat)
    requires
        index < machine.globals.len(),
        never_assigns_global(machine, index, fuel),
    ensures
        state_of(machine.run(fuel)) matches Some(next) ==> index < next.globals.len()
            && next.globals[index as int] == machine.globals[index as int],
    decreases fuel,
{
    if fuel > 0 {
        if let Outcome::Running(next) = machine.step() {
            lemma_global_stays(next, index, (fuel - 1) as nat);
        }
    }
}

/// A machine that goes on with the global bindings of another reads in each what the other
/// assigned to it last.
pub proof fn lemma_globals_carry_over(
    first: Machine,
    fuel: nat,
    instructions: Seq<u8>,
    constants: Seq<Value>,
    index: nat,
)
    requires
        assigns_global(first, index),
        first.step() is Running,
        never_assigns_global(first.step()->Running_0, index, fuel),
        first.step()->Running_0.run(fuel).finished(),
    ensures
        first.run(fuel + 1).finished(),
        ({
            let globals = state_of(first.run(fuel + 1)).unwrap().globals;
            let second = Machine::start(instructions, constants, globals);
            second.get_global(index) == second.push(first.top().unwrap())
        }),
{
    lemma_global_stays(first.step()->Running_0, index, fuel);
}

/// A local binding reads as what was assigned to it, and every other slot of the stack as before.
pub proof fn lemma_set_then_get_local(machine: Machine, index: nat)
    requires
        machine.wf(),
        machine.set_local(index) is Running,
    ensures
        ({
            let after = machine.set_local(index)->Running_0;
            &&& after.get_local(index) == after.push(machine.top().unwrap())
            &&& forall|slot: int|
                0 <= slot < STACK_SIZE && slot != machine.local(index)
                    ==> #[trigger] after.stack[slot] == machine.stack[slot]
        }),
{
}

// Calls.

/// A step moves on within the innermost call, calls a function, or goes back to the caller, just
/// behind the call; all other calls stay as they are.
pub proof fn lemma_step_frames(machine: Machine)
    requires
        machine.wf(),
        machine.step() is Running,
    ensures
        ({
            let after = machine.step()->Running_0;
            let same = after.frames.len() == machine.frames.len() && after.frames.drop_last()
                == machine.frames.drop_last() && after.frame().function == machine.frame().function
                && after.frame().base_pointer == machine.frame().base_pointer;
            let called = after.frames.drop_last() == machine.frames && after.frame().base_pointer
                == machine.sp;
            let caller = Machine { frames: machine.frames.drop_last(), ..machine };
            let returned = machine.frames.len() >= 2 && after.frames == caller.advance(1).frames;
            match current_op_code(machine) {
                Some(OpCode::Call) => called,
                Some(OpCode::ReturnValue) | Some(OpCode::Return) => returned,
                _ => same,
            }
        }),
{
    let after = machine.step()->Running_0;
    let caller = Machine { frames: machine.frames.drop_last(), ..machine };
    match current_op_code(machine) {
        Some(OpCode::Call) => {
            assert(after.frames.drop_last() =~= machine.frames);
        },
        Some(OpCode::ReturnValue) | Some(OpCode::Return) => {
            assert(after.frames =~= caller.advance(1).frames);
        },
        _ => {
            assert(after.frames.drop_last() =~= machine.frames.drop_last());
        },
    }
}

/// All states of a run of `fuel` steps have more than `depth` calls.
pub open spec fn stays_above(machine: Machine, depth: nat, fuel: nat) -> bool
    decreases fuel,
{
    &&& machine.frames.len() > depth
    &&& fuel > 0 ==> match machine.step() {
        Outcome::Running(next) => stays_above(next, depth, (fuel - 1) as nat),
        _ => false,
    }
}

/// As long as a call has not returned, its callers stay as they are, and so does the place of its
/// local bindings.
pub proof fn lemma_callers_wait(machine: Machine, depth: nat, fuel: nat)
    requires
        machine.wf(),
        stays_above(machine, depth, fuel),
    ensures
        machine.run(fuel) is Running,
        machine.run(fuel)->Running_0.wf(),
        machine.run(fuel)->Running_0.frames.len() > depth,
        machine.run(fuel)->Running_0.frames.take(depth as int) == machine.frames.take(
            depth as int,
        ),
        machine.run(fuel)->Running_0.frames[depth as int].base_pointer
            == machine.frames[depth as int].base_pointer,
    decreases fuel,
{
    if fuel > 0 {
        let next = machine.step()->Running_0;
        lemma_step_frames(machine);
        lemma_step_keeps_wf(machine);
        lemma_callers_wait(next, depth, (fuel - 1) as nat);
        let caller = Machine { frames: machine.frames.drop_last(), ..machine };
        assert(stays_above(next, depth, (fuel - 1) as nat));
        assert(next.frames.len() > depth);
        match current_op_code(machine) {
            Some(OpCode::Call) => {
                assert(next.frames.take(depth as int) =~= next.frames.drop_last().take(
                    depth as int,
                ));
            },
            Some(OpCode::ReturnValue) | Some(OpCode::Return) => {
                assert(next.frames.take(depth as int) =~= machine.frames.take(depth as int));
            },
            _ => {
                assert(next.frames.take(depth as int) =~= next.frames.drop_last().take(
                    depth as int,
                ));
                assert(machine.frames.take(depth as int) =~= machine.frames.drop_last().take(
                    depth as int,
                ));
                if depth < machine.frames.len() - 1 {
                    assert(next.frames[depth as int] == next.frames.drop_last()[depth as int]);
                    assert(machine.frames[depth as int]
                        == machine.frames.drop_last()[depth as int]);
                }
            },
        }
    }
}

/// A function that is called and, after any number of steps, returns, gives control back to just
/// behind the call, with the stack as high as it was and the result in place of the function.
pub proof fn lemma_call_returns(caller: Machine, fuel: nat)
    requires
        caller.wf(),
        current_op_code(caller) == Some(OpCode::Call),
        caller.step() is Running,
        stays_above(caller.step()->Running_0, caller.frames.len(), fuel),
        caller.step()->Running_0.run(fuel) is Running,
        ({
            let last = caller.step()->Running_0.run(fuel)->Running_0;
            &&& last.frames.len() == caller.frames.len() + 1
            &&& current_op_code(last) == Some(OpCode::ReturnValue) || current_op_code(last)
                == Some(OpCode::Return)
            &&& last.step() is Running
        }),
    ensures
        ({
            let last = caller.step()->Running_0.run(fuel)->Running_0;
            let result = if current_op_code(last) == Some(OpCode::ReturnValue) {
                last.top().unwrap()
            } else {
                Value::Null
            };
            let back = last.step()->Running_0;
            &&& caller.run(fuel + 2) == Outcome::Running(back)
            &&& back.frames == caller.advance(1).frames
            &&& back.sp == caller.sp
            &&& back.top() == Some(result)
            &&& back.stack == last.stack.update(caller.sp - 1, result)
        }),
{
    let inside = caller.step()->Running_0;
    let depth = caller.frames.len();
    lemma_step_frames(caller);
    lemma_step_keeps_wf(caller);
    lemma_callers_wait(inside, depth, fuel);
    let last = inside.run(fuel)->Running_0;
    lemma_step_frames(last);
    let back = last.step()->Running_0;
    assert(inside.frames.take(depth as int) =~= caller.frames);
    assert(last.frames.drop_last() =~= caller.frames);
    lemma_run_continues(caller, 1, fuel + 1);
    lemma_run_continues(inside, fuel, 1);
    reveal_with_fuel(Machine::run, 2);
}

/// Leaving a call undoes entering it.
pub proof fn lemma_enter_then_exit(machine: Machine, frame: FrameView)
    ensures
        machine.enter(frame).frame() == frame,
        machine.enter(frame).exit() == machine,
{
}

/// All states of a run of `fuel` steps have at least `height` values on the stack.
pub open spec fn stack_stays_above(machine: Machine, height: nat, fuel: nat) -> bool
    decreases fuel,
{
    &&& machine.sp >= height
    &&& fuel > 0 ==> match machine.step() {
        Outcome::Running(next) => stack_stays_above(next, height, (fuel - 1) as nat),
        _ => false,
    }
}

/// A call that takes nothing off the stack but what it put there writes no slot below the called
/// function, neither itself nor in the calls it makes.
pub proof fn lemma_callee_writes_from(machine: Machine, depth: nat, height: nat, fuel: nat)
    requires
        machine.wf(),
        stays_above(machine, depth, fuel),
        stack_stays_above(machine, height, fuel),
        forall|i: int|
            depth <= i < machine.frames.len() ==> (#[trigger] machine.frames[i]).base_pointer
                >= height,
    ensures
        writes_from(machine, height - 1, fuel),
    decreases fuel,
{
    if fuel > 0 {
        let next = machine.step()->Running_0;
        lemma_step_keeps_wf(machine);
        lemma_step_frames(machine);
        assert(stays_above(next, depth, (fuel - 1) as nat));
        assert(stack_stays_above(next, height, (fuel - 1) as nat));
        assert forall|i: int| depth <= i < next.frames.len() implies (#[trigger] next.frames[i]).base_pointer
            >= height by {
            if i < next.frames.len() - 1 {
                assert(next.frames[i] == next.frames.drop_last()[i]);
            }
        }
        lemma_callee_writes_from(next, depth, height, (fuel - 1) as nat);
    }
}

/// A function that writes no slot below its own leaves the slots there as they were when it was
/// called.
pub proof fn lemma_call_keeps_slots_below(caller: Machine, fuel: nat)
    requires
        caller.wf(),
        current_op_code(caller) == Some(OpCode::Call),
        caller.step() is Running,
        stays_above(caller.step()->Running_0, caller.frames.len(), fuel),
        writes_from(caller.step()->Running_0, caller.sp - 1, fuel),
        ({
            let last = caller.step()->Running_0.run(fuel)->Running_0;
            &&& last.frames.len() == caller.frames.len() + 1
            &&& current_op_code(last) == Some(OpCode::ReturnValue) || current_op_code(last)
                == Some(OpCode::Return)
            &&& last.step() is Running
        }),
    ensures
        caller.run(fuel + 2) is Running,
        forall|slot: int|
            0 <= slot < caller.sp - 1 ==> #[trigger] caller.run(fuel + 2)->Running_0.stack[slot]
                == caller.stack[slot],
{
    let inside = caller.step()->Running_0;
    lemma_step_keeps_wf(caller);
    lemma_slots_below_stay(inside, caller.sp - 1, fuel);
    lemma_call_returns(caller, fuel);
    lemma_run_keeps_wf(inside, fuel);
    let last = inside.run(fuel)->Running_0;
    assert(caller.call() is Running);
    assert forall|slot: int| 0 <= slot < caller.sp - 1 implies #[trigger] caller.run(
        fuel + 2,
    )->Running_0.stack[slot] == caller.stack[slot] by {
        assert(last.stack[slot] == inside.stack[slot]);
    }
}

/// A function that takes nothing off the stack but what it put there leaves every slot below its
/// own as it was when it was called.
pub proof fn lemma_call_leaves_stack_below(caller: Machine, fuel: nat)
    requires
        caller.wf(),
        current_op_code(caller) == Some(OpCode::Call),
        caller.step() is Running,
        stays_above(caller.step()->Running_0, caller.frames.len(), fuel),
        stack_stays_above(caller.step()->Running_0, caller.sp, fuel),
        ({
            let last = caller.step()->Running_0.run(fuel)->Running_0;
            &&& last.frames.len() == caller.frames.len() + 1
            &&& current_op_code(last) == Some(OpCode::ReturnValue) || current_op_code(last)
                == Some(OpCode::Return)
            &&& last.step() is Running
        }),
    ensures
        caller.run(fuel + 2) is Running,
        forall|slot: int|
            0 <= slot < caller.sp - 1 ==> #[trigger] caller.run(fuel + 2)->Running_0.stack[slot]
                == caller.stack[slot],
{
    lemma_step_keeps_wf(caller);
    lemma_step_frames(caller);
    lemma_callee_writes_from(caller.step()->Running_0, caller.frames.len(), caller.sp, fuel);
    lemma_call_keeps_slots_below(caller, fuel);
}

// Operators.

/// `!` gives a boolean, and twice gives whether the value counts as true.
pub proof fn lemma_bang_twice(machine: Machine)
    requires
        machine.wf(),
        machine.top() is Some,
    ensures
        machine.bang() is Running,
        machine.bang()->Running_0.top() == Some(Value::Boolean(!machine.top().unwrap().truthy())),
        machine.bang()->Running_0.bang() is Running,
        machine.bang()->Running_0.bang()->Running_0.top() == Some(
            Value::Boolean(machine.top().unwrap().truthy()),
        ),
{
    let slot = machine.sp - 1;
    let once = machine.stack.update(slot, Value::Boolean(!machine.top().unwrap().truthy()));
    assert(once[slot] == Value::Boolean(!machine.top().unwrap().truthy()));
}

/// The two topmost values of the stack, the left operand below the right one.
pub open spec fn operands_are(machine: Machine, left: Value, right: Value) -> bool {
    &&& 2 <= machine.sp <= STACK_SIZE
    &&& machine.stack[machine.sp - 2] == left
    &&& machine.stack[machine.sp - 1] == right
}

/// The sum and the product of two integers do not depend on their order.
pub proof fn lemma_sum_and_product_commute(
    one: Machine,
    other: Machine,
    op_code: OpCode,
    a: i64,
    b: i64,
)
    requires
        one.wf(),
        other.wf(),
        one.sp == other.sp,
        operands_are(one, Value::Integer(a), Value::Integer(b)),
        operands_are(other, Value::Integer(b), Value::Integer(a)),
        op_code == OpCode::Add || op_code == OpCode::Mul,
        crate::vm::machine::integer_arithmetic(op_code, a as int, b as int) !is Fault,
    ensures
        one.binary(op_code) is Running,
        other.binary(op_code) is Running,
        one.binary(op_code)->Running_0.sp == other.binary(op_code)->Running_0.sp,
        one.binary(op_code)->Running_0.top() == other.binary(op_code)->Running_0.top(),
        one.binary(op_code)->Running_0.top() matches Some(Value::Integer(_)),
{
    assert(a * b == b * a) by (nonlinear_arith);
}

/// Taking the right operand away again undoes an addition.
pub proof fn lemma_subtraction_undoes_addition(machine: Machine, left: i64, right: i64)
    requires
        machine.wf(),
        machine.sp + 1 < STACK_SIZE,
        i64::MIN <= left + right <= i64::MAX,
    ensures
        ({
            let added = machine.settle(
                crate::vm::machine::integer_arithmetic(OpCode::Add, left as int, right as int),
            );
            let sum = (left + right) as i64;
            let undone = added->Running_0.settle(
                crate::vm::machine::integer_arithmetic(OpCode::Sub, sum as int, right as int),
            );
            &&& added is Running
            &&& added->Running_0.top() == Some(Value::Integer(sum))
            &&& undone is Running
            &&& undone->Running_0.top() == Some(Value::Integer(left))
        }),
{
}

/// No two op codes stand for the same infix operator: the operator in an error tells which
/// operation failed.
pub proof fn lemma_infix_tells_op_code(one: OpCode, other: OpCode)
    requires
        crate::vm::machine::infix_of(one) is Some,
        crate::vm::machine::infix_of(one) == crate::vm::machine::infix_of(other),
    ensures
        one == other,
{
}

/// Where values can be compared for equality, they are equal or not equal, never both.
pub proof fn lemma_not_equal_negates_equal(one: Machine, other: Machine)
    requires
        one.wf(),
        other.wf(),
        one.stack == other.stack,
        one.sp == other.sp,
        one.binary(OpCode::Equal) is Running,
    ensures
        ({
            let equal = one.binary(OpCode::Equal)->Running_0.top();
            let not_equal = other.binary(OpCode::NotEqual);
            &&& equal matches Some(Value::Boolean(truth))
            &&& not_equal is Running
            &&& not_equal->Running_0.top() == Some(Value::Boolean(!truth))
            &&& truth == (one.stack[one.sp - 2] == one.stack[one.sp - 1])
        }),
{
}

/// Of two integers exactly one holds: the first is greater, the second is greater, or they are
/// equal.
pub proof fn lemma_integers_compare(
    first: Machine,
    second: Machine,
    third: Machine,
    a: i64,
    b: i64,
)
    requires
        first.wf(),
        second.wf(),
        third.wf(),
        operands_are(first, Value::Integer(a), Value::Integer(b)),
        operands_are(second, Value::Integer(b), Value::Integer(a)),
        operands_are(third, Value::Integer(a), Value::Integer(b)),
    ensures
        first.binary(OpCode::GreaterThan) is Running,
        second.binary(OpCode::GreaterThan) is Running,
        third.binary(OpCode::Equal) is Running,
        ({
            let greater = first.binary(OpCode::GreaterThan)->Running_0.top();
            let smaller = second.binary(OpCode::GreaterThan)->Running_0.top();
            let equal = third.binary(OpCode::Equal)->Running_0.top();
            let yes = Some(Value::Boolean(true));
            let no = Some(Value::Boolean(false));
            &&& greater == if a > b { yes } else { no }
            &&& smaller == if b > a { yes } else { no }
            &&& equal == if a == b { yes } else { no }
            &&& {
                ||| greater == yes && smaller == no && equal == no
                ||| greater == no && smaller == yes && equal == no
                ||| greater == no && smaller == no && equal == yes
            }
        }),
{
}

/// The quotient leaves a remainder smaller than the divisor, with the sign of the dividend.
pub proof fn lemma_quotient_rounds_toward_zero(left: int, right: int)
    requires
        right != 0,
    ensures
        ({
            let remainder = left - crate::vm::machine::quotient(left, right) * right;
            &&& -vstd::math::abs(right) < remainder < vstd::math::abs(right)
            &&& left >= 0 ==> remainder >= 0
            &&& left <= 0 ==> remainder <= 0
        }),
{
    let a = vstd::math::abs(left) as int;
    let b = vstd::math::abs(right) as int;
    vstd::arithmetic::div_mod::lemma_fundamental_div_mod(a, b);
    let q = a / b;
    assert(q * (-b) == -(q * b)) by (nonlinear_arith);
    assert((-q) * b == -(q * b)) by (nonlinear_arith);
    assert((-q) * (-b) == q * b) by (nonlinear_arith);
    assert(b * q == q * b) by (nonlinear_arith);
}

/// Joining strings does not depend on where the brackets are, whatever was joined in between.
pub proof fn lemma_joining_is_associative(
    machine: Machine,
    first: Seq<char>,
    second: Seq<char>,
    third: Seq<char>,
)
    requires
        machine.wf(),
        machine.sp + 4 <= STACK_SIZE,
    ensures
        ({
            let join = |left: Seq<char>, right: Seq<char>|
                crate::vm::machine::string_arithmetic(OpCode::Add, left, right);
            let one = machine.settle(join(first, second));
            let two = one->Running_0.settle(join(second, third));
            let left = two->Running_0.settle(join(first + second, third));
            let right = left->Running_0.settle(join(first, second + third));
            let whole = Value::String(first + second + third);
            &&& one is Running && one->Running_0.top() == Some(Value::String(first + second))
            &&& two is Running && two->Running_0.top() == Some(Value::String(second + third))
            &&& left is Running && left->Running_0.top() == Some(whole)
            &&& right is Running && right->Running_0.top() == Some(whole)
        }),
{
    assert((first + second) + third =~= first + (second + third));
}

// Arrays and hashes.

/// An array holds the values it was made of, and an index beyond them finds `null`.
pub proof fn lemma_array_items(machine: Machine, size: nat, position: i64)
    requires
        machine.wf(),
        machine.array(size) is Running,
    ensures
        machine.array(size)->Running_0.top() is Some,
        crate::vm::machine::indexed(
            machine.array(size)->Running_0.top().unwrap(),
            Value::Integer(position),
        ) == Computed::Done(
            if 0 <= position < size {
                machine.stack[machine.sp - size + position]
            } else {
                Value::Null
            },
        ),
{
}

/// A hash has exactly the keys of its pairs.
pub proof fn lemma_hash_keys(slots: Seq<Value>, from: int, size: nat, key: Key)
    requires
        crate::vm::machine::hash_of_slots(slots, from, size) is Done,
    ensures
        crate::vm::machine::hash_of_slots(slots, from, size)->Done_0 is Hash,
        crate::vm::machine::hash_of_slots(slots, from, size)->Done_0->Hash_0.contains_key(key)
            <==> exists|i: int|
            0 <= i < size && (#[trigger] slots[from + 2 * i]).key() == Some(key),
    decreases size,
{
    if size > 0 {
        let fewer = (size - 1) as nat;
        lemma_hash_keys(slots, from, fewer, key);
        let last = slots[from + 2 * (size - 1)];
        if last.key() == Some(key) {
            assert(slots[from + 2 * (size - 1)].key() == Some(key));
        }
    }
}

/// At each key a hash has the value of the last pair with that key.
pub proof fn lemma_hash_value(slots: Seq<Value>, from: int, size: nat, key: Key, position: int)
    requires
        crate::vm::machine::hash_of_slots(slots, from, size) is Done,
        0 <= position < size,
        slots[from + 2 * position].key() == Some(key),
        forall|i: int|
            position < i < size ==> (#[trigger] slots[from + 2 * i]).key() != Some(key),
    ensures
        crate::vm::machine::hash_of_slots(slots, from, size)->Done_0 is Hash,
        crate::vm::machine::hash_of_slots(slots, from, size)->Done_0->Hash_0.contains_key(key),
        crate::vm::machine::hash_of_slots(slots, from, size)->Done_0->Hash_0[key] == slots[from + 2
            * position + 1],
    decreases size,
{
    if position < size - 1 {
        assert(slots[from + 2 * (size - 1)].key() != Some(key));
        lemma_hash_value(slots, from, (size - 1) as nat, key, position);
    } else {
        lemma_hash_keys(slots, from, (size - 1) as nat, key);
    }
}

// Jumps.

/// A conditional jump takes the condition off the stack, goes on behind itself if the condition
/// counts as true, and to its target if not.
pub proof fn lemma_conditional_jump(machine: Machine)
    requires
        machine.wf(),
        current_op_code(machine) == Some(OpCode::JumpIfNotTruthy),
        machine.step() is Running,
    ensures
        machine.top() is Some,
        machine.step() == Outcome::Running(
            machine.drop_top().with_ip(
                if machine.top().unwrap().truthy() {
                    machine.frame().ip + 3
                } else {
                    machine.operand(2)
                },
            ),
        ),
{
}

} // verus!
