//! Call frames.

use vstd::prelude::*;

use crate::code::Instructions;
use crate::object::{CompiledFunction, FunctionView};

verus! {

/// One function call: the function, where it is, and where its local bindings start.
#[derive(Debug)]
pub struct Frame {
    /// The function that runs.
    pub function: CompiledFunction,
    /// The index of the current instruction.
    pub ip: usize,
    /// The stack index of the first local binding.
    pub base_pointer: usize,
}

/// What a [`Frame`] is, mathematically.
pub struct FrameView {
    pub function: FunctionView,
    pub ip: nat,
    pub base_pointer: nat,
}

impl Frame {
    /// A frame at the first instruction of a function.
    pub fn new(function: CompiledFunction, base_pointer: usize) -> (frame: Frame)
        ensures
            frame@ == (FrameView {
                function: function@,
                ip: 0,
                base_pointer: base_pointer as nat,
            }),
    {
        Frame { function, ip: 0, base_pointer }
    }

    /// The instructions of the function.
    pub fn instructions(&self) -> (instructions: &Instructions)
        ensures
            instructions@ == self@.function.instructions,
    {
        &self.function.instructions
    }
}

impl View for Frame {
    type V = FrameView;

    open spec fn view(&self) -> FrameView {
        FrameView {
            function: self.function@,
            ip: self.ip as nat,
            base_pointer: self.base_pointer as nat,
        }
    }
}

/// A frame and its view are at the same instruction of the same function, with the same base.
pub proof fn lemma_frame_view(frame: Frame)
    ensures
        frame@.function == frame.function@,
        frame@.ip == frame.ip,
        frame@.base_pointer == frame.base_pointer,
{
}

} // verus!
