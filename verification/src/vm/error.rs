//! The errors that end a run.

use vstd::prelude::*;
use vstd::string::StringExecFns;

use crate::object::{EvalError, EvalErrorView};
use crate::text::decimal_text;

verus! {

/// Why a run stopped before the end of the program.
#[derive(Debug)]
pub enum VmError {
    /// A byte that encodes no operation.
    UnknownOpCode(u8),
    /// An index into the constant pool that is too large, and the size of the pool.
    InvalidConstIndex(usize, usize),
    /// A push onto a full stack.
    StackOverflow,
    /// A pop that finds no element.
    StackEmpty,
    /// An operation that does not take its operands.
    Eval(EvalError),
}

/// What a [`VmError`] is, mathematically.
pub enum VmErrorView {
    UnknownOpCode(u8),
    InvalidConstIndex(nat, nat),
    StackOverflow,
    StackEmpty,
    Eval(EvalErrorView),
}

impl View for VmError {
    type V = VmErrorView;

    open spec fn view(&self) -> VmErrorView {
        match self {
            VmError::UnknownOpCode(op_code) => VmErrorView::UnknownOpCode(*op_code),
            VmError::InvalidConstIndex(given, length) => VmErrorView::InvalidConstIndex(
                *given as nat,
                *length as nat,
            ),
            VmError::StackOverflow => VmErrorView::StackOverflow,
            VmError::StackEmpty => VmErrorView::StackEmpty,
            VmError::Eval(error) => VmErrorView::Eval(error@),
        }
    }
}

/// An error is of the same kind as its view, with the same numbers in the same order.
pub proof fn lemma_vm_error_view(error: VmError)
    ensures
        match error {
            VmError::UnknownOpCode(byte) => error@ == VmErrorView::UnknownOpCode(byte),
            VmError::InvalidConstIndex(given, length) => error@ matches
                VmErrorView::InvalidConstIndex(index, size) && index == given && size == length,
            VmError::StackOverflow => error@ == VmErrorView::StackOverflow,
            VmError::StackEmpty => error@ == VmErrorView::StackEmpty,
            VmError::Eval(reason) => error@ == VmErrorView::Eval(reason@),
        },
{
}

impl VmErrorView {
    /// The message of an error.
    pub open spec fn message(self) -> Seq<char> {
        match self {
            VmErrorView::UnknownOpCode(op_code) => "unknown op code: "@ + crate::text::decimal(
                op_code as nat,
            ),
            VmErrorView::InvalidConstIndex(given, length) => "invalid const index: "@
                + crate::text::decimal(given) + " / "@ + crate::text::decimal(length),
            VmErrorView::StackOverflow => "stack overflow"@,
            VmErrorView::StackEmpty => "stack empty"@,
            VmErrorView::Eval(error) => error.message(),
        }
    }
}

/// The message of an error says what happened, and gives the numbers in decimal: of an index into
/// the constant pool, first the index, then the size of the pool.
pub proof fn lemma_vm_error_message(error: VmErrorView)
    ensures
        match error {
            VmErrorView::UnknownOpCode(byte) => error.message() == "unknown op code: "@
                + crate::text::decimal(byte as nat),
            VmErrorView::InvalidConstIndex(index, size) => error.message()
                == "invalid const index: "@ + crate::text::decimal(index) + " / "@
                + crate::text::decimal(size),
            VmErrorView::StackOverflow => error.message() == "stack overflow"@,
            VmErrorView::StackEmpty => error.message() == "stack empty"@,
            VmErrorView::Eval(reason) => error.message() == reason.message(),
        },
{
}

impl VmError {
    /// The message of the error.
    pub fn to_string(&self) -> (message: String)
        ensures
            message@ == self@.message(),
    {
        match self {
            VmError::UnknownOpCode(op_code) => {
                let mut message = "unknown op code: ".to_string();
                message.append(decimal_text(*op_code as usize).as_str());
                message
            },
            VmError::InvalidConstIndex(given, length) => {
                let mut message = "invalid const index: ".to_string();
                message.append(decimal_text(*given).as_str());
                message.append(" / ");
                message.append(decimal_text(*length).as_str());
                message
            },
            VmError::StackOverflow => "stack overflow".to_string(),
            VmError::StackEmpty => "stack empty".to_string(),
            VmError::Eval(error) => error.to_string(),
        }
    }
}

} // verus!
