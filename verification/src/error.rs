use vstd::prelude::*;
use vstd::string::*;

verus! {

/// The ways in which executing a program can fail. Each one reflects a defect of the
/// program being run; none is recoverable inside the machine.
#[derive(Clone, Copy, Debug, PartialEq, Eq, Structural)]
pub enum VmError {
    /// A value was needed from an operand stack that holds too few.
    StackUnderflow,
    /// A name was looked up in a scope that has no binding for it.
    NameError,
    /// An operator or instruction met a value of a kind it does not accept.
    TypeMismatch,
    /// A call passed more arguments than the callee has parameter slots.
    ArityMismatch,
    /// An operand is out of range: a table index, a jump target or a comparison code.
    InvalidOperand,
    /// A call would nest deeper than the depth counter can count.
    DepthOverflow,
}

impl VmError {
    /// The process exit status that stands for this failure.
    pub open spec fn code(self) -> u8 {
        match self {
            VmError::StackUnderflow => 2,
            VmError::NameError => 3,
            VmError::TypeMismatch => 4,
            VmError::ArityMismatch => 5,
            VmError::InvalidOperand => 6,
            VmError::DepthOverflow => 7,
        }
    }

    /// The process exit status that stands for this failure: never zero, and different
    /// for different failures.
    pub fn exit_code(&self) -> (code: u8)
        ensures
            code == self.code(),
            code != 0,
    {
        match self {
            VmError::StackUnderflow => 2,
            VmError::NameError => 3,
            VmError::TypeMismatch => 4,
            VmError::ArityMismatch => 5,
            VmError::InvalidOperand => 6,
            VmError::DepthOverflow => 7,
        }
    }

    /// A sentence that names this failure.
    pub open spec fn sentence(self) -> Seq<char> {
        match self {
            VmError::StackUnderflow => "stack underflow: a value was popped from an empty stack"@,
            VmError::NameError => "name error: the name is not bound"@,
            VmError::TypeMismatch => "type mismatch: a value is of the wrong kind"@,
            VmError::ArityMismatch => "arity mismatch: too many arguments for the function"@,
            VmError::InvalidOperand => "invalid operand: an operand is out of range"@,
            VmError::DepthOverflow => "depth overflow: calls are nested too deeply"@,
        }
    }

    /// A sentence that names this failure.
    pub fn message(&self) -> (text: String)
        ensures
            text@ == self.sentence(),
    {
        match self {
            VmError::StackUnderflow => String::from_str(
                "stack underflow: a value was popped from an empty stack",
            ),
            VmError::NameError => String::from_str("name error: the name is not bound"),
            VmError::TypeMismatch => String::from_str("type mismatch: a value is of the wrong kind"),
            VmError::ArityMismatch => String::from_str(
                "arity mismatch: too many arguments for the function",
            ),
            VmError::InvalidOperand => String::from_str(
                "invalid operand: an operand is out of range",
            ),
            VmError::DepthOverflow => String::from_str(
                "depth overflow: calls are nested too deeply",
            ),
        }
    }

    /// Different failures have different exit statuses.
    pub proof fn lemma_code_is_injective(a: VmError, b: VmError)
        requires
            a.code() == b.code(),
        ensures
            a == b,
    {
    }
}

} // verus!
