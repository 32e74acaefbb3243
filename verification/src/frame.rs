//! What the instructions do.
//!
//! Each instruction is a function from a frame to the frame that follows it, or to the
//! failure that it ends in. The functions are stated here, on [`FrameView`]; the
//! methods of [`Frame`](crate::value::Frame) carry them out.

use vstd::prelude::*;
use crate::arith::{arith_result, deferred_request, ArithOp, FloatRequest, OutcomeView};
use crate::compare::compare_result;
use crate::error::VmError;
use crate::instruction::CompareOps;
use crate::single::truncated;
use crate::value::{FrameView, ValueView};

verus! {

impl FrameView {
    /// Whether there is an instruction left to execute.
    pub open spec fn is_running(self) -> bool {
        self.ip < self.instructions.len()
    }

    /// Whether the instruction pointer lies in the program or just behind it.
    pub open spec fn in_bounds(self) -> bool {
        self.ip <= self.instructions.len()
    }

    /// The frame with the instruction pointer moved to `target`.
    pub open spec fn at(self, target: usize) -> FrameView {
        FrameView { ip: target, ..self }
    }

    /// The frame with the instruction pointer moved to the next instruction.
    pub open spec fn advanced(self) -> FrameView {
        self.at((self.ip + 1) as usize)
    }

    /// The frame with another operand stack.
    pub open spec fn with_stack(self, stack: Seq<ValueView>) -> FrameView {
        FrameView { stack, ..self }
    }

    /// The frame with other local bindings.
    pub open spec fn with_locals(self, locals: Map<Seq<char>, ValueView>) -> FrameView {
        FrameView { locals, ..self }
    }

    /// The frame with other global bindings.
    pub open spec fn with_globals(self, globals: Map<Seq<char>, ValueView>) -> FrameView {
        FrameView { globals, ..self }
    }

    /// The value on top of the operand stack.
    pub open spec fn top(self) -> ValueView
        recommends
            self.stack.len() > 0,
    {
        self.stack.last()
    }

    /// `LoadConst`: pushes the constant at index `arg`.
    pub open spec fn load_const(self, arg: usize) -> Result<FrameView, VmError> {
        if arg >= self.constants.len() {
            Err(VmError::InvalidOperand)
        } else {
            Ok(self.with_stack(self.stack.push(self.constants[arg as int])).advanced())
        }
    }

    /// Pops the top of the stack and binds it to `name` in the local scope.
    pub open spec fn store_local(self, name: Seq<char>) -> Result<FrameView, VmError> {
        if self.stack.len() == 0 {
            Err(VmError::StackUnderflow)
        } else {
            Ok(
                self.with_locals(self.locals.insert(name, self.top())).with_stack(
                    self.stack.drop_last(),
                ).advanced(),
            )
        }
    }

    /// Pushes the value bound to `name` in the local scope.
    pub open spec fn load_local(self, name: Seq<char>) -> Result<FrameView, VmError> {
        if !self.locals.contains_key(name) {
            Err(VmError::NameError)
        } else {
            Ok(self.with_stack(self.stack.push(self.locals[name])).advanced())
        }
    }

    /// Unbinds `name` in the local scope; nothing is amiss if it was not bound.
    pub open spec fn delete_local(self, name: Seq<char>) -> FrameView {
        self.with_locals(self.locals.remove(name)).advanced()
    }

    /// `StoreName`: pops the top of the stack into the local scope, under the name at
    /// index `arg` of the name table.
    pub open spec fn store_name(self, arg: usize) -> Result<FrameView, VmError> {
        if arg >= self.names.len() {
            Err(VmError::InvalidOperand)
        } else {
            self.store_local(self.names[arg as int])
        }
    }

    /// `LoadName`: pushes what the local scope binds to the name at index `arg` of the
    /// name table.
    pub open spec fn load_name(self, arg: usize) -> Result<FrameView, VmError> {
        if arg >= self.names.len() {
            Err(VmError::InvalidOperand)
        } else {
            self.load_local(self.names[arg as int])
        }
    }

    /// `DeleteName`: unbinds, in the local scope, the name at index `arg` of the name
    /// table.
    pub open spec fn delete_name(self, arg: usize) -> Result<FrameView, VmError> {
        if arg >= self.names.len() {
            Err(VmError::InvalidOperand)
        } else {
            Ok(self.delete_local(self.names[arg as int]))
        }
    }

    /// `StoreFast`: as `StoreName`, with the name taken from the fast-name table. The
    /// scope is the same.
    pub open spec fn store_fast(self, arg: usize) -> Result<FrameView, VmError> {
        if arg >= self.fast_names.len() {
            Err(VmError::InvalidOperand)
        } else {
            self.store_local(self.fast_names[arg as int])
        }
    }

    /// `LoadFast`: as `LoadName`, with the name taken from the fast-name table.
    pub open spec fn load_fast(self, arg: usize) -> Result<FrameView, VmError> {
        if arg >= self.fast_names.len() {
            Err(VmError::InvalidOperand)
        } else {
            self.load_local(self.fast_names[arg as int])
        }
    }

    /// `DeleteFast`: as `DeleteName`, with the name taken from the fast-name table.
    pub open spec fn delete_fast(self, arg: usize) -> Result<FrameView, VmError> {
        if arg >= self.fast_names.len() {
            Err(VmError::InvalidOperand)
        } else {
            Ok(self.delete_local(self.fast_names[arg as int]))
        }
    }

    /// `StoreGlobal`: pops the top of the stack into the global scope, under the name
    /// at index `arg` of the name table.
    pub open spec fn store_global(self, arg: usize) -> Result<FrameView, VmError> {
        if arg >= self.names.len() {
            Err(VmError::InvalidOperand)
        } else if self.stack.len() == 0 {
            Err(VmError::StackUnderflow)
        } else {
            Ok(
                self.with_globals(self.globals.insert(self.names[arg as int], self.top())).with_stack(
                    self.stack.drop_last(),
                ).advanced(),
            )
        }
    }

    /// `LoadGlobal`: pushes what the global scope binds to the name at index `arg` of
    /// the name table.
    pub open spec fn load_global(self, arg: usize) -> Result<FrameView, VmError> {
        if arg >= self.names.len() {
            Err(VmError::InvalidOperand)
        } else if !self.globals.contains_key(self.names[arg as int]) {
            Err(VmError::NameError)
        } else {
            Ok(self.with_stack(self.stack.push(self.globals[self.names[arg as int]])).advanced())
        }
    }

    /// `DeleteGlobal`: unbinds, in the global scope, the name at index `arg` of the
    /// name table.
    pub open spec fn delete_global(self, arg: usize) -> Result<FrameView, VmError> {
        if arg >= self.names.len() {
            Err(VmError::InvalidOperand)
        } else {
            Ok(self.with_globals(self.globals.remove(self.names[arg as int])).advanced())
        }
    }

    /// `PopTop`: discards the top of the stack.
    pub open spec fn pop_top(self) -> Result<FrameView, VmError> {
        if self.stack.len() == 0 {
            Err(VmError::StackUnderflow)
        } else {
            Ok(self.with_stack(self.stack.drop_last()).advanced())
        }
    }

    /// The stack below its top `count` values.
    pub open spec fn below(self, count: int) -> Seq<ValueView>
        recommends
            0 <= count <= self.stack.len(),
    {
        self.stack.take(self.stack.len() - count)
    }

    /// The value `depth` places below the top of the stack; the top itself is at
    /// depth 0.
    pub open spec fn peek(self, depth: int) -> ValueView
        recommends
            0 <= depth < self.stack.len(),
    {
        self.stack[self.stack.len() - 1 - depth]
    }

    /// `RotTwo`: exchanges the top two values.
    pub open spec fn rot_two(self) -> Result<FrameView, VmError> {
        if self.stack.len() < 2 {
            Err(VmError::StackUnderflow)
        } else {
            Ok(self.with_stack(self.below(2) + seq![self.peek(0), self.peek(1)]).advanced())
        }
    }

    /// `RotThree`: moves the top value below the two values beneath it.
    pub open spec fn rot_three(self) -> Result<FrameView, VmError> {
        if self.stack.len() < 3 {
            Err(VmError::StackUnderflow)
        } else {
            Ok(
                self.with_stack(
                    self.below(3) + seq![self.peek(0), self.peek(2), self.peek(1)],
                ).advanced(),
            )
        }
    }

    /// `RotFour`: moves the top value below the three values beneath it.
    pub open spec fn rot_four(self) -> Result<FrameView, VmError> {
        if self.stack.len() < 4 {
            Err(VmError::StackUnderflow)
        } else {
            Ok(
                self.with_stack(
                    self.below(4) + seq![self.peek(0), self.peek(3), self.peek(2), self.peek(1)],
                ).advanced(),
            )
        }
    }

    /// `DupTop`: pushes a copy of the top value.
    pub open spec fn dup_top(self) -> Result<FrameView, VmError> {
        if self.stack.len() == 0 {
            Err(VmError::StackUnderflow)
        } else {
            Ok(self.with_stack(self.stack.push(self.top())).advanced())
        }
    }

    /// `DupTopTwo`: pushes a copy of the top value, then inserts, three places from the
    /// new top, a copy of the value that is found there.
    pub open spec fn dup_top_two(self) -> Result<FrameView, VmError> {
        if self.stack.len() < 2 {
            Err(VmError::StackUnderflow)
        } else {
            let pushed = self.stack.push(self.top());
            let place = pushed.len() - 3;
            Ok(self.with_stack(pushed.insert(place, pushed[place])).advanced())
        }
    }

    /// The frame with the instruction pointer at `target`, which must not lie beyond
    /// the end of the program.
    pub open spec fn jump(self, target: int) -> Result<FrameView, VmError> {
        if target > self.instructions.len() {
            Err(VmError::InvalidOperand)
        } else {
            Ok(self.at(target as usize))
        }
    }

    /// `JumpForward`: moves the instruction pointer on by half of `arg`, and then by
    /// one.
    pub open spec fn jump_forward(self, arg: usize) -> Result<FrameView, VmError> {
        self.jump(self.ip + arg / 2 + 1)
    }

    /// `JumpAbsolute`: moves the instruction pointer to half of `arg`.
    pub open spec fn jump_absolute(self, arg: usize) -> Result<FrameView, VmError> {
        self.jump(arg as int / 2)
    }

    /// Pops a truth value and jumps to half of `arg` if it is `when`; goes on to the
    /// next instruction otherwise.
    pub open spec fn pop_jump_if(self, when: bool, arg: usize) -> Result<FrameView, VmError> {
        if self.stack.len() == 0 {
            Err(VmError::StackUnderflow)
        } else {
            match self.top() {
                ValueView::Bool(b) => {
                    let popped = self.with_stack(self.stack.drop_last());
                    if b == when {
                        popped.jump(arg as int / 2)
                    } else {
                        Ok(popped.advanced())
                    }
                },
                _ => Err(VmError::TypeMismatch),
            }
        }
    }

    /// `PopJumpIfTrue`.
    pub open spec fn pop_jump_if_true(self, arg: usize) -> Result<FrameView, VmError> {
        self.pop_jump_if(true, arg)
    }

    /// `PopJumpIfFalse`.
    pub open spec fn pop_jump_if_false(self, arg: usize) -> Result<FrameView, VmError> {
        self.pop_jump_if(false, arg)
    }

    /// Looks at the truth value on top of the stack: jumps to half of `arg`, leaving
    /// the value where it is, if it is `when`; pops it and goes on to the next
    /// instruction otherwise.
    pub open spec fn jump_if_or_pop(self, when: bool, arg: usize) -> Result<FrameView, VmError> {
        if self.stack.len() == 0 {
            Err(VmError::StackUnderflow)
        } else {
            match self.top() {
                ValueView::Bool(b) => {
                    if b == when {
                        self.jump(arg as int / 2)
                    } else {
                        Ok(self.with_stack(self.stack.drop_last()).advanced())
                    }
                },
                _ => Err(VmError::TypeMismatch),
            }
        }
    }

    /// `JumpIfTrueOrPop`.
    pub open spec fn jump_if_true_or_pop(self, arg: usize) -> Result<FrameView, VmError> {
        self.jump_if_or_pop(true, arg)
    }

    /// `JumpIfFalseOrPop`.
    pub open spec fn jump_if_false_or_pop(self, arg: usize) -> Result<FrameView, VmError> {
        self.jump_if_or_pop(false, arg)
    }

    /// `CompareOp`: replaces the top two values by the truth of the comparison that
    /// `arg` names, with the lower of the two on the left.
    pub open spec fn compare_op(self, arg: usize) -> Result<FrameView, VmError> {
        if self.stack.len() < 2 {
            Err(VmError::StackUnderflow)
        } else {
            match CompareOps::decode(arg) {
                Err(e) => Err(e),
                Ok(op) => match compare_result(op, self.peek(1), self.peek(0)) {
                    Err(e) => Err(e),
                    Ok(truth) => Ok(
                        self.with_stack(self.below(2).push(ValueView::Bool(truth))).advanced(),
                    ),
                },
            }
        }
    }

    /// `MakeFunction`: expects a function on top of the stack and a string, its
    /// qualifying name, beneath it; leaves the function in place of the two. The
    /// operand must be 0.
    pub open spec fn make_function(self, arg: usize) -> Result<FrameView, VmError> {
        if arg != 0 {
            Err(VmError::InvalidOperand)
        } else if self.stack.len() < 2 {
            Err(VmError::StackUnderflow)
        } else if !(self.peek(0) is Callable && self.peek(1) is Str) {
            Err(VmError::TypeMismatch)
        } else {
            Ok(self.with_stack(self.below(2).push(self.peek(0))).advanced())
        }
    }

    /// `ReturnValue`: pops the top of the stack into the return slot and moves the
    /// instruction pointer behind the last instruction.
    pub open spec fn return_value(self) -> Result<FrameView, VmError> {
        if self.stack.len() == 0 {
            Err(VmError::StackUnderflow)
        } else {
            Ok(
                FrameView {
                    return_value: Box::new(self.top()),
                    stack: self.stack.drop_last(),
                    ip: self.instructions.len() as usize,
                    ..self
                },
            )
        }
    }

    /// Applies `op` to the top two values, the lower of the two on the left. A result
    /// replaces them; a request leaves the frame as it is.
    pub open spec fn binary(self, op: ArithOp) -> Result<(FrameView, Option<FloatRequest>), VmError> {
        if self.stack.len() < 2 {
            Err(VmError::StackUnderflow)
        } else {
            match arith_result(op, self.peek(1), self.peek(0)) {
                Err(e) => Err(e),
                Ok(OutcomeView::Ready(value)) => Ok(
                    (self.with_stack(self.below(2).push(value)).advanced(), None),
                ),
                Ok(OutcomeView::Deferred(request)) => Ok((self, Some(request))),
            }
        }
    }

    /// `BinaryAdd` and `InplaceAdd`.
    pub open spec fn add(self) -> Result<(FrameView, Option<FloatRequest>), VmError> {
        self.binary(ArithOp::Add)
    }

    /// `BinarySubtract` and `InplaceSubtract`.
    pub open spec fn subtract(self) -> Result<(FrameView, Option<FloatRequest>), VmError> {
        self.binary(ArithOp::Sub)
    }

    /// `BinaryMultiply` and `InplaceMultiply`.
    pub open spec fn multiply(self) -> Result<(FrameView, Option<FloatRequest>), VmError> {
        self.binary(ArithOp::Mul)
    }

    /// `BinaryTrueDivide` and `InplaceTrueDivide`.
    pub open spec fn true_divide(self) -> Result<(FrameView, Option<FloatRequest>), VmError> {
        self.binary(ArithOp::Div)
    }

    /// `BinaryFloorDivide` and `InplaceFloorDivide`: a division, whose quotient is
    /// truncated when it is delivered.
    pub open spec fn floor_divide(self) -> Result<(FrameView, Option<FloatRequest>), VmError> {
        self.binary(ArithOp::Div)
    }

    /// `UnaryNegative`: replaces the top value by the integer 0 minus that value.
    pub open spec fn unary_negative(self) -> Result<(FrameView, Option<FloatRequest>), VmError> {
        if self.stack.len() == 0 {
            Err(VmError::StackUnderflow)
        } else {
            match arith_result(ArithOp::Sub, ValueView::Int(0), self.top()) {
                Err(e) => Err(e),
                Ok(OutcomeView::Ready(value)) => Ok(
                    (self.with_stack(self.below(1).push(value)).advanced(), None),
                ),
                Ok(OutcomeView::Deferred(request)) => Ok((self, Some(request))),
            }
        }
    }

    /// The request that the current instruction waits on, if it waits on one.
    pub open spec fn awaited(self) -> Option<FloatRequest> {
        if !self.is_running() {
            None
        } else {
            let instruction = self.instructions[self.ip as int];
            if instruction is UnaryNegative {
                if self.stack.len() == 0 {
                    None
                } else {
                    deferred_request(ArithOp::Sub, ValueView::Int(0), self.top())
                }
            } else {
                match instruction.operator() {
                    Some(op) => if self.stack.len() < 2 {
                        None
                    } else {
                        deferred_request(op, self.peek(1), self.peek(0))
                    },
                    None => None,
                }
            }
        }
    }

    /// The frame after the bit pattern that the current instruction waited on has
    /// come: the pattern, truncated to an integer if the instruction is a floor
    /// division, replaces the operands.
    pub open spec fn delivered(self, bits: u32) -> FrameView
        recommends
            self.awaited() is Some,
    {
        let instruction = self.instructions[self.ip as int];
        if instruction is UnaryNegative {
            self.with_stack(self.below(1).push(ValueView::Float(bits))).advanced()
        } else if instruction.truncates() {
            self.with_stack(self.below(2).push(ValueView::Int(truncated(bits)))).advanced()
        } else {
            self.with_stack(self.below(2).push(ValueView::Float(bits))).advanced()
        }
    }

    /// `Print`: pops the value to be printed.
    pub open spec fn print(self) -> Result<(FrameView, ValueView), VmError> {
        if self.stack.len() == 0 {
            Err(VmError::StackUnderflow)
        } else {
            Ok((self.with_stack(self.stack.drop_last()).advanced(), self.top()))
        }
    }

    /// The local scope of a callee after the top `count` values of `stack` have been
    /// bound to its fast names: the top value to the last name, the value beneath it to
    /// the name before, and so on, in that order.
    pub open spec fn bound_arguments(self, stack: Seq<ValueView>, count: nat) -> Map<
        Seq<char>,
        ValueView,
    >
        recommends
            count <= stack.len(),
            count <= self.fast_names.len(),
        decreases count,
    {
        if count == 0 {
            self.locals
        } else {
            self.bound_arguments(stack, (count - 1) as nat).insert(
                self.fast_names[self.fast_names.len() - count],
                stack[stack.len() - count],
            )
        }
    }

    /// The frame that a call from `self` with `arg` arguments starts `callee` as: the
    /// arguments are bound, the global scope is a copy of the caller's local scope if
    /// the caller is at depth 0 and of its global scope otherwise, and the depth is one
    /// more than the caller's.
    pub open spec fn started(self, callee: FrameView, arg: usize) -> FrameView {
        FrameView {
            locals: callee.bound_arguments(self.stack, arg as nat),
            globals: if self.depth == 0 {
                self.locals
            } else {
                self.globals
            },
            depth: (self.depth + 1) as usize,
            ..callee
        }
    }

    /// `CallFunction`: takes the function that lies `arg` places below the top of the
    /// stack, and the `arg` arguments above it, off the stack. Gives the caller as it
    /// waits for the call to return, and the callee as it starts.
    pub open spec fn call_function(self, arg: usize) -> Result<(FrameView, FrameView), VmError> {
        if self.stack.len() <= arg {
            Err(VmError::StackUnderflow)
        } else {
            match self.peek(arg as int) {
                ValueView::Callable(callee) => {
                    if arg > callee.fast_names.len() {
                        Err(VmError::ArityMismatch)
                    } else if !callee.in_bounds() {
                        Err(VmError::InvalidOperand)
                    } else if self.depth == usize::MAX {
                        Err(VmError::DepthOverflow)
                    } else {
                        Ok((self.with_stack(self.below(arg + 1)), self.started(callee, arg)))
                    }
                },
                _ => Err(VmError::TypeMismatch),
            }
        }
    }

    /// The caller after a call has returned `value`: the value is pushed, and the
    /// instruction pointer moves past the call.
    pub open spec fn received(self, value: ValueView) -> FrameView {
        self.with_stack(self.stack.push(value)).advanced()
    }
}

} // verus!
