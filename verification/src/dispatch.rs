//! Decoding and executing the instruction at the instruction pointer.

use vstd::prelude::*;
use crate::arith::FloatRequest;
use crate::error::VmError;
use crate::handlers::lemma_frame_view;
use crate::instruction::Instruction;
use crate::value::{Frame, FrameView, Value, ValueView};

verus! {

/// What executing one instruction asks of the surroundings of its frame.
#[derive(Debug)]
pub enum Effect {
    /// Nothing: the next instruction can follow.
    Continue,
    /// To compute this operation and deliver its result.
    Float(FloatRequest),
    /// To print this value.
    Print(Value),
    /// To run this frame to its end and hand back its return value.
    Call(Frame),
}

/// The mathematical content of an [`Effect`].
pub ghost enum EffectView {
    Continue,
    Float(FloatRequest),
    Print(ValueView),
    Call(FrameView),
}

impl View for Effect {
    type V = EffectView;

    open spec fn view(&self) -> EffectView {
        match self {
            Effect::Continue => EffectView::Continue,
            Effect::Float(request) => EffectView::Float(*request),
            Effect::Print(value) => EffectView::Print(value@),
            Effect::Call(frame) => EffectView::Call(frame@),
        }
    }
}

/// The step of an instruction that asks nothing of the surroundings.
pub open spec fn quiet(r: Result<FrameView, VmError>) -> Result<(FrameView, EffectView), VmError> {
    match r {
        Ok(next) => Ok((next, EffectView::Continue)),
        Err(e) => Err(e),
    }
}

/// The step of an arithmetic instruction.
pub open spec fn numeric(r: Result<(FrameView, Option<FloatRequest>), VmError>) -> Result<
    (FrameView, EffectView),
    VmError,
> {
    match r {
        Ok((next, Some(request))) => Ok((next, EffectView::Float(request))),
        Ok((next, None)) => Ok((next, EffectView::Continue)),
        Err(e) => Err(e),
    }
}

impl FrameView {
    /// The step that executes the instruction at the instruction pointer: the frame
    /// that follows and what is asked of the surroundings, or the failure.
    pub open spec fn step(self) -> Result<(FrameView, EffectView), VmError>
        recommends
            self.is_running(),
    {
        match self.instructions[self.ip as int] {
            Instruction::LoadConst(arg) => quiet(self.load_const(arg)),
            Instruction::StoreName(arg) => quiet(self.store_name(arg)),
            Instruction::LoadName(arg) => quiet(self.load_name(arg)),
            Instruction::DeleteName(arg) => quiet(self.delete_name(arg)),
            Instruction::StoreFast(arg) => quiet(self.store_fast(arg)),
            Instruction::LoadFast(arg) => quiet(self.load_fast(arg)),
            Instruction::DeleteFast(arg) => quiet(self.delete_fast(arg)),
            Instruction::StoreGlobal(arg) => quiet(self.store_global(arg)),
            Instruction::LoadGlobal(arg) => quiet(self.load_global(arg)),
            Instruction::DeleteGlobal(arg) => quiet(self.delete_global(arg)),
            Instruction::CompareOp(arg) => quiet(self.compare_op(arg)),
            Instruction::JumpForward(arg) => quiet(self.jump_forward(arg)),
            Instruction::PopJumpIfTrue(arg) => quiet(self.pop_jump_if_true(arg)),
            Instruction::PopJumpIfFalse(arg) => quiet(self.pop_jump_if_false(arg)),
            Instruction::JumpIfTrueOrPop(arg) => quiet(self.jump_if_true_or_pop(arg)),
            Instruction::JumpIfFalseOrPop(arg) => quiet(self.jump_if_false_or_pop(arg)),
            Instruction::JumpAbsolute(arg) => quiet(self.jump_absolute(arg)),
            Instruction::MakeFunction(arg) => quiet(self.make_function(arg)),
            Instruction::CallFunction(arg) => match self.call_function(arg) {
                Ok((caller, callee)) => Ok((caller, EffectView::Call(callee))),
                Err(e) => Err(e),
            },
            Instruction::ReturnValue => quiet(self.return_value()),
            Instruction::InplaceAdd => numeric(self.add()),
            Instruction::InplaceSubtract => numeric(self.subtract()),
            Instruction::InplaceMultiply => numeric(self.multiply()),
            Instruction::InplaceTrueDivide => numeric(self.true_divide()),
            Instruction::InplaceFloorDivide => numeric(self.floor_divide()),
            Instruction::BinaryAdd => numeric(self.add()),
            Instruction::BinarySubtract => numeric(self.subtract()),
            Instruction::BinaryMultiply => numeric(self.multiply()),
            Instruction::BinaryTrueDivide => numeric(self.true_divide()),
            Instruction::BinaryFloorDivide => numeric(self.floor_divide()),
            Instruction::Nop => Ok((self.advanced(), EffectView::Continue)),
            Instruction::PopTop => quiet(self.pop_top()),
            Instruction::RotTwo => quiet(self.rot_two()),
            Instruction::RotThree => quiet(self.rot_three()),
            Instruction::RotFour => quiet(self.rot_four()),
            Instruction::DupTop => quiet(self.dup_top()),
            Instruction::DupTopTwo => quiet(self.dup_top_two()),
            Instruction::UnaryPositive => Ok((self.advanced(), EffectView::Continue)),
            Instruction::UnaryNegative => numeric(self.unary_negative()),
            Instruction::Print => match self.print() {
                Ok((next, value)) => Ok((next, EffectView::Print(value))),
                Err(e) => Err(e),
            },
        }
    }
}

/// Whether a method that was to take the step `expected` did so: on success the frame
/// has become the expected one and the effect is the expected one, on failure the
/// error is the expected one and the frame is as it was.
pub open spec fn stepped(
    before: FrameView,
    after: FrameView,
    r: Result<Effect, VmError>,
    expected: Result<(FrameView, EffectView), VmError>,
) -> bool {
    match expected {
        Ok((next, effect)) => r is Ok && r->Ok_0@ == effect && after == next,
        Err(e) => r is Err && r->Err_0 == e && after == before,
    }
}

/// Whether the frame that an instruction leads to, if it leads to one, has the program
/// of `frame` and its instruction pointer in that program or just behind it.
pub open spec fn settled(frame: FrameView, r: Result<FrameView, VmError>) -> bool {
    r is Ok ==> r->Ok_0.in_bounds() && r->Ok_0.instructions == frame.instructions
}

/// As [`settled`], for an arithmetic instruction: where it leads to a request, the
/// frame is as it was.
pub open spec fn settled_numeric(
    frame: FrameView,
    r: Result<(FrameView, Option<FloatRequest>), VmError>,
) -> bool {
    r is Ok ==> r->Ok_0.0.in_bounds() && r->Ok_0.0.instructions == frame.instructions && (r->Ok_0.1
        is Some ==> r->Ok_0.0 == frame)
}

/// The instructions on constants and names settle.
proof fn lemma_scope_instructions_settle(frame: FrameView, arg: usize)
    requires
        frame.is_running(),
    ensures
        settled(frame, frame.load_const(arg)),
        settled(frame, frame.store_name(arg)),
        settled(frame, frame.load_name(arg)),
        settled(frame, frame.delete_name(arg)),
        settled(frame, frame.store_fast(arg)),
        settled(frame, frame.load_fast(arg)),
        settled(frame, frame.delete_fast(arg)),
        settled(frame, frame.store_global(arg)),
        settled(frame, frame.load_global(arg)),
        settled(frame, frame.delete_global(arg)),
{
}

/// The instructions that rearrange the stack, and the return, settle.
proof fn lemma_stack_instructions_settle(frame: FrameView)
    requires
        frame.is_running(),
    ensures
        settled(frame, frame.pop_top()),
        settled(frame, frame.rot_two()),
        settled(frame, frame.rot_three()),
        settled(frame, frame.rot_four()),
        settled(frame, frame.dup_top()),
        settled(frame, frame.dup_top_two()),
        settled(frame, frame.return_value()),
{
}

/// The jumps, the comparison and the making of a function settle.
proof fn lemma_jump_instructions_settle(frame: FrameView, arg: usize)
    requires
        frame.is_running(),
    ensures
        settled(frame, frame.jump_forward(arg)),
        settled(frame, frame.jump_absolute(arg)),
        settled(frame, frame.pop_jump_if_true(arg)),
        settled(frame, frame.pop_jump_if_false(arg)),
        settled(frame, frame.jump_if_true_or_pop(arg)),
        settled(frame, frame.jump_if_false_or_pop(arg)),
        settled(frame, frame.compare_op(arg)),
        settled(frame, frame.make_function(arg)),
{
}

/// The arithmetic instructions settle.
proof fn lemma_arithmetic_instructions_settle(frame: FrameView)
    requires
        frame.is_running(),
    ensures
        settled_numeric(frame, frame.add()),
        settled_numeric(frame, frame.subtract()),
        settled_numeric(frame, frame.multiply()),
        settled_numeric(frame, frame.true_divide()),
        settled_numeric(frame, frame.floor_divide()),
        settled_numeric(frame, frame.unary_negative()),
{
}

/// A call leaves the caller on the call and starts the callee within its program.
proof fn lemma_call_settles(frame: FrameView, arg: usize)
    requires
        frame.is_running(),
        frame.call_function(arg) is Ok,
    ensures
        frame.call_function(arg)->Ok_0.0.is_running(),
        frame.call_function(arg)->Ok_0.0.instructions == frame.instructions,
        frame.call_function(arg)->Ok_0.1.in_bounds(),
{
}

/// Whether a step that succeeds leaves the program of the frame as it is and the
/// instruction pointer in the program or just behind it; leaves a frame that asks
/// for an operation as it is; and leaves a frame that makes a call on the call, with
/// the callee's instruction pointer in the callee's program or just behind it.
pub open spec fn step_settled(frame: FrameView, r: Result<(FrameView, EffectView), VmError>) -> bool {
    r is Ok ==> {
        &&& r->Ok_0.0.in_bounds()
        &&& r->Ok_0.0.instructions == frame.instructions
        &&& r->Ok_0.1 is Call ==> r->Ok_0.0.is_running() && r->Ok_0.1->Call_0.in_bounds()
        &&& r->Ok_0.1 is Float ==> r->Ok_0.0 == frame
    }
}

/// The step of an instruction that settles and asks nothing of the surroundings settles.
proof fn lemma_quiet_settles(frame: FrameView, r: Result<FrameView, VmError>)
    requires
        settled(frame, r),
    ensures
        step_settled(frame, quiet(r)),
{
}

/// The step of an arithmetic instruction that settles settles.
proof fn lemma_numeric_settles(
    frame: FrameView,
    r: Result<(FrameView, Option<FloatRequest>), VmError>,
)
    requires
        settled_numeric(frame, r),
    ensures
        step_settled(frame, numeric(r)),
{
}

/// The step of an instruction on constants or names settles.
proof fn lemma_scope_steps_settle(frame: FrameView)
    requires
        frame.is_running(),
    ensures
        match frame.instructions[frame.ip as int] {
            Instruction::LoadConst(_)
            | Instruction::StoreName(_)
            | Instruction::LoadName(_)
            | Instruction::DeleteName(_)
            | Instruction::StoreFast(_)
            | Instruction::LoadFast(_)
            | Instruction::DeleteFast(_)
            | Instruction::StoreGlobal(_)
            | Instruction::LoadGlobal(_)
            | Instruction::DeleteGlobal(_) => step_settled(frame, frame.step()),
            _ => true,
        },
{
    match frame.instructions[frame.ip as int] {
        Instruction::LoadConst(arg) => {
            lemma_scope_instructions_settle(frame, arg);
            lemma_quiet_settles(frame, frame.load_const(arg));
        },
        Instruction::StoreName(arg) => {
            lemma_scope_instructions_settle(frame, arg);
            lemma_quiet_settles(frame, frame.store_name(arg));
        },
        Instruction::LoadName(arg) => {
            lemma_scope_instructions_settle(frame, arg);
            lemma_quiet_settles(frame, frame.load_name(arg));
        },
        Instruction::DeleteName(arg) => {
            lemma_scope_instructions_settle(frame, arg);
            lemma_quiet_settles(frame, frame.delete_name(arg));
        },
        Instruction::StoreFast(arg) => {
            lemma_scope_instructions_settle(frame, arg);
            lemma_quiet_settles(frame, frame.store_fast(arg));
        },
        Instruction::LoadFast(arg) => {
            lemma_scope_instructions_settle(frame, arg);
            lemma_quiet_settles(frame, frame.load_fast(arg));
        },
        Instruction::DeleteFast(arg) => {
            lemma_scope_instructions_settle(frame, arg);
            lemma_quiet_settles(frame, frame.delete_fast(arg));
        },
        Instruction::StoreGlobal(arg) => {
            lemma_scope_instructions_settle(frame, arg);
            lemma_quiet_settles(frame, frame.store_global(arg));
        },
        Instruction::LoadGlobal(arg) => {
            lemma_scope_instructions_settle(frame, arg);
            lemma_quiet_settles(frame, frame.load_global(arg));
        },
        Instruction::DeleteGlobal(arg) => {
            lemma_scope_instructions_settle(frame, arg);
            lemma_quiet_settles(frame, frame.delete_global(arg));
        },
        _ => {},
    }
}

/// The step of a jump, a comparison, the making of a function or a call settles.
proof fn lemma_jump_steps_settle(frame: FrameView)
    requires
        frame.is_running(),
    ensures
        match frame.instructions[frame.ip as int] {
            Instruction::CompareOp(_)
            | Instruction::JumpForward(_)
            | Instruction::PopJumpIfTrue(_)
            | Instruction::PopJumpIfFalse(_)
            | Instruction::JumpIfTrueOrPop(_)
            | Instruction::JumpIfFalseOrPop(_)
            | Instruction::JumpAbsolute(_)
            | Instruction::MakeFunction(_)
            | Instruction::CallFunction(_) => step_settled(frame, frame.step()),
            _ => true,
        },
{
    match frame.instructions[frame.ip as int] {
        Instruction::CompareOp(arg) => {
            lemma_jump_instructions_settle(frame, arg);
            lemma_quiet_settles(frame, frame.compare_op(arg));
        },
        Instruction::JumpForward(arg) => {
            lemma_jump_instructions_settle(frame, arg);
            lemma_quiet_settles(frame, frame.jump_forward(arg));
        },
        Instruction::PopJumpIfTrue(arg) => {
            lemma_jump_instructions_settle(frame, arg);
            lemma_quiet_settles(frame, frame.pop_jump_if_true(arg));
        },
        Instruction::PopJumpIfFalse(arg) => {
            lemma_jump_instructions_settle(frame, arg);
            lemma_quiet_settles(frame, frame.pop_jump_if_false(arg));
        },
        Instruction::JumpIfTrueOrPop(arg) => {
            lemma_jump_instructions_settle(frame, arg);
            lemma_quiet_settles(frame, frame.jump_if_true_or_pop(arg));
        },
        Instruction::JumpIfFalseOrPop(arg) => {
            lemma_jump_instructions_settle(frame, arg);
            lemma_quiet_settles(frame, frame.jump_if_false_or_pop(arg));
        },
        Instruction::JumpAbsolute(arg) => {
            lemma_jump_instructions_settle(frame, arg);
            lemma_quiet_settles(frame, frame.jump_absolute(arg));
        },
        Instruction::MakeFunction(arg) => {
            lemma_jump_instructions_settle(frame, arg);
            lemma_quiet_settles(frame, frame.make_function(arg));
        },
        Instruction::CallFunction(arg) => {
            if frame.call_function(arg) is Ok {
                lemma_call_settles(frame, arg);
            }
        },
        _ => {},
    }
}

/// The step of an instruction that rearranges the stack, returns, prints or does
/// nothing settles.
proof fn lemma_plain_steps_settle(frame: FrameView)
    requires
        frame.is_running(),
    ensures
        match frame.instructions[frame.ip as int] {
            Instruction::ReturnValue
            | Instruction::Nop
            | Instruction::PopTop
            | Instruction::RotTwo
            | Instruction::RotThree
            | Instruction::RotFour
            | Instruction::DupTop
            | Instruction::DupTopTwo
            | Instruction::UnaryPositive
            | Instruction::Print => step_settled(frame, frame.step()),
            _ => true,
        },
{
    lemma_stack_instructions_settle(frame);
    match frame.instructions[frame.ip as int] {
        Instruction::ReturnValue => lemma_quiet_settles(frame, frame.return_value()),
        Instruction::PopTop => lemma_quiet_settles(frame, frame.pop_top()),
        Instruction::RotTwo => lemma_quiet_settles(frame, frame.rot_two()),
        Instruction::RotThree => lemma_quiet_settles(frame, frame.rot_three()),
        Instruction::RotFour => lemma_quiet_settles(frame, frame.rot_four()),
        Instruction::DupTop => lemma_quiet_settles(frame, frame.dup_top()),
        Instruction::DupTopTwo => lemma_quiet_settles(frame, frame.dup_top_two()),
        _ => {},
    }
}

/// The step of an arithmetic instruction settles.
proof fn lemma_arithmetic_steps_settle(frame: FrameView)
    requires
        frame.is_running(),
    ensures
        match frame.instructions[frame.ip as int] {
            Instruction::InplaceAdd
            | Instruction::InplaceSubtract
            | Instruction::InplaceMultiply
            | Instruction::InplaceTrueDivide
            | Instruction::InplaceFloorDivide
            | Instruction::BinaryAdd
            | Instruction::BinarySubtract
            | Instruction::BinaryMultiply
            | Instruction::BinaryTrueDivide
            | Instruction::BinaryFloorDivide
            | Instruction::UnaryNegative => step_settled(frame, frame.step()),
            _ => true,
        },
{
    lemma_arithmetic_instructions_settle(frame);
    match frame.instructions[frame.ip as int] {
        Instruction::InplaceAdd | Instruction::BinaryAdd => lemma_numeric_settles(
            frame,
            frame.add(),
        ),
        Instruction::InplaceSubtract | Instruction::BinarySubtract => lemma_numeric_settles(
            frame,
            frame.subtract(),
        ),
        Instruction::InplaceMultiply | Instruction::BinaryMultiply => lemma_numeric_settles(
            frame,
            frame.multiply(),
        ),
        Instruction::InplaceTrueDivide | Instruction::BinaryTrueDivide => lemma_numeric_settles(
            frame,
            frame.true_divide(),
        ),
        Instruction::InplaceFloorDivide | Instruction::BinaryFloorDivide => lemma_numeric_settles(
            frame,
            frame.floor_divide(),
        ),
        Instruction::UnaryNegative => lemma_numeric_settles(frame, frame.unary_negative()),
        _ => {},
    }
}

/// A step leaves the program of a frame as it is, and its instruction pointer in the
/// program or just behind it. A frame that asks for an operation stays as it is. A
/// frame that makes a call stays on the call, and the callee starts with its
/// instruction pointer in its own program or just behind it.
pub proof fn lemma_step_stays_in_bounds(frame: FrameView)
    requires
        frame.is_running(),
    ensures
        step_settled(frame, frame.step()),
{
    lemma_scope_steps_settle(frame);
    lemma_jump_steps_settle(frame);
    lemma_plain_steps_settle(frame);
    lemma_arithmetic_steps_settle(frame);
}

/// The effect of an instruction that asks nothing of the surroundings.
fn quietly(r: Result<(), VmError>) -> (effect: Result<Effect, VmError>)
    ensures
        match r {
            Ok(_) => effect is Ok && effect->Ok_0@ == EffectView::Continue,
            Err(e) => effect is Err && effect->Err_0 == e,
        },
{
    match r {
        Ok(_) => Ok(Effect::Continue),
        Err(e) => Err(e),
    }
}

/// The effect of an arithmetic instruction.
fn numerically(r: Result<Option<FloatRequest>, VmError>) -> (effect: Result<Effect, VmError>)
    ensures
        match r {
            Ok(Some(request)) => effect is Ok && effect->Ok_0@ == EffectView::Float(request),
            Ok(None) => effect is Ok && effect->Ok_0@ == EffectView::Continue,
            Err(e) => effect is Err && effect->Err_0 == e,
        },
{
    match r {
        Ok(Some(request)) => Ok(Effect::Float(request)),
        Ok(None) => Ok(Effect::Continue),
        Err(e) => Err(e),
    }
}

impl Frame {
    /// Executes the instruction at the instruction pointer.
    pub fn step(&mut self) -> (r: Result<Effect, VmError>)
        requires
            old(self)@.is_running(),
        ensures
            stepped(old(self)@, final(self)@, r, old(self)@.step()),
    {
        proof {
            lemma_frame_view(self);
        }
        let instruction = self.instructions[self.ip];
        match instruction {
            Instruction::LoadConst(arg) => quietly(self.load_const(arg)),
            Instruction::StoreName(arg) => quietly(self.store_name(arg)),
            Instruction::LoadName(arg) => quietly(self.load_name(arg)),
            Instruction::DeleteName(arg) => quietly(self.delete_name(arg)),
            Instruction::StoreFast(arg) => quietly(self.store_fast(arg)),
            Instruction::LoadFast(arg) => quietly(self.load_fast(arg)),
            Instruction::DeleteFast(arg) => quietly(self.delete_fast(arg)),
            Instruction::StoreGlobal(arg) => quietly(self.store_global(arg)),
            Instruction::LoadGlobal(arg) => quietly(self.load_global(arg)),
            Instruction::DeleteGlobal(arg) => quietly(self.delete_global(arg)),
            Instruction::CompareOp(arg) => quietly(self.compare_op(arg)),
            Instruction::JumpForward(arg) => quietly(self.jump_forward(arg)),
            Instruction::PopJumpIfTrue(arg) => quietly(self.pop_jump_if_true(arg)),
            Instruction::PopJumpIfFalse(arg) => quietly(self.pop_jump_if_false(arg)),
            Instruction::JumpIfTrueOrPop(arg) => quietly(self.jump_if_true_or_pop(arg)),
            Instruction::JumpIfFalseOrPop(arg) => quietly(self.jump_if_false_or_pop(arg)),
            Instruction::JumpAbsolute(arg) => quietly(self.jump_absolute(arg)),
            Instruction::MakeFunction(arg) => quietly(self.make_function(arg)),
            Instruction::CallFunction(arg) => match self.call_function(arg) {
                Ok(callee) => Ok(Effect::Call(callee)),
                Err(e) => Err(e),
            },
            Instruction::ReturnValue => quietly(self.return_value()),
            Instruction::InplaceAdd => numerically(self.add()),
            Instruction::InplaceSubtract => numerically(self.subtract()),
            Instruction::InplaceMultiply => numerically(self.multiply()),
            Instruction::InplaceTrueDivide => numerically(self.true_divide()),
            Instruction::InplaceFloorDivide => numerically(self.floor_divide()),
            Instruction::BinaryAdd => numerically(self.add()),
            Instruction::BinarySubtract => numerically(self.subtract()),
            Instruction::BinaryMultiply => numerically(self.multiply()),
            Instruction::BinaryTrueDivide => numerically(self.true_divide()),
            Instruction::BinaryFloorDivide => numerically(self.floor_divide()),
            Instruction::Nop => {
                self.ip += 1;
                Ok(Effect::Continue)
            },
            Instruction::PopTop => quietly(self.pop_top()),
            Instruction::RotTwo => quietly(self.rot_two()),
            Instruction::RotThree => quietly(self.rot_three()),
            Instruction::RotFour => quietly(self.rot_four()),
            Instruction::DupTop => quietly(self.dup_top()),
            Instruction::DupTopTwo => quietly(self.dup_top_two()),
            Instruction::UnaryPositive => {
                self.ip += 1;
                Ok(Effect::Continue)
            },
            Instruction::UnaryNegative => numerically(self.unary_negative()),
            Instruction::Print => match self.print() {
                Ok(value) => Ok(Effect::Print(value)),
                Err(e) => Err(e),
            },
        }
    }
}

} // verus!
