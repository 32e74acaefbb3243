//! Carrying out the instructions.
//!
//! Each method of [`Frame`] executes one kind of instruction on the frame, as the
//! function of the same name on [`FrameView`] says. A method that fails leaves its
//! frame as it was.

use vstd::prelude::*;
use crate::arith::{ArithOp, FloatRequest, Outcome};
use crate::error::VmError;
use crate::instruction::{CompareOps, Instruction};
use crate::single::truncate;
use crate::value::{lemma_values_view, values_view, Frame, FrameView, Value, ValueView};

verus! {

/// Whether a method that was to carry out `expected` did so: on success the frame has
/// become the expected one, on failure the error is the expected one and the frame is
/// as it was.
pub open spec fn carried_out(
    before: FrameView,
    after: FrameView,
    r: Result<(), VmError>,
    expected: Result<FrameView, VmError>,
) -> bool {
    match expected {
        Ok(next) => r is Ok && after == next,
        Err(e) => r == Err::<(), VmError>(e) && after == before,
    }
}

/// Whether a method that was to carry out an arithmetic instruction did so: on success
/// the frame has become the expected one and the request is the expected one, on
/// failure the error is the expected one and the frame is as it was.
pub open spec fn computed(
    before: FrameView,
    after: FrameView,
    r: Result<Option<FloatRequest>, VmError>,
    expected: Result<(FrameView, Option<FloatRequest>), VmError>,
) -> bool {
    match expected {
        Ok((next, request)) => r == Ok::<Option<FloatRequest>, VmError>(request) && after == next,
        Err(e) => r == Err::<Option<FloatRequest>, VmError>(e) && after == before,
    }
}

/// The contents of a list of values that has lost one element.
pub proof fn lemma_values_view_remove(values: Seq<Value>, i: int)
    requires
        0 <= i < values.len(),
    ensures
        values_view(values.remove(i)) == values_view(values).remove(i),
{
    lemma_values_view(values);
    lemma_values_view(values.remove(i));
    assert(values_view(values.remove(i)) =~= values_view(values).remove(i));
}

/// The contents of a list of values that has lost its last element.
pub proof fn lemma_values_view_drop_last(values: Seq<Value>)
    requires
        values.len() > 0,
    ensures
        values_view(values.drop_last()) == values_view(values).drop_last(),
        values_view(values).last() == values.last()@,
{
    lemma_values_view(values);
    lemma_values_view(values.drop_last());
    assert(values_view(values.drop_last()) =~= values_view(values).drop_last());
}

/// The contents of a list of values that has gained an element.
pub proof fn lemma_values_view_push(values: Seq<Value>, value: Value)
    ensures
        values_view(values.push(value)) == values_view(values).push(value@),
{
    lemma_values_view(values);
    lemma_values_view(values.push(value));
    assert(values_view(values.push(value)) =~= values_view(values).push(value@));
}

/// How the content of a frame follows from its fields.
pub proof fn lemma_frame_view(frame: &Frame)
    ensures
        frame@.instructions == frame.instructions@,
        frame@.instructions.len() <= usize::MAX,
        frame@.ip == frame.ip,
        frame@.depth == frame.depth,
        frame@.constants.len() == frame.constants@.len(),
        forall|i: int|
            0 <= i < frame.constants@.len() ==> (#[trigger] frame@.constants[i])
                == frame.constants@[i]@,
        frame@.stack.len() == frame.stack@.len(),
        forall|i: int|
            0 <= i < frame.stack@.len() ==> (#[trigger] frame@.stack[i]) == frame.stack@[i]@,
        frame@.names.len() == frame.names@.len(),
        forall|i: int|
            0 <= i < frame.names@.len() ==> (#[trigger] frame@.names[i]) == frame.names@[i]@,
        frame@.fast_names.len() == frame.fast_names@.len(),
        forall|i: int|
            0 <= i < frame.fast_names@.len() ==> (#[trigger] frame@.fast_names[i])
                == frame.fast_names@[i]@,
        frame@.locals == frame.locals@,
        frame@.globals == frame.globals@,
        *frame@.return_value == (*frame.return_value)@,
{
    lemma_values_view(frame.constants@);
    lemma_values_view(frame.stack@);
    assert(frame.instructions@.len() == frame.instructions.len());
}

impl Frame {
    /// Pushes `value` onto the operand stack.
    fn push(&mut self, value: Value)
        ensures
            final(self)@ == old(self)@.with_stack(old(self)@.stack.push(value@)),
    {
        proof {
            lemma_values_view_push(self.stack@, value);
        }
        self.stack.push(value);
    }

    /// Pops the top of the operand stack.
    fn pop(&mut self) -> (value: Value)
        requires
            old(self)@.stack.len() > 0,
        ensures
            value@ == old(self)@.top(),
            final(self)@ == old(self)@.with_stack(old(self)@.stack.drop_last()),
    {
        proof {
            lemma_values_view_drop_last(self.stack@);
        }
        self.stack.pop().unwrap()
    }

    /// Moves the instruction pointer to the next instruction.
    fn advance(&mut self)
        requires
            old(self)@.is_running(),
        ensures
            final(self)@ == old(self)@.advanced(),
    {
        proof {
            lemma_frame_view(self);
        }
        self.ip += 1;
    }

    /// Executes `LoadConst(arg)`.
    pub fn load_const(&mut self, arg: usize) -> (r: Result<(), VmError>)
        requires
            old(self)@.is_running(),
        ensures
            carried_out(old(self)@, final(self)@, r, old(self)@.load_const(arg)),
    {
        proof {
            lemma_frame_view(self);
        }
        if arg >= self.constants.len() {
            return Err(VmError::InvalidOperand);
        }
        let value = self.constants[arg].clone();
        self.push(value);
        self.advance();
        Ok(())
    }

    /// Pops the top of the stack and binds it to `name` in the local scope.
    fn store_local(&mut self, name: String) -> (r: Result<(), VmError>)
        requires
            old(self)@.is_running(),
        ensures
            carried_out(old(self)@, final(self)@, r, old(self)@.store_local(name@)),
    {
        proof {
            lemma_frame_view(self);
        }
        if self.stack.len() == 0 {
            return Err(VmError::StackUnderflow);
        }
        let value = self.pop();
        self.locals.insert(name, value);
        self.advance();
        Ok(())
    }

    /// Pushes the value bound to `name` in the local scope.
    fn load_local(&mut self, name: &String) -> (r: Result<(), VmError>)
        requires
            old(self)@.is_running(),
        ensures
            carried_out(old(self)@, final(self)@, r, old(self)@.load_local(name@)),
    {
        proof {
            lemma_frame_view(self);
        }
        let value = match self.locals.get(name) {
            Some(value) => value.clone(),
            None => {
                return Err(VmError::NameError);
            },
        };
        self.push(value);
        self.advance();
        Ok(())
    }

    /// Unbinds `name` in the local scope.
    fn delete_local(&mut self, name: &String)
        requires
            old(self)@.is_running(),
        ensures
            final(self)@ == old(self)@.delete_local(name@),
    {
        self.locals.remove(name);
        self.advance();
    }

    /// Executes `StoreName(arg)`.
    pub fn store_name(&mut self, arg: usize) -> (r: Result<(), VmError>)
        requires
            old(self)@.is_running(),
        ensures
            carried_out(old(self)@, final(self)@, r, old(self)@.store_name(arg)),
    {
        proof {
            lemma_frame_view(self);
        }
        if arg >= self.names.len() {
            return Err(VmError::InvalidOperand);
        }
        let name = self.names[arg].clone();
        self.store_local(name)
    }

    /// Executes `LoadName(arg)`.
    pub fn load_name(&mut self, arg: usize) -> (r: Result<(), VmError>)
        requires
            old(self)@.is_running(),
        ensures
            carried_out(old(self)@, final(self)@, r, old(self)@.load_name(arg)),
    {
        proof {
            lemma_frame_view(self);
        }
        if arg >= self.names.len() {
            return Err(VmError::InvalidOperand);
        }
        let name = self.names[arg].clone();
        self.load_local(&name)
    }

    /// Executes `DeleteName(arg)`.
    pub fn delete_name(&mut self, arg: usize) -> (r: Result<(), VmError>)
        requires
            old(self)@.is_running(),
        ensures
            carried_out(old(self)@, final(self)@, r, old(self)@.delete_name(arg)),
    {
        proof {
            lemma_frame_view(self);
        }
        if arg >= self.names.len() {
            return Err(VmError::InvalidOperand);
        }
        let name = self.names[arg].clone();
        self.delete_local(&name);
        Ok(())
    }

    /// Executes `StoreFast(arg)`.
    pub fn store_fast(&mut self, arg: usize) -> (r: Result<(), VmError>)
        requires
            old(self)@.is_running(),
        ensures
            carried_out(old(self)@, final(self)@, r, old(self)@.store_fast(arg)),
    {
        proof {
            lemma_frame_view(self);
        }
        if arg >= self.fast_names.len() {
            return Err(VmError::InvalidOperand);
        }
        let name = self.fast_names[arg].clone();
        self.store_local(name)
    }

    /// Executes `LoadFast(arg)`.
    pub fn load_fast(&mut self, arg: usize) -> (r: Result<(), VmError>)
        requires
            old(self)@.is_running(),
        ensures
            carried_out(old(self)@, final(self)@, r, old(self)@.load_fast(arg)),
    {
        proof {
            lemma_frame_view(self);
        }
        if arg >= self.fast_names.len() {
            return Err(VmError::InvalidOperand);
        }
        let name = self.fast_names[arg].clone();
        self.load_local(&name)
    }

    /// Executes `DeleteFast(arg)`.
    pub fn delete_fast(&mut self, arg: usize) -> (r: Result<(), VmError>)
        requires
            old(self)@.is_running(),
        ensures
            carried_out(old(self)@, final(self)@, r, old(self)@.delete_fast(arg)),
    {
        proof {
            lemma_frame_view(self);
        }
        if arg >= self.fast_names.len() {
            return Err(VmError::InvalidOperand);
        }
        let name = self.fast_names[arg].clone();
        self.delete_local(&name);
        Ok(())
    }

    /// Executes `StoreGlobal(arg)`.
    pub fn store_global(&mut self, arg: usize) -> (r: Result<(), VmError>)
        requires
            old(self)@.is_running(),
        ensures
            carried_out(old(self)@, final(self)@, r, old(self)@.store_global(arg)),
    {
        proof {
            lemma_frame_view(self);
        }
        if arg >= self.names.len() {
            return Err(VmError::InvalidOperand);
        }
        if self.stack.len() == 0 {
            return Err(VmError::StackUnderflow);
        }
        let name = self.names[arg].clone();
        let value = self.pop();
        self.globals.insert(name, value);
        self.advance();
        Ok(())
    }

    /// Executes `LoadGlobal(arg)`.
    pub fn load_global(&mut self, arg: usize) -> (r: Result<(), VmError>)
        requires
            old(self)@.is_running(),
        ensures
            carried_out(old(self)@, final(self)@, r, old(self)@.load_global(arg)),
    {
        proof {
            lemma_frame_view(self);
        }
        if arg >= self.names.len() {
            return Err(VmError::InvalidOperand);
        }
        let value = match self.globals.get(&self.names[arg]) {
            Some(value) => value.clone(),
            None => {
                return Err(VmError::NameError);
            },
        };
        self.push(value);
        self.advance();
        Ok(())
    }

    /// Executes `DeleteGlobal(arg)`.
    pub fn delete_global(&mut self, arg: usize) -> (r: Result<(), VmError>)
        requires
            old(self)@.is_running(),
        ensures
            carried_out(old(self)@, final(self)@, r, old(self)@.delete_global(arg)),
    {
        proof {
            lemma_frame_view(self);
        }
        if arg >= self.names.len() {
            return Err(VmError::InvalidOperand);
        }
        let name = self.names[arg].clone();
        self.globals.remove(&name);
        self.advance();
        Ok(())
    }
    /// Executes `PopTop`.
    pub fn pop_top(&mut self) -> (r: Result<(), VmError>)
        requires
            old(self)@.is_running(),
        ensures
            carried_out(old(self)@, final(self)@, r, old(self)@.pop_top()),
    {
        proof {
            lemma_frame_view(self);
        }
        if self.stack.len() == 0 {
            return Err(VmError::StackUnderflow);
        }
        let _ = self.pop();
        self.advance();
        Ok(())
    }

    /// Executes `RotTwo`.
    pub fn rot_two(&mut self) -> (r: Result<(), VmError>)
        requires
            old(self)@.is_running(),
        ensures
            carried_out(old(self)@, final(self)@, r, old(self)@.rot_two()),
    {
        proof {
            lemma_frame_view(self);
        }
        if self.stack.len() < 2 {
            return Err(VmError::StackUnderflow);
        }
        let first = self.pop();
        let second = self.pop();
        self.push(first);
        self.push(second);
        self.advance();
        proof {
            let before = old(self)@;
            assert(self@.stack =~= before.below(2) + seq![before.peek(0), before.peek(1)]);
        }
        Ok(())
    }

    /// Executes `RotThree`.
    pub fn rot_three(&mut self) -> (r: Result<(), VmError>)
        requires
            old(self)@.is_running(),
        ensures
            carried_out(old(self)@, final(self)@, r, old(self)@.rot_three()),
    {
        proof {
            lemma_frame_view(self);
        }
        if self.stack.len() < 3 {
            return Err(VmError::StackUnderflow);
        }
        let first = self.pop();
        let second = self.pop();
        let third = self.pop();
        self.push(first);
        self.push(third);
        self.push(second);
        self.advance();
        proof {
            let before = old(self)@;
            assert(self@.stack =~= before.below(3) + seq![
                before.peek(0),
                before.peek(2),
                before.peek(1),
            ]);
        }
        Ok(())
    }

    /// Executes `RotFour`.
    pub fn rot_four(&mut self) -> (r: Result<(), VmError>)
        requires
            old(self)@.is_running(),
        ensures
            carried_out(old(self)@, final(self)@, r, old(self)@.rot_four()),
    {
        proof {
            lemma_frame_view(self);
        }
        if self.stack.len() < 4 {
            return Err(VmError::StackUnderflow);
        }
        let first = self.pop();
        let second = self.pop();
        let third = self.pop();
        let fourth = self.pop();
        self.push(first);
        self.push(fourth);
        self.push(third);
        self.push(second);
        self.advance();
        proof {
            let before = old(self)@;
            assert(self@.stack =~= before.below(4) + seq![
                before.peek(0),
                before.peek(3),
                before.peek(2),
                before.peek(1),
            ]);
        }
        Ok(())
    }

    /// Executes `DupTop`.
    pub fn dup_top(&mut self) -> (r: Result<(), VmError>)
        requires
            old(self)@.is_running(),
        ensures
            carried_out(old(self)@, final(self)@, r, old(self)@.dup_top()),
    {
        proof {
            lemma_frame_view(self);
        }
        let height = self.stack.len();
        if height == 0 {
            return Err(VmError::StackUnderflow);
        }
        let copy = self.stack[height - 1].clone();
        self.push(copy);
        self.advance();
        Ok(())
    }

    /// Executes `DupTopTwo`.
    pub fn dup_top_two(&mut self) -> (r: Result<(), VmError>)
        requires
            old(self)@.is_running(),
        ensures
            carried_out(old(self)@, final(self)@, r, old(self)@.dup_top_two()),
    {
        proof {
            lemma_frame_view(self);
        }
        let height = self.stack.len();
        if height < 2 {
            return Err(VmError::StackUnderflow);
        }
        let top = self.stack[height - 1].clone();
        self.push(top);
        proof {
            lemma_frame_view(self);
        }
        let ghost pushed = self@.stack;
        let ghost inner = self.stack@;
        let found = self.stack[height - 2].clone();
        proof {
            lemma_values_view(inner);
            lemma_values_view(inner.insert(height - 2, found));
            assert(values_view(inner.insert(height - 2, found)) =~= pushed.insert(
                height - 2,
                pushed[height - 2],
            ));
        }
        self.stack.insert(height - 2, found);
        self.advance();
        Ok(())
    }

    /// Moves the instruction pointer to `target`, if that is not beyond the end of the
    /// program.
    fn jump(&mut self, target: usize) -> (r: Result<(), VmError>)
        ensures
            carried_out(old(self)@, final(self)@, r, old(self)@.jump(target as int)),
    {
        proof {
            lemma_frame_view(self);
        }
        if target > self.instructions.len() {
            return Err(VmError::InvalidOperand);
        }
        self.ip = target;
        Ok(())
    }

    /// Executes `JumpForward(arg)`.
    pub fn jump_forward(&mut self, arg: usize) -> (r: Result<(), VmError>)
        requires
            old(self)@.is_running(),
        ensures
            carried_out(old(self)@, final(self)@, r, old(self)@.jump_forward(arg)),
    {
        proof {
            lemma_frame_view(self);
        }
        let room = self.instructions.len() - self.ip;
        if arg / 2 >= room {
            return Err(VmError::InvalidOperand);
        }
        let target = self.ip + arg / 2 + 1;
        self.jump(target)
    }

    /// Executes `JumpAbsolute(arg)`.
    pub fn jump_absolute(&mut self, arg: usize) -> (r: Result<(), VmError>)
        requires
            old(self)@.is_running(),
        ensures
            carried_out(old(self)@, final(self)@, r, old(self)@.jump_absolute(arg)),
    {
        self.jump(arg / 2)
    }

    /// The truth value on top of the stack.
    fn top_truth(&self) -> (r: Result<bool, VmError>)
        ensures
            match r {
                Ok(b) => self@.stack.len() > 0 && self@.top() == ValueView::Bool(b),
                Err(e) => if self@.stack.len() == 0 {
                    e == VmError::StackUnderflow
                } else {
                    e == VmError::TypeMismatch && !(self@.top() is Bool)
                },
            },
    {
        proof {
            lemma_frame_view(self);
        }
        let height = self.stack.len();
        if height == 0 {
            return Err(VmError::StackUnderflow);
        }
        match &self.stack[height - 1] {
            Value::Bool(b) => Ok(*b),
            _ => Err(VmError::TypeMismatch),
        }
    }

    /// Pops a truth value and jumps if it is `when`.
    fn pop_jump_if(&mut self, when: bool, arg: usize) -> (r: Result<(), VmError>)
        requires
            old(self)@.is_running(),
        ensures
            carried_out(old(self)@, final(self)@, r, old(self)@.pop_jump_if(when, arg)),
    {
        proof {
            lemma_frame_view(self);
        }
        let truth = match self.top_truth() {
            Ok(b) => b,
            Err(e) => {
                return Err(e);
            },
        };
        if truth == when {
            if arg / 2 > self.instructions.len() {
                return Err(VmError::InvalidOperand);
            }
            let _ = self.pop();
            self.jump(arg / 2)
        } else {
            let _ = self.pop();
            self.advance();
            Ok(())
        }
    }

    /// Executes `PopJumpIfTrue(arg)`.
    pub fn pop_jump_if_true(&mut self, arg: usize) -> (r: Result<(), VmError>)
        requires
            old(self)@.is_running(),
        ensures
            carried_out(old(self)@, final(self)@, r, old(self)@.pop_jump_if_true(arg)),
    {
        self.pop_jump_if(true, arg)
    }

    /// Executes `PopJumpIfFalse(arg)`.
    pub fn pop_jump_if_false(&mut self, arg: usize) -> (r: Result<(), VmError>)
        requires
            old(self)@.is_running(),
        ensures
            carried_out(old(self)@, final(self)@, r, old(self)@.pop_jump_if_false(arg)),
    {
        self.pop_jump_if(false, arg)
    }

    /// Jumps if the truth value on top of the stack is `when`, and pops it otherwise.
    fn jump_if_or_pop(&mut self, when: bool, arg: usize) -> (r: Result<(), VmError>)
        requires
            old(self)@.is_running(),
        ensures
            carried_out(old(self)@, final(self)@, r, old(self)@.jump_if_or_pop(when, arg)),
    {
        let truth = match self.top_truth() {
            Ok(b) => b,
            Err(e) => {
                return Err(e);
            },
        };
        if truth == when {
            self.jump(arg / 2)
        } else {
            let _ = self.pop();
            self.advance();
            Ok(())
        }
    }

    /// Executes `JumpIfTrueOrPop(arg)`.
    pub fn jump_if_true_or_pop(&mut self, arg: usize) -> (r: Result<(), VmError>)
        requires
            old(self)@.is_running(),
        ensures
            carried_out(old(self)@, final(self)@, r, old(self)@.jump_if_true_or_pop(arg)),
    {
        self.jump_if_or_pop(true, arg)
    }

    /// Executes `JumpIfFalseOrPop(arg)`.
    pub fn jump_if_false_or_pop(&mut self, arg: usize) -> (r: Result<(), VmError>)
        requires
            old(self)@.is_running(),
        ensures
            carried_out(old(self)@, final(self)@, r, old(self)@.jump_if_false_or_pop(arg)),
    {
        self.jump_if_or_pop(false, arg)
    }

    /// Replaces the top `count` values of the stack by `value`.
    fn replace_top(&mut self, count: usize, value: Value)
        requires
            count <= old(self)@.stack.len(),
        ensures
            final(self)@ == old(self)@.with_stack(old(self)@.below(count as int).push(value@)),
    {
        let mut left: usize = count;
        proof {
            let before = old(self)@;
            assert(before.below(0) =~= before.stack);
        }
        while left > 0
            invariant
                left <= count <= old(self)@.stack.len(),
                self@ == old(self)@.with_stack(old(self)@.below(count - left)),
            decreases left,
        {
            let _ = self.pop();
            left -= 1;
            proof {
                let before = old(self)@;
                assert(before.below(count - left - 1).drop_last() =~= before.below(count - left));
            }
        }
        self.push(value);
    }

    /// Executes `CompareOp(arg)`.
    pub fn compare_op(&mut self, arg: usize) -> (r: Result<(), VmError>)
        requires
            old(self)@.is_running(),
        ensures
            carried_out(old(self)@, final(self)@, r, old(self)@.compare_op(arg)),
    {
        proof {
            lemma_frame_view(self);
        }
        let height = self.stack.len();
        if height < 2 {
            return Err(VmError::StackUnderflow);
        }
        let op = match CompareOps::from(arg) {
            Ok(op) => op,
            Err(e) => {
                return Err(e);
            },
        };
        let truth = match self.stack[height - 2].compare(op, &self.stack[height - 1]) {
            Ok(truth) => truth,
            Err(e) => {
                return Err(e);
            },
        };
        self.replace_top(2, Value::Bool(truth));
        self.advance();
        Ok(())
    }

    /// Executes `MakeFunction(arg)`.
    pub fn make_function(&mut self, arg: usize) -> (r: Result<(), VmError>)
        requires
            old(self)@.is_running(),
        ensures
            carried_out(old(self)@, final(self)@, r, old(self)@.make_function(arg)),
    {
        proof {
            lemma_frame_view(self);
        }
        if arg != 0 {
            return Err(VmError::InvalidOperand);
        }
        let height = self.stack.len();
        if height < 2 {
            return Err(VmError::StackUnderflow);
        }
        let well_shaped = match (&self.stack[height - 1], &self.stack[height - 2]) {
            (Value::Callable(_), Value::Str(_)) => true,
            _ => false,
        };
        if !well_shaped {
            return Err(VmError::TypeMismatch);
        }
        let function = self.pop();
        self.replace_top(1, function);
        self.advance();
        proof {
            let before = old(self)@;
            assert(before.with_stack(before.stack.drop_last()).below(1) =~= before.below(2));
        }
        Ok(())
    }

    /// Executes `ReturnValue`.
    pub fn return_value(&mut self) -> (r: Result<(), VmError>)
        requires
            old(self)@.is_running(),
        ensures
            carried_out(old(self)@, final(self)@, r, old(self)@.return_value()),
    {
        proof {
            lemma_frame_view(self);
        }
        if self.stack.len() == 0 {
            return Err(VmError::StackUnderflow);
        }
        let value = self.pop();
        self.return_value = Box::new(value);
        self.ip = self.instructions.len();
        proof {
            lemma_frame_view(self);
        }
        Ok(())
    }
    /// Applies `op` to the top two values.
    fn binary(&mut self, op: ArithOp) -> (r: Result<Option<FloatRequest>, VmError>)
        requires
            old(self)@.is_running(),
        ensures
            computed(old(self)@, final(self)@, r, old(self)@.binary(op)),
    {
        proof {
            lemma_frame_view(self);
        }
        let height = self.stack.len();
        if height < 2 {
            return Err(VmError::StackUnderflow);
        }
        let outcome = match self.stack[height - 2].arith(op, &self.stack[height - 1]) {
            Ok(outcome) => outcome,
            Err(e) => {
                return Err(e);
            },
        };
        match outcome {
            Outcome::Ready(value) => {
                self.replace_top(2, value);
                self.advance();
                Ok(None)
            },
            Outcome::Deferred(request) => Ok(Some(request)),
        }
    }

    /// Executes `BinaryAdd` or `InplaceAdd`.
    pub fn add(&mut self) -> (r: Result<Option<FloatRequest>, VmError>)
        requires
            old(self)@.is_running(),
        ensures
            computed(old(self)@, final(self)@, r, old(self)@.add()),
    {
        self.binary(ArithOp::Add)
    }

    /// Executes `BinarySubtract` or `InplaceSubtract`.
    pub fn subtract(&mut self) -> (r: Result<Option<FloatRequest>, VmError>)
        requires
            old(self)@.is_running(),
        ensures
            computed(old(self)@, final(self)@, r, old(self)@.subtract()),
    {
        self.binary(ArithOp::Sub)
    }

    /// Executes `BinaryMultiply` or `InplaceMultiply`.
    pub fn multiply(&mut self) -> (r: Result<Option<FloatRequest>, VmError>)
        requires
            old(self)@.is_running(),
        ensures
            computed(old(self)@, final(self)@, r, old(self)@.multiply()),
    {
        self.binary(ArithOp::Mul)
    }

    /// Executes `BinaryTrueDivide` or `InplaceTrueDivide`.
    pub fn true_divide(&mut self) -> (r: Result<Option<FloatRequest>, VmError>)
        requires
            old(self)@.is_running(),
        ensures
            computed(old(self)@, final(self)@, r, old(self)@.true_divide()),
    {
        self.binary(ArithOp::Div)
    }

    /// Executes `BinaryFloorDivide` or `InplaceFloorDivide`.
    pub fn floor_divide(&mut self) -> (r: Result<Option<FloatRequest>, VmError>)
        requires
            old(self)@.is_running(),
        ensures
            computed(old(self)@, final(self)@, r, old(self)@.floor_divide()),
    {
        self.binary(ArithOp::Div)
    }

    /// Executes `UnaryNegative`.
    pub fn unary_negative(&mut self) -> (r: Result<Option<FloatRequest>, VmError>)
        requires
            old(self)@.is_running(),
        ensures
            computed(old(self)@, final(self)@, r, old(self)@.unary_negative()),
    {
        proof {
            lemma_frame_view(self);
        }
        let height = self.stack.len();
        if height == 0 {
            return Err(VmError::StackUnderflow);
        }
        let zero = Value::Int(0);
        let outcome = match zero.arith(ArithOp::Sub, &self.stack[height - 1]) {
            Ok(outcome) => outcome,
            Err(e) => {
                return Err(e);
            },
        };
        match outcome {
            Outcome::Ready(value) => {
                self.replace_top(1, value);
                self.advance();
                Ok(None)
            },
            Outcome::Deferred(request) => Ok(Some(request)),
        }
    }

    /// The request that the current instruction waits on, if it waits on one.
    pub fn awaits(&self) -> (r: Option<FloatRequest>)
        ensures
            r == self@.awaited(),
    {
        proof {
            lemma_frame_view(self);
        }
        if self.ip >= self.instructions.len() {
            return None;
        }
        let instruction = self.instructions[self.ip];
        let height = self.stack.len();
        if matches!(instruction, Instruction::UnaryNegative) {
            if height == 0 {
                return None;
            }
            let zero = Value::Int(0);
            return zero.deferred(ArithOp::Sub, &self.stack[height - 1]);
        }
        match instruction.operator_of() {
            Some(op) => {
                if height < 2 {
                    None
                } else {
                    self.stack[height - 2].deferred(op, &self.stack[height - 1])
                }
            },
            None => None,
        }
    }

    /// Hands the frame the bit pattern that its current instruction waits on. A frame
    /// that waits on none refuses it and stays as it is.
    pub fn deliver(&mut self, bits: u32) -> (accepted: bool)
        ensures
            accepted == (old(self)@.awaited() is Some),
            accepted ==> final(self)@ == old(self)@.delivered(bits),
            !accepted ==> final(self)@ == old(self)@,
    {
        proof {
            lemma_frame_view(self);
        }
        if self.awaits().is_none() {
            return false;
        }
        let instruction = self.instructions[self.ip];
        if matches!(instruction, Instruction::UnaryNegative) {
            self.replace_top(1, Value::Float(bits));
        } else if instruction.is_floor_division() {
            self.replace_top(2, Value::Int(truncate(bits)));
        } else {
            self.replace_top(2, Value::Float(bits));
        }
        self.advance();
        true
    }

    /// Executes `Print`: gives the value to be printed.
    pub fn print(&mut self) -> (r: Result<Value, VmError>)
        requires
            old(self)@.is_running(),
        ensures
            match old(self)@.print() {
                Ok((next, value)) => r is Ok && r->Ok_0@ == value && final(self)@ == next,
                Err(e) => r is Err && r->Err_0 == e && final(self)@ == old(self)@,
            },
    {
        proof {
            lemma_frame_view(self);
        }
        if self.stack.len() == 0 {
            return Err(VmError::StackUnderflow);
        }
        let value = self.pop();
        self.advance();
        Ok(value)
    }

    /// Takes the value `depth` places below the top out of the stack.
    fn take_at(&mut self, depth: usize) -> (value: Value)
        requires
            depth < old(self)@.stack.len(),
        ensures
            value@ == old(self)@.peek(depth as int),
            final(self)@ == old(self)@.with_stack(
                old(self)@.stack.remove(old(self)@.stack.len() - 1 - depth),
            ),
    {
        proof {
            lemma_frame_view(self);
            lemma_values_view_remove(self.stack@, self.stack@.len() - 1 - depth);
        }
        let place = self.stack.len() - 1 - depth;
        self.stack.remove(place)
    }

    /// Binds `value` to the fast name at `index` in the local scope.
    fn bind(&mut self, index: usize, value: Value)
        requires
            index < old(self)@.fast_names.len(),
        ensures
            final(self)@ == old(self)@.with_locals(
                old(self)@.locals.insert(old(self)@.fast_names[index as int], value@),
            ),
    {
        proof {
            lemma_frame_view(self);
        }
        let name = self.fast_names[index].clone();
        self.locals.insert(name, value);
    }

    /// Executes `CallFunction(arg)` as far as the caller is concerned: takes the
    /// function and its arguments off the stack and gives the callee, ready to run. The
    /// instruction pointer stays on the call until the callee's return value is
    /// received.
    pub fn call_function(&mut self, arg: usize) -> (r: Result<Frame, VmError>)
        requires
            old(self)@.is_running(),
        ensures
            match old(self)@.call_function(arg) {
                Ok((caller, callee)) => r is Ok && r->Ok_0@ == callee && final(self)@ == caller,
                Err(e) => r is Err && r->Err_0 == e && final(self)@ == old(self)@,
            },
    {
        proof {
            lemma_frame_view(self);
        }
        let height = self.stack.len();
        if height <= arg {
            return Err(VmError::StackUnderflow);
        }
        match &self.stack[height - 1 - arg] {
            Value::Callable(callee) => {
                proof {
                    lemma_frame_view(callee);
                }
                if arg > callee.fast_names.len() {
                    return Err(VmError::ArityMismatch);
                }
                if callee.ip > callee.instructions.len() {
                    return Err(VmError::InvalidOperand);
                }
            },
            _ => {
                return Err(VmError::TypeMismatch);
            },
        }
        if self.depth == usize::MAX {
            return Err(VmError::DepthOverflow);
        }
        let mut callee = match self.take_at(arg) {
            Value::Callable(callee) => callee,
            _ => {
                proof {
                    assert(false);
                }
                return Err(VmError::TypeMismatch);
            },
        };
        let ghost before = old(self)@;
        let ghost fresh = callee@;
        let slots = callee.fast_names.len();
        proof {
            lemma_frame_view(&callee);
            assert(before.stack.remove(height - 1 - arg).take(height - 1) =~= before.stack.remove(
                height - 1 - arg,
            ));
        }
        let mut bound: usize = 0;
        while bound < arg
            invariant
                bound <= arg < height,
                height == before.stack.len(),
                arg <= slots,
                slots == fresh.fast_names.len(),
                self@ == before.with_stack(
                    before.stack.remove(height - 1 - arg).take(height - 1 - bound),
                ),
                callee@ == fresh.with_locals(fresh.bound_arguments(before.stack, bound as nat)),
            decreases arg - bound,
        {
            let value = self.pop();
            callee.bind(slots - 1 - bound, value);
            bound += 1;
            proof {
                let shorter = before.stack.remove(height - 1 - arg);
                assert(shorter.take(height - bound).drop_last() =~= shorter.take(height - 1 - bound));
                assert(shorter.take(height - bound).last() == before.stack[height - bound]);
            }
        }
        callee.globals = if self.depth == 0 {
            self.locals.clone()
        } else {
            self.globals.clone()
        };
        callee.depth = self.depth + 1;
        proof {
            lemma_frame_view(self);
            lemma_frame_view(&callee);
            assert(before.stack.remove(height - 1 - arg).take(height - 1 - arg) =~= before.below(
                arg + 1,
            ));
        }
        Ok(callee)
    }

    /// Receives the value that the call at the instruction pointer has returned.
    pub fn receive(&mut self, value: Value)
        requires
            old(self)@.is_running(),
        ensures
            final(self)@ == old(self)@.received(value@),
    {
        self.push(value);
        self.advance();
    }
}

} // verus!
