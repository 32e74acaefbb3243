//! Making frames, the built-in `print` function, and starting a machine.

use vstd::prelude::*;
use vstd::string::*;
use crate::error::VmError;
use crate::handlers::lemma_frame_view;
use crate::instruction::Instruction;
use crate::dispatch::EffectView;
use crate::machine::{ActionView, Machine, MachineView};
use crate::scope::Scope;
use crate::value::{lemma_values_view, names_view, values_view, Frame, FrameView, Value, ValueView};

verus! {

impl FrameView {
    /// A frame that has not run yet: the instruction pointer is at the first
    /// instruction, the stack and both scopes are empty, the return slot holds no
    /// value, and the depth is 0.
    pub open spec fn fresh(
        instructions: Seq<Instruction>,
        constants: Seq<ValueView>,
        names: Seq<Seq<char>>,
        fast_names: Seq<Seq<char>>,
    ) -> FrameView {
        FrameView {
            instructions,
            constants,
            names,
            fast_names,
            stack: Seq::empty(),
            ip: 0,
            globals: Map::empty(),
            locals: Map::empty(),
            return_value: Box::new(ValueView::Unit),
            depth: 0,
        }
    }

    /// The built-in function `print`: it loads its one argument and prints it.
    pub open spec fn print_function() -> FrameView {
        FrameView::fresh(
            seq![Instruction::LoadFast(0), Instruction::Print],
            seq![ValueView::Str("to_print"@)],
            Seq::empty(),
            seq!["to_print"@],
        )
    }

    /// The frame with the built-in function bound to the name `print` in its local
    /// scope.
    pub open spec fn with_print(self) -> FrameView {
        self.with_locals(
            self.locals.insert("print"@, ValueView::Callable(FrameView::print_function())),
        )
    }
}

/// A call of the built-in function with one argument prints that argument, and then
/// returns no value: three steps lead to the request to print, and the step after
/// that leaves the caller behind the call, with the absence of a value in place of
/// the function and its argument.
pub proof fn lemma_print_prints_its_argument(machine: MachineView)
    requires
        machine.frames.len() > 0,
        machine.active().is_running(),
        machine.active().instructions[machine.active().ip as int] == Instruction::CallFunction(1),
        machine.active().stack.len() >= 2,
        machine.active().peek(1) == ValueView::Callable(FrameView::print_function()),
        machine.active().depth < usize::MAX,
    ensures
        machine.run(3).1 == Ok::<ActionView, VmError>(ActionView::Print(machine.active().peek(0))),
        machine.run(3).0.step() == Ok::<(MachineView, ActionView), VmError>(
            (
                machine.replaced(
                    machine.active().with_stack(
                        machine.active().below(2).push(ValueView::Unit),
                    ).advanced(),
                ),
                ActionView::Continue,
            ),
        ),
{
    let caller = machine.active();
    let argument = caller.peek(0);
    let function = FrameView::print_function();
    let name = "to_print"@;
    assert(function.fast_names[0] == name);
    assert(function.bound_arguments(caller.stack, 0) == function.locals);
    assert(function.bound_arguments(caller.stack, 1) == function.locals.insert(name, argument));
    let waiting = caller.with_stack(caller.below(2));
    let started = caller.started(function, 1);
    assert(caller.call_function(1) == Ok::<(FrameView, FrameView), VmError>((waiting, started)));
    assert(caller.step() == Ok::<(FrameView, EffectView), VmError>(
        (waiting, EffectView::Call(started)),
    ));
    let first = MachineView { frames: machine.frames.drop_last().push(waiting).push(started) };
    assert(machine.step() == Ok::<(MachineView, ActionView), VmError>(
        (first, ActionView::Continue),
    ));
    assert(first.active() == started);
    assert(started.instructions[0] == Instruction::LoadFast(0));
    assert(started.locals.contains_key(name) && started.locals[name] == argument);
    let loaded = started.with_stack(started.stack.push(argument)).advanced();
    assert(started.load_fast(0) == Ok::<FrameView, VmError>(loaded));
    assert(started.step() == Ok::<(FrameView, EffectView), VmError>(
        (loaded, EffectView::Continue),
    ));
    let second = first.replaced(loaded);
    assert(first.step() == Ok::<(MachineView, ActionView), VmError>(
        (second, ActionView::Continue),
    ));
    assert(second.active() == loaded);
    assert(loaded.instructions[1] == Instruction::Print);
    assert(loaded.stack.drop_last() =~= started.stack);
    let printed = loaded.with_stack(loaded.stack.drop_last()).advanced();
    assert(loaded.step() == Ok::<(FrameView, EffectView), VmError>(
        (printed, EffectView::Print(argument)),
    ));
    let third = second.replaced(printed);
    assert(second.step() == Ok::<(MachineView, ActionView), VmError>(
        (third, ActionView::Print(argument)),
    ));
    assert(second.run(1) == (third, Ok::<ActionView, VmError>(ActionView::Print(argument))));
    assert(first.run(2) == second.run(1));
    assert(machine.run(3) == first.run(2));
    assert(!printed.is_running());
    assert(third.frames.len() == machine.frames.len() + 1);
    assert(third.frames[third.frames.len() - 2] == waiting);
    assert(third.frames.take(third.frames.len() - 2) =~= machine.frames.drop_last());
    assert(waiting.received(ValueView::Unit) == caller.with_stack(
        caller.below(2).push(ValueView::Unit),
    ).advanced());
}

impl Frame {
    /// A frame that has not run yet, with the given program.
    pub fn new(
        instructions: Vec<Instruction>,
        constants: Vec<Value>,
        names: Vec<String>,
        fast_names: Vec<String>,
    ) -> (frame: Frame)
        ensures
            frame@ == FrameView::fresh(
                instructions@,
                values_view(constants@),
                names_view(names@),
                names_view(fast_names@),
            ),
    {
        let frame = Frame {
            instructions,
            constants,
            names,
            fast_names,
            stack: Vec::new(),
            ip: 0,
            globals: Scope::new(),
            locals: Scope::new(),
            return_value: Box::new(Value::Unit),
            depth: 0,
        };
        proof {
            lemma_frame_view(&frame);
            lemma_values_view(frame.stack@);
            assert(frame@.stack =~= Seq::<ValueView>::empty());
        }
        frame
    }

    /// The built-in function `print`.
    pub fn create_print_frame() -> (frame: Frame)
        ensures
            frame@ == FrameView::print_function(),
    {
        let mut instructions: Vec<Instruction> = Vec::new();
        instructions.push(Instruction::LoadFast(0));
        instructions.push(Instruction::Print);
        let mut constants: Vec<Value> = Vec::new();
        constants.push(Value::Str(String::from_str("to_print")));
        let names: Vec<String> = Vec::new();
        let mut fast_names: Vec<String> = Vec::new();
        fast_names.push(String::from_str("to_print"));
        proof {
            lemma_values_view(constants@);
            assert(instructions@ =~= seq![Instruction::LoadFast(0), Instruction::Print]);
            assert(values_view(constants@) =~= seq![ValueView::Str("to_print"@)]);
            assert(names_view(names@) =~= Seq::<Seq<char>>::empty());
            assert(names_view(fast_names@) =~= seq!["to_print"@]);
        }
        Frame::new(instructions, constants, names, fast_names)
    }

    /// Binds the built-in function to the name `print` in the local scope.
    pub fn install_print(&mut self)
        ensures
            final(self)@ == old(self)@.with_print(),
    {
        proof {
            lemma_frame_view(self);
        }
        self.locals.insert(String::from_str("print"), Value::Callable(Frame::create_print_frame()));
        proof {
            lemma_frame_view(self);
        }
    }
}

impl Machine {
    /// A machine that is about to run `root` as a program: with the built-in function
    /// `print` bound in its local scope. A root frame whose instruction pointer lies
    /// beyond the end of its program is refused as an invalid operand.
    pub fn boot(root: Frame) -> (r: Result<Machine, VmError>)
        ensures
            match r {
                Ok(machine) => root@.in_bounds() && machine@.frames == seq![root@.with_print()]
                    && machine@.wf(),
                Err(e) => !root@.in_bounds() && e == VmError::InvalidOperand,
            },
    {
        let mut root = root;
        root.install_print();
        Machine::new(root)
    }
}

} // verus!
