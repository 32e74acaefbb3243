//! The machine: a stack of frames, of which the last one runs.
//!
//! The machine executes one instruction at a time. A call puts the callee on top of
//! the caller; when a frame has run to its end, its return value goes to the frame
//! beneath it. What the machine cannot do itself it asks of the program that embeds
//! it, as an [`Action`]: to print a value, or to compute an operation on
//! single-precision numbers and to [`Machine::deliver`] the result.

use vstd::prelude::*;
use crate::arith::FloatRequest;
use crate::dispatch::{lemma_step_stays_in_bounds, step_settled, Effect, EffectView};
use crate::error::VmError;
use crate::handlers::lemma_frame_view;
use crate::value::{Frame, FrameView, Value, ValueView};

verus! {

/// What the machine asks of the program that embeds it after a step or a run.
#[derive(Debug)]
pub enum Action {
    /// To go on: there is more to execute.
    Continue,
    /// To compute this operation, deliver its result, and go on.
    Float(FloatRequest),
    /// To print this value, and go on.
    Print(Value),
    /// Nothing more: the root frame has run to its end.
    Halt,
}

/// The mathematical content of an [`Action`].
pub ghost enum ActionView {
    Continue,
    Float(FloatRequest),
    Print(ValueView),
    Halt,
}

impl View for Action {
    type V = ActionView;

    open spec fn view(&self) -> ActionView {
        match self {
            Action::Continue => ActionView::Continue,
            Action::Float(request) => ActionView::Float(*request),
            Action::Print(value) => ActionView::Print(value@),
            Action::Halt => ActionView::Halt,
        }
    }
}

/// The content of a result that may hold an action.
pub open spec fn action_view(r: Result<Action, VmError>) -> Result<ActionView, VmError> {
    match r {
        Ok(action) => Ok(action@),
        Err(e) => Err(e),
    }
}

/// A virtual machine.
#[derive(Debug)]
pub struct Machine {
    frames: Vec<Frame>,
}

/// The mathematical content of a [`Machine`]: its frames, the root frame first and
/// the running frame last.
pub ghost struct MachineView {
    pub frames: Seq<FrameView>,
}

/// The contents of a sequence of frames, element by element.
pub open spec fn frames_view(frames: Seq<Frame>) -> Seq<FrameView> {
    Seq::new(frames.len(), |i: int| frames[i]@)
}

impl View for Machine {
    type V = MachineView;

    closed spec fn view(&self) -> MachineView {
        MachineView { frames: frames_view(self.frames@) }
    }
}

impl MachineView {
    /// Whether the machine is in order: it has a frame, every frame has its
    /// instruction pointer in its program or just behind it, and every frame but the
    /// running one has an instruction left, the call that it waits on.
    pub open spec fn wf(self) -> bool {
        &&& self.frames.len() > 0
        &&& forall|i: int| 0 <= i < self.frames.len() ==> (#[trigger] self.frames[i]).in_bounds()
        &&& forall|i: int|
            0 <= i < self.frames.len() - 1 ==> (#[trigger] self.frames[i]).is_running()
    }

    /// The running frame.
    pub open spec fn active(self) -> FrameView
        recommends
            self.frames.len() > 0,
    {
        self.frames.last()
    }

    /// The machine with `frame` in place of the running frame.
    pub open spec fn replaced(self, frame: FrameView) -> MachineView {
        MachineView { frames: self.frames.drop_last().push(frame) }
    }

    /// The machine after the running frame has returned to the frame beneath it.
    pub open spec fn returned(self) -> MachineView
        recommends
            self.frames.len() >= 2,
    {
        let caller = self.frames[self.frames.len() - 2];
        MachineView {
            frames: self.frames.take(self.frames.len() - 2).push(
                caller.received(*self.active().return_value),
            ),
        }
    }

    /// One step of the machine: the machine that follows and what is asked of the
    /// embedding program, or the failure.
    ///
    /// A running frame that has an instruction left executes it; a call puts the
    /// callee on top. A frame that has run to its end returns to the frame beneath
    /// it; the root frame halts the machine.
    pub open spec fn step(self) -> Result<(MachineView, ActionView), VmError>
        recommends
            self.wf(),
    {
        if !self.active().is_running() {
            if self.frames.len() == 1 {
                Ok((self, ActionView::Halt))
            } else {
                Ok((self.returned(), ActionView::Continue))
            }
        } else {
            match self.active().step() {
                Err(e) => Err(e),
                Ok((next, EffectView::Continue)) => Ok((self.replaced(next), ActionView::Continue)),
                Ok((next, EffectView::Float(request))) => Ok(
                    (self.replaced(next), ActionView::Float(request)),
                ),
                Ok((next, EffectView::Print(value))) => Ok(
                    (self.replaced(next), ActionView::Print(value)),
                ),
                Ok((next, EffectView::Call(callee))) => Ok(
                    (
                        MachineView { frames: self.frames.drop_last().push(next).push(callee) },
                        ActionView::Continue,
                    ),
                ),
            }
        }
    }

    /// At most `fuel` steps of the machine, up to the first one that fails or asks
    /// for more than to go on: the machine then, and what that step asked or how it
    /// failed. A failed step leaves the machine as it was before it.
    pub open spec fn run(self, fuel: nat) -> (MachineView, Result<ActionView, VmError>)
        decreases fuel,
    {
        if fuel == 0 {
            (self, Ok(ActionView::Continue))
        } else {
            match self.step() {
                Err(e) => (self, Err(e)),
                Ok((next, ActionView::Continue)) => next.run((fuel - 1) as nat),
                Ok((next, action)) => (next, Ok(action)),
            }
        }
    }

    /// The request that the machine waits on, if it waits on one.
    pub open spec fn awaited(self) -> Option<FloatRequest>
        recommends
            self.frames.len() > 0,
    {
        self.active().awaited()
    }

    /// The machine after the bit pattern that it waited on has come.
    pub open spec fn delivered(self, bits: u32) -> MachineView
        recommends
            self.awaited() is Some,
    {
        self.replaced(self.active().delivered(bits))
    }
}

/// A step of a machine that is in order leaves it in order.
pub proof fn lemma_step_preserves_wf(machine: MachineView)
    requires
        machine.wf(),
        machine.step() is Ok,
    ensures
        machine.step()->Ok_0.0.wf(),
{
    let active = machine.active();
    let after = machine.step()->Ok_0.0;
    if active.is_running() {
        lemma_step_stays_in_bounds(active);
        assert(step_settled(active, active.step()));
        assert forall|i: int| 0 <= i < after.frames.len() implies (
        #[trigger] after.frames[i]).in_bounds() by {
            if i < machine.frames.len() - 1 {
                assert(after.frames[i] == machine.frames[i]);
            }
        }
        assert forall|i: int| 0 <= i < after.frames.len() - 1 implies (
        #[trigger] after.frames[i]).is_running() by {
            if i < machine.frames.len() - 1 {
                assert(after.frames[i] == machine.frames[i]);
            }
        }
    } else if machine.frames.len() > 1 {
        let caller = machine.frames[machine.frames.len() - 2];
        assert(caller.is_running());
        assert forall|i: int| 0 <= i < after.frames.len() implies (
        #[trigger] after.frames[i]).in_bounds() by {
            if i < after.frames.len() - 1 {
                assert(after.frames[i] == machine.frames[i]);
            }
        }
        assert forall|i: int| 0 <= i < after.frames.len() - 1 implies (
        #[trigger] after.frames[i]).is_running() by {
            assert(after.frames[i] == machine.frames[i]);
        }
    }
}

/// A run of a machine that is in order leaves it in order.
pub proof fn lemma_run_preserves_wf(machine: MachineView, fuel: nat)
    requires
        machine.wf(),
    ensures
        machine.run(fuel).0.wf(),
    decreases fuel,
{
    if fuel > 0 {
        match machine.step() {
            Err(_) => {},
            Ok((next, action)) => {
                lemma_step_preserves_wf(machine);
                if action is Continue {
                    lemma_run_preserves_wf(next, (fuel - 1) as nat);
                }
            },
        }
    }
}

/// A run ends with `Continue` only when its fuel has run out, and running on from
/// there is running with the fuel of both runs at once. Otherwise more fuel would
/// have changed nothing.
pub proof fn lemma_run_in_two_parts(machine: MachineView, first: nat, second: nat)
    ensures
        machine.run(first + second) == if machine.run(first).1 == Ok::<ActionView, VmError>(
            ActionView::Continue,
        ) {
            machine.run(first).0.run(second)
        } else {
            machine.run(first)
        },
    decreases first,
{
    if first > 0 {
        match machine.step() {
            Ok((next, ActionView::Continue)) => {
                lemma_run_in_two_parts(next, (first - 1) as nat, second);
                assert((first + second - 1) as nat == (first - 1) as nat + second);
            },
            _ => {},
        }
    }
}

/// A machine whose root frame has run to its end halts, and stays as it is.
pub proof fn lemma_halt_is_final(machine: MachineView, fuel: nat)
    requires
        machine.frames.len() == 1,
        !machine.active().is_running(),
        fuel > 0,
    ensures
        machine.step() == Ok::<(MachineView, ActionView), VmError>((machine, ActionView::Halt)),
        machine.run(fuel) == (machine, Ok::<ActionView, VmError>(ActionView::Halt)),
{
}

/// A delivery to a machine that is in order leaves it in order.
pub proof fn lemma_delivery_preserves_wf(machine: MachineView, bits: u32)
    requires
        machine.wf(),
        machine.awaited() is Some,
    ensures
        machine.delivered(bits).wf(),
{
    let after = machine.delivered(bits);
    assert forall|i: int| 0 <= i < after.frames.len() implies (
        #[trigger] after.frames[i]).in_bounds() by {
        if i < after.frames.len() - 1 {
            assert(after.frames[i] == machine.frames[i]);
        }
    }
    assert forall|i: int| 0 <= i < after.frames.len() - 1 implies (
        #[trigger] after.frames[i]).is_running() by {
        assert(after.frames[i] == machine.frames[i]);
    }
}

/// Whether a method that was to take the step `expected` did so: on success the
/// machine has become the expected one and the action is the expected one, on failure
/// the error is the expected one and the machine is as it was.
pub open spec fn machine_stepped(
    before: MachineView,
    after: MachineView,
    r: Result<Action, VmError>,
    expected: Result<(MachineView, ActionView), VmError>,
) -> bool {
    match expected {
        Ok((next, action)) => r is Ok && r->Ok_0@ == action && after == next,
        Err(e) => r is Err && r->Err_0 == e && after == before,
    }
}

impl Machine {
    /// A machine that is about to run `root`. A root frame whose instruction pointer
    /// lies beyond the end of its program is refused as an invalid operand.
    pub fn new(root: Frame) -> (r: Result<Machine, VmError>)
        ensures
            match r {
                Ok(machine) => root@.in_bounds() && machine@.frames == seq![root@] && machine@.wf(),
                Err(e) => !root@.in_bounds() && e == VmError::InvalidOperand,
            },
    {
        proof {
            lemma_frame_view(&root);
        }
        if root.ip > root.instructions.len() {
            return Err(VmError::InvalidOperand);
        }
        let mut frames: Vec<Frame> = Vec::new();
        frames.push(root);
        let machine = Machine { frames };
        proof {
            assert(machine@.frames =~= seq![root@]);
        }
        Ok(machine)
    }

    /// Whether the machine is in order.
    pub fn is_well_formed(&self) -> (r: bool)
        ensures
            r == self@.wf(),
    {
        let height = self.frames.len();
        if height == 0 {
            return false;
        }
        let mut i: usize = 0;
        while i < height
            invariant
                i <= height,
                height == self.frames.len(),
                forall|j: int| 0 <= j < i ==> (#[trigger] self@.frames[j]).in_bounds(),
                forall|j: int|
                    0 <= j < i && j < height - 1 ==> (#[trigger] self@.frames[j]).is_running(),
            decreases height - i,
        {
            let frame = &self.frames[i];
            proof {
                lemma_frame_view(frame);
                assert(self@.frames[i as int] == frame@);
            }
            let length = frame.instructions.len();
            if frame.ip > length || (i + 1 < height && frame.ip == length) {
                return false;
            }
            i += 1;
        }
        true
    }

    /// The number of frames: one more than the number of calls that have not
    /// returned.
    pub fn height(&self) -> (n: usize)
        ensures
            n == self@.frames.len(),
    {
        self.frames.len()
    }

    /// The running frame.
    pub fn active(&self) -> (frame: &Frame)
        requires
            self@.wf(),
        ensures
            frame@ == self@.active(),
    {
        &self.frames[self.frames.len() - 1]
    }

    /// The root frame.
    pub fn root(&self) -> (frame: &Frame)
        requires
            self@.wf(),
        ensures
            frame@ == self@.frames[0],
    {
        &self.frames[0]
    }

    /// Puts `frame` on top of the frames.
    fn push_frame(&mut self, frame: Frame)
        ensures
            final(self)@.frames == old(self)@.frames.push(frame@),
    {
        self.frames.push(frame);
        proof {
            assert(self@.frames =~= old(self)@.frames.push(frame@));
        }
    }

    /// Takes the running frame off the frames.
    fn pop_frame(&mut self) -> (frame: Frame)
        requires
            old(self)@.frames.len() > 0,
        ensures
            frame@ == old(self)@.active(),
            final(self)@.frames == old(self)@.frames.drop_last(),
    {
        let frame = self.frames.pop().unwrap();
        proof {
            assert(self@.frames =~= old(self)@.frames.drop_last());
        }
        frame
    }

    /// Takes one step.
    pub fn step(&mut self) -> (r: Result<Action, VmError>)
        requires
            old(self)@.wf(),
        ensures
            final(self)@.wf(),
            machine_stepped(old(self)@, final(self)@, r, old(self)@.step()),
    {
        let ghost before = self@;
        proof {
            if before.step() is Ok {
                lemma_step_preserves_wf(before);
            }
        }
        let mut top = self.pop_frame();
        proof {
            lemma_frame_view(&top);
        }
        if top.ip >= top.instructions.len() {
            if self.frames.len() == 0 {
                self.push_frame(top);
                proof {
                    assert(self@.frames =~= before.frames);
                }
                return Ok(Action::Halt);
            }
            let mut caller = self.pop_frame();
            let Frame { return_value, .. } = top;
            caller.receive(*return_value);
            self.push_frame(caller);
            proof {
                assert(self@.frames =~= before.returned().frames);
            }
            return Ok(Action::Continue);
        }
        let effect = top.step();
        self.push_frame(top);
        match effect {
            Err(e) => {
                proof {
                    assert(self@.frames =~= before.frames);
                }
                Err(e)
            },
            Ok(Effect::Continue) => Ok(Action::Continue),
            Ok(Effect::Float(request)) => Ok(Action::Float(request)),
            Ok(Effect::Print(value)) => Ok(Action::Print(value)),
            Ok(Effect::Call(callee)) => {
                self.push_frame(callee);
                Ok(Action::Continue)
            },
        }
    }

    /// Takes steps until one fails or asks for more than to go on, and `fuel` steps
    /// at most. `Continue` then says that the fuel has run out.
    pub fn run(&mut self, fuel: u64) -> (r: Result<Action, VmError>)
        requires
            old(self)@.wf(),
        ensures
            final(self)@.wf(),
            final(self)@ == old(self)@.run(fuel as nat).0,
            action_view(r) == old(self)@.run(fuel as nat).1,
    {
        let mut left: u64 = fuel;
        while left > 0
            invariant
                self@.wf(),
                self@.run(left as nat) == old(self)@.run(fuel as nat),
            decreases left,
        {
            let ghost now = self@;
            assert(now.run(left as nat) == match now.step() {
                Err(e) => (now, Err(e)),
                Ok((next, ActionView::Continue)) => next.run((left - 1) as nat),
                Ok((next, action)) => (next, Ok(action)),
            });
            match self.step() {
                Err(e) => {
                    return Err(e);
                },
                Ok(Action::Continue) => {
                    left -= 1;
                },
                Ok(action) => {
                    return Ok(action);
                },
            }
        }
        Ok(Action::Continue)
    }

    /// The request that the machine waits on, if it waits on one.
    pub fn awaits(&self) -> (r: Option<FloatRequest>)
        requires
            self@.wf(),
        ensures
            r == self@.awaited(),
    {
        self.active().awaits()
    }

    /// Hands the machine the bit pattern of the result that it waits on. A machine
    /// that waits on none refuses it and stays as it is.
    pub fn deliver(&mut self, bits: u32) -> (accepted: bool)
        requires
            old(self)@.wf(),
        ensures
            final(self)@.wf(),
            accepted == (old(self)@.awaited() is Some),
            accepted ==> final(self)@ == old(self)@.delivered(bits),
            !accepted ==> final(self)@ == old(self)@,
    {
        let ghost before = self@;
        let mut top = self.pop_frame();
        let accepted = top.deliver(bits);
        self.push_frame(top);
        proof {
            if accepted {
                lemma_delivery_preserves_wf(before, bits);
            } else {
                assert(self@.frames =~= before.frames);
            }
        }
        accepted
    }
}

} // verus!
