use vstd::prelude::*;
use crate::instruction::Instruction;
use crate::scope::Scope;

verus! {

/// A run-time value.
#[derive(Debug)]
pub enum Value {
    /// A 32-bit signed integer.
    Int(i32),
    /// A truth value.
    Bool(bool),
    /// A single-precision number, held as its IEEE 754 bit pattern.
    Float(u32),
    /// A character string.
    Str(String),
    /// The absence of a value.
    Unit,
    /// A function: a frame that can be called.
    Callable(Frame),
}

/// An execution context: a program together with its run-time state. A frame is also
/// the machine's representation of a function.
#[derive(Debug)]
pub struct Frame {
    /// The program.
    pub instructions: Vec<Instruction>,
    /// The constant pool, which `LoadConst` indexes.
    pub constants: Vec<Value>,
    /// The table of plain names.
    pub names: Vec<String>,
    /// The table of fast names, which also names the parameters of a function.
    pub fast_names: Vec<String>,
    /// The operand stack; its last element is its top.
    pub stack: Vec<Value>,
    /// The instruction pointer: the index of the next instruction, or the length of
    /// the program once the frame has run to its end.
    pub ip: usize,
    /// The global scope.
    pub globals: Scope,
    /// The local scope, which plain names and fast names both address.
    pub locals: Scope,
    /// The return slot: the value that the frame hands to its caller.
    pub return_value: Box<Value>,
    /// The number of calls that this frame is nested in.
    pub depth: usize,
}

/// The mathematical content of a [`Value`].
pub ghost enum ValueView {
    Int(i32),
    Bool(bool),
    Float(u32),
    Str(Seq<char>),
    Unit,
    Callable(FrameView),
}

/// The mathematical content of a [`Frame`].
pub ghost struct FrameView {
    pub instructions: Seq<Instruction>,
    pub constants: Seq<ValueView>,
    pub names: Seq<Seq<char>>,
    pub fast_names: Seq<Seq<char>>,
    pub stack: Seq<ValueView>,
    pub ip: usize,
    pub globals: Map<Seq<char>, ValueView>,
    pub locals: Map<Seq<char>, ValueView>,
    pub return_value: Box<ValueView>,
    pub depth: usize,
}

/// The contents of a sequence of values, element by element.
pub open spec fn values_view(values: Seq<Value>) -> Seq<ValueView>
    decreases values,
{
    if values.len() == 0 {
        Seq::empty()
    } else {
        values_view(values.drop_last()).push(values.last()@)
    }
}

/// The contents of a sequence of strings, element by element.
pub open spec fn names_view(names: Seq<String>) -> Seq<Seq<char>> {
    Seq::new(names.len(), |i: int| names[i]@)
}

impl View for Value {
    type V = ValueView;

    open spec fn view(&self) -> ValueView
        decreases self,
    {
        match self {
            Value::Int(i) => ValueView::Int(*i),
            Value::Bool(b) => ValueView::Bool(*b),
            Value::Float(bits) => ValueView::Float(*bits),
            Value::Str(s) => ValueView::Str(s@),
            Value::Unit => ValueView::Unit,
            Value::Callable(frame) => ValueView::Callable(frame@),
        }
    }
}

impl View for Frame {
    type V = FrameView;

    open spec fn view(&self) -> FrameView
        decreases self,
    {
        FrameView {
            instructions: self.instructions@,
            constants: values_view(self.constants@),
            names: names_view(self.names@),
            fast_names: names_view(self.fast_names@),
            stack: values_view(self.stack@),
            ip: self.ip,
            globals: self.globals@,
            locals: self.locals@,
            return_value: Box::new((*self.return_value)@),
            depth: self.depth,
        }
    }
}

/// The contents of a sequence of values hold, place by place, the contents of its
/// elements.
pub proof fn lemma_values_view(values: Seq<Value>)
    ensures
        values_view(values).len() == values.len(),
        forall|i: int| 0 <= i < values.len() ==> (#[trigger] values_view(values)[i]) == values[i]@,
    decreases values.len(),
{
    if values.len() > 0 {
        assert(values_view(values) == values_view(values.drop_last()).push(values.last()@));
        lemma_values_view(values.drop_last());
    } else {
        assert(values_view(values) == Seq::<ValueView>::empty());
    }
}

/// A copy of a list of instructions.
pub fn copy_instructions(instructions: &Vec<Instruction>) -> (copy: Vec<Instruction>)
    ensures
        copy@ == instructions@,
{
    let mut copy: Vec<Instruction> = Vec::new();
    let mut i: usize = 0;
    while i < instructions.len()
        invariant
            i <= instructions.len(),
            copy@ == instructions@.take(i as int),
        decreases instructions.len() - i,
    {
        copy.push(instructions[i]);
        i += 1;
        assert(copy@ =~= instructions@.take(i as int));
    }
    assert(instructions@.take(i as int) =~= instructions@);
    copy
}

/// A copy of a name table.
pub fn copy_names(names: &Vec<String>) -> (copy: Vec<String>)
    ensures
        names_view(copy@) == names_view(names@),
{
    let mut copy: Vec<String> = Vec::new();
    let mut i: usize = 0;
    while i < names.len()
        invariant
            i <= names.len(),
            copy@.len() == i,
            forall|j: int| 0 <= j < i ==> copy@[j]@ == names@[j]@,
        decreases names.len() - i,
    {
        copy.push(names[i].clone());
        i += 1;
    }
    assert(names_view(copy@) =~= names_view(names@));
    copy
}

/// A deep copy of a list of values.
pub fn copy_values(values: &Vec<Value>) -> (copy: Vec<Value>)
    ensures
        values_view(copy@) == values_view(values@),
    decreases values,
{
    let mut copy: Vec<Value> = Vec::new();
    let mut i: usize = 0;
    while i < values.len()
        invariant
            i <= values.len(),
            copy@.len() == i,
            forall|j: int| 0 <= j < i ==> copy@[j]@ == values@[j]@,
        decreases values.len() - i,
    {
        copy.push(values[i].clone());
        i += 1;
    }
    proof {
        lemma_values_view(copy@);
        lemma_values_view(values@);
        assert(values_view(copy@) =~= values_view(values@));
    }
    copy
}

impl Default for Value {
    /// The absence of a value.
    fn default() -> (value: Value)
        ensures
            value@ == ValueView::Unit,
    {
        Value::Unit
    }
}

impl Clone for Value {
    /// A deep copy: a value with the same content.
    fn clone(&self) -> (copy: Value)
        ensures
            copy@ == self@,
        decreases self,
    {
        match self {
            Value::Int(i) => Value::Int(*i),
            Value::Bool(b) => Value::Bool(*b),
            Value::Float(bits) => Value::Float(*bits),
            Value::Str(s) => Value::Str(s.clone()),
            Value::Unit => Value::Unit,
            Value::Callable(frame) => Value::Callable(frame.clone()),
        }
    }
}

impl Clone for Frame {
    /// A deep copy: a frame with the same program and the same state.
    fn clone(&self) -> (copy: Frame)
        ensures
            copy@ == self@,
        decreases self,
    {
        Frame {
            instructions: copy_instructions(&self.instructions),
            constants: copy_values(&self.constants),
            names: copy_names(&self.names),
            fast_names: copy_names(&self.fast_names),
            stack: copy_values(&self.stack),
            ip: self.ip,
            globals: self.globals.clone(),
            locals: self.locals.clone(),
            return_value: Box::new((*self.return_value).clone()),
            depth: self.depth,
        }
    }
}

} // verus!
