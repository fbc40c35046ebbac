//! The interpreter's stack: operand values, control labels and call frames
//! kept in one sequence.

use vstd::prelude::*;
use crate::vm::address::{FuncAddr, ModuleIndex};
use crate::vm::func::{DefinedFunctionInstance, InstIndex};
use crate::vm::value::{default_value, spec_default_value, Value, ValueType};

verus! {

/// The position of the next instruction to execute.
#[derive(Clone, Copy, Debug, PartialEq, Eq, Structural)]
pub struct ProgramCounter {
    pub func_addr: FuncAddr,
    pub inst_index: InstIndex,
}

impl ProgramCounter {
    pub fn new(func_addr: FuncAddr, inst_index: InstIndex) -> (pc: Self)
        ensures
            pc.func_addr == func_addr,
            pc.inst_index == inst_index,
    {
        ProgramCounter { func_addr, inst_index }
    }

    pub fn func_addr(&self) -> (r: FuncAddr)
        ensures
            r == self.func_addr,
    {
        self.func_addr
    }

    pub fn inst_index(&self) -> (r: InstIndex)
        ensures
            r == self.inst_index,
    {
        self.inst_index
    }

    /// Moves to the next instruction.
    pub fn inc_inst_index(&mut self)
        requires
            old(self).inst_index.0 < u32::MAX,
        ensures
            final(self).func_addr == old(self).func_addr,
            final(self).inst_index.0 == old(self).inst_index.0 + 1,
    {
        self.inst_index = InstIndex(self.inst_index.0 + 1);
    }

    /// Jumps back to the start of a loop.
    pub fn loop_jump(&mut self, start: InstIndex)
        ensures
            final(self).func_addr == old(self).func_addr,
            final(self).inst_index == start,
    {
        self.inst_index = start;
    }
}

/// A control label: where a branch continues and how many values it carries.
#[derive(Clone, Copy, Debug, PartialEq, Eq, Structural)]
pub enum Label {
    Block(usize),
    Loop(InstIndex),
    If(usize),
    Return(usize),
}

impl Label {
    pub open spec fn spec_arity(self) -> usize {
        match self {
            Label::Block(a) => a,
            Label::Loop(_) => 0,
            Label::If(a) => a,
            Label::Return(a) => a,
        }
    }

    /// The number of values a branch to this label carries.
    pub fn arity(&self) -> (r: usize)
        ensures
            r == self.spec_arity(),
    {
        match self {
            Label::Block(a) => *a,
            Label::Loop(_) => 0,
            Label::If(a) => *a,
            Label::Return(a) => *a,
        }
    }
}

/// The activation of a function.
#[derive(Clone, Debug)]
pub struct CallFrame {
    pub module_index: ModuleIndex,
    pub func_addr: FuncAddr,
    pub locals: Vec<Value>,
    pub ret_pc: Option<ProgramCounter>,
}

/// What a call frame holds, as plain values.
pub struct FrameView {
    pub module_index: ModuleIndex,
    pub func_addr: FuncAddr,
    pub locals: Seq<Value>,
    pub ret_pc: Option<ProgramCounter>,
}

impl CallFrame {
    pub open spec fn view(&self) -> FrameView {
        FrameView {
            module_index: self.module_index,
            func_addr: self.func_addr,
            locals: self.locals@,
            ret_pc: self.ret_pc,
        }
    }

    /// The frame of a call to a defined function: the arguments followed by
    /// the zero values of the declared locals.
    pub fn new_from_func(
        func_addr: FuncAddr,
        func: &DefinedFunctionInstance,
        args: Vec<Value>,
        ret_pc: Option<ProgramCounter>,
    ) -> (f: CallFrame)
        requires
            args@.len() + func.spec_locals().len() <= usize::MAX,
        ensures
            f.module_index == func.spec_module_index(),
            f.func_addr == func_addr,
            f.ret_pc == ret_pc,
            f.locals@ == args@ + func.spec_locals().map_values(|t: ValueType| spec_default_value(t)),
    {
        let mut locals = args;
        let ghost first = locals@;
        let types = func.locals();
        let mut i: usize = 0;
        while i < types.len()
            invariant
                i <= types@.len(),
                types@ == func.spec_locals(),
                locals@ == first + types@.subrange(0, i as int).map_values(|t: ValueType| spec_default_value(t)),
                first.len() + types@.len() <= usize::MAX,
            decreases types.len() - i,
        {
            locals.push(default_value(types[i]));
            i = i + 1;
            assert(locals@ =~= first + types@.subrange(0, i as int).map_values(|t: ValueType| spec_default_value(t)));
        }
        assert(types@.subrange(0, types@.len() as int) =~= types@);
        CallFrame { module_index: func.module_index(), func_addr, locals, ret_pc }
    }

    /// The local at an index.
    pub fn local(&self, index: usize) -> (r: Option<Value>)
        ensures
            r == (if index < self.locals@.len() { Some(self.locals@[index as int]) } else { None }),
    {
        if index < self.locals.len() {
            Some(self.locals[index])
        } else {
            None
        }
    }
}

/// An entry of the stack.
#[derive(Clone, Debug)]
pub enum StackValue {
    Value(Value),
    Label(Label),
    Activation(CallFrame),
}

/// An entry of the stack, as plain values.
pub enum Entry {
    Value(Value),
    Label(Label),
    Activation(FrameView),
}

impl StackValue {
    pub open spec fn view(&self) -> Entry {
        match self {
            StackValue::Value(v) => Entry::Value(*v),
            StackValue::Label(l) => Entry::Label(*l),
            StackValue::Activation(f) => Entry::Activation(f.view()),
        }
    }
}

/// Errors of stack operations.
#[derive(Clone, Copy, Debug, PartialEq, Eq, Structural)]
pub enum Error {
    PopEmptyStack,
    MismatchStackValueType,
    NoCallFrame,
    LocalOutOfBounds(usize),
}

/// The position of the innermost activation, or -1 when there is none.
pub open spec fn last_frame_pos(s: Seq<Entry>) -> int
    decreases s.len(),
{
    if s.len() == 0 {
        -1
    } else if s.last() is Activation {
        s.len() - 1
    } else {
        last_frame_pos(s.drop_last())
    }
}

/// The labels of a sequence of entries, in order.
pub open spec fn labels_of(s: Seq<Entry>) -> Seq<Label>
    decreases s.len(),
{
    if s.len() == 0 {
        Seq::empty()
    } else {
        match s.last() {
            Entry::Label(l) => labels_of(s.drop_last()).push(l),
            _ => labels_of(s.drop_last()),
        }
    }
}

/// The values of a sequence of entries, in order.
pub open spec fn values_of(s: Seq<Entry>) -> Seq<Value>
    decreases s.len(),
{
    if s.len() == 0 {
        Seq::empty()
    } else {
        match s.last() {
            Entry::Value(v) => values_of(s.drop_last()).push(v),
            _ => values_of(s.drop_last()),
        }
    }
}

/// The activations of a sequence of entries, in order.
pub open spec fn frames_of(s: Seq<Entry>) -> Seq<FrameView>
    decreases s.len(),
{
    if s.len() == 0 {
        Seq::empty()
    } else {
        match s.last() {
            Entry::Activation(f) => frames_of(s.drop_last()).push(f),
            _ => frames_of(s.drop_last()),
        }
    }
}

/// The entries above the innermost activation.
pub open spec fn frame_top(s: Seq<Entry>) -> Seq<Entry> {
    s.subrange(last_frame_pos(s) + 1, s.len() as int)
}

/// The number of trailing values: how many entries from the top are values.
pub open spec fn trailing_values(s: Seq<Entry>) -> nat
    decreases s.len(),
{
    if s.len() == 0 {
        0
    } else if s.last() is Value {
        1 + trailing_values(s.drop_last())
    } else {
        0
    }
}

/// The number of trailing entries that are not activations.
pub open spec fn trailing_non_frames(s: Seq<Entry>) -> nat
    decreases s.len(),
{
    if s.len() == 0 {
        0
    } else if s.last() is Activation {
        0
    } else {
        1 + trailing_non_frames(s.drop_last())
    }
}

pub proof fn lemma_trailing_bounds_pub(s: Seq<Entry>)
    ensures
        trailing_values(s) <= s.len(),
        trailing_non_frames(s) <= s.len(),
        trailing_non_frames(s) == s.len() - 1 - last_frame_pos(s),
{
    lemma_trailing_bounds(s);
}

pub proof fn lemma_last_frame_pos_bounds(s: Seq<Entry>)
    ensures
        -1 <= last_frame_pos(s) < s.len(),
        last_frame_pos(s) >= 0 ==> s[last_frame_pos(s)] is Activation,
        forall|i: int| last_frame_pos(s) < i < s.len() ==> !(s[i] is Activation),
    decreases s.len(),
{
    if s.len() > 0 && !(s.last() is Activation) {
        let t = s.drop_last();
        lemma_last_frame_pos_bounds(t);
        assert forall|i: int| last_frame_pos(s) < i < s.len() implies !(s[i] is Activation) by {
            if i < s.len() - 1 {
                assert(s[i] == t[i]);
            }
        }
    }
}

proof fn lemma_trailing_bounds(s: Seq<Entry>)
    ensures
        trailing_values(s) <= s.len(),
        trailing_non_frames(s) <= s.len(),
        trailing_non_frames(s) == s.len() - 1 - last_frame_pos(s),
    decreases s.len(),
{
    if s.len() > 0 {
        lemma_trailing_bounds(s.drop_last());
    }
}

/// The operand, label and frame stack of the interpreter.
pub struct Stack {
    stack: Vec<StackValue>,
}

impl View for Stack {
    type V = Seq<Entry>;

    closed spec fn view(&self) -> Seq<Entry> {
        self.stack@.map_values(|e: StackValue| e.view())
    }
}

impl Stack {
    /// The empty stack.
    pub fn new() -> (s: Self)
        ensures
            s@ == Seq::<Entry>::empty(),
    {
        let s = Stack { stack: Vec::new() };
        assert(s@ =~= Seq::<Entry>::empty());
        s
    }

    /// The number of entries.
    pub fn len(&self) -> (n: usize)
        ensures
            n == self@.len(),
    {
        self.stack.len()
    }

    pub fn push_value(&mut self, v: Value)
        ensures
            final(self)@ == old(self)@.push(Entry::Value(v)),
    {
        self.stack.push(StackValue::Value(v));
        assert(self@ =~= old(self)@.push(Entry::Value(v)));
    }

    pub fn push_label(&mut self, l: Label)
        ensures
            final(self)@ == old(self)@.push(Entry::Label(l)),
    {
        self.stack.push(StackValue::Label(l));
        assert(self@ =~= old(self)@.push(Entry::Label(l)));
    }

    /// Enters a call frame.
    pub fn set_frame(&mut self, frame: CallFrame)
        ensures
            final(self)@ == old(self)@.push(Entry::Activation(frame.view())),
    {
        let ghost fv = frame.view();
        self.stack.push(StackValue::Activation(frame));
        assert(self@ =~= old(self)@.push(Entry::Activation(fv)));
    }

    /// Pops the top entry, which must be a value.
    pub fn pop_value(&mut self) -> (r: Result<Value, Error>)
        ensures
            match r {
                Ok(v) => old(self)@.len() > 0 && old(self)@.last() == Entry::Value(v)
                    && final(self)@ == old(self)@.drop_last(),
                Err(e) => final(self)@ == old(self)@ && (
                    if old(self)@.len() == 0 {
                        e == Error::PopEmptyStack
                    } else {
                        !(old(self)@.last() is Value) && e == Error::MismatchStackValueType
                    }),
            },
    {
        let n = self.stack.len();
        if n == 0 {
            return Err(Error::PopEmptyStack);
        }
        match &self.stack[n - 1] {
            StackValue::Value(v) => {
                let v = *v;
                self.stack.pop();
                assert(self@ =~= old(self)@.drop_last());
                Ok(v)
            },
            _ => Err(Error::MismatchStackValueType),
        }
    }

    /// Pops the top entry, which must be a label.
    pub fn pop_label(&mut self) -> (r: Result<Label, Error>)
        ensures
            match r {
                Ok(l) => old(self)@.len() > 0 && old(self)@.last() == Entry::Label(l)
                    && final(self)@ == old(self)@.drop_last(),
                Err(e) => final(self)@ == old(self)@ && (
                    if old(self)@.len() == 0 {
                        e == Error::PopEmptyStack
                    } else {
                        !(old(self)@.last() is Label) && e == Error::MismatchStackValueType
                    }),
            },
    {
        let n = self.stack.len();
        if n == 0 {
            return Err(Error::PopEmptyStack);
        }
        match &self.stack[n - 1] {
            StackValue::Label(l) => {
                let l = *l;
                self.stack.pop();
                assert(self@ =~= old(self)@.drop_last());
                Ok(l)
            },
            _ => Err(Error::MismatchStackValueType),
        }
    }

    /// Pops the top entry, which must be an activation.
    pub fn pop_frame(&mut self) -> (r: Result<CallFrame, Error>)
        ensures
            match r {
                Ok(f) => old(self)@.len() > 0 && old(self)@.last() == Entry::Activation(f.view())
                    && final(self)@ == old(self)@.drop_last(),
                Err(e) => final(self)@ == old(self)@ && (
                    if old(self)@.len() == 0 {
                        e == Error::PopEmptyStack
                    } else {
                        !(old(self)@.last() is Activation) && e == Error::MismatchStackValueType
                    }),
            },
    {
        let n = self.stack.len();
        if n == 0 {
            return Err(Error::PopEmptyStack);
        }
        let is_frame = match &self.stack[n - 1] {
            StackValue::Activation(_) => true,
            _ => false,
        };
        if !is_frame {
            return Err(Error::MismatchStackValueType);
        }
        let top = self.stack.pop();
        assert(self@ =~= old(self)@.drop_last());
        match top {
            Some(StackValue::Activation(f)) => Ok(f),
            _ => Err(Error::MismatchStackValueType),
        }
    }

    /// The position of the innermost call frame.
    pub fn current_frame_index(&self) -> (r: Result<usize, Error>)
        ensures
            match r {
                Ok(i) => i == last_frame_pos(self@),
                Err(e) => last_frame_pos(self@) == -1 && e == Error::NoCallFrame,
            },
    {
        let mut i: usize = self.stack.len();
        assert(self@.subrange(0, i as int) =~= self@);
        while i > 0
            invariant
                i <= self@.len(),
                last_frame_pos(self@) == last_frame_pos(self@.subrange(0, i as int)),
            decreases i,
        {
            let is_frame = match &self.stack[i - 1] {
                StackValue::Activation(_) => true,
                _ => false,
            };
            assert(self@.subrange(0, i as int).drop_last() =~= self@.subrange(0, i - 1));
            if is_frame {
                return Ok(i - 1);
            }
            i = i - 1;
        }
        Err(Error::NoCallFrame)
    }

    /// The innermost call frame.
    pub fn current_frame(&self) -> (r: Result<&CallFrame, Error>)
        ensures
            match r {
                Ok(f) => last_frame_pos(self@) >= 0
                    && self@[last_frame_pos(self@)] == Entry::Activation(f.view()),
                Err(e) => last_frame_pos(self@) == -1 && e == Error::NoCallFrame,
            },
    {
        let i = self.current_frame_index()?;
        proof { lemma_last_frame_pos_bounds(self@); }
        match &self.stack[i] {
            StackValue::Activation(f) => Ok(f),
            _ => Err(Error::NoCallFrame),
        }
    }

    /// The labels of the innermost call frame, outermost first.
    pub fn current_frame_labels(&self) -> (r: Result<Vec<Label>, Error>)
        ensures
            match r {
                Ok(ls) => last_frame_pos(self@) >= 0 && ls@ == labels_of(frame_top(self@)),
                Err(e) => last_frame_pos(self@) == -1 && e == Error::NoCallFrame,
            },
    {
        proof {
            lemma_last_frame_pos_bounds(self@);
            assert(self@.len() == self.stack@.len());
        }
        let _n = self.stack.len();
        let start = self.current_frame_index()?;
        let mut labels: Vec<Label> = Vec::new();
        let mut i: usize = start + 1;
        while i < self.stack.len()
            invariant
                start + 1 <= i <= self@.len(),
                start == last_frame_pos(self@),
                labels@ == labels_of(self@.subrange(start + 1, i as int)),
            decreases self@.len() - i,
        {
            assert(self@.subrange(start + 1, i + 1).drop_last() =~= self@.subrange(start + 1, i as int));
            match &self.stack[i] {
                StackValue::Label(l) => labels.push(*l),
                _ => {},
            }
            i = i + 1;
        }
        Ok(labels)
    }

    /// Whether the innermost frame has only its function label left.
    pub fn is_func_top_level(&self) -> (r: Result<bool, Error>)
        ensures
            match r {
                Ok(b) => last_frame_pos(self@) >= 0 && b == (labels_of(frame_top(self@)).len() == 1),
                Err(e) => last_frame_pos(self@) == -1 && e == Error::NoCallFrame,
            },
    {
        let labels = self.current_frame_labels()?;
        Ok(labels.len() == 1)
    }

    /// Whether every call frame has returned.
    pub fn is_over_top_level(&self) -> (r: bool)
        ensures
            r == (last_frame_pos(self@) == -1),
    {
        match self.current_frame_index() {
            Ok(_) => false,
            Err(_) => true,
        }
    }

    /// Pops the values on top of the stack, down to the first entry that is
    /// not a value; returns them topmost first.
    pub fn pop_values_to_label(&mut self) -> (r: Vec<Value>)
        ensures
            final(self)@ == old(self)@.subrange(0, old(self)@.len() - trailing_values(old(self)@)),
            r@.len() == trailing_values(old(self)@),
            forall|k: int| 0 <= k < r@.len() ==> old(self)@[old(self)@.len() - 1 - k]
                == Entry::Value(#[trigger] r@[k]),
    {
        let mut popped: Vec<Value> = Vec::new();
        proof { lemma_trailing_bounds(old(self)@); }
        loop
            invariant
                self@ == old(self)@.subrange(0, self@.len() as int),
                popped@.len() + self@.len() == old(self)@.len(),
                trailing_values(old(self)@) == popped@.len() + trailing_values(self@),
                forall|k: int| 0 <= k < popped@.len() ==> old(self)@[old(self)@.len() - 1 - k]
                    == Entry::Value(#[trigger] popped@[k]),
            ensures
                trailing_values(self@) == 0,
                self@ == old(self)@.subrange(0, self@.len() as int),
                popped@.len() + self@.len() == old(self)@.len(),
                trailing_values(old(self)@) == popped@.len(),
                forall|k: int| 0 <= k < popped@.len() ==> old(self)@[old(self)@.len() - 1 - k]
                    == Entry::Value(#[trigger] popped@[k]),
            decreases self@.len(),
        {
            let n = self.stack.len();
            if n == 0 {
                break;
            }
            let top = match &self.stack[n - 1] {
                StackValue::Value(v) => Some(*v),
                _ => None,
            };
            let ghost prev = self@;
            match top {
                Some(v) => {
                    self.stack.pop();
                    assert(prev.drop_last() =~= self@);
                    assert(self@ =~= old(self)@.subrange(0, self@.len() as int));
                    popped.push(v);
                },
                None => {
                    break;
                },
            }
        }
        popped
    }

    /// Pops every entry above the innermost activation.
    pub fn pop_to_frame(&mut self)
        ensures
            final(self)@ == old(self)@.subrange(0, last_frame_pos(old(self)@) + 1),
    {
        proof {
            lemma_trailing_bounds(old(self)@);
            lemma_last_frame_pos_bounds(old(self)@);
        }
        loop
            invariant
                self@ == old(self)@.subrange(0, self@.len() as int),
                self@.len() <= old(self)@.len(),
                self@.len() >= last_frame_pos(old(self)@) + 1,
                last_frame_pos(self@) == last_frame_pos(old(self)@),
            ensures
                self@ == old(self)@.subrange(0, last_frame_pos(old(self)@) + 1),
            decreases self@.len(),
        {
            let n = self.stack.len();
            if n == 0 {
                proof { assert(self@ =~= old(self)@.subrange(0, 0)); }
                break;
            }
            let is_frame = match &self.stack[n - 1] {
                StackValue::Activation(_) => true,
                _ => false,
            };
            if is_frame {
                break;
            }
            let ghost prev = self@;
            proof { lemma_last_frame_pos_bounds(prev); }
            self.stack.pop();
            assert(prev.drop_last() =~= self@);
            assert(old(self)@.subrange(0, prev.len() as int).drop_last()
                =~= old(self)@.subrange(0, prev.len() - 1));
        }
    }

    /// Sets a local of the innermost call frame.
    pub fn set_local(&mut self, index: usize, value: Value) -> (r: Result<(), Error>)
        ensures
            match r {
                Ok(_) => {
                    let p = last_frame_pos(old(self)@);
                    &&& p >= 0
                    &&& old(self)@[p] matches Entry::Activation(f)
                    &&& index < f.locals.len()
                    &&& final(self)@ == old(self)@.update(p, Entry::Activation(FrameView {
                        locals: f.locals.update(index as int, value),
                        ..f
                    }))
                },
                Err(e) => final(self)@ == old(self)@ && (
                    if last_frame_pos(old(self)@) == -1 {
                        e == Error::NoCallFrame
                    } else {
                        old(self)@[last_frame_pos(old(self)@)] matches Entry::Activation(f)
                        && index >= f.locals.len() && e == Error::LocalOutOfBounds(index)
                    }),
            },
    {
        let p = self.current_frame_index()?;
        proof { lemma_last_frame_pos_bounds(self@); }
        let mut entry = StackValue::Value(Value::I32(0));
        self.stack.set_and_swap(p, &mut entry);
        match entry {
            StackValue::Activation(mut frame) => {
                if index < frame.locals.len() {
                    frame.locals.set(index, value);
                    let mut back = StackValue::Activation(frame);
                    self.stack.set_and_swap(p, &mut back);
                    assert(self@ =~= old(self)@.update(p as int, self@[p as int]));
                    Ok(())
                } else {
                    let mut back = StackValue::Activation(frame);
                    self.stack.set_and_swap(p, &mut back);
                    assert(self@ =~= old(self)@);
                    Err(Error::LocalOutOfBounds(index))
                }
            },
            other => {
                let mut back = other;
                self.stack.set_and_swap(p, &mut back);
                assert(self@ =~= old(self)@);
                Err(Error::NoCallFrame)
            },
        }
    }

    /// The values above the innermost call frame, bottom first.
    pub fn peek_values(&self) -> (r: Vec<Value>)
        ensures
            r@ == values_of(frame_top(self@)),
    {
        proof {
            lemma_last_frame_pos_bounds(self@);
            assert(self@.len() == self.stack@.len());
        }
        let _n = self.stack.len();
        let start: usize = match self.current_frame_index() {
            Ok(i) => i + 1,
            Err(_) => 0,
        };
        let mut values: Vec<Value> = Vec::new();
        let mut i: usize = start;
        while i < self.stack.len()
            invariant
                start <= i <= self@.len(),
                start == last_frame_pos(self@) + 1,
                values@ == values_of(self@.subrange(start as int, i as int)),
            decreases self@.len() - i,
        {
            assert(self@.subrange(start as int, i + 1).drop_last() =~= self@.subrange(start as int, i as int));
            match &self.stack[i] {
                StackValue::Value(v) => values.push(*v),
                _ => {},
            }
            i = i + 1;
        }
        values
    }

    /// The function address of every call frame, outermost first.
    pub fn peek_frames(&self) -> (r: Vec<FuncAddr>)
        ensures
            r@ == frames_of(self@).map_values(|f: FrameView| f.func_addr),
    {
        let mut addrs: Vec<FuncAddr> = Vec::new();
        let mut i: usize = 0;
        while i < self.stack.len()
            invariant
                i <= self@.len(),
                addrs@ == frames_of(self@.subrange(0, i as int)).map_values(|f: FrameView| f.func_addr),
            decreases self@.len() - i,
        {
            assert(self@.subrange(0, i + 1).drop_last() =~= self@.subrange(0, i as int));
            match &self.stack[i] {
                StackValue::Activation(f) => addrs.push(f.func_addr),
                _ => {},
            }
            i = i + 1;
            assert(addrs@ =~= frames_of(self@.subrange(0, i as int)).map_values(|f: FrameView| f.func_addr));
        }
        assert(self@.subrange(0, self@.len() as int) =~= self@);
        addrs
    }
}

} // verus!
